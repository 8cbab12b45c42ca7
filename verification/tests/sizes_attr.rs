//! Tests of `sizes` attribute parsing: splitting on `x` and reading the
//! first two unsigned integers.

use icon_scraper::sizes::{parse_sizes, parse_u32_bytes};

#[test]
fn sizes_well_formed_pair() {
    assert_eq!(parse_sizes(&b"32x32".to_vec()), (Some(32), Some(32)));
    assert_eq!(parse_sizes(&b"16x9".to_vec()), (Some(16), Some(9)));
}

#[test]
fn sizes_empty_or_single_piece_declares_nothing() {
    assert_eq!(parse_sizes(&b"".to_vec()), (None, None));
    assert_eq!(parse_sizes(&b"32".to_vec()), (None, None));
    assert_eq!(parse_sizes(&b"any".to_vec()), (None, None));
}

#[test]
fn sizes_parses_only_the_first_two_pieces() {
    assert_eq!(parse_sizes(&b"10x20x30".to_vec()), (Some(10), Some(20)));
    // The first two pieces themselves must parse; later good pieces do not
    // rescue a malformed value.
    assert_eq!(parse_sizes(&b"ax2x3".to_vec()), (None, None));
    assert_eq!(parse_sizes(&b"axbx16x9".to_vec()), (None, None));
}

#[test]
fn sizes_with_one_bad_piece_declares_nothing() {
    assert_eq!(parse_sizes(&b"32xbig".to_vec()), (None, None));
    assert_eq!(parse_sizes(&b"4294967296x2".to_vec()), (None, None));
}

#[test]
fn sizes_accepts_a_leading_plus() {
    assert_eq!(parse_sizes(&b"+5x+6".to_vec()), (Some(5), Some(6)));
}

#[test]
fn u32_pieces_parse_like_the_standard_library() {
    assert_eq!(parse_u32_bytes(&b"0032".to_vec()), Some(32));
    assert_eq!(parse_u32_bytes(&b"+7".to_vec()), Some(7));
    assert_eq!(parse_u32_bytes(&b"4294967295".to_vec()), Some(u32::MAX));
    assert_eq!(parse_u32_bytes(&b"4294967296".to_vec()), None);
    assert_eq!(parse_u32_bytes(&b"".to_vec()), None);
    assert_eq!(parse_u32_bytes(&b"+".to_vec()), None);
    assert_eq!(parse_u32_bytes(&b"1 2".to_vec()), None);
    assert_eq!(parse_u32_bytes(&b"-1".to_vec()), None);
}
