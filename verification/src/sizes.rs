//! Parsing of the `sizes` attribute of an icon link.
//!
//! The attribute text is split on the literal byte `x`, and the first two
//! pieces are parsed as unsigned integers (an optional leading `+`, then
//! decimal digits). Only when both parse do they give the declared width and
//! height; otherwise no size is declared at all: an icon never carries only
//! a width or only a height.

use vstd::prelude::*;

verus! {

/// The separator between the width and the height: the byte `x`.
pub const SIZE_SEPARATOR: u8 = 120;

/// Whether a byte is an ASCII decimal digit.
pub open spec fn is_digit(b: u8) -> bool {
    48 <= b <= 57
}

/// Whether every byte of the sequence is an ASCII decimal digit.
pub open spec fn all_digits(s: Seq<u8>) -> bool {
    forall|i: int| 0 <= i < s.len() ==> is_digit(#[trigger] s[i])
}

/// The value of a sequence of ASCII decimal digits.
pub open spec fn digits_value(s: Seq<u8>) -> nat
    decreases s.len(),
{
    if s.len() == 0 {
        0
    } else {
        digits_value(s.drop_last()) * 10 + (s.last() - 48) as nat
    }
}

/// What parsing a piece as an unsigned 32-bit integer yields: an optional
/// leading `+`, then at least one decimal digit, and a value within range;
/// anything else fails.
pub open spec fn spec_parse_u32(s: Seq<u8>) -> Option<u32> {
    let d = if s.len() >= 1 && s[0] == 43 {
        s.drop_first()
    } else {
        s
    };
    if d.len() >= 1 && all_digits(d) && digits_value(d) <= u32::MAX {
        Some(digits_value(d) as u32)
    } else {
        None
    }
}

/// Splitting a byte sequence on a separator: the pieces between separators,
/// in order, with an empty piece between adjacent separators and at either
/// end. An empty input has exactly one empty piece.
pub open spec fn split_on(s: Seq<u8>, sep: u8) -> Seq<Seq<u8>>
    decreases s.len(),
{
    if s.len() == 0 {
        seq![Seq::<u8>::empty()]
    } else if s[0] == sep {
        seq![Seq::<u8>::empty()] + split_on(s.drop_first(), sep)
    } else {
        let rest = split_on(s.drop_first(), sep);
        seq![seq![s[0]] + rest[0]] + rest.drop_first()
    }
}

/// A split always yields at least one piece.
pub proof fn lemma_split_on_len(s: Seq<u8>, sep: u8)
    ensures
        split_on(s, sep).len() >= 1,
    decreases s.len(),
{
    if s.len() == 0 {
    } else if s[0] == sep {
        lemma_split_on_len(s.drop_first(), sep);
    } else {
        lemma_split_on_len(s.drop_first(), sep);
    }
}

/// The declared width and height that a `sizes` attribute text yields: its
/// first two `x`-separated pieces, when both parse as integers; nothing at
/// all otherwise (fewer than two pieces, or either of the first two failing
/// to parse).
pub open spec fn spec_sizes(s: Seq<u8>) -> (Option<u32>, Option<u32>) {
    let parts = split_on(s, SIZE_SEPARATOR);
    if parts.len() >= 2 {
        match (spec_parse_u32(parts[0]), spec_parse_u32(parts[1])) {
            (Some(w), Some(h)) => (Some(w), Some(h)),
            _ => (None, None),
        }
    } else {
        (None, None)
    }
}

/// A missing `sizes` attribute is read as empty text, which declares no
/// size: it splits into a single piece.
pub proof fn lemma_sizes_empty()
    ensures
        spec_sizes(Seq::<u8>::empty()) == (None::<u32>, None::<u32>),
{
    assert(split_on(Seq::<u8>::empty(), SIZE_SEPARATOR) == seq![Seq::<u8>::empty()]);
}

/// The value of a digit prefix never exceeds the value of the whole digit
/// sequence.
proof fn lemma_digits_prefix_le(s: Seq<u8>, i: int)
    requires
        all_digits(s),
        0 <= i <= s.len(),
    ensures
        digits_value(s.take(i)) <= digits_value(s),
    decreases s.len(),
{
    if i == s.len() {
        assert(s.take(i) =~= s);
    } else {
        assert(s.drop_last().take(i) =~= s.take(i));
        lemma_digits_prefix_le(s.drop_last(), i);
        assert(digits_value(s) == digits_value(s.drop_last()) * 10 + (s.last() - 48));
        assert(digits_value(s.drop_last()) * 10 >= digits_value(s.drop_last())) by (nonlinear_arith);
    }
}

/// Extending a digit sequence by one digit multiplies its value by ten and
/// adds the digit.
proof fn lemma_digits_value_step(s: Seq<u8>, i: int)
    requires
        0 <= i < s.len(),
        is_digit(s[i]),
    ensures
        digits_value(s.take(i + 1)) == digits_value(s.take(i)) * 10 + (s[i] - 48),
{
    assert(s.take(i + 1).drop_last() =~= s.take(i));
    assert(s.take(i + 1).last() == s[i]);
}

/// Parses a piece as an unsigned 32-bit integer: an optional leading `+`,
/// then at least one decimal digit, rejecting values out of range.
pub fn parse_u32_bytes(s: &Vec<u8>) -> (r: Option<u32>)
    ensures
        r == spec_parse_u32(s@),
{
    let start: usize = if s.len() >= 1 && s[0] == 43 {
        1
    } else {
        0
    };
    let ghost d: Seq<u8> = s@.skip(start as int);
    proof {
        if start == 1 {
            assert(d =~= s@.drop_first());
        } else {
            assert(d =~= s@);
        }
    }
    if s.len() == start {
        proof {
            assert(d.len() == 0);
        }
        return None;
    }
    let mut acc: u64 = 0;
    let mut i: usize = start;
    while i < s.len()
        invariant
            start <= i <= s@.len(),
            d == s@.skip(start as int),
            start <= 1,
            d.len() == s@.len() - start,
            all_digits(d.take(i - start)),
            acc == digits_value(d.take(i - start)),
            acc <= u32::MAX,
            spec_parse_u32(s@) == (if d.len() >= 1 && all_digits(d) && digits_value(d)
                <= u32::MAX {
                Some(digits_value(d) as u32)
            } else {
                None::<u32>
            }),
        decreases s@.len() - i,
    {
        let b = s[i];
        proof {
            assert(d[i - start] == s@[i as int]);
        }
        if !(48 <= b && b <= 57) {
            proof {
                assert(!is_digit(d[i - start]));
                assert(!all_digits(d));
            }
            return None;
        }
        proof {
            lemma_digits_value_step(d, i - start);
            assert(all_digits(d.take(i - start + 1)));
        }
        acc = acc * 10 + ((b - 48) as u64);
        i += 1;
        if acc > 0xffff_ffff {
            proof {
                if all_digits(d) {
                    lemma_digits_prefix_le(d, i - start);
                }
            }
            return None;
        }
    }
    proof {
        assert(d.take(i - start) =~= d);
    }
    Some(acc as u32)
}

/// The first piece of a split, extended in front by a prefix, followed by
/// the remaining pieces.
pub open spec fn shift_first(prefix: Seq<u8>, parts: Seq<Seq<u8>>) -> Seq<Seq<u8>> {
    seq![prefix + parts[0]] + parts.drop_first()
}

/// Splits a byte sequence on a separator byte.
pub fn split_bytes(s: &Vec<u8>, sep: u8) -> (r: Vec<Vec<u8>>)
    ensures
        r@.map_values(|t: Vec<u8>| t@) == split_on(s@, sep),
{
    let mut done: Vec<Vec<u8>> = Vec::new();
    let mut cur: Vec<u8> = Vec::new();
    let mut i: usize = 0;
    proof {
        lemma_split_on_len(s@, sep);
        assert(s@.skip(0) =~= s@);
        assert(shift_first(cur@, split_on(s@, sep)) =~= split_on(s@, sep)) by {
            assert(cur@ + split_on(s@, sep)[0] =~= split_on(s@, sep)[0]);
        }
        assert(done@.map_values(|t: Vec<u8>| t@) + shift_first(cur@, split_on(s@, sep))
            =~= shift_first(cur@, split_on(s@, sep)));
    }
    while i < s.len()
        invariant
            0 <= i <= s@.len(),
            split_on(s@, sep) == done@.map_values(|t: Vec<u8>| t@) + shift_first(
                cur@,
                split_on(s@.skip(i as int), sep),
            ),
        decreases s@.len() - i,
    {
        let ghost tail = s@.skip(i as int);
        let ghost tail1 = s@.skip(i as int + 1);
        proof {
            assert(tail.len() > 0);
            assert(tail[0] == s@[i as int]);
            assert(tail.drop_first() =~= tail1);
            lemma_split_on_len(tail1, sep);
        }
        let b = s[i];
        if b == sep {
            proof {
                assert(split_on(tail, sep) == seq![Seq::<u8>::empty()] + split_on(tail1, sep));
                assert(shift_first(cur@, split_on(tail, sep)) =~= seq![cur@] + shift_first(
                    Seq::empty(),
                    split_on(tail1, sep),
                )) by {
                    assert((seq![Seq::<u8>::empty()] + split_on(tail1, sep))[0]
                        =~= Seq::<u8>::empty());
                    assert(cur@ + Seq::<u8>::empty() =~= cur@);
                    assert((seq![Seq::<u8>::empty()] + split_on(tail1, sep)).drop_first()
                        =~= split_on(tail1, sep));
                    assert(Seq::<u8>::empty() + split_on(tail1, sep)[0] =~= split_on(
                        tail1,
                        sep,
                    )[0]);
                }
            }
            let finished = cur;
            cur = Vec::new();
            done.push(finished);
            proof {
                assert(done@.map_values(|t: Vec<u8>| t@) =~= done@.drop_last().map_values(
                    |t: Vec<u8>| t@,
                ).push(finished@));
                assert(split_on(s@, sep) =~= done@.map_values(|t: Vec<u8>| t@) + shift_first(
                    cur@,
                    split_on(tail1, sep),
                ));
            }
        } else {
            proof {
                let rest = split_on(tail1, sep);
                assert(split_on(tail, sep) == seq![seq![tail[0]] + rest[0]] + rest.drop_first());
                assert(shift_first(cur@, split_on(tail, sep)) =~= shift_first(
                    cur@.push(b),
                    rest,
                )) by {
                    assert((seq![seq![tail[0]] + rest[0]] + rest.drop_first())[0] == seq![tail[0]]
                        + rest[0]);
                    assert(cur@ + (seq![tail[0]] + rest[0]) =~= cur@.push(b) + rest[0]);
                    assert((seq![seq![tail[0]] + rest[0]] + rest.drop_first()).drop_first()
                        =~= rest.drop_first());
                }
            }
            cur.push(b);
        }
        i += 1;
    }
    proof {
        assert(s@.skip(i as int) =~= Seq::<u8>::empty());
        assert(split_on(s@.skip(i as int), sep) == seq![Seq::<u8>::empty()]);
        assert(shift_first(cur@, seq![Seq::<u8>::empty()]) =~= seq![cur@]) by {
            assert(cur@ + Seq::<u8>::empty() =~= cur@);
            assert(seq![cur@ + Seq::<u8>::empty()].drop_first() =~= Seq::<Seq<u8>>::empty());
        }
    }
    let last = cur;
    done.push(last);
    proof {
        assert(done@.map_values(|t: Vec<u8>| t@) =~= done@.drop_last().map_values(
            |t: Vec<u8>| t@,
        ).push(last@));
        assert(done@.map_values(|t: Vec<u8>| t@) =~= split_on(s@, sep));
    }
    done
}

/// Reads a `sizes` attribute text: splits on `x` and parses the first two
/// pieces; only when both parse do they declare the width and the height.
pub fn parse_sizes(sizes: &Vec<u8>) -> (r: (Option<u32>, Option<u32>))
    ensures
        r == spec_sizes(sizes@),
{
    let parts = split_bytes(sizes, SIZE_SEPARATOR);
    if parts.len() < 2 {
        return (None, None);
    }
    proof {
        assert(parts@.map_values(|t: Vec<u8>| t@)[0] == parts@[0]@);
        assert(parts@.map_values(|t: Vec<u8>| t@)[1] == parts@[1]@);
    }
    let w = parse_u32_bytes(&parts[0]);
    let h = parse_u32_bytes(&parts[1]);
    match (w, h) {
        (Some(wv), Some(hv)) => (Some(wv), Some(hv)),
        _ => (None, None),
    }
}

} // verus!
