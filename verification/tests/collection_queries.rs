//! Tests of the size-sorted collection and its queries.

use icon_scraper::{Icon, IconCollection, ResolveError};

fn sized_icon(url: &str, w: u32, h: u32) -> Icon {
    Icon {
        url: url.to_string(),
        raw: None,
        mime_type: None,
        width: Some(w),
        height: Some(h),
    }
}

/// The smallest well-formed GIF: one transparent pixel.
fn one_pixel_gif() -> Vec<u8> {
    vec![
        0x47, 0x49, 0x46, 0x38, 0x39, 0x61, 0x01, 0x00, 0x01, 0x00, 0x80, 0x00, 0x00, 0x00, 0x00,
        0x00, 0xff, 0xff, 0xff, 0x21, 0xf9, 0x04, 0x01, 0x00, 0x00, 0x00, 0x00, 0x2c, 0x00, 0x00,
        0x00, 0x00, 0x01, 0x00, 0x01, 0x00, 0x00, 0x02, 0x02, 0x44, 0x01, 0x00, 0x3b,
    ]
}

#[test]
fn at_least_returns_first_qualifying_in_area_order() {
    let icons = vec![
        sized_icon("http://example.com/512.png", 512, 512),
        sized_icon("http://example.com/16.png", 16, 16),
        sized_icon("http://example.com/32.png", 32, 32),
    ];
    let c = IconCollection::from_raw(icons);
    let best = c.at_least(48, 48).unwrap();
    assert_eq!(best.url, "http://example.com/512.png");
}

#[test]
fn at_least_picks_the_smallest_adequate_icon() {
    let icons = vec![
        sized_icon("http://example.com/512.png", 512, 512),
        sized_icon("http://example.com/16.png", 16, 16),
        sized_icon("http://example.com/32.png", 32, 32),
    ];
    let c = IconCollection::from_raw(icons);
    let best = c.at_least(20, 20).unwrap();
    assert_eq!(best.url, "http://example.com/32.png");
}

#[test]
fn at_least_falls_back_to_largest_when_nothing_qualifies() {
    let icons = vec![
        sized_icon("http://example.com/16.png", 16, 16),
        sized_icon("http://example.com/32.png", 32, 32),
    ];
    let c = IconCollection::from_raw(icons);
    let best = c.at_least(1000, 1000).unwrap();
    assert_eq!(best.url, "http://example.com/32.png");
}

#[test]
fn at_least_requires_both_dimensions_to_qualify() {
    // 600x10 is wide enough but not tall enough; the fallback applies.
    let icons = vec![
        sized_icon("http://example.com/wide.png", 600, 10),
        sized_icon("http://example.com/big.png", 100, 100),
    ];
    let c = IconCollection::from_raw(icons);
    let best = c.at_least(48, 48).unwrap();
    assert_eq!(best.url, "http://example.com/big.png");
}

#[test]
fn at_least_on_empty_collection_is_absent() {
    let c = IconCollection::from_raw(Vec::new());
    assert!(c.at_least(16, 16).is_none());
}

#[test]
fn largest_on_empty_collection_is_absent() {
    let c = IconCollection::from_raw(Vec::new());
    assert!(c.largest().is_none());
}

#[test]
fn largest_returns_the_maximum_area_icon() {
    let icons = vec![
        sized_icon("http://example.com/32.png", 32, 32),
        sized_icon("http://example.com/512.png", 512, 512),
        sized_icon("http://example.com/16.png", 16, 16),
    ];
    let c = IconCollection::from_raw(icons);
    assert_eq!(c.largest().unwrap().url, "http://example.com/512.png");
}

#[test]
fn into_raw_parts_is_sorted_ascending_by_area() {
    let icons = vec![
        sized_icon("http://example.com/c.png", 10, 10),
        sized_icon("http://example.com/a.png", 1, 2),
        sized_icon("http://example.com/b.png", 3, 3),
    ];
    let sorted = IconCollection::from_raw(icons).into_raw_parts();
    let areas: Vec<u64> = sorted
        .iter()
        .map(|i| u64::from(i.width.unwrap()) * u64::from(i.height.unwrap()))
        .collect();
    assert_eq!(areas, vec![2, 9, 100]);
}

#[test]
fn collection_from_mixed_outcomes_holds_only_dimensioned_icons() {
    // One candidate resolves, one is dropped on a bad status: discovery
    // still succeeds with the survivor, and every member of the collection
    // carries both dimensions.
    let mut good = Icon::from_url("http://example.com/a.gif".to_string());
    assert_eq!(good.apply_response(200, Some("image/gif"), one_pixel_gif()), Ok(()));

    let mut bad = Icon::from_url("http://example.com/missing.png".to_string());
    let failed = bad.apply_response(404, Some("image/png"), Vec::new());
    assert_eq!(failed, Err(ResolveError::BadStatusCode(404)));

    let survivors: Vec<Icon> = [good, bad]
        .into_iter()
        .filter(|i| i.width.is_some() && i.height.is_some())
        .collect();
    let c = IconCollection::from_raw(survivors);
    let members = c.into_raw_parts();
    assert_eq!(members.len(), 1);
    assert!(members.iter().all(|i| i.width.is_some() && i.height.is_some()));
    assert_eq!(members[0].url, "http://example.com/a.gif");
}
