//! Tests of the resolver: status and content-type validation, dimension
//! decoding, and the per-candidate failure taxonomy.

use icon_scraper::{Icon, ImageFormat, Mime, ResolveError};

/// The smallest well-formed GIF: one transparent pixel.
fn tiny_gif() -> Vec<u8> {
    vec![
        0x47, 0x49, 0x46, 0x38, 0x39, 0x61, 0x01, 0x00, 0x01, 0x00, 0x80, 0x00, 0x00, 0x00, 0x00,
        0x00, 0xff, 0xff, 0xff, 0x21, 0xf9, 0x04, 0x01, 0x00, 0x00, 0x00, 0x00, 0x2c, 0x00, 0x00,
        0x00, 0x00, 0x01, 0x00, 0x01, 0x00, 0x00, 0x02, 0x02, 0x44, 0x01, 0x00, 0x3b,
    ]
}

#[test]
fn resolve_success_sets_all_fields_together() {
    let mut icon = Icon::from_url("http://example.com/a.gif".to_string());
    let body = tiny_gif();
    let r = icon.apply_response(200, Some("image/gif"), body.clone());
    assert_eq!(r, Ok(()));
    assert_eq!(icon.width, Some(1));
    assert_eq!(icon.height, Some(1));
    assert_eq!(icon.raw, Some(body));
    let mime = icon.mime_type.clone().unwrap();
    assert_eq!(mime.top, b"image".to_vec());
    assert_eq!(mime.sub, b"gif".to_vec());
    assert!(mime.plain);
    assert_eq!(icon.url, "http://example.com/a.gif");
}

#[test]
fn resolve_is_idempotent_once_fetched() {
    let mut icon = Icon::from_url("http://example.com/a.gif".to_string());
    assert!(!icon.is_fetched());
    assert_eq!(icon.apply_response(200, Some("image/gif"), tiny_gif()), Ok(()));
    assert!(icon.is_fetched());
    // A second application never touches the icon again, whatever arrives.
    assert_eq!(icon.apply_response(404, None, Vec::new()), Ok(()));
    assert_eq!(icon.width, Some(1));
    assert_eq!(icon.height, Some(1));
}

#[test]
fn bad_status_is_reported_and_leaves_icon_untouched() {
    let mut icon = Icon::from_url("http://example.com/a.png".to_string());
    let r = icon.apply_response(404, Some("image/png"), tiny_gif());
    assert_eq!(r, Err(ResolveError::BadStatusCode(404)));
    assert!(icon.raw.is_none());
    assert!(icon.mime_type.is_none());
    assert!(icon.width.is_none());
    assert!(icon.height.is_none());
}

#[test]
fn missing_content_type_is_reported() {
    let mut icon = Icon::from_url("http://example.com/a.png".to_string());
    assert_eq!(
        icon.apply_response(200, None, tiny_gif()),
        Err(ResolveError::NoContentType)
    );
}

#[test]
fn unparseable_content_type_is_reported_as_missing() {
    let mut icon = Icon::from_url("http://example.com/a.png".to_string());
    assert_eq!(
        icon.apply_response(200, Some("nonsense"), tiny_gif()),
        Err(ResolveError::NoContentType)
    );
}

#[test]
fn non_image_content_type_is_reported() {
    let mut icon = Icon::from_url("http://example.com/a.png".to_string());
    assert_eq!(
        icon.apply_response(200, Some("text/html"), tiny_gif()),
        Err(ResolveError::BadContentType)
    );
}

#[test]
fn content_type_with_parameters_is_not_a_bare_image_type() {
    let mut icon = Icon::from_url("http://example.com/a.gif".to_string());
    assert_eq!(
        icon.apply_response(200, Some("image/gif; charset=utf-8"), tiny_gif()),
        Err(ResolveError::BadContentType)
    );
}

#[test]
fn undecodable_body_is_reported() {
    let mut icon = Icon::from_url("http://example.com/a.gif".to_string());
    assert_eq!(
        icon.apply_response(200, Some("image/gif"), b"not an image".to_vec()),
        Err(ResolveError::Decode)
    );
}

#[test]
fn mismatched_format_fails_decode() {
    // A well-formed GIF declared as PNG must not decode.
    let mut icon = Icon::from_url("http://example.com/a.png".to_string());
    assert_eq!(
        icon.apply_response(200, Some("image/png"), tiny_gif()),
        Err(ResolveError::Decode)
    );
}

#[test]
fn image_format_recognition_covers_all_spellings() {
    let png = Mime { top: b"image".to_vec(), sub: b"png".to_vec(), plain: true };
    let (canon, fmt) = png.parse_image_format().unwrap();
    assert_eq!(fmt, ImageFormat::Png);
    assert_eq!(canon.sub, b"png".to_vec());

    let jpeg = Mime { top: b"image".to_vec(), sub: b"jpeg".to_vec(), plain: true };
    assert_eq!(jpeg.parse_image_format().unwrap().1, ImageFormat::Jpeg);

    let gif = Mime { top: b"image".to_vec(), sub: b"gif".to_vec(), plain: true };
    assert_eq!(gif.parse_image_format().unwrap().1, ImageFormat::Gif);

    let x_icon = Mime { top: b"image".to_vec(), sub: b"x-icon".to_vec(), plain: true };
    assert_eq!(x_icon.parse_image_format().unwrap().1, ImageFormat::Ico);

    // The legacy spelling canonicalizes to x-icon, parameters and all.
    let legacy = Mime {
        top: b"image".to_vec(),
        sub: b"vnd.microsoft.icon".to_vec(),
        plain: false,
    };
    let (canon, fmt) = legacy.parse_image_format().unwrap();
    assert_eq!(fmt, ImageFormat::Ico);
    assert_eq!(canon.top, b"image".to_vec());
    assert_eq!(canon.sub, b"x-icon".to_vec());
    assert!(canon.plain);

    // PNG with parameters is not a bare image/png.
    let png_params = Mime { top: b"image".to_vec(), sub: b"png".to_vec(), plain: false };
    assert!(png_params.parse_image_format().is_none());

    let html = Mime { top: b"text".to_vec(), sub: b"html".to_vec(), plain: true };
    assert!(html.parse_image_format().is_none());
}
