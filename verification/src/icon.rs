//! The icon itself, and the resolver that turns a fetched response into a
//! verified icon.
//!
//! An icon is created from a URL alone; the resolver enriches it exactly once
//! with the raw bytes, the canonical media type and the pixel dimensions, or
//! fails and leaves it untouched. Width and height are set together, never
//! one without the other.

use crate::errors::ResolveError;
use crate::util::{spec_image_format, top_image, mime_parse_of, parse_mime, ImageFormat, Mime};
use vstd::prelude::*;

verus! {

/// A candidate or verified icon. `raw`, `mime_type` and the dimensions are
/// absent until resolution succeeds; a declared size from markup may populate
/// the dimensions early, in which case the icon is trusted and never fetched
/// for verification.
#[derive(Clone, Debug)]
pub struct Icon {
    pub url: String,
    pub raw: Option<Vec<u8>>,
    pub mime_type: Option<Mime>,
    pub width: Option<u32>,
    pub height: Option<u32>,
}

/// What the outside image decoder yields for a byte sequence and a declared
/// format: the pixel width and height, or `None` when the bytes are not a
/// well-formed image of that format. The result depends on the bytes and the
/// format alone.
pub uninterp spec fn image_dims_of(bytes: Seq<u8>, format: ImageFormat) -> Option<(u32, u32)>;

/// Relies on `image::load_from_memory_with_format` and the `width` and
/// `height` accessors of the decoded image: decoding is deterministic in the
/// bytes and the declared format, and fails on malformed input.
#[verifier::external_body]
pub(crate) fn decode_dimensions(bytes: &Vec<u8>, format: ImageFormat) -> (r: Option<(u32, u32)>)
    ensures
        r == image_dims_of(bytes@, format),
{
    let f = match format {
        ImageFormat::Png => image::ImageFormat::Png,
        ImageFormat::Jpeg => image::ImageFormat::Jpeg,
        ImageFormat::Gif => image::ImageFormat::Gif,
        ImageFormat::Ico => image::ImageFormat::Ico,
    };
    match image::load_from_memory_with_format(bytes.as_slice(), f) {
        Ok(img) => Some((img.width(), img.height())),
        Err(_) => None,
    }
}

/// The view of an optional header text.
pub open spec fn header_view(ct: Option<&str>) -> Option<Seq<char>> {
    match ct {
        Some(s) => Some(s@),
        None => None,
    }
}

/// What resolving a response must yield: the canonical media subtype, the
/// format decoded with, and the pixel dimensions, or the error that drops
/// the candidate. A non-success status fails first; a missing or unparseable
/// `Content-Type` fails next; an unrecognized image type fails after that;
/// last, the body must decode in the recognized format.
pub open spec fn spec_resolve(status: u16, ct: Option<Seq<char>>, body: Seq<u8>) -> Result<
    (Seq<u8>, ImageFormat, u32, u32),
    ResolveError,
> {
    if !(200 <= status < 300) {
        Err(ResolveError::BadStatusCode(status))
    } else {
        match ct {
            None => Err(ResolveError::NoContentType),
            Some(h) => match mime_parse_of(h) {
                None => Err(ResolveError::NoContentType),
                Some((top, sub, plain)) => match spec_image_format(top, sub, plain) {
                    None => Err(ResolveError::BadContentType),
                    Some((canon_sub, fmt)) => match image_dims_of(body, fmt) {
                        None => Err(ResolveError::Decode),
                        Some((w, h)) => Ok((canon_sub, fmt, w, h)),
                    },
                },
            },
        }
    }
}

impl Icon {
    /// A fresh candidate: the URL alone, everything else absent.
    pub fn from_url(url: String) -> (icon: Icon)
        ensures
            icon.url == url,
            icon.raw is None,
            icon.mime_type is None,
            icon.width is None,
            icon.height is None,
    {
        Icon { url, raw: None, mime_type: None, width: None, height: None }
    }

    /// Whether both dimensions are known. An icon for which this holds is
    /// never fetched for dimension verification: a size declared in markup
    /// is taken as ground truth.
    pub fn has_dimensions(&self) -> (r: bool)
        ensures
            r == (self.width is Some && self.height is Some),
    {
        self.width.is_some() && self.height.is_some()
    }

    /// Whether the raw bytes are already present; a second fetch of such an
    /// icon is a no-op success.
    pub fn is_fetched(&self) -> (r: bool)
        ensures
            r == (self.raw is Some),
    {
        self.raw.is_some()
    }

    /// Applies a fetched response to this icon: validates the status and the
    /// `Content-Type`, decodes the body's dimensions, and on success sets the
    /// dimensions, the bytes and the canonical media type together. On an
    /// already-fetched icon it succeeds at once; on any failure the icon is
    /// left untouched.
    pub fn apply_response(&mut self, status: u16, content_type: Option<&str>, body: Vec<u8>) -> (r:
        Result<(), ResolveError>)
        ensures
            old(self).raw is Some ==> r is Ok && *final(self) == *old(self),
            old(self).raw is None ==> match spec_resolve(
                status,
                header_view(content_type),
                body@,
            ) {
                Ok((canon_sub, fmt, w, h)) => {
                    &&& r is Ok
                    &&& final(self).url == old(self).url
                    &&& final(self).width == Some(w)
                    &&& final(self).height == Some(h)
                    &&& final(self).raw == Some(body)
                    &&& final(self).mime_type matches Some(m) && m.top@ == top_image()
                        && m.sub@ == canon_sub && m.plain
                },
                Err(e) => r == Err::<(), ResolveError>(e) && *final(self) == *old(self),
            },
    {
        if self.raw.is_some() {
            return Ok(());
        }
        if !(200 <= status && status <= 299) {
            return Err(ResolveError::BadStatusCode(status));
        }
        let header = match content_type {
            Some(h) => h,
            None => {
                return Err(ResolveError::NoContentType);
            },
        };
        let parsed = match parse_mime(header) {
            Some(m) => m,
            None => {
                return Err(ResolveError::NoContentType);
            },
        };
        let (canon, fmt) = match parsed.parse_image_format() {
            Some(p) => p,
            None => {
                return Err(ResolveError::BadContentType);
            },
        };
        let (w, h) = match decode_dimensions(&body, fmt) {
            Some(d) => d,
            None => {
                return Err(ResolveError::Decode);
            },
        };
        self.width = Some(w);
        self.height = Some(h);
        self.raw = Some(body);
        self.mime_type = Some(canon);
        Ok(())
    }
}

} // verus!
