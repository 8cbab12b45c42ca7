//! Content-type handling: a plain model of a parsed media type, and the
//! recognition of the image formats the resolver accepts.

use core::str::FromStr;
use vstd::prelude::*;

verus! {

/// The parts of a media type that the resolver reads: the top-level type and
/// the subtype, ASCII-lowercased, and whether the header carried nothing
/// beyond `type/subtype` (no `+suffix` and no parameters).
#[derive(Clone, Debug)]
pub struct Mime {
    pub top: Vec<u8>,
    pub sub: Vec<u8>,
    pub plain: bool,
}

/// The image formats the resolver recognizes.
#[derive(Clone, Copy, Debug, PartialEq, Eq, Structural)]
pub enum ImageFormat {
    Png,
    Jpeg,
    Gif,
    Ico,
}

/// The top-level type `image`, as bytes.
pub open spec fn top_image() -> Seq<u8> {
    seq![105u8, 109u8, 97u8, 103u8, 101u8]
}

/// The subtype `png`, as bytes.
pub open spec fn sub_png() -> Seq<u8> {
    seq![112u8, 110u8, 103u8]
}

/// The subtype `jpeg`, as bytes.
pub open spec fn sub_jpeg() -> Seq<u8> {
    seq![106u8, 112u8, 101u8, 103u8]
}

/// The subtype `gif`, as bytes.
pub open spec fn sub_gif() -> Seq<u8> {
    seq![103u8, 105u8, 102u8]
}

/// The canonical icon subtype `x-icon`, as bytes.
pub open spec fn sub_x_icon() -> Seq<u8> {
    seq![120u8, 45u8, 105u8, 99u8, 111u8, 110u8]
}

/// The legacy icon subtype `vnd.microsoft.icon`, as bytes.
pub open spec fn sub_vnd_microsoft_icon() -> Seq<u8> {
    seq![
        118u8,
        110u8,
        100u8,
        46u8,
        109u8,
        105u8,
        99u8,
        114u8,
        111u8,
        115u8,
        111u8,
        102u8,
        116u8,
        46u8,
        105u8,
        99u8,
        111u8,
        110u8,
    ]
}

/// Which image format a media type names, if any, together with the
/// canonical subtype stored on a verified icon. The PNG, JPEG and GIF
/// types are recognized only bare (no suffix, no parameters); the two icon
/// spellings are recognized by subtype alone and collapse to `x-icon`.
pub open spec fn spec_image_format(top: Seq<u8>, sub: Seq<u8>, plain: bool) -> Option<
    (Seq<u8>, ImageFormat),
> {
    if top == top_image() && sub == sub_png() && plain {
        Some((sub_png(), ImageFormat::Png))
    } else if top == top_image() && sub == sub_jpeg() && plain {
        Some((sub_jpeg(), ImageFormat::Jpeg))
    } else if top == top_image() && sub == sub_gif() && plain {
        Some((sub_gif(), ImageFormat::Gif))
    } else if sub == sub_x_icon() || sub == sub_vnd_microsoft_icon() {
        Some((sub_x_icon(), ImageFormat::Ico))
    } else {
        None
    }
}

/// Compares two byte vectors for content equality.
fn bytes_eq(a: &Vec<u8>, b: &Vec<u8>) -> (r: bool)
    ensures
        r == (a@ == b@),
{
    if a.len() != b.len() {
        proof {
            assert(a@ != b@);
        }
        return false;
    }
    let mut i: usize = 0;
    while i < a.len()
        invariant
            0 <= i <= a@.len(),
            a@.len() == b@.len(),
            forall|j: int| 0 <= j < i ==> a@[j] == b@[j],
        decreases a@.len() - i,
    {
        if a[i] != b[i] {
            proof {
                assert(a@ != b@);
            }
            return false;
        }
        i += 1;
    }
    proof {
        assert(a@ =~= b@);
    }
    true
}

/// Builds the byte vector `image`.
fn top_image_vec() -> (v: Vec<u8>)
    ensures
        v@ == top_image(),
{
    let mut v: Vec<u8> = Vec::new();
    v.push(105u8);
    v.push(109u8);
    v.push(97u8);
    v.push(103u8);
    v.push(101u8);
    proof {
        assert(v@ =~= top_image());
    }
    v
}

/// Builds the byte vector `png`.
fn sub_png_vec() -> (v: Vec<u8>)
    ensures
        v@ == sub_png(),
{
    let mut v: Vec<u8> = Vec::new();
    v.push(112u8);
    v.push(110u8);
    v.push(103u8);
    proof {
        assert(v@ =~= sub_png());
    }
    v
}

/// Builds the byte vector `jpeg`.
fn sub_jpeg_vec() -> (v: Vec<u8>)
    ensures
        v@ == sub_jpeg(),
{
    let mut v: Vec<u8> = Vec::new();
    v.push(106u8);
    v.push(112u8);
    v.push(101u8);
    v.push(103u8);
    proof {
        assert(v@ =~= sub_jpeg());
    }
    v
}

/// Builds the byte vector `gif`.
fn sub_gif_vec() -> (v: Vec<u8>)
    ensures
        v@ == sub_gif(),
{
    let mut v: Vec<u8> = Vec::new();
    v.push(103u8);
    v.push(105u8);
    v.push(102u8);
    proof {
        assert(v@ =~= sub_gif());
    }
    v
}

/// Builds the byte vector `x-icon`.
fn sub_x_icon_vec() -> (v: Vec<u8>)
    ensures
        v@ == sub_x_icon(),
{
    let mut v: Vec<u8> = Vec::new();
    v.push(120u8);
    v.push(45u8);
    v.push(105u8);
    v.push(99u8);
    v.push(111u8);
    v.push(110u8);
    proof {
        assert(v@ =~= sub_x_icon());
    }
    v
}

/// Builds the byte vector `vnd.microsoft.icon`.
fn sub_vnd_microsoft_icon_vec() -> (v: Vec<u8>)
    ensures
        v@ == sub_vnd_microsoft_icon(),
{
    let mut v: Vec<u8> = Vec::new();
    v.push(118u8);
    v.push(110u8);
    v.push(100u8);
    v.push(46u8);
    v.push(109u8);
    v.push(105u8);
    v.push(99u8);
    v.push(114u8);
    v.push(111u8);
    v.push(115u8);
    v.push(111u8);
    v.push(102u8);
    v.push(116u8);
    v.push(46u8);
    v.push(105u8);
    v.push(99u8);
    v.push(111u8);
    v.push(110u8);
    proof {
        assert(v@ =~= sub_vnd_microsoft_icon());
    }
    v
}

impl Mime {
    /// Recognizes the media type as one of the accepted image formats,
    /// returning the canonical media type to store and the format to decode
    /// with; `None` when the type is not a recognized image type.
    pub fn parse_image_format(&self) -> (r: Option<(Mime, ImageFormat)>)
        ensures
            match spec_image_format(self.top@, self.sub@, self.plain) {
                Some((canon_sub, fmt)) => {
                    &&& r is Some
                    &&& r.unwrap().0.top@ == top_image()
                    &&& r.unwrap().0.sub@ == canon_sub
                    &&& r.unwrap().0.plain
                    &&& r.unwrap().1 == fmt
                },
                None => r is None,
            },
    {
        let top_img = top_image_vec();
        let png = sub_png_vec();
        let jpeg = sub_jpeg_vec();
        let gif = sub_gif_vec();
        let x_icon = sub_x_icon_vec();
        let vnd = sub_vnd_microsoft_icon_vec();
        if bytes_eq(&self.top, &top_img) && bytes_eq(&self.sub, &png) && self.plain {
            Some((Mime { top: top_img, sub: png, plain: true }, ImageFormat::Png))
        } else if bytes_eq(&self.top, &top_img) && bytes_eq(&self.sub, &jpeg) && self.plain {
            Some((Mime { top: top_img, sub: jpeg, plain: true }, ImageFormat::Jpeg))
        } else if bytes_eq(&self.top, &top_img) && bytes_eq(&self.sub, &gif) && self.plain {
            Some((Mime { top: top_img, sub: gif, plain: true }, ImageFormat::Gif))
        } else if bytes_eq(&self.sub, &x_icon) || bytes_eq(&self.sub, &vnd) {
            Some((Mime { top: top_img, sub: x_icon, plain: true }, ImageFormat::Ico))
        } else {
            None
        }
    }
}

/// What the outside media-type parser returns for a header text: the
/// lowercased top-level type and subtype as bytes, and whether the type was
/// bare, or `None` when the text is not a parseable media type.
pub uninterp spec fn mime_parse_of(s: Seq<char>) -> Option<(Seq<u8>, Seq<u8>, bool)>;

/// Relies on `mime::Mime::from_str` and the accessors `Mime::type_`,
/// `Mime::subtype`, `Mime::suffix` and `Mime::params`: parsing is
/// deterministic in the header text, a parsed type and subtype are
/// ASCII-lowercased, and `subtype` excludes any `+suffix`.
#[verifier::external_body]
pub(crate) fn parse_mime(s: &str) -> (r: Option<Mime>)
    ensures
        (r is Some) == (mime_parse_of(s@) is Some),
        r matches Some(m) ==> mime_parse_of(s@) == Some((m.top@, m.sub@, m.plain)),
{
    match mime::Mime::from_str(s) {
        Ok(m) => {
            let plain = m.suffix().is_none() && m.params().next().is_none();
            Some(
                Mime {
                    top: m.type_().as_str().as_bytes().to_vec(),
                    sub: m.subtype().as_str().as_bytes().to_vec(),
                    plain,
                },
            )
        },
        Err(_) => None,
    }
}

} // verus!
