//! The scraped page: its base URL and, when fetch and parse succeeded, its
//! parsed markup, behind the outside HTML parser.

use vstd::prelude::*;

verus! {

#[verifier::external_type_specification]
#[verifier::external_body]
pub struct ExHtml(scraper::Html);

/// One icon-link entry read from a document: the `href` attribute text and
/// the raw bytes of the `sizes` attribute, each absent when the element
/// lacks the attribute.
pub type LinkEntry = (Option<String>, Option<Vec<u8>>);

/// The view of one icon-link entry.
pub open spec fn link_entry_view(e: LinkEntry) -> (Option<Seq<char>>, Option<Seq<u8>>) {
    (
        match e.0 {
            Some(h) => Some(h@),
            None => None,
        },
        match e.1 {
            Some(s) => Some(s@),
            None => None,
        },
    )
}

/// What the icon-link selection reads from a parsed document: for every
/// link-type element whose `rel` attribute contains the token `icon`, in
/// document order, its `href` text and its `sizes` bytes. The result depends
/// on the parsed document alone.
pub uninterp spec fn icon_links_of(dom: scraper::Html) -> Seq<(Option<Seq<char>>, Option<Seq<u8>>)>;

/// Relies on `scraper::Selector::parse` (on the fixed selector
/// `link[rel*=icon]`, which is valid, so parsing it cannot fail),
/// `scraper::Html::select` and `Element::attr`: selection walks the document
/// in order and is deterministic in the parsed document.
#[verifier::external_body]
pub(crate) fn select_icon_links(dom: &scraper::Html) -> (r: Vec<LinkEntry>)
    ensures
        r@.len() == icon_links_of(*dom).len(),
        forall|i: int|
            0 <= i < r@.len() ==> #[trigger] link_entry_view(r@[i]) == icon_links_of(*dom)[i],
{
    let selector = scraper::Selector::parse("link[rel*=icon]").unwrap();
    dom.select(&selector)
        .map(
            |el|
                (
                    el.value().attr("href").map(|s| s.to_owned()),
                    el.value().attr("sizes").map(|s| s.as_bytes().to_vec()),
                ),
        )
        .collect()
}

/// Relies on `scraper::Html::parse_document`: parsing never fails (invalid
/// markup yields a document with its errors recorded) and is deterministic
/// in the text.
#[verifier::external_body]
pub(crate) fn parse_document(text: &str) -> scraper::Html {
    scraper::Html::parse_document(text)
}

/// A scraped page: its URL and, when the fetch and parse succeeded, its
/// parsed markup. Built from plain parts; fetching the text is the
/// caller's concern.
pub struct IconScraper {
    pub document_url: String,
    pub dom: Option<scraper::Html>,
}

impl IconScraper {
    /// Builds a scraper from a document URL and the fetched body text, if
    /// any. A missing body (a failed fetch, a non-text response) leaves the
    /// document absent: discovery then degrades to the default path alone.
    pub fn from_parts(document_url: String, body: Option<&str>) -> (s: IconScraper)
        ensures
            s.document_url == document_url,
            (s.dom is Some) == (body is Some),
    {
        let dom = match body {
            Some(text) => Some(parse_document(text)),
            None => None,
        };
        IconScraper { document_url, dom }
    }
}

} // verus!
