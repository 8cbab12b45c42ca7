//! The two candidate generators: the conventional default favicon path, and
//! the link-rel scan of parsed markup. Both are pure: they propose
//! candidates and never fetch.

use crate::dom::{icon_links_of, link_entry_view, select_icon_links, IconScraper, LinkEntry};
use crate::icon::Icon;
use crate::sizes::{lemma_sizes_empty, parse_sizes, spec_sizes};
use crate::urls::{join_of, join_url};
use vstd::prelude::*;

verus! {

/// A candidate as the generators describe it: the resolved URL text and the
/// declared size, if any.
pub ghost struct CandidateV {
    pub url: Seq<char>,
    pub width: Option<u32>,
    pub height: Option<u32>,
}

/// What one link entry contributes: nothing without an `href`, or when the
/// reference does not resolve against the base URL; otherwise a candidate at
/// the joined URL, with the declared size its `sizes` attribute yields (a
/// missing attribute is read as empty text).
pub open spec fn candidate_of(
    entry: (Option<Seq<char>>, Option<Seq<u8>>),
    base: Seq<char>,
) -> Option<CandidateV> {
    match entry.0 {
        None => None,
        Some(href) => match join_of(base, href) {
            None => None,
            Some(u) => {
                let sizes_bytes = match entry.1 {
                    Some(s) => s,
                    None => Seq::empty(),
                };
                let dims = spec_sizes(sizes_bytes);
                Some(CandidateV { url: u, width: dims.0, height: dims.1 })
            },
        },
    }
}

/// The candidates of a sequence of link entries, in document order.
pub open spec fn spec_candidates(
    links: Seq<(Option<Seq<char>>, Option<Seq<u8>>)>,
    base: Seq<char>,
) -> Seq<CandidateV>
    decreases links.len(),
{
    if links.len() == 0 {
        Seq::empty()
    } else {
        let rest = spec_candidates(links.drop_last(), base);
        match candidate_of(links.last(), base) {
            Some(c) => rest.push(c),
            None => rest,
        }
    }
}

/// Whether an icon is exactly a fresh candidate: at the candidate's URL,
/// with its declared size, nothing fetched yet.
pub open spec fn icon_matches(icon: Icon, c: CandidateV) -> bool {
    &&& icon.url@ == c.url
    &&& icon.width == c.width
    &&& icon.height == c.height
    &&& icon.raw is None
    &&& icon.mime_type is None
}

/// Whether a sequence of icons realizes a sequence of candidates, one for
/// one, in order.
pub open spec fn icons_match(icons: Seq<Icon>, cands: Seq<CandidateV>) -> bool {
    &&& icons.len() == cands.len()
    &&& forall|i: int| 0 <= i < icons.len() ==> icon_matches(#[trigger] icons[i], cands[i])
}

/// Trust-the-markup law: an icon realizing a candidate with a declared
/// width and height already carries both dimensions, so the orchestrator's
/// `ensure dimensions` step accepts it at once and the icon is never fetched
/// for dimension verification.
pub proof fn lemma_declared_size_skips_fetch(icon: Icon, c: CandidateV)
    requires
        icon_matches(icon, c),
        c.width is Some,
        c.height is Some,
    ensures
        icon.width is Some && icon.height is Some,
{
}

/// Turns the link entries read from a document into icon candidates:
/// entries without an `href`, or whose reference does not resolve, are
/// skipped; a parseable `sizes` attribute declares the dimensions.
#[verifier::loop_isolation(false)]
pub fn candidates_from_links(links: &Vec<LinkEntry>, base: &str) -> (r: Vec<Icon>)
    ensures
        icons_match(r@, spec_candidates(links@.map_values(|e: LinkEntry| link_entry_view(e)), base@)),
{
    let ghost lv = links@.map_values(|e: LinkEntry| link_entry_view(e));
    let mut rv: Vec<Icon> = Vec::new();
    let mut i: usize = 0;
    proof {
        assert(lv.take(0) =~= Seq::<(Option<Seq<char>>, Option<Seq<u8>>)>::empty());
    }
    while i < links.len()
        invariant
            0 <= i <= links@.len(),
            icons_match(rv@, spec_candidates(lv.take(i as int), base@)),
        decreases links@.len() - i,
    {
        proof {
            assert(lv.take(i + 1).drop_last() =~= lv.take(i as int));
            assert(lv.take(i + 1).last() == link_entry_view(links@[i as int]));
        }
        let ghost prev = spec_candidates(lv.take(i as int), base@);
        let entry = &links[i];
        match &entry.0 {
            None => {},
            Some(href) => {
                match join_url(base, href.as_str()) {
                    None => {},
                    Some(u) => {
                        let dims = match &entry.1 {
                            Some(sv) => parse_sizes(sv),
                            None => {
                                proof {
                                    lemma_sizes_empty();
                                }
                                (None, None)
                            },
                        };
                        let mut icon = Icon::from_url(u);
                        icon.width = dims.0;
                        icon.height = dims.1;
                        rv.push(icon);
                        proof {
                            let c = candidate_of(link_entry_view(links@[i as int]), base@).unwrap();
                            assert(icon_matches(icon, c));
                            assert(spec_candidates(lv.take(i + 1), base@) == prev.push(c));
                            assert forall|k: int|
                                0 <= k < rv@.len() implies icon_matches(
                                #[trigger] rv@[k],
                                spec_candidates(lv.take(i + 1), base@)[k],
                            ) by {
                                if k < rv@.len() - 1 {
                                    assert(icon_matches(rv@[k], prev[k]));
                                }
                            }
                        }
                    },
                }
            },
        }
        i += 1;
    }
    proof {
        assert(lv.take(links@.len() as int) =~= lv);
    }
    rv
}

/// The candidates of the default-path strategy: the single conventional
/// `/favicon.ico` location, root-relative to the base URL; none when the
/// base URL itself does not resolve.
pub open spec fn default_candidates(s: IconScraper) -> Seq<CandidateV> {
    match join_of(s.document_url@, "/favicon.ico"@) {
        Some(u) => seq![CandidateV { url: u, width: None, height: None }],
        None => Seq::empty(),
    }
}

/// The candidates of the link-rel strategy: one per icon-link element of the
/// parsed document that carries a resolvable `href`; none without a parsed
/// document.
pub open spec fn link_rel_candidates(s: IconScraper) -> Seq<CandidateV> {
    match s.dom {
        None => Seq::empty(),
        Some(d) => spec_candidates(icon_links_of(d), s.document_url@),
    }
}

/// All candidates of a scraped page, in the order the orchestrator resolves
/// them: the link-rel candidates first, then the default favicon path.
pub open spec fn spec_all_candidates(s: IconScraper) -> Seq<CandidateV> {
    link_rel_candidates(s) + default_candidates(s)
}

/// The strategy guessing the conventional `/favicon.ico` path. It needs no
/// parsed document and works even when the document fetch failed.
pub struct DefaultFaviconPathStrategy;

impl DefaultFaviconPathStrategy {
    /// Yields the single candidate at the document's `/favicon.ico`,
    /// root-relative to the base URL; none when the base URL itself is not
    /// a valid absolute URL.
    pub fn get_guesses(self, parser: &IconScraper) -> (r: Vec<Icon>)
        ensures
            icons_match(r@, default_candidates(*parser)),
    {
        let mut r: Vec<Icon> = Vec::new();
        match join_url(parser.document_url.as_str(), "/favicon.ico") {
            Some(u) => {
                let icon = Icon::from_url(u);
                r.push(icon);
                proof {
                    let cands = default_candidates(*parser);
                    assert(cands.len() == 1);
                    assert(icon_matches(icon, cands[0]));
                }
            },
            None => {},
        }
        r
    }
}

/// The strategy scanning parsed markup for link-type elements whose `rel`
/// attribute contains the token `icon`.
pub struct LinkRelStrategy;

impl LinkRelStrategy {
    /// Scans the parsed document, in document order, and yields one
    /// candidate per icon-link element carrying an `href` that resolves
    /// against the base URL. Without a parsed document it yields nothing.
    pub fn get_guesses(self, parser: &IconScraper) -> (r: Vec<Icon>)
        ensures
            icons_match(r@, link_rel_candidates(*parser)),
    {
        match &parser.dom {
            None => {
                let r: Vec<Icon> = Vec::new();
                r
            },
            Some(d) => {
                let links = select_icon_links(d);
                proof {
                    assert(links@.map_values(|e: LinkEntry| link_entry_view(e)) =~= icon_links_of(
                        *d,
                    ));
                }
                candidates_from_links(&links, parser.document_url.as_str())
            },
        }
    }
}

impl IconScraper {
    /// Runs both generators and concatenates their outputs: every link-rel
    /// candidate of the document, then the default favicon path. The
    /// candidates are proposals only; nothing is fetched here.
    pub fn gather_candidates(&self) -> (r: Vec<Icon>)
        ensures
            icons_match(r@, spec_all_candidates(*self)),
    {
        let mut first = LinkRelStrategy.get_guesses(self);
        let mut second = DefaultFaviconPathStrategy.get_guesses(self);
        let ghost a = link_rel_candidates(*self);
        let ghost b = default_candidates(*self);
        let ghost first0 = first@;
        let ghost second0 = second@;
        first.append(&mut second);
        proof {
            assert forall|k: int|
                0 <= k < first@.len() implies icon_matches(
                #[trigger] first@[k],
                (a + b)[k],
            ) by {
                if k < first0.len() {
                    assert(first@[k] == first0[k]);
                    assert((a + b)[k] == a[k]);
                    assert(icon_matches(first0[k], a[k]));
                } else {
                    assert(first@[k] == second0[k - first0.len()]);
                    assert((a + b)[k] == b[k - a.len()]);
                    assert(icon_matches(second0[k - first0.len()], b[k - a.len()]));
                }
            }
        }
        first
    }
}

} // verus!
