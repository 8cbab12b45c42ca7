//! Resolution of icon references against a document's base URL, through the
//! outside URL library.

use vstd::prelude::*;

verus! {

/// What standard URL resolution yields for a base text and a reference: the
/// text of the joined absolute URL, or `None` when the base is not a valid
/// absolute URL or the reference cannot be resolved against it. The result
/// depends on the two texts alone.
pub uninterp spec fn join_of(base: Seq<char>, reference: Seq<char>) -> Option<Seq<char>>;

/// Relies on `url::Url::parse` and `url::Url::join`: parsing and joining
/// follow the URL standard and are deterministic in the two texts; the
/// conversion into `String` yields the serialization of the joined URL.
#[verifier::external_body]
pub(crate) fn join_url(base: &str, reference: &str) -> (r: Option<String>)
    ensures
        (r is Some) == (join_of(base@, reference@) is Some),
        r matches Some(u) ==> join_of(base@, reference@) == Some(u@),
{
    match url::Url::parse(base) {
        Ok(b) => match b.join(reference) {
            Ok(u) => Some(String::from(u)),
            Err(_) => None,
        },
        Err(_) => None,
    }
}

} // verus!
