//! The per-candidate failure taxonomy of the resolver.
//!
//! Every variant is non-fatal to discovery as a whole: the orchestrator
//! drops the failed candidate and keeps the rest.

use vstd::prelude::*;

verus! {

/// Why resolving a single candidate icon failed.
#[derive(Clone, Copy, Debug, PartialEq, Eq, Structural)]
pub enum ResolveError {
    /// The HTTP transport failed before any response arrived.
    Transport,
    /// The response status was not a success code; carries the status.
    BadStatusCode(u16),
    /// The response had no `Content-Type` header, or one that could not be
    /// parsed as a media type.
    NoContentType,
    /// The `Content-Type` was parseable but is not a recognized image type.
    BadContentType,
    /// The body could not be decoded in the declared image format.
    Decode,
}

} // verus!
