//! Discovery and ranking of candidate site icons (favicons, touch icons).
//!
//! The library holds the verified core of the pipeline: generating icon
//! candidates from parsed markup or from a base URL, validating a fetched
//! response and decoding its dimensions, and querying the resulting
//! size-sorted collection. The network transport, the markup parser and the
//! pixel decoder are outside collaborators, reached through a few trusted
//! wrappers whose contracts state what their documentation promises.

pub mod collection;
pub mod dom;
pub mod errors;
pub mod icon;
pub mod sizes;
pub mod strategies;
pub mod urls;
pub mod util;

pub use collection::IconCollection;
pub use dom::IconScraper;
pub use errors::ResolveError;
pub use icon::Icon;
pub use strategies::DefaultFaviconPathStrategy;
pub use strategies::LinkRelStrategy;
pub use util::ImageFormat;
pub use util::Mime;
