//! The error kinds surfaced by the crawler core.

use vstd::prelude::*;

verus! {

/// An error raised while crawling.
///
/// Each variant carries a human-readable message.
/// - `ParsingError`: a URL (or the command line) failed syntactic validation.
/// - `FetchingError`: a fetch failed as a whole; the job yields no children.
/// - `PersistingError`: the sink rejected a write, or a crawling had no
///   domain or no file extension to persist under.
/// - `RequestError`: an HTTP request finished with a non-success status.
/// - `ContentTypeError`: the declared content type was missing or blacklisted.
#[derive(Debug, PartialEq)]
pub enum CrawlerError {
    ParsingError(String),
    FetchingError(String),
    PersistingError(String),
    RequestError(String),
    ContentTypeError(String),
}

impl CrawlerError {
    /// The message carried by the error, whatever its kind.
    pub open spec fn spec_message(&self) -> Seq<char> {
        match self {
            CrawlerError::ParsingError(m) => m@,
            CrawlerError::FetchingError(m) => m@,
            CrawlerError::PersistingError(m) => m@,
            CrawlerError::RequestError(m) => m@,
            CrawlerError::ContentTypeError(m) => m@,
        }
    }

    /// Returns the message carried by the error.
    pub fn message(&self) -> (r: &String)
        ensures
            r@ == self.spec_message(),
    {
        match self {
            CrawlerError::ParsingError(m) => m,
            CrawlerError::FetchingError(m) => m,
            CrawlerError::PersistingError(m) => m,
            CrawlerError::RequestError(m) => m,
            CrawlerError::ContentTypeError(m) => m,
        }
    }
}

} // verus!
