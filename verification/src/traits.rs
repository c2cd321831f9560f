//! The two capabilities the crawler is parameterized over.
//!
//! A `Fetch` retrieves a URL and reports the declared content type with
//! the body bytes; a `Persist` durably stores bytes under a content
//! identifier.  The crate proves nothing about their implementations —
//! they are the extension points a binary fills in (an HTTP client, a
//! filesystem sink) and tests fill in with mocks.

use crate::blacklist::content_type_blacklist;
use crate::error::CrawlerError;
use vstd::prelude::*;

verus! {

/// The fetch capability: retrieve a URL, returning the declared content
/// type and the body bytes, or an error local to this URL.
pub trait Fetch: Sized {
    fn fetch(&self, url: &str) -> Result<(String, Vec<u8>), CrawlerError>;

    /// The content-type tokens this fetcher rejects, if any.
    fn get_content_type_blacklist(&self) -> Option<Vec<&'static str>>;
}

/// The persist capability: durably store `content` under `content_id`,
/// returning the number of bytes persisted.
pub trait Persist: Sized {
    fn persist(&self, content_id: &str, content: &[u8]) -> Result<usize, CrawlerError>;
}

/// The content-type blacklist as string slices, for fetchers that apply it.
pub fn content_type_blacklist_strs() -> (r: Vec<&'static str>)
    ensures
        r.deep_view() == content_type_blacklist(),
{
    let mut r: Vec<&'static str> = Vec::new();
    r.push("css");
    r.push("js");
    r.push("png");
    r.push("jpg");
    r.push("jpeg");
    r.push("gif");
    r.push("tiff");
    r.push("ico");
    r.push("svg");
    r.push("json");
    r.push("woff2");
    r.push("csv");
    r.push("xls");
    r.push("xlsx");
    r.push("xml");
    proof {
        assert(r.deep_view() =~~= content_type_blacklist());
    }
    r
}

/// The configuration of the default HTTP fetcher: it rejects every
/// response whose declared content type contains a blacklisted token.
/// The HTTP transport itself lives in the binary.
#[derive(Debug, Clone, Copy, PartialEq, Eq, Hash)]
pub struct MainFetcher;

impl MainFetcher {
    pub fn new() -> (r: Self)
        ensures
            r == MainFetcher,
    {
        MainFetcher
    }

    /// The content-type blacklist the default fetcher applies.
    pub fn get_content_type_blacklist(&self) -> (r: Option<Vec<&'static str>>)
        ensures
            r matches Some(v) && v.deep_view() == content_type_blacklist(),
    {
        Some(content_type_blacklist_strs())
    }
}

/// The configuration of the standalone binary's fetcher; it applies the
/// same content-type blacklist as `MainFetcher`.
#[derive(Debug, Clone, Copy, PartialEq, Eq, Hash)]
pub struct Fetcher;

impl Fetcher {
    pub fn new() -> (r: Self)
        ensures
            r == Fetcher,
    {
        Fetcher
    }

    /// The content-type blacklist this fetcher applies.
    pub fn get_content_type_blacklist(&self) -> (r: Option<Vec<&'static str>>)
        ensures
            r matches Some(v) && v.deep_view() == content_type_blacklist(),
    {
        Some(content_type_blacklist_strs())
    }
}

} // verus!
