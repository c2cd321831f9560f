//! The verified core of a web crawler.
//!
//! Starting from a seed URL the crawler fetches resources, classifies them
//! by content type, extracts outbound links from HTML pages, and enqueues
//! newly discovered URLs on a bounded, deduplicating frontier until the
//! frontier drains.  Everything that decides — admissibility filtering,
//! classification, link scanning, the frontier, and the coordinator — is
//! verified here; HTTP transport and filesystem persistence are supplied
//! by the surrounding binary through the `Fetch` and `Persist` capabilities.

pub mod args;
pub mod blacklist;
pub mod chars;
pub mod crawler;
pub mod crawling;
pub mod error;
pub mod job;
pub mod links;
pub mod queue;
pub mod shared;
pub mod traits;
pub mod urls;
