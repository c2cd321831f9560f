//! Jobs: validated crawl intents.
//!
//! A `Job` pairs an admissible absolute URL with a handle to the fetcher
//! that will retrieve it.  Construction applies the admissibility filter
//! and returns no job for a blacklisted URL, so a job's existence is
//! itself evidence that its URL is admissible.  Jobs are equal iff their
//! URLs are equal.

use crate::blacklist::{admissible, is_admissible_str};
use crate::error::CrawlerError;
use crate::queue::Keyed;
use crate::shared::arc_ref;
use crate::traits::Fetch;
use crate::urls::ParsedUrl;
use std::sync::Arc;
use vstd::prelude::*;
use vstd::std_specs::cmp::PartialEqSpec;

verus! {

/// A validated crawl intent.
#[derive(Debug, Clone)]
pub struct Job<T: Fetch> {
    fetcher: Arc<T>,
    url: ParsedUrl,
}

impl<T: Fetch> Job<T> {
    /// The job's URL: its serialization and its domain.
    pub closed spec fn spec_url(&self) -> (Seq<char>, Option<Seq<char>>) {
        self.url@
    }

    /// Builds a job for `url`, or no job when `url` is inadmissible.
    /// Construction is a function of the URL alone: it succeeds exactly on
    /// admissible URLs, and the job returned carries `url` unchanged.
    pub fn new(fetcher: Arc<T>, url: ParsedUrl) -> (r: Option<Job<T>>)
        ensures
            admissible(url.text@) ==> (r matches Some(j) && j.spec_url() == url@ && j.key()
                == url.text@),
            !admissible(url.text@) ==> r is None,
    {
        if is_admissible_str(url.text.as_str()) {
            Some(Job { fetcher, url })
        } else {
            None
        }
    }

    /// Returns a copy of the job's URL.
    pub fn get_url(&self) -> (r: ParsedUrl)
        ensures
            r@ == self.spec_url(),
    {
        self.url.duplicate()
    }

    /// Fetches the job's URL through the job's fetcher.
    pub fn fetch(&self) -> Result<(String, Vec<u8>), CrawlerError> {
        arc_ref(&self.fetcher).fetch(self.url.text.as_str())
    }
}

impl<T: Fetch> Keyed for Job<T> {
    /// Jobs are keyed by their URL's serialization.
    closed spec fn key(&self) -> Seq<char> {
        self.url.text@
    }

    fn key_string(&self) -> (r: String) {
        self.url.text.clone()
    }

    fn same_key(&self, other: &Self) -> (r: bool) {
        self.url.text == other.url.text
    }
}

/// Job construction is idempotent: a job carries its URL, jobs compare by
/// the URL's serialization, so two jobs carrying equal URLs are equal —
/// and `Job::new` succeeds or fails together on equal URLs, since
/// admissibility is a function of the URL.
pub proof fn lemma_jobs_equal_by_url<T: Fetch>(j1: Job<T>, j2: Job<T>)
    requires
        j1.spec_url().0 == j2.spec_url().0,
    ensures
        j1.eq_spec(&j2),
{
}

impl<T: Fetch> PartialEq for Job<T> {
    /// Jobs are equal iff their URLs are equal.
    fn eq(&self, other: &Job<T>) -> (r: bool) {
        self.url.text == other.url.text
    }
}

impl<T: Fetch> vstd::std_specs::cmp::PartialEqSpecImpl for Job<T> {
    open spec fn obeys_eq_spec() -> bool {
        true
    }

    open spec fn eq_spec(&self, other: &Job<T>) -> bool {
        self.key() == other.key()
    }
}

} // verus!
