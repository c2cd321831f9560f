//! Crawlings: the in-memory record of one completed fetch.
//!
//! A `Crawling` holds the source URL, the raw content bytes, and a `Kind`
//! classified from the declared content type.  It knows how to extract
//! outbound links from HTML content and how to emit itself through a
//! `Persist` under a content identifier of the form
//! `{domain}-{hash}{extension}`.

use crate::chars::{contains_chars, contains_sub, lossy_chars, lossy_utf8, str_to_chars,
    chars_to_string};
use crate::error::CrawlerError;
use crate::links::{extract_hrefs, find_hrefs};
use crate::shared::{arc_ref, hash, hash_chars};
use crate::traits::Persist;
use crate::urls::{url_join, url_parse, ParsedUrl};
use std::sync::Arc;
use vstd::prelude::*;
use vstd::string::StringExecFns;

verus! {

/// The classified kind of a fetched resource.
#[derive(Debug, Clone, Copy, PartialEq, Eq, Structural, Hash)]
pub enum Kind {
    Html,
    Pdf,
    Unknown,
}

/// Classification is a total function of the declared content type: any
/// mention of `html` wins, then any mention of `pdf`, else `Unknown`.
pub open spec fn kind_of(content_type: Seq<char>) -> Kind {
    if contains_sub(content_type, "html"@) {
        Kind::Html
    } else if contains_sub(content_type, "pdf"@) {
        Kind::Pdf
    } else {
        Kind::Unknown
    }
}

/// Classification is total and a function of the content-type string
/// alone: every string is classified, a mention of `html` wins, then a
/// mention of `pdf`, and a string mentioning neither is `Unknown`.
/// (`identify_kind` returns `kind_of` of its input for every input, and,
/// being verified, cannot panic.)
pub proof fn lemma_classification_total(content_type: Seq<char>)
    ensures
        contains_sub(content_type, "html"@) ==> kind_of(content_type) == Kind::Html,
        (!contains_sub(content_type, "html"@) && contains_sub(content_type, "pdf"@)) ==> kind_of(
            content_type,
        ) == Kind::Pdf,
        (!contains_sub(content_type, "html"@) && !contains_sub(content_type, "pdf"@)) ==> kind_of(
            content_type,
        ) == Kind::Unknown,
{
}

/// A candidate link resolved to an absolute URL: taken verbatim when it
/// parses absolutely, else resolved against the page URL, else dropped.
pub open spec fn resolve_spec(base: Seq<char>, cand: Seq<char>) -> Option<
    (Seq<char>, Option<Seq<char>>),
> {
    match url_parse(cand) {
        Some(m) => Some(m),
        None => url_join(base, cand),
    }
}

/// All candidates resolved against `base`, in order, dropped candidates
/// left out.
pub open spec fn resolve_all(base: Seq<char>, cands: Seq<Seq<char>>) -> Seq<
    (Seq<char>, Option<Seq<char>>),
>
    decreases cands.len(),
{
    if cands.len() == 0 {
        Seq::empty()
    } else {
        let rest = resolve_all(base, cands.drop_first());
        match resolve_spec(base, cands[0]) {
            Some(m) => seq![m] + rest,
            None => rest,
        }
    }
}

/// The record of one completed fetch.
pub struct Crawling<T: Persist> {
    /// The persister the crawling is emitted through.
    pub persister: Arc<T>,
    /// The URL the content was fetched from.
    pub url: ParsedUrl,
    /// The raw content bytes.
    pub content: Vec<u8>,
    /// The kind classified from the declared content type.
    pub kind: Kind,
}

impl<T: Persist> Crawling<T> {
    /// The file extension the crawling is persisted under, by kind.
    pub open spec fn spec_extension(&self) -> Option<Seq<char>> {
        match self.kind {
            Kind::Html => Some(".html"@),
            Kind::Pdf => Some(".pdf"@),
            Kind::Unknown => None,
        }
    }

    /// The content identifier `{domain}-{hash}{extension}`, absent when
    /// the URL has no domain or the kind has no extension.
    pub open spec fn spec_content_id(&self) -> Option<Seq<char>> {
        match (self.url.host.deep_view(), self.spec_extension()) {
            (Some(h), Some(e)) => Some(h + "-"@ + hash_chars(self.content@) + e),
            _ => None,
        }
    }

    /// The links extracted from the content: every double-quoted href
    /// value, resolved against the page URL.
    pub open spec fn spec_links(&self) -> Seq<(Seq<char>, Option<Seq<char>>)> {
        resolve_all(self.url.text@, extract_hrefs(lossy_utf8(self.content@)))
    }

    /// Builds the record, classifying the declared content type.
    pub fn new(persister: Arc<T>, url: ParsedUrl, content_type: &str, content: Vec<u8>) -> (r:
        Self)
        ensures
            r.kind == kind_of(content_type@),
            r.url == url,
            r.content == content,
    {
        let kind = Self::identify_kind(content_type);
        Crawling { persister, url, content, kind }
    }

    /// Classifies a declared content type.  Total: every string gets a
    /// kind, and equal strings get equal kinds.
    pub fn identify_kind(content_type: &str) -> (r: Kind)
        ensures
            r == kind_of(content_type@),
    {
        let chars = str_to_chars(content_type);
        let html = str_to_chars("html");
        if contains_chars(&chars, &html) {
            return Kind::Html;
        }
        let pdf = str_to_chars("pdf");
        if contains_chars(&chars, &pdf) {
            return Kind::Pdf;
        }
        Kind::Unknown
    }

    /// The URL's domain, when it has one.
    pub fn get_domain(&self) -> (r: Option<String>)
        ensures
            r.deep_view() == self.url.host.deep_view(),
    {
        match &self.url.host {
            Some(h) => Some(h.clone()),
            None => None,
        }
    }

    /// The file extension for the crawling's kind; `Unknown` has none.
    pub fn get_file_extension(&self) -> (r: Option<&'static str>)
        ensures
            match r {
                Some(e) => self.spec_extension() == Some(e@),
                None => self.spec_extension() is None,
            },
    {
        match self.kind {
            Kind::Html => Some(".html"),
            Kind::Pdf => Some(".pdf"),
            Kind::Unknown => None,
        }
    }

    /// The content identifier the crawling is persisted under, absent
    /// exactly when the URL has no domain or the kind no extension.
    pub fn content_id(&self) -> (r: Option<String>)
        ensures
            match r {
                Some(id) => self.spec_content_id() == Some(id@),
                None => self.spec_content_id() is None,
            },
    {
        let ext = match self.get_file_extension() {
            Some(e) => e,
            None => { return None; },
        };
        let host = match &self.url.host {
            Some(h) => h,
            None => { return None; },
        };
        let digest = hash(self.content.as_slice());
        let mut id = host.clone();
        id.append("-");
        id.append(digest.as_str());
        id.append(ext);
        Some(id)
    }

    /// Emits the crawling through the persister under its content
    /// identifier.  A crawling with no domain or no extension cannot be
    /// written and fails; otherwise the persister's result is returned.
    pub fn write(&self) -> (r: Result<usize, CrawlerError>)
        ensures
            self.spec_content_id() is None ==> (r matches Err(e) && e matches
                CrawlerError::PersistingError(m) && m@ == "Failed to write Crawling"@),
    {
        let id = match self.content_id() {
            Some(id) => id,
            None => {
                return Err(
                    CrawlerError::PersistingError(String::from_str("Failed to write Crawling")),
                );
            },
        };
        arc_ref(&self.persister).persist(id.as_str(), self.content.as_slice())
    }

    /// Extracts the outbound links of an HTML crawling: every
    /// double-quoted href value, resolved against the page URL; `Some`
    /// exactly when the crawling is HTML and at least one link survives.
    pub fn find_urls(&self) -> (r: Option<Vec<ParsedUrl>>)
        ensures
            match r {
                Some(v) => self.kind == Kind::Html && v.deep_view() == self.spec_links()
                    && v@.len() > 0,
                None => self.kind != Kind::Html || self.spec_links().len() == 0,
            },
    {
        let is_html = match self.kind {
            Kind::Html => true,
            _ => false,
        };
        if !is_html {
            return None;
        }
        let chars = lossy_chars(self.content.as_slice());
        let caps = find_hrefs(&chars);
        let ghost base = self.url.text@;
        let ghost all = caps.deep_view();
        let n = caps.len();
        let mut links: Vec<ParsedUrl> = Vec::new();
        let mut i: usize = 0;
        proof {
            assert(all.subrange(0, n as int) =~= all);
            assert(links.deep_view() =~= Seq::<(Seq<char>, Option<Seq<char>>)>::empty());
            assert(links.deep_view() + resolve_all(base, all) =~= resolve_all(base, all));
        }
        while i < n
            invariant
                i <= n,
                n == caps@.len(),
                all == caps.deep_view(),
                base == self.url.text@,
                resolve_all(base, all) == links.deep_view() + resolve_all(
                    base,
                    all.subrange(i as int, n as int),
                ),
            decreases n - i,
        {
            let cand = chars_to_string(&caps[i]);
            proof {
                assert(cand@ == all[i as int]);
                assert(all.subrange(i as int, n as int)[0] == all[i as int]);
                assert(all.subrange(i as int, n as int).drop_first() =~= all.subrange(
                    i as int + 1,
                    n as int,
                ));
            }
            let resolved = match ParsedUrl::parse(cand.as_str()) {
                Some(u) => Some(u),
                None => self.url.join(cand.as_str()),
            };
            match resolved {
                Some(u) => {
                    let ghost old_links = links.deep_view();
                    links.push(u);
                    proof {
                        assert(links.deep_view() =~= old_links.push(u@));
                        assert(resolve_spec(base, all[i as int]) == Some(u@));
                        assert(old_links + (seq![u@] + resolve_all(
                            base,
                            all.subrange(i as int + 1, n as int),
                        )) =~= links.deep_view() + resolve_all(
                            base,
                            all.subrange(i as int + 1, n as int),
                        ));
                    }
                },
                None => {
                    proof {
                        assert(resolve_spec(base, all[i as int]) is None);
                    }
                },
            }
            i = i + 1;
        }
        proof {
            assert(all.subrange(n as int, n as int) =~= Seq::<Seq<char>>::empty());
            assert(resolve_all(base, Seq::<Seq<char>>::empty()) == Seq::<
                (Seq<char>, Option<Seq<char>>),
            >::empty());
            assert(links.deep_view() =~= links.deep_view() + resolve_all(
                base,
                all.subrange(n as int, n as int),
            ));
        }
        if links.len() > 0 {
            Some(links)
        } else {
            None
        }
    }
}

} // verus!
