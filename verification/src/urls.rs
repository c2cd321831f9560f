//! Parsed absolute URLs.
//!
//! The crawler's logic reads two things from a URL: its serialization (the
//! text every filter and every equality check runs on) and its domain (the
//! host prefix of a content identifier).  `ParsedUrl` holds exactly those
//! two as plain values; the `url` crate produces them behind the two
//! trusted constructors `parse` and `join`, whose results are named by the
//! uninterpreted functions `url_parse` and `url_join`.

use vstd::prelude::*;

verus! {

/// What `url::Url::parse` returns for a string: `None` when the string is
/// not an absolute URL, else the serialization and the domain.
pub uninterp spec fn url_parse(s: Seq<char>) -> Option<(Seq<char>, Option<Seq<char>>)>;

/// What resolving `input` against the absolute URL `base` returns: `None`
/// when `base` does not parse or the resolution fails, else the
/// serialization and the domain of the resolved URL.
pub uninterp spec fn url_join(base: Seq<char>, input: Seq<char>) -> Option<
    (Seq<char>, Option<Seq<char>>),
>;

/// An absolute URL, reduced to what the crawler reads of it: its
/// serialization and, when the host is a domain name, that domain.
#[derive(Debug, Clone)]
pub struct ParsedUrl {
    /// The URL's serialization, as `url::Url::as_str` returns it.
    pub text: String,
    /// The URL's domain, as `url::Url::domain` returns it.
    pub host: Option<String>,
}

impl View for ParsedUrl {
    type V = (Seq<char>, Option<Seq<char>>);

    open spec fn view(&self) -> (Seq<char>, Option<Seq<char>>) {
        (self.text@, self.host.deep_view())
    }
}

impl DeepView for ParsedUrl {
    type V = (Seq<char>, Option<Seq<char>>);

    open spec fn deep_view(&self) -> (Seq<char>, Option<Seq<char>>) {
        self@
    }
}

impl ParsedUrl {
    /// Parse an absolute URL from a string.
    ///
    /// Relies on `url::Url::parse` for validation, and on `Url::as_str`
    /// and `Url::domain` for the serialization and the domain.
    #[verifier::external_body]
    pub fn parse(s: &str) -> (r: Option<ParsedUrl>)
        ensures
            match r {
                Some(u) => url_parse(s@) == Some(u@),
                None => url_parse(s@) is None,
            },
    {
        match url::Url::parse(s) {
            Ok(u) => {
                let host = u.domain().map(|d| d.to_string());
                Some(ParsedUrl { text: u.as_str().to_string(), host })
            },
            Err(_) => None,
        }
    }

    /// Resolve `input` against this URL, per RFC 3986 relative resolution.
    ///
    /// Relies on `url::Url::parse` and `url::Url::join`, and on
    /// `Url::as_str` and `Url::domain` for the result's fields.
    #[verifier::external_body]
    pub fn join(&self, input: &str) -> (r: Option<ParsedUrl>)
        ensures
            match r {
                Some(u) => url_join(self.text@, input@) == Some(u@),
                None => url_join(self.text@, input@) is None,
            },
    {
        let base = match url::Url::parse(self.text.as_str()) {
            Ok(b) => b,
            Err(_) => { return None; },
        };
        match base.join(input) {
            Ok(u) => {
                let host = u.domain().map(|d| d.to_string());
                Some(ParsedUrl { text: u.as_str().to_string(), host })
            },
            Err(_) => None,
        }
    }

    /// An owned copy, field for field.
    pub fn duplicate(&self) -> (r: ParsedUrl)
        ensures
            r == *self,
    {
        let host = match &self.host {
            Some(h) => Some(h.clone()),
            None => None,
        };
        ParsedUrl { text: self.text.clone(), host }
    }
}

impl PartialEq for ParsedUrl {
    /// Two parsed URLs are equal iff their serializations and domains are.
    fn eq(&self, other: &ParsedUrl) -> (r: bool) {
        let texts_eq = self.text == other.text;
        let hosts_eq = match (&self.host, &other.host) {
            (None, None) => true,
            (Some(a), Some(b)) => *a == *b,
            _ => false,
        };
        texts_eq && hosts_eq
    }
}

impl vstd::std_specs::cmp::PartialEqSpecImpl for ParsedUrl {
    open spec fn obeys_eq_spec() -> bool {
        true
    }

    open spec fn eq_spec(&self, other: &ParsedUrl) -> bool {
        self@ == other@
    }
}

} // verus!
