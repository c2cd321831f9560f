//! The static blacklists and the job admissibility filter.
//!
//! A URL is admissible iff it contains no blacklisted extension token
//! (matched as the substring `".{ext}"`) and no blacklisted domain token
//! (matched as the substring `"{domain}."`).  The same extension tokens,
//! matched bare, form the content-type blacklist used by the default
//! fetcher against the MIME string a server declares.

use crate::chars::{contains_chars, contains_sub, str_to_chars};
use vstd::prelude::*;

verus! {

/// The blacklisted extension tokens, each with the leading dot it is
/// matched with inside a URL.
pub open spec fn extension_blacklist() -> Seq<Seq<char>> {
    seq![
        ".css"@,
        ".js"@,
        ".png"@,
        ".jpg"@,
        ".jpeg"@,
        ".gif"@,
        ".tiff"@,
        ".ico"@,
        ".svg"@,
        ".json"@,
        ".woff2"@,
        ".csv"@,
        ".xls"@,
        ".xlsx"@,
        ".xml"@,
    ]
}

/// The blacklisted domain tokens, each with the trailing dot it is
/// matched with inside a URL.
pub open spec fn domain_blacklist() -> Seq<Seq<char>> {
    seq![
        "google."@,
        "google-analytics."@,
        "googleapis."@,
        "yahoo."@,
        "bing."@,
        "facebook."@,
        "twitter."@,
    ]
}

/// The bare extension tokens, matched as substrings of a declared MIME
/// content-type string by the default fetcher.
pub open spec fn content_type_blacklist() -> Seq<Seq<char>> {
    seq![
        "css"@,
        "js"@,
        "png"@,
        "jpg"@,
        "jpeg"@,
        "gif"@,
        "tiff"@,
        "ico"@,
        "svg"@,
        "json"@,
        "woff2"@,
        "csv"@,
        "xls"@,
        "xlsx"@,
        "xml"@,
    ]
}

/// A URL is admissible iff it contains no blacklisted extension token and
/// no blacklisted domain token.
pub open spec fn admissible(url: Seq<char>) -> bool {
    &&& forall|i: int|
        0 <= i < extension_blacklist().len() ==> !contains_sub(
            url,
            #[trigger] extension_blacklist()[i],
        )
    &&& forall|i: int|
        0 <= i < domain_blacklist().len() ==> !contains_sub(url, #[trigger] domain_blacklist()[i])
}

/// A declared content type is blacklisted iff it contains one of the bare
/// extension tokens.
pub open spec fn content_type_blacklisted_spec(content_type: Seq<char>) -> bool {
    exists|i: int|
        0 <= i < content_type_blacklist().len() && contains_sub(
            content_type,
            #[trigger] content_type_blacklist()[i],
        )
}

/// The extension blacklist as character vectors, dotted as matched in URLs.
fn extension_tokens() -> (r: Vec<Vec<char>>)
    ensures
        r.deep_view() == extension_blacklist(),
{
    let mut r: Vec<Vec<char>> = Vec::new();
    r.push(str_to_chars(".css"));
    r.push(str_to_chars(".js"));
    r.push(str_to_chars(".png"));
    r.push(str_to_chars(".jpg"));
    r.push(str_to_chars(".jpeg"));
    r.push(str_to_chars(".gif"));
    r.push(str_to_chars(".tiff"));
    r.push(str_to_chars(".ico"));
    r.push(str_to_chars(".svg"));
    r.push(str_to_chars(".json"));
    r.push(str_to_chars(".woff2"));
    r.push(str_to_chars(".csv"));
    r.push(str_to_chars(".xls"));
    r.push(str_to_chars(".xlsx"));
    r.push(str_to_chars(".xml"));
    proof {
        assert(r.deep_view() =~~= extension_blacklist());
    }
    r
}

/// The domain blacklist as character vectors, dotted as matched in URLs.
fn domain_tokens() -> (r: Vec<Vec<char>>)
    ensures
        r.deep_view() == domain_blacklist(),
{
    let mut r: Vec<Vec<char>> = Vec::new();
    r.push(str_to_chars("google."));
    r.push(str_to_chars("google-analytics."));
    r.push(str_to_chars("googleapis."));
    r.push(str_to_chars("yahoo."));
    r.push(str_to_chars("bing."));
    r.push(str_to_chars("facebook."));
    r.push(str_to_chars("twitter."));
    proof {
        assert(r.deep_view() =~~= domain_blacklist());
    }
    r
}

/// The content-type blacklist as character vectors, bare tokens.
fn content_type_tokens() -> (r: Vec<Vec<char>>)
    ensures
        r.deep_view() == content_type_blacklist(),
{
    let mut r: Vec<Vec<char>> = Vec::new();
    r.push(str_to_chars("css"));
    r.push(str_to_chars("js"));
    r.push(str_to_chars("png"));
    r.push(str_to_chars("jpg"));
    r.push(str_to_chars("jpeg"));
    r.push(str_to_chars("gif"));
    r.push(str_to_chars("tiff"));
    r.push(str_to_chars("ico"));
    r.push(str_to_chars("svg"));
    r.push(str_to_chars("json"));
    r.push(str_to_chars("woff2"));
    r.push(str_to_chars("csv"));
    r.push(str_to_chars("xls"));
    r.push(str_to_chars("xlsx"));
    r.push(str_to_chars("xml"));
    proof {
        assert(r.deep_view() =~~= content_type_blacklist());
    }
    r
}

/// Does `hay` contain any of the given tokens?
fn contains_any(hay: &Vec<char>, tokens: &Vec<Vec<char>>) -> (r: bool)
    ensures
        r == exists|i: int|
            0 <= i < tokens.deep_view().len() && contains_sub(
                hay@,
                #[trigger] tokens.deep_view()[i],
            ),
{
    let n = tokens.len();
    let mut i: usize = 0;
    while i < n
        invariant
            i <= n,
            n == tokens@.len(),
            forall|k: int| 0 <= k < i ==> !contains_sub(hay@, #[trigger] tokens.deep_view()[k]),
        decreases n - i,
    {
        let hit = contains_chars(hay, &tokens[i]);
        proof {
            assert(tokens.deep_view()[i as int] =~= tokens@[i as int]@);
        }
        if hit {
            return true;
        }
        i = i + 1;
    }
    false
}

/// The admissibility filter on the characters of a URL.
pub fn is_admissible(url: &Vec<char>) -> (r: bool)
    ensures
        r == admissible(url@),
{
    let exts = extension_tokens();
    if contains_any(url, &exts) {
        return false;
    }
    let doms = domain_tokens();
    if contains_any(url, &doms) {
        return false;
    }
    true
}

/// The admissibility filter on a URL string.
pub fn is_admissible_str(url: &str) -> (r: bool)
    ensures
        r == admissible(url@),
{
    let chars = str_to_chars(url);
    is_admissible(&chars)
}

/// The default fetcher's content-type check: is the declared MIME string
/// blacklisted?
pub fn content_type_blacklisted(content_type: &str) -> (r: bool)
    ensures
        r == content_type_blacklisted_spec(content_type@),
{
    let chars = str_to_chars(content_type);
    let tokens = content_type_tokens();
    contains_any(&chars, &tokens)
}

} // verus!
