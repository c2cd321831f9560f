//! The href scanner against the reference regular expression.

use crawler::links::find_hrefs;
use regex::Regex;

fn reference_captures(s: &str) -> Vec<String> {
    let re = Regex::new(r#"\s*(?i)href\s*=\s*("([^"]*)"|'[^']*'|([^'">\s]+))"#).unwrap();
    re.captures_iter(s)
        .filter_map(|cap| cap.get(2).map(|m| m.as_str().to_string()))
        .collect()
}

fn scanner_captures(s: &str) -> Vec<String> {
    let chars: Vec<char> = s.chars().collect();
    find_hrefs(&chars)
        .into_iter()
        .map(|v| v.into_iter().collect::<String>())
        .collect()
}

fn check(s: &str) {
    assert_eq!(scanner_captures(s), reference_captures(s), "input: {:?}", s);
}

#[test]
fn scanner_matches_reference_on_plain_pages() {
    check("<a href=\"news\">News</a>");
    check("<a href=\"a\">x</a><a href=\"b\">y</a>");
    check("no links at all");
    check("");
    check("<html>Hello World</html>");
}

#[test]
fn scanner_matches_reference_on_quote_forms() {
    check("<a href='single'>s</a>");
    check("<a href=unquoted>u</a>");
    check("<a href=\"double\">d</a> and <a href='single'> and <a href=bare>");
    check("href=\"\"");
    check("href=\"unterminated");
    check("href='unterminated");
    check("href=>");
    check("href= >");
    check("href");
    check("href =");
}

#[test]
fn scanner_matches_reference_on_spacing_and_case() {
    check("HREF=\"caps\"");
    check("hReF  =   \"mixed\"");
    check("href\t=\n\"ws\"");
    check("  href=\"lead\"");
    check("xhref=\"embedded\"");
    check("hrefhref=\"double\"");
    check("href=href=\"chain\"");
}

#[test]
fn scanner_matches_reference_on_adversarial_text() {
    check("<a href=\"a\"><a href='b'><a href=c><a href=\"d\">");
    check("href='a' href=\"b\"");
    check("href=\"a'b\" href='a\"b'");
    check("text href = \"x\" more href=y end href=\"z");
    check("h ref=\"no\" hre f=\"no\"");
    check("\u{a0}href=\"nbsp\"");
    check("href\u{2009}=\u{2009}\"thin\"");
    check("<a href=\"n\u{00e9}ws/\u{4e16}\u{754c}\">unicode</a>");
}

#[test]
fn scanner_single_quoted_not_extracted() {
    assert_eq!(scanner_captures("<a href='http://google.com'></a>"), Vec::<String>::new());
}

#[test]
fn scanner_unquoted_not_extracted() {
    assert_eq!(scanner_captures("<a href=http://plain.example></a>"), Vec::<String>::new());
}

#[test]
fn scanner_scan_resumes_after_match() {
    assert_eq!(
        scanner_captures("href=\"first\" junk href=\"second\""),
        vec!["first".to_string(), "second".to_string()]
    );
}
