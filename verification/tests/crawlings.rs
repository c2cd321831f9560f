use crawler::crawling::{Crawling, Kind};
use crawler::error::CrawlerError;
use crawler::traits::Persist;
use crawler::urls::ParsedUrl;
use std::cell::RefCell;
use std::collections::HashMap;
use std::sync::Arc;

struct MockPersister {
    dest: RefCell<HashMap<String, String>>,
}

impl Default for MockPersister {
    fn default() -> Self {
        MockPersister { dest: RefCell::new(HashMap::<String, String>::new()) }
    }
}

impl Persist for MockPersister {
    fn persist(&self, content_id: &str, content: &[u8]) -> Result<usize, CrawlerError> {
        let mut dest = self.dest.borrow_mut();
        dest.insert(
            content_id.to_string(),
            String::from_utf8_lossy(content).to_string(),
        );
        Ok(content_id.len() + content.len())
    }
}

fn get_url(url: &str) -> ParsedUrl {
    ParsedUrl::parse(url).unwrap()
}

fn get_mock_persister() -> Arc<MockPersister> {
    Arc::new(MockPersister::default())
}

#[test]
fn html_crawling_find_urls_some_urls() {
    let url = get_url("http://example.com");
    let persister = get_mock_persister();

    let crawling = Crawling::new(
        persister,
        url,
        "text/html",
        b"<html>\
        Read the <a href=\"news\">News</a>, go back to\
        <a href=\"/home?foo=bar&baz=qux#foo\">Home</a> or visit\
        <a href=\"https://jdoe.com\">Johns Website</a>.\
        <a href=\"mailto:jdoe@example.com\">Contanct Me</a>\
        </html>"
            .to_vec(),
    );

    assert_eq!(crawling.kind, Kind::Html);
    assert_eq!(
        crawling.find_urls(),
        Some(vec![
            get_url("http://example.com/news"),
            get_url("http://example.com/home?foo=bar&baz=qux#foo"),
            get_url("https://jdoe.com"),
            get_url("mailto:jdoe@example.com")
        ])
    );
}

#[test]
fn html_crawling_find_urls_no_urls() {
    let url = get_url("http://example.com");
    let persister = get_mock_persister();

    let crawling = Crawling::new(
        persister,
        url,
        "text/html",
        b"<html>Hello World</html>".to_vec(),
    );

    assert_eq!(crawling.kind, Kind::Html);
    assert_eq!(crawling.find_urls(), None);
}

#[test]
fn html_crawling_find_urls_single_quotes() {
    let url = get_url("http://example.com");
    let persister = get_mock_persister();

    let crawling = Crawling::new(
        persister,
        url,
        "text/html",
        b"<html><a href='http://google.com'></a></html>".to_vec(),
    );

    assert_eq!(crawling.kind, Kind::Html);
    assert_eq!(crawling.find_urls(), None);
}

#[test]
fn unknown_crawling_find_urls_invalid_urls() {
    let url = get_url("http://example.com");
    let persister = get_mock_persister();

    let crawling = Crawling::new(
        persister,
        url,
        "application/foo",
        b"This is not valid <a href=\"html\">HTML</a>!\"".to_vec(),
    );

    assert_eq!(crawling.kind, Kind::Unknown);
    assert_eq!(crawling.find_urls(), None);
}

#[test]
fn identify_kind_html() {
    let url = get_url("http://example.com");
    let persister = get_mock_persister();

    let crawling = Crawling::new(
        persister,
        url.clone(),
        "text/html",
        b"<!doctype html>Foo Bar</html>".to_vec(),
    );

    assert_eq!(crawling.kind, Kind::Html);
}

#[test]
fn identify_kind_pdf() {
    let url = get_url("http://example.com/foo.pdf");
    let persister = get_mock_persister();

    let crawling = Crawling::new(
        persister,
        url.clone(),
        "application/pdf",
        (&[1, 2, 3]).to_vec(),
    );

    assert_eq!(crawling.kind, Kind::Pdf);
}

#[test]
fn identify_kind_unknown() {
    let url = get_url("http://example.com");
    let persister = get_mock_persister();

    let crawling = Crawling::new(persister, url, "application/foo", (&[1, 2, 3, 4, 5, 6]).to_vec());

    assert_eq!(crawling.kind, Kind::Unknown);
}

#[test]
fn identify_kind_is_total_and_case_sensitive() {
    assert_eq!(Crawling::<MockPersister>::identify_kind(""), Kind::Unknown);
    assert_eq!(Crawling::<MockPersister>::identify_kind("text/HTML"), Kind::Unknown);
    assert_eq!(Crawling::<MockPersister>::identify_kind("xhtml+xml"), Kind::Html);
    assert_eq!(
        Crawling::<MockPersister>::identify_kind("application/pdf; charset=x"),
        Kind::Pdf
    );
}

#[test]
fn crawling_write() {
    let url = get_url("http://example.com");
    let persister = get_mock_persister();

    let crawling = Crawling::new(persister, url, "text/html", b"Hello World!".to_vec());
    let result = crawling.write();

    let dest_ref = crawling.persister.dest.borrow();

    assert_eq!(result.unwrap(), 49);
    assert_eq!(dest_ref.len(), 1);
    assert_eq!(
        dest_ref.get("example.com-12596474995416492747.html").unwrap(),
        "Hello World!"
    );
}

#[test]
fn crawling_write_unknown_kind_fails() {
    let url = get_url("http://example.com");
    let persister = get_mock_persister();

    let crawling = Crawling::new(persister, url, "application/foo", b"Hello World!".to_vec());
    let result = crawling.write();

    assert_eq!(
        result.unwrap_err(),
        CrawlerError::PersistingError("Failed to write Crawling".to_string())
    );
    assert_eq!(crawling.persister.dest.borrow().len(), 0);
}

#[test]
fn crawling_write_no_domain_fails() {
    // A data: URL has no domain, so there is nothing to persist under.
    let url = get_url("data:text/plain,Stuff");
    let persister = get_mock_persister();

    let crawling = Crawling::new(persister, url, "text/html", b"Hello World!".to_vec());
    let result = crawling.write();

    assert_eq!(
        result.unwrap_err(),
        CrawlerError::PersistingError("Failed to write Crawling".to_string())
    );
}

#[test]
fn crawling_get_domain() {
    let url = get_url("http://example.com/foo?bar&baz=qux#some");
    let persister = get_mock_persister();

    let crawling = Crawling::new(persister, url, "text/html", b"Hello World!".to_vec());

    assert_eq!(crawling.get_domain(), Some("example.com".to_string()));
}

#[test]
fn crawling_get_file_extension() {
    let url = get_url("http://example.com");
    let persister = get_mock_persister();

    let crawling_html = Crawling::new(
        persister.clone(),
        url.clone(),
        "text/html",
        b"Hello World!".to_vec(),
    );
    let crawling_pdf = Crawling::new(
        persister.clone(),
        url.clone(),
        "application/pdf",
        (&[1, 2, 3]).to_vec(),
    );
    let crawling_unknown = Crawling::new(
        persister.clone(),
        url.clone(),
        "application/foo",
        (&[1, 2, 3]).to_vec(),
    );

    assert_eq!(crawling_html.get_file_extension(), Some(".html"));
    assert_eq!(crawling_pdf.get_file_extension(), Some(".pdf"));
    assert_eq!(crawling_unknown.get_file_extension(), None);
}

#[test]
fn crawling_content_id_uses_digest() {
    let url = get_url("http://example.com");
    let persister = get_mock_persister();
    let crawling = Crawling::new(persister, url, "text/html", b"Hello World!".to_vec());
    let id = crawling.content_id().unwrap();
    assert_eq!(id, "example.com-12596474995416492747.html");
}
