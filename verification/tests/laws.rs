//! Concrete scenarios for the library's stated laws, and checks that each
//! trusted boundary actually transforms its input.

use crawler::blacklist::{content_type_blacklisted, is_admissible_str};
use crawler::crawler::crawl;
use crawler::error::CrawlerError;
use crawler::job::Job;
use crawler::queue::Queue;
use crawler::shared::hash;
use crawler::traits::{Fetch, MainFetcher};
use crawler::urls::ParsedUrl;
use std::sync::Arc;

#[derive(Eq, PartialEq, Hash, Clone, Debug, Default)]
struct MockFetcher;

impl Fetch for MockFetcher {
    fn fetch(&self, _url: &str) -> Result<(String, Vec<u8>), CrawlerError> {
        Ok(("text/html".to_string(), vec![]))
    }

    fn get_content_type_blacklist(&self) -> Option<Vec<&'static str>> {
        None
    }
}

fn to_job(url: &str) -> Job<MockFetcher> {
    Job::new(Arc::new(MockFetcher), ParsedUrl::parse(url).unwrap()).unwrap()
}

#[test]
fn job_construction_idempotent() {
    // Two constructions from the same URL both succeed and yield equal
    // jobs; from an inadmissible URL both fail.
    let url = "http://example.com/page";
    let a = Job::<MockFetcher>::new(Arc::new(MockFetcher), ParsedUrl::parse(url).unwrap());
    let b = Job::<MockFetcher>::new(Arc::new(MockFetcher), ParsedUrl::parse(url).unwrap());
    assert_eq!(a.unwrap(), b.unwrap());

    let bad = "http://example.com/style.css";
    assert!(Job::<MockFetcher>::new(Arc::new(MockFetcher), ParsedUrl::parse(bad).unwrap())
        .is_none());
    assert!(Job::<MockFetcher>::new(Arc::new(MockFetcher), ParsedUrl::parse(bad).unwrap())
        .is_none());
}

#[test]
fn pending_and_seen_never_exceed_buffer() {
    let mut q: Queue<Job<MockFetcher>> = Queue::new(3);
    for i in 0..20usize {
        q.enqueue(to_job(&format!("http://example.com/{}", i)));
        assert!(q.queue.len() <= 3);
        assert!(q.seen.len() <= 3);
        if i % 3 == 0 {
            q.dequeue();
            assert!(q.queue.len() <= 3);
            assert!(q.seen.len() <= 3);
        }
    }
}

#[test]
fn enqueue_twice_yields_one_pending_element() {
    let mut q: Queue<Job<MockFetcher>> = Queue::new(10);
    let j = to_job("http://example.com/twice");
    q.enqueue(j.clone());
    q.enqueue(j.clone());
    assert_eq!(q.queue.len(), 1);
    assert_eq!(q.dequeue(), Some(j));
    assert_eq!(q.dequeue(), None);
}

#[test]
fn admissibility_scenarios() {
    for ext in ["css", "png", "xlsx", "xml"] {
        let url = format!("http://example.com/foo.{}", ext);
        assert!(!is_admissible_str(&url), "{}", url);
    }
    for dom in ["google", "facebook", "bing"] {
        let url = format!("http://{}.com/anything", dom);
        assert!(!is_admissible_str(&url), "{}", url);
    }
    assert!(is_admissible_str("http://example.com/index.html"));
}

#[test]
fn content_type_blacklist_scenarios() {
    assert!(content_type_blacklisted("text/css"));
    assert!(content_type_blacklisted("image/png"));
    assert!(content_type_blacklisted("application/json; charset=utf-8"));
    assert!(!content_type_blacklisted("text/html"));
    assert!(!content_type_blacklisted("application/pdf"));
}

#[test]
fn main_fetcher_exposes_blacklist() {
    let tokens = MainFetcher::new().get_content_type_blacklist().unwrap();
    assert_eq!(tokens.len(), 15);
    assert!(tokens.contains(&"css"));
    assert!(tokens.contains(&"xml"));
    assert!(!tokens.contains(&"html"));
}

#[test]
fn error_messages_carried_by_every_kind() {
    let errors = vec![
        CrawlerError::ParsingError("p".to_string()),
        CrawlerError::FetchingError("f".to_string()),
        CrawlerError::PersistingError("s".to_string()),
        CrawlerError::RequestError("r".to_string()),
        CrawlerError::ContentTypeError("c".to_string()),
    ];
    let messages: Vec<&String> = errors.iter().map(|e| e.message()).collect();
    assert_eq!(messages, vec!["p", "f", "s", "r", "c"]);
}

#[test]
fn url_parse_normalizes() {
    // The parse boundary hands back the URL's serialization, not its input.
    let u = ParsedUrl::parse("https://jdoe.com").unwrap();
    assert_eq!(u.text, "https://jdoe.com/");
    assert_eq!(u.host, Some("jdoe.com".to_string()));
    assert!(ParsedUrl::parse("not a url").is_none());
    assert!(ParsedUrl::parse("/relative/only").is_none());
    let ip = ParsedUrl::parse("http://127.0.0.1/x").unwrap();
    assert_eq!(ip.host, None);
}

#[test]
fn url_join_resolves_relative_references() {
    let base = ParsedUrl::parse("http://example.com/a/b").unwrap();
    assert_eq!(base.join("c").unwrap().text, "http://example.com/a/c");
    assert_eq!(base.join("/root").unwrap().text, "http://example.com/root");
    assert_eq!(base.join("http://other.com/x").unwrap().text, "http://other.com/x");
    assert!(base.join("http://[bad").is_none());
}

#[test]
fn hash_digests_rather_than_echoes() {
    let a = hash(b"Hello World!");
    assert_eq!(a, "12596474995416492747");
    let b = hash(b"Hello World?");
    assert_ne!(a, b);
    assert_eq!(hash(b"Hello World!"), a);
}

#[derive(Eq, PartialEq, Hash, Clone, Debug, Default)]
struct FailingFetcher;

impl Fetch for FailingFetcher {
    fn fetch(&self, url: &str) -> Result<(String, Vec<u8>), CrawlerError> {
        Err(CrawlerError::RequestError(format!("503 for {}", url)))
    }

    fn get_content_type_blacklist(&self) -> Option<Vec<&'static str>> {
        None
    }
}

#[derive(Eq, PartialEq, Hash, Clone, Debug, Default)]
struct LinkingFetcher;

impl Fetch for LinkingFetcher {
    fn fetch(&self, _url: &str) -> Result<(String, Vec<u8>), CrawlerError> {
        let content = b"<a href=\"http://google.com/tracker\">t</a>\
            <a href=\"http://example.com/next.css\">c</a>\
            <a href=\"http://example.com/next\">n</a>"
            .to_vec();
        Ok(("text/html".to_string(), content))
    }

    fn get_content_type_blacklist(&self) -> Option<Vec<&'static str>> {
        None
    }
}

struct NullPersister;

impl crawler::traits::Persist for NullPersister {
    fn persist(&self, content_id: &str, _content: &[u8]) -> Result<usize, CrawlerError> {
        Ok(content_id.len())
    }
}

#[test]
fn crawl_failure_yields_fetching_error_and_no_children() {
    let persister = Arc::new(NullPersister);
    let fetcher = Arc::new(FailingFetcher);
    let job = Job::new(fetcher.clone(), ParsedUrl::parse("http://example.com/x").unwrap())
        .unwrap();
    match crawl(&persister, &fetcher, &job) {
        Err(CrawlerError::FetchingError(m)) => {
            assert_eq!(m, "Failed to GET http://example.com/x");
        }
        other => panic!("expected a fetching error, got {:?}", other.map(|_| ())),
    }
}

#[test]
fn crawl_admits_only_admissible_children() {
    let persister = Arc::new(NullPersister);
    let fetcher = Arc::new(LinkingFetcher);
    let job = Job::new(fetcher.clone(), ParsedUrl::parse("http://example.com/").unwrap())
        .unwrap();
    let result = crawl(&persister, &fetcher, &job).unwrap();
    let jobs = result.jobs.unwrap();
    // the tracker domain and the stylesheet extension are blacklisted
    assert_eq!(jobs.len(), 1);
    assert_eq!(jobs[0].get_url().text, "http://example.com/next");
}

#[test]
fn job_get_url_copies() {
    let j = to_job("http://example.com/page");
    let u = j.get_url();
    assert_eq!(u.text, "http://example.com/page");
    assert_eq!(u.host, Some("example.com".to_string()));
}
