use crawler::crawler::Crawler;
use crawler::error::CrawlerError;
use crawler::traits::{Fetch, Persist};
use std::sync::Mutex;

#[derive(Clone, Eq, PartialEq, Hash)]
struct MockFetcher;

impl MockFetcher {
    pub fn new() -> Self {
        MockFetcher
    }
}

impl Fetch for MockFetcher {
    fn fetch(&self, _url: &str) -> Result<(String, Vec<u8>), CrawlerError> {
        let content_type = "text/html".to_string();
        let content = br###"
            <html>
                <body>
                    <main>
                        <h1>Welcome</h1>
                        <header>
                            <a href="https://example.com/about">About</a>
                        <header>
                    
                        <h2>The Doe Family</h2>
                        <a href="https://www.doe.com">The Does</a>
                        <a href="http://john.doe.com/about">John Doe</a>
                        <a href="http://jane.doe.com/about">Jane Doe</a>
                    </main>
                    
                    <footer>
                        <a href="https://example.com/imprint">Imprint</a>
                    </footer>
                </body>
            </html>
        "###
        .to_vec();

        Ok((content_type, content))
    }

    fn get_content_type_blacklist(&self) -> Option<Vec<&'static str>> {
        None
    }
}

struct MockPersister {
    dest: Mutex<Vec<String>>,
}

impl MockPersister {
    fn new() -> Self {
        MockPersister { dest: Mutex::new(Vec::<String>::new()) }
    }
}

impl Persist for MockPersister {
    fn persist(&self, content_id: &str, _content: &[u8]) -> Result<usize, CrawlerError> {
        let mut dest = self.dest.lock().unwrap();
        dest.push(content_id.to_string());
        Ok(content_id.len())
    }
}

#[test]
fn integration() {
    let url = "http://example.com";
    let num_threads: usize = 2;

    let persister = MockPersister::new();
    let fetcher = MockFetcher::new();

    let mut crawler = Crawler::new(persister, fetcher, num_threads);
    assert_eq!(crawler.try_seed(url), Ok(true));
    loop {
        if crawler.crawl_round() {
            break;
        }
    }

    let persister_ref = crawler.get_persister();
    let ids_guard = persister_ref.dest.lock().unwrap();

    let mut values: Vec<String> = ids_guard.clone();
    values.sort();

    // the content our `MockFetcher` returns has 5 urls. Including the starting URL we have a total
    // of 6 URLs the crawler should crawl
    assert_eq!(values.len(), 6);
    assert_eq!(
        values,
        vec![
            "example.com-5364512737893576011.html",
            "example.com-5364512737893576011.html",
            "example.com-5364512737893576011.html",
            "jane.doe.com-5364512737893576011.html",
            "john.doe.com-5364512737893576011.html",
            "www.doe.com-5364512737893576011.html"
        ]
    )
}

#[test]
fn integration_single_worker() {
    // With one worker per round the same six URLs are persisted.
    let persister = MockPersister::new();
    let fetcher = MockFetcher::new();

    let mut crawler = Crawler::new(persister, fetcher, 1);
    assert_eq!(crawler.try_seed("http://example.com"), Ok(true));
    loop {
        if crawler.crawl_round() {
            break;
        }
    }

    let persister_ref = crawler.get_persister();
    let ids = persister_ref.dest.lock().unwrap();
    assert_eq!(ids.len(), 6);
}

#[test]
fn seed_rejects_invalid_url() {
    let persister = MockPersister::new();
    let fetcher = MockFetcher::new();
    let mut crawler = Crawler::new(persister, fetcher, 1);
    match crawler.try_seed("not a url") {
        Err(CrawlerError::ParsingError(_)) => {}
        other => panic!("expected a parsing error, got {:?}", other),
    }
    assert!(crawler.queue.is_empty());
}

#[test]
fn seed_rejects_blacklisted_url() {
    let persister = MockPersister::new();
    let fetcher = MockFetcher::new();
    let mut crawler = Crawler::new(persister, fetcher, 1);
    assert_eq!(crawler.try_seed("http://google.com/"), Ok(false));
    assert!(crawler.queue.is_empty());
}
