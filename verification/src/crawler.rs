//! The crawl coordinator.
//!
//! The coordinator owns the frontier queue, the fetcher, the persister and
//! the worker count.  A crawl proceeds in rounds: each round dequeues up
//! to `num_threads` jobs into a batch, works each job — fetch, persist,
//! extract, admit children — and enqueues the admitted children in batch
//! order.  The crawl is done when the queue is empty at a round's end;
//! because a crawl need not terminate (revisits are possible once `seen`
//! resets), the caller drives `crawl_round` until it reports the queue
//! drained.

use crate::blacklist::{admissible, is_admissible_str};
use crate::crawling::{Crawling, Kind};
use crate::error::CrawlerError;
use crate::job::Job;
use crate::queue::{enqueue_step, keys_of, reset_step, Keyed, Queue};
use crate::shared::arc_clone;
use crate::traits::{Fetch, Persist};
use crate::urls::{url_parse, ParsedUrl};
use std::sync::Arc;
use vstd::prelude::*;
use vstd::string::StringExecFns;

verus! {

/// The frontier capacity every coordinator is built with.
pub const QUEUE_BUFFER: usize = 1000000;

/// What one worked job hands back: the crawling it built, and the admitted
/// child jobs when the content yielded links.
pub struct CrawlingResult<A: Persist, B: Fetch> {
    pub crawling: Crawling<A>,
    pub jobs: Option<Vec<Job<B>>>,
}

/// The URL texts of the resolved links that pass the admissibility
/// filter, in order.
pub open spec fn admitted_texts(links: Seq<(Seq<char>, Option<Seq<char>>)>) -> Seq<Seq<char>>
    decreases links.len(),
{
    if links.len() == 0 {
        Seq::empty()
    } else {
        let rest = admitted_texts(links.drop_first());
        if admissible(links[0].0) {
            seq![links[0].0] + rest
        } else {
            rest
        }
    }
}

/// One dequeue of the batch phase, on the key model: apply the seen
/// reset, then pop the front pending key (if any) into `seen`.
pub open spec fn batch_step(p: Seq<Seq<char>>, s: Seq<Seq<char>>, buffer: nat) -> (
    Seq<Seq<char>>,
    Seq<Seq<char>>,
) {
    let s1 = reset_step(s, buffer);
    if p.len() == 0 {
        (p, s1)
    } else {
        (p.drop_first(), s1.push(p[0]))
    }
}

/// The batch phase of one round: `rounds` dequeues in a row.  No outside
/// call takes part, so the pending and seen keys after the phase are a
/// pure function of the keys before it.
pub open spec fn batch_phase(
    p: Seq<Seq<char>>,
    s: Seq<Seq<char>>,
    buffer: nat,
    rounds: nat,
) -> (Seq<Seq<char>>, Seq<Seq<char>>)
    decreases rounds,
{
    if rounds == 0 {
        (p, s)
    } else {
        let t = batch_step(p, s, buffer);
        batch_phase(t.0, t.1, buffer, (rounds - 1) as nat)
    }
}

/// Enqueuing the keys `ks` in order, each by the queue's `enqueue_step`,
/// against the fixed seen keys `s`.
pub open spec fn enqueue_fold(
    p: Seq<Seq<char>>,
    s: Seq<Seq<char>>,
    buffer: nat,
    ks: Seq<Seq<char>>,
) -> Seq<Seq<char>>
    decreases ks.len(),
{
    if ks.len() == 0 {
        p
    } else {
        enqueue_fold(enqueue_step(p, s, buffer, ks[0]), s, buffer, ks.drop_first())
    }
}

/// Unrolling the batch phase from the back: one more dequeue is one
/// `batch_step` after the phase so far.
pub proof fn lemma_batch_phase_snoc(p: Seq<Seq<char>>, s: Seq<Seq<char>>, b: nat, i: nat)
    ensures
        batch_phase(p, s, b, (i + 1) as nat) == ({
            let t = batch_phase(p, s, b, i);
            batch_step(t.0, t.1, b)
        }),
    decreases i,
{
    let u = batch_step(p, s, b);
    if i == 0 {
        assert(batch_phase(p, s, b, 1) == batch_phase(u.0, u.1, b, 0));
    } else {
        lemma_batch_phase_snoc(u.0, u.1, b, (i - 1) as nat);
        assert(batch_phase(p, s, b, (i + 1) as nat) == batch_phase(u.0, u.1, b, i));
        assert(batch_phase(p, s, b, i) == batch_phase(u.0, u.1, b, (i - 1) as nat));
    }
}

/// Unrolling the enqueue fold from the back: one more key is one
/// `enqueue_step` after the fold so far.
pub proof fn lemma_enqueue_fold_push(
    p: Seq<Seq<char>>,
    s: Seq<Seq<char>>,
    b: nat,
    ks: Seq<Seq<char>>,
    k: Seq<char>,
)
    ensures
        enqueue_fold(p, s, b, ks.push(k)) == enqueue_step(enqueue_fold(p, s, b, ks), s, b, k),
    decreases ks.len(),
{
    if ks.len() == 0 {
        assert(ks.push(k)[0] == k);
        assert(ks.push(k).drop_first() =~= Seq::<Seq<char>>::empty());
        assert(enqueue_fold(p, s, b, ks.push(k)) == enqueue_fold(
            enqueue_step(p, s, b, k),
            s,
            b,
            Seq::<Seq<char>>::empty(),
        ));
        assert(enqueue_fold(enqueue_step(p, s, b, k), s, b, Seq::<Seq<char>>::empty())
            == enqueue_step(p, s, b, k));
        assert(enqueue_fold(p, s, b, ks) == p);
    } else {
        assert(ks.push(k)[0] == ks[0]);
        assert(ks.push(k).drop_first() =~= ks.drop_first().push(k));
        lemma_enqueue_fold_push(enqueue_step(p, s, b, ks[0]), s, b, ks.drop_first(), k);
        assert(enqueue_fold(p, s, b, ks.push(k)) == enqueue_fold(
            enqueue_step(p, s, b, ks[0]),
            s,
            b,
            ks.drop_first().push(k),
        ));
        assert(enqueue_fold(p, s, b, ks) == enqueue_fold(
            enqueue_step(p, s, b, ks[0]),
            s,
            b,
            ks.drop_first(),
        ));
    }
}

/// The batch phase drains exactly the first `min(rounds, |pending|)`
/// pending keys, in order, leaving the rest.
pub proof fn lemma_batch_phase_pending(p: Seq<Seq<char>>, s: Seq<Seq<char>>, b: nat, n: nat)
    ensures
        batch_phase(p, s, b, n).0 == (if n <= p.len() {
            p.skip(n as int)
        } else {
            Seq::<Seq<char>>::empty()
        }),
    decreases n,
{
    if n == 0 {
        assert(p.skip(0) =~= p);
    } else {
        let u = batch_step(p, s, b);
        lemma_batch_phase_pending(u.0, u.1, b, (n - 1) as nat);
        assert(batch_phase(p, s, b, n) == batch_phase(u.0, u.1, b, (n - 1) as nat));
        if p.len() == 0 {
            assert(u.0 == p);
            assert(p.skip(0) =~= p);
            assert(batch_phase(p, s, b, n).0 =~= Seq::<Seq<char>>::empty());
        } else {
            assert(u.0 == p.drop_first());
            if n <= p.len() {
                assert(p.drop_first().skip(n as int - 1) =~= p.skip(n as int));
            }
        }
    }
}

/// Builds jobs for the admitted URLs, in order; inadmissible URLs yield
/// no job and are dropped.
fn make_jobs<B: Fetch>(fetcher: &Arc<B>, urls: &Vec<ParsedUrl>) -> (r: Vec<Job<B>>)
    ensures
        keys_of(r@) == admitted_texts(urls.deep_view()),
{
    let ghost all = urls.deep_view();
    let n = urls.len();
    let mut r: Vec<Job<B>> = Vec::new();
    let mut i: usize = 0;
    proof {
        assert(all.subrange(0, n as int) =~= all);
        assert(keys_of(r@) =~= Seq::<Seq<char>>::empty());
        assert(keys_of(r@) + admitted_texts(all) =~= admitted_texts(all));
    }
    while i < n
        invariant
            i <= n,
            n == urls@.len(),
            all == urls.deep_view(),
            admitted_texts(all) == keys_of(r@) + admitted_texts(all.subrange(i as int, n as int)),
        decreases n - i,
    {
        proof {
            assert(all.subrange(i as int, n as int)[0] == all[i as int]);
            assert(all.subrange(i as int, n as int).drop_first() =~= all.subrange(
                i as int + 1,
                n as int,
            ));
        }
        let url = urls[i].duplicate();
        proof {
            assert(url.text@ == all[i as int].0);
        }
        match Job::new(arc_clone(fetcher), url) {
            Some(job) => {
                let ghost old_items = r@;
                let ghost old_keys = keys_of(r@);
                r.push(job);
                proof {
                    crate::queue::lemma_keys_of_push(old_items, job);
                    assert(keys_of(r@) == old_keys.push(all[i as int].0));
                    assert(old_keys + (seq![all[i as int].0] + admitted_texts(
                        all.subrange(i as int + 1, n as int),
                    )) =~= keys_of(r@) + admitted_texts(all.subrange(i as int + 1, n as int)));
                }
            },
            None => {},
        }
        i = i + 1;
    }
    proof {
        assert(all.subrange(n as int, n as int) =~= Seq::<
            (Seq<char>, Option<Seq<char>>),
        >::empty());
        assert(keys_of(r@) =~= keys_of(r@) + admitted_texts(all.subrange(n as int, n as int)));
    }
    r
}

/// The worker task for one job: fetch the URL, build the crawling, and
/// admit the extracted children.  A fetch failure is local: it yields a
/// fetching error and no children.  On success the crawling records the
/// job's URL and the fetched content, and the children are exactly the
/// admissible resolved links, in order.
pub fn crawl<A: Persist, B: Fetch>(
    persister: &Arc<A>,
    fetcher: &Arc<B>,
    job: &Job<B>,
) -> (r: Result<CrawlingResult<A, B>, CrawlerError>)
    ensures
        r matches Err(e) ==> (e matches CrawlerError::FetchingError(m) && m@ == "Failed to GET "@
            + job.spec_url().0),
        r matches Ok(res) ==> {
            &&& res.crawling.url@ == job.spec_url()
            &&& match res.jobs {
                Some(js) => res.crawling.kind == Kind::Html && res.crawling.spec_links().len() > 0
                    && keys_of(js@) == admitted_texts(res.crawling.spec_links()),
                None => res.crawling.kind != Kind::Html || res.crawling.spec_links().len() == 0,
            }
        },
{
    let fetched = job.fetch();
    let (content_type, content) = match fetched {
        Ok(tc) => tc,
        Err(_) => {
            let mut msg = String::from_str("Failed to GET ");
            msg.append(job.get_url().text.as_str());
            return Err(CrawlerError::FetchingError(msg));
        },
    };
    let crawling = Crawling::new(
        arc_clone(persister),
        job.get_url(),
        content_type.as_str(),
        content,
    );
    let jobs = match crawling.find_urls() {
        Some(urls) => Some(make_jobs(fetcher, &urls)),
        None => None,
    };
    Ok(CrawlingResult { crawling, jobs })
}

/// The crawl coordinator.
pub struct Crawler<A: Persist, B: Fetch> {
    pub queue: Queue<Job<B>>,
    pub num_threads: usize,
    pub persister: Arc<A>,
    pub fetcher: Arc<B>,
}

impl<A: Persist, B: Fetch> Crawler<A, B> {
    /// The coordinator's invariant: a well-formed queue and at least one
    /// worker per round.
    pub open spec fn wf(&self) -> bool {
        &&& self.queue.wf()
        &&& 1 <= self.num_threads
    }

    /// A seed URL is acceptable when it is admissible if it parses at
    /// all; an unparseable seed is reported as an error, never worked.
    pub open spec fn seed_ok(url: Seq<char>) -> bool {
        match url_parse(url) {
            Some(m) => admissible(m.0),
            None => true,
        }
    }

    /// A coordinator with an empty frontier.
    pub fn new(persister: A, fetcher: B, num_threads: usize) -> (r: Self)
        requires
            1 <= num_threads,
        ensures
            r.wf(),
            r.queue.pending().len() == 0,
            r.queue.seen_keys().len() == 0,
            r.queue.buffer == QUEUE_BUFFER,
            r.num_threads == num_threads,
            r.persister == persister,
            r.fetcher == fetcher,
    {
        Crawler {
            queue: Queue::new(QUEUE_BUFFER),
            persister: Arc::new(persister),
            fetcher: Arc::new(fetcher),
            num_threads,
        }
    }

    /// A shared handle to the persister.
    pub fn get_persister(&self) -> (r: Arc<A>)
        ensures
            r == self.persister,
    {
        arc_clone(&self.persister)
    }

    /// A shared handle to the fetcher.
    pub fn get_fetcher(&self) -> (r: Arc<B>)
        ensures
            r == self.fetcher,
    {
        arc_clone(&self.fetcher)
    }

    /// Enqueues the seed URL's job.  Fails, without touching the queue,
    /// exactly when the seed fails URL syntactic validation.
    pub fn seed(&mut self, url: &str) -> (r: Result<(), CrawlerError>)
        requires
            old(self).wf(),
            Self::seed_ok(url@),
        ensures
            final(self).wf(),
            final(self).num_threads == old(self).num_threads,
            final(self).persister == old(self).persister,
            final(self).fetcher == old(self).fetcher,
            match url_parse(url@) {
                None => {
                    &&& r matches Err(e)
                    &&& e matches CrawlerError::ParsingError(_)
                    &&& final(self).queue.pending() == old(self).queue.pending()
                    &&& final(self).queue.seen_keys() == old(self).queue.seen_keys()
                },
                Some(m) => {
                    &&& r is Ok
                    &&& final(self).queue.pending_keys() == enqueue_step(
                        old(self).queue.pending_keys(),
                        old(self).queue.seen_keys(),
                        old(self).queue.buffer as nat,
                        m.0,
                    )
                    &&& final(self).queue.seen_keys() == old(self).queue.seen_keys()
                },
            },
    {
        let parsed = match ParsedUrl::parse(url) {
            Some(p) => p,
            None => {
                return Err(CrawlerError::ParsingError(String::from_str("invalid seed URL")));
            },
        };
        let initial = Job::<B>::new(arc_clone(&self.fetcher), parsed);
        let job = initial.unwrap();
        self.queue.enqueue(job);
        Ok(())
    }

    /// Enqueues the seed URL's job if it is admissible.  Returns whether
    /// a job was enqueued; fails exactly when the seed fails URL
    /// syntactic validation.
    pub fn try_seed(&mut self, url: &str) -> (r: Result<bool, CrawlerError>)
        requires
            old(self).wf(),
        ensures
            final(self).wf(),
            final(self).num_threads == old(self).num_threads,
            final(self).persister == old(self).persister,
            final(self).fetcher == old(self).fetcher,
            match url_parse(url@) {
                None => {
                    &&& r matches Err(e)
                    &&& e matches CrawlerError::ParsingError(_)
                    &&& final(self).queue.pending() == old(self).queue.pending()
                    &&& final(self).queue.seen_keys() == old(self).queue.seen_keys()
                },
                Some(m) => if admissible(m.0) {
                    &&& r == Result::<bool, CrawlerError>::Ok(true)
                    &&& final(self).queue.pending_keys() == enqueue_step(
                        old(self).queue.pending_keys(),
                        old(self).queue.seen_keys(),
                        old(self).queue.buffer as nat,
                        m.0,
                    )
                    &&& final(self).queue.seen_keys() == old(self).queue.seen_keys()
                } else {
                    &&& r == Result::<bool, CrawlerError>::Ok(false)
                    &&& final(self).queue.pending() == old(self).queue.pending()
                    &&& final(self).queue.seen_keys() == old(self).queue.seen_keys()
                },
            },
    {
        let parsed = match ParsedUrl::parse(url) {
            Some(p) => p,
            None => {
                return Err(CrawlerError::ParsingError(String::from_str("invalid seed URL")));
            },
        };
        if !is_admissible_str(parsed.text.as_str()) {
            return Ok(false);
        }
        match self.seed(url) {
            Ok(()) => Ok(true),
            Err(e) => Err(e),
        }
    }

    /// One round of the batched worker pool: dequeue up to `num_threads`
    /// jobs, work each — fetch, persist, extract — and enqueue the
    /// admitted children in batch order.  Returns whether the queue is
    /// empty at the round's end: the crawl's termination predicate.
    ///
    /// The batch phase involves no outside call, so its effect is exact:
    /// pending and seen keys after it are `batch_phase` of the keys before
    /// it (the first `min(num_threads, |pending|)` keys move into `seen`,
    /// each dequeue applying the seen reset).  What the workers fetch
    /// decides which children exist, so of the enqueue phase this holds
    /// whatever comes back: `seen` does not change again, and the final
    /// pending keys arise from the drained pending keys by enqueue steps
    /// alone.
    pub fn crawl_round(&mut self) -> (done: bool)
        requires
            old(self).wf(),
        ensures
            final(self).wf(),
            final(self).num_threads == old(self).num_threads,
            final(self).persister == old(self).persister,
            final(self).fetcher == old(self).fetcher,
            final(self).queue.buffer == old(self).queue.buffer,
            done == (final(self).queue.pending().len() == 0),
            old(self).queue.pending().len() == 0 ==> done,
            ({
                let t = batch_phase(
                    old(self).queue.pending_keys(),
                    old(self).queue.seen_keys(),
                    old(self).queue.buffer as nat,
                    old(self).num_threads as nat,
                );
                &&& final(self).queue.seen_keys() == t.1
                &&& exists|ks: Seq<Seq<char>>|
                    final(self).queue.pending_keys() == #[trigger] enqueue_fold(
                        t.0,
                        t.1,
                        old(self).queue.buffer as nat,
                        ks,
                    )
            }),
    {
        let ghost p0 = old(self).queue.pending_keys();
        let ghost s0 = old(self).queue.seen_keys();
        let ghost b0 = old(self).queue.buffer as nat;
        let n = self.num_threads;
        let mut batch: Vec<Job<B>> = Vec::new();
        let mut i: usize = 0;
        proof {
            assert(batch_phase(p0, s0, b0, 0).0 == p0);
            assert(batch_phase(p0, s0, b0, 0).1 == s0);
        }
        while i < n
            invariant
                i <= n,
                n == old(self).num_threads,
                p0 == old(self).queue.pending_keys(),
                s0 == old(self).queue.seen_keys(),
                b0 == old(self).queue.buffer as nat,
                self.queue.wf(),
                self.num_threads == old(self).num_threads,
                self.persister == old(self).persister,
                self.fetcher == old(self).fetcher,
                self.queue.buffer == old(self).queue.buffer,
                self.queue.pending_keys() == batch_phase(p0, s0, b0, i as nat).0,
                self.queue.seen_keys() == batch_phase(p0, s0, b0, i as nat).1,
                old(self).queue.pending().len() == 0 ==> self.queue.pending().len() == 0
                    && batch@.len() == 0,
            decreases n - i,
        {
            let ghost pre_p = self.queue.pending();
            let ghost pre_keys = self.queue.pending_keys();
            let ghost pre_seen = self.queue.seen_keys();
            proof {
                lemma_batch_phase_snoc(p0, s0, b0, i as nat);
            }
            match self.queue.dequeue() {
                Some(job) => batch.push(job),
                None => {},
            }
            proof {
                if pre_p.len() > 0 {
                    crate::queue::lemma_keys_of_drop_first(pre_p);
                    assert(pre_keys[0] == pre_p[0].key());
                }
                assert(self.queue.pending_keys() == batch_step(pre_keys, pre_seen, b0).0);
                assert(self.queue.seen_keys() == batch_step(pre_keys, pre_seen, b0).1);
            }
            i = i + 1;
        }
        let ghost t0 = batch_phase(p0, s0, b0, old(self).num_threads as nat).0;
        let ghost t1 = batch_phase(p0, s0, b0, old(self).num_threads as nat).1;
        let ghost mut ks: Seq<Seq<char>> = Seq::empty();
        proof {
            assert(enqueue_fold(t0, t1, b0, ks) == t0);
        }
        let mut k: usize = 0;
        let m = batch.len();
        while k < m
            invariant
                k <= m,
                m == batch@.len(),
                t0 == batch_phase(
                    old(self).queue.pending_keys(),
                    old(self).queue.seen_keys(),
                    old(self).queue.buffer as nat,
                    old(self).num_threads as nat,
                ).0,
                t1 == batch_phase(
                    old(self).queue.pending_keys(),
                    old(self).queue.seen_keys(),
                    old(self).queue.buffer as nat,
                    old(self).num_threads as nat,
                ).1,
                b0 == old(self).queue.buffer as nat,
                self.queue.wf(),
                self.num_threads == old(self).num_threads,
                self.persister == old(self).persister,
                self.fetcher == old(self).fetcher,
                self.queue.buffer == old(self).queue.buffer,
                self.queue.seen_keys() == t1,
                self.queue.pending_keys() == enqueue_fold(t0, t1, b0, ks),
                old(self).queue.pending().len() == 0 ==> m == 0,
                old(self).queue.pending().len() == 0 ==> self.queue.pending().len() == 0,
            decreases m - k,
        {
            match crawl(&self.persister, &self.fetcher, &batch[k]) {
                Ok(res) => {
                    let _ = res.crawling.write();
                    match res.jobs {
                        Some(jobs) => {
                            let mut jobs = jobs;
                            while jobs.len() > 0
                                invariant
                                    t0 == batch_phase(
                                        old(self).queue.pending_keys(),
                                        old(self).queue.seen_keys(),
                                        old(self).queue.buffer as nat,
                                        old(self).num_threads as nat,
                                    ).0,
                                    t1 == batch_phase(
                                        old(self).queue.pending_keys(),
                                        old(self).queue.seen_keys(),
                                        old(self).queue.buffer as nat,
                                        old(self).num_threads as nat,
                                    ).1,
                                    b0 == old(self).queue.buffer as nat,
                                    self.queue.wf(),
                                    self.num_threads == old(self).num_threads,
                                    self.persister == old(self).persister,
                                    self.fetcher == old(self).fetcher,
                                    self.queue.buffer == old(self).queue.buffer,
                                    self.queue.seen_keys() == t1,
                                    self.queue.pending_keys() == enqueue_fold(t0, t1, b0, ks),
                                    k < m,
                                    old(self).queue.pending().len() == 0 ==> m == 0,
                                decreases jobs@.len(),
                            {
                                let child = jobs.remove(0);
                                let ghost old_ks = ks;
                                self.queue.enqueue(child);
                                proof {
                                    ks = old_ks.push(child.key());
                                    lemma_enqueue_fold_push(t0, t1, b0, old_ks, child.key());
                                }
                            }
                        },
                        None => {},
                    }
                },
                Err(_) => {},
            }
            k = k + 1;
        }
        self.queue.is_empty()
    }
}

} // verus!
