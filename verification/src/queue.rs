//! The frontier queue: a bounded, deduplicating FIFO.
//!
//! `Queue` pairs an ordered `pending` sequence with a `seen` set of keys
//! already dequeued, both capped at `buffer` elements.  `enqueue` first
//! evicts the front when `pending` is at capacity, then appends the value
//! unless its key is already pending or seen.  `dequeue` clears `seen`
//! when it is at capacity, then pops the front of `pending` and records
//! its key in `seen`.
//!
//! The module states the queue's laws as proof functions over the pure
//! transition functions `enqueue_step` and `reset_step` that the
//! executable operations are proved to implement.

use vstd::prelude::*;

verus! {

/// A value the frontier can deduplicate: it is identified by a character
/// key, which it can hand out as a string and compare against another
/// value's key.
pub trait Keyed: Sized {
    /// The key this value is deduplicated by.
    spec fn key(&self) -> Seq<char>;

    /// Returns the key as an owned string.
    fn key_string(&self) -> (r: String)
        ensures
            r@ == self.key(),
    ;

    /// Do the two values share a key?
    fn same_key(&self, other: &Self) -> (r: bool)
        ensures
            r == (self.key() == other.key()),
    ;
}

/// The keys of a sequence of values, in order.
pub open spec fn keys_of<T: Keyed>(s: Seq<T>) -> Seq<Seq<char>> {
    s.map_values(|t: T| t.key())
}

/// No key occurs twice.
pub open spec fn distinct_keys(s: Seq<Seq<char>>) -> bool {
    forall|i: int, j: int| 0 <= i < j < s.len() ==> s[i] != s[j]
}

/// The eviction `enqueue` applies before anything else: at capacity the
/// front (oldest) element is dropped, unconditionally.
pub open spec fn evict_step<T>(p: Seq<T>, buffer: nat) -> Seq<T> {
    if p.len() == buffer {
        p.drop_first()
    } else {
        p
    }
}

/// What `enqueue` does to the pending keys: evict at capacity, then
/// append the key unless it is already seen or already pending.
pub open spec fn enqueue_step(
    p: Seq<Seq<char>>,
    s: Seq<Seq<char>>,
    buffer: nat,
    k: Seq<char>,
) -> Seq<Seq<char>> {
    let p1 = evict_step(p, buffer);
    if s.contains(k) || p1.contains(k) {
        p1
    } else {
        p1.push(k)
    }
}

/// What `dequeue` does to the seen keys before popping: a wholesale clear
/// when `seen` is exactly at capacity.
pub open spec fn reset_step(s: Seq<Seq<char>>, buffer: nat) -> Seq<Seq<char>> {
    if s.len() == buffer {
        Seq::empty()
    } else {
        s
    }
}

/// How often `k` occurs in `p`.
pub open spec fn key_count(p: Seq<Seq<char>>, k: Seq<char>) -> nat
    decreases p.len(),
{
    if p.len() == 0 {
        0
    } else {
        key_count(p.drop_first(), k) + (if p[0] == k {
            1nat
        } else {
            0nat
        })
    }
}

/// A bounded, deduplicating FIFO of values keyed by `Keyed::key`.
///
/// `queue` holds the pending values in FIFO order; `seen` holds the keys
/// of values already dequeued, as strings; `buffer` caps both.
pub struct Queue<T: Keyed> {
    pub queue: Vec<T>,
    pub seen: Vec<String>,
    pub buffer: usize,
}

impl<T: Keyed> Queue<T> {
    /// The pending values, front first.
    pub open spec fn pending(&self) -> Seq<T> {
        self.queue@
    }

    /// The keys of the pending values, front first.
    pub open spec fn pending_keys(&self) -> Seq<Seq<char>> {
        keys_of(self.queue@)
    }

    /// The keys already dequeued since the last reset.
    pub open spec fn seen_keys(&self) -> Seq<Seq<char>> {
        self.seen.deep_view()
    }

    /// The queue's invariant: a positive capacity bounds both sides, no
    /// key is pending or seen twice, and no key is pending and seen at
    /// once.
    pub open spec fn wf(&self) -> bool {
        &&& 1 <= self.buffer
        &&& self.pending_keys().len() <= self.buffer
        &&& self.seen_keys().len() <= self.buffer
        &&& distinct_keys(self.pending_keys())
        &&& distinct_keys(self.seen_keys())
        &&& forall|i: int, j: int|
            0 <= i < self.pending_keys().len() && 0 <= j < self.seen_keys().len()
                ==> self.pending_keys()[i] != self.seen_keys()[j]
    }

    /// An empty queue with the given positive capacity.
    pub fn new(buffer: usize) -> (r: Self)
        requires
            1 <= buffer,
        ensures
            r.wf(),
            r.pending() == Seq::<T>::empty(),
            r.seen_keys() == Seq::<Seq<char>>::empty(),
            r.buffer == buffer,
    {
        let r = Queue { queue: Vec::new(), seen: Vec::new(), buffer };
        proof {
            assert(r.pending_keys() =~= Seq::<Seq<char>>::empty());
            assert(r.seen_keys() =~= Seq::<Seq<char>>::empty());
        }
        r
    }

    /// Is some key of `pending` equal to `value`'s key?
    pub fn pending_contains(&self, value: &T) -> (r: bool)
        ensures
            r == self.pending_keys().contains(value.key()),
    {
        let n = self.queue.len();
        let mut i: usize = 0;
        while i < n
            invariant
                i <= n,
                n == self.queue@.len(),
                forall|j: int| 0 <= j < i ==> self.pending_keys()[j] != value.key(),
            decreases n - i,
        {
            if self.queue[i].same_key(value) {
                proof {
                    assert(self.pending_keys()[i as int] == value.key());
                }
                return true;
            }
            i = i + 1;
        }
        proof {
            assert(!self.pending_keys().contains(value.key())) by {
                if self.pending_keys().contains(value.key()) {
                    let w = choose|w: int|
                        0 <= w < self.pending_keys().len() && self.pending_keys()[w]
                            == value.key();
                    assert(self.pending_keys()[w] != value.key());
                }
            }
        }
        false
    }

    /// Is `value`'s key among the seen keys?
    pub fn seen_contains(&self, value: &T) -> (r: bool)
        ensures
            r == self.seen_keys().contains(value.key()),
    {
        let ks = value.key_string();
        let n = self.seen.len();
        let mut i: usize = 0;
        while i < n
            invariant
                i <= n,
                n == self.seen@.len(),
                ks@ == value.key(),
                forall|j: int| 0 <= j < i ==> self.seen_keys()[j] != value.key(),
            decreases n - i,
        {
            if self.seen[i] == ks {
                proof {
                    assert(self.seen_keys()[i as int] == value.key());
                }
                return true;
            }
            i = i + 1;
        }
        proof {
            assert(!self.seen_keys().contains(value.key())) by {
                if self.seen_keys().contains(value.key()) {
                    let w = choose|w: int|
                        0 <= w < self.seen_keys().len() && self.seen_keys()[w] == value.key();
                    assert(self.seen_keys()[w] != value.key());
                }
            }
        }
        false
    }

    /// True iff no value is pending.
    pub fn is_empty(&self) -> (r: bool)
        ensures
            r == (self.pending().len() == 0),
    {
        self.queue.len() == 0
    }

    /// Enqueue `value`: evict the front if `pending` is at capacity, then
    /// append `value` unless its key is already pending or seen.
    pub fn enqueue(&mut self, value: T)
        requires
            old(self).wf(),
        ensures
            final(self).wf(),
            final(self).buffer == old(self).buffer,
            final(self).seen@ == old(self).seen@,
            final(self).pending_keys() == enqueue_step(
                old(self).pending_keys(),
                old(self).seen_keys(),
                old(self).buffer as nat,
                value.key(),
            ),
            ({
                let p1 = evict_step(old(self).pending(), old(self).buffer as nat);
                if old(self).seen_keys().contains(value.key()) || keys_of(p1).contains(value.key()) {
                    final(self).pending() == p1
                } else {
                    final(self).pending() == p1.push(value)
                }
            }),
    {
        if self.queue.len() == self.buffer {
            let _ = self.queue.remove(0);
            proof {
                assert(self.queue@ =~= old(self).queue@.drop_first());
                lemma_keys_of_drop_first(old(self).queue@);
            }
        }
        proof {
            assert(self.queue@ == evict_step(old(self).queue@, old(self).buffer as nat));
            assert(self.pending_keys() == evict_step(
                old(self).pending_keys(),
                old(self).buffer as nat,
            ));
        }
        let in_seen = self.seen_contains(&value);
        let in_pending = self.pending_contains(&value);
        if !in_seen && !in_pending {
            self.queue.push(value);
            proof {
                lemma_keys_of_push(old(self).queue@.drop_first(), value);
                lemma_keys_of_push(old(self).queue@, value);
            }
        }
    }

    /// Dequeue the front value: clear `seen` when it is exactly at
    /// capacity, then pop the front of `pending` (if any), record its key
    /// as seen, and return it.
    pub fn dequeue(&mut self) -> (r: Option<T>)
        requires
            old(self).wf(),
        ensures
            final(self).wf(),
            final(self).buffer == old(self).buffer,
            ({
                let s1 = reset_step(old(self).seen_keys(), old(self).buffer as nat);
                if old(self).pending().len() == 0 {
                    &&& r is None
                    &&& final(self).pending() == old(self).pending()
                    &&& final(self).seen_keys() == s1
                } else {
                    &&& r == Some(old(self).pending()[0])
                    &&& final(self).pending() == old(self).pending().drop_first()
                    &&& final(self).seen_keys() == s1.push(old(self).pending()[0].key())
                }
            }),
    {
        if self.seen.len() == self.buffer {
            self.seen.clear();
            proof {
                assert(self.seen_keys() =~= Seq::<Seq<char>>::empty());
            }
        }
        proof {
            assert(self.seen_keys() == reset_step(
                old(self).seen_keys(),
                old(self).buffer as nat,
            ));
        }
        if self.queue.len() > 0 {
            let value = self.queue.remove(0);
            let ks = value.key_string();
            self.seen.push(ks);
            proof {
                assert(self.queue@ =~= old(self).queue@.drop_first());
                lemma_keys_of_drop_first(old(self).queue@);
                assert(self.seen_keys() =~= reset_step(
                    old(self).seen_keys(),
                    old(self).buffer as nat,
                ).push(old(self).queue@[0].key()));
                let s1 = reset_step(old(self).seen_keys(), old(self).buffer as nat);
                let k0 = old(self).pending_keys()[0];
                lemma_distinct_drop_first(old(self).pending_keys());
                assert(!s1.contains(k0)) by {
                    if s1.contains(k0) {
                        let w = choose|w: int| 0 <= w < s1.len() && s1[w] == k0;
                        assert(old(self).seen_keys()[w] == k0);
                        assert(old(self).pending_keys()[0] != old(self).seen_keys()[w]);
                    }
                }
                assert(distinct_keys(self.seen_keys())) by {
                    assert forall|i: int, j: int|
                        0 <= i < j < self.seen_keys().len() implies self.seen_keys()[i]
                        != self.seen_keys()[j] by {
                        if j < s1.len() {
                            assert(self.seen_keys()[i] == s1[i]);
                            assert(self.seen_keys()[j] == s1[j]);
                        } else {
                            assert(self.seen_keys()[j] == k0);
                            assert(self.seen_keys()[i] == s1[i]);
                        }
                    }
                }
                assert forall|i: int, j: int|
                    0 <= i < self.pending_keys().len() && 0 <= j < self.seen_keys().len()
                    implies self.pending_keys()[i] != self.seen_keys()[j] by {
                    assert(self.pending_keys()[i] == old(self).pending_keys()[i + 1]);
                    if j < s1.len() {
                        assert(self.seen_keys()[j] == s1[j]);
                        assert(old(self).pending_keys()[i + 1] != old(self).seen_keys()[j]);
                    } else {
                        assert(self.seen_keys()[j] == k0);
                        assert(old(self).pending_keys()[i + 1] != old(self).pending_keys()[0]);
                    }
                }
            }
            Some(value)
        } else {
            None
        }
    }
}

/// Mapping to keys commutes with appending.
pub proof fn lemma_keys_of_push<T: Keyed>(s: Seq<T>, v: T)
    ensures
        keys_of(s.push(v)) == keys_of(s).push(v.key()),
{
    assert(keys_of(s.push(v)) =~= keys_of(s).push(v.key()));
}

/// Mapping to keys commutes with dropping the front.
pub proof fn lemma_keys_of_drop_first<T: Keyed>(s: Seq<T>)
    requires
        s.len() > 0,
    ensures
        keys_of(s.drop_first()) == keys_of(s).drop_first(),
{
    assert(keys_of(s.drop_first()) =~= keys_of(s).drop_first());
}

/// Dropping the front of a duplicate-free sequence keeps it duplicate-free.
pub proof fn lemma_distinct_drop_first(p: Seq<Seq<char>>)
    requires
        distinct_keys(p),
        p.len() > 0,
    ensures
        distinct_keys(p.drop_first()),
{
    assert forall|i: int, j: int|
        0 <= i < j < p.drop_first().len() implies p.drop_first()[i] != p.drop_first()[j] by {
        assert(p.drop_first()[i] == p[i + 1]);
        assert(p.drop_first()[j] == p[j + 1]);
    }
}

/// A key occurs zero times iff the sequence does not contain it.
pub proof fn lemma_key_count_zero(p: Seq<Seq<char>>, k: Seq<char>)
    ensures
        (key_count(p, k) == 0) <==> !p.contains(k),
    decreases p.len(),
{
    if p.len() > 0 {
        lemma_key_count_zero(p.drop_first(), k);
        assert(p.contains(k) <==> (p[0] == k || p.drop_first().contains(k))) by {
            if p.contains(k) {
                let w = choose|w: int| 0 <= w < p.len() && p[w] == k;
                if w > 0 {
                    assert(p.drop_first()[w - 1] == k);
                }
            }
            if p.drop_first().contains(k) {
                let w = choose|w: int|
                    0 <= w < p.drop_first().len() && p.drop_first()[w] == k;
                assert(p[w + 1] == k);
            }
        }
    }
}

/// Appending a key increments its count and leaves other counts alone.
pub proof fn lemma_key_count_push(p: Seq<Seq<char>>, k: Seq<char>, v: Seq<char>)
    ensures
        key_count(p.push(v), k) == key_count(p, k) + (if v == k {
            1nat
        } else {
            0nat
        }),
    decreases p.len(),
{
    if p.len() == 0 {
        assert(p.push(v).drop_first() =~= Seq::<Seq<char>>::empty());
        assert(p.push(v)[0] == v);
        assert(key_count(Seq::<Seq<char>>::empty(), k) == 0);
        assert(key_count(p.push(v), k) == key_count(Seq::<Seq<char>>::empty(), k) + (if v == k {
            1nat
        } else {
            0nat
        }));
    } else {
        assert(p.push(v).drop_first() =~= p.drop_first().push(v));
        assert(p.push(v)[0] == p[0]);
        lemma_key_count_push(p.drop_first(), k, v);
        assert(key_count(p.push(v), k) == key_count(p.drop_first().push(v), k) + (if p[0] == k {
            1nat
        } else {
            0nat
        }));
    }
}

/// In a duplicate-free sequence every key occurs at most once.
pub proof fn lemma_distinct_key_count(p: Seq<Seq<char>>, k: Seq<char>)
    requires
        distinct_keys(p),
    ensures
        key_count(p, k) <= 1,
    decreases p.len(),
{
    if p.len() > 0 {
        lemma_distinct_drop_first(p);
        lemma_distinct_key_count(p.drop_first(), k);
        if p[0] == k {
            lemma_key_count_zero(p.drop_first(), k);
            assert(!p.drop_first().contains(k)) by {
                if p.drop_first().contains(k) {
                    let w = choose|w: int|
                        0 <= w < p.drop_first().len() && p.drop_first()[w] == k;
                    assert(p[w + 1] == k);
                    assert(p[0] != p[w + 1]);
                }
            }
        }
    }
}

/// Enqueuing a key that is already seen never appends: the pending keys
/// after the call are exactly the evicted pending keys.  (A job dequeued
/// since the last reset is seen, so re-enqueuing it is a no-op but for the
/// unconditional eviction at capacity.)
pub proof fn lemma_enqueue_seen_noop(
    p: Seq<Seq<char>>,
    s: Seq<Seq<char>>,
    buffer: nat,
    k: Seq<char>,
)
    requires
        s.contains(k),
    ensures
        enqueue_step(p, s, buffer, k) == evict_step(p, buffer),
{
}

/// After enqueuing a key that is not seen, the key is pending exactly
/// once — whether it was absent, already pending once, or re-appended
/// right after being evicted.
pub proof fn lemma_enqueue_unseen_once(
    p: Seq<Seq<char>>,
    s: Seq<Seq<char>>,
    buffer: nat,
    k: Seq<char>,
)
    requires
        1 <= buffer,
        distinct_keys(p),
        !s.contains(k),
    ensures
        key_count(enqueue_step(p, s, buffer, k), k) == 1,
{
    let p1 = evict_step(p, buffer);
    if p.len() == buffer {
        lemma_distinct_drop_first(p);
    }
    lemma_distinct_key_count(p1, k);
    if p1.contains(k) {
        lemma_key_count_zero(p1, k);
    } else {
        lemma_key_count_zero(p1, k);
        lemma_key_count_push(p1, k, k);
    }
}

/// Enqueuing the same unseen key twice without an intervening dequeue
/// leaves exactly one pending element with that key.
pub proof fn lemma_enqueue_twice_once(
    p: Seq<Seq<char>>,
    s: Seq<Seq<char>>,
    buffer: nat,
    k: Seq<char>,
)
    requires
        1 <= buffer,
        distinct_keys(p),
        !s.contains(k),
    ensures
        key_count(enqueue_step(enqueue_step(p, s, buffer, k), s, buffer, k), k) == 1,
{
    let p1 = enqueue_step(p, s, buffer, k);
    lemma_enqueue_unseen_once(p, s, buffer, k);
    lemma_distinct_enqueue_step(p, s, buffer, k);
    lemma_enqueue_unseen_once(p1, s, buffer, k);
}

/// `enqueue_step` preserves duplicate-freedom.
pub proof fn lemma_distinct_enqueue_step(
    p: Seq<Seq<char>>,
    s: Seq<Seq<char>>,
    buffer: nat,
    k: Seq<char>,
)
    requires
        1 <= buffer,
        distinct_keys(p),
    ensures
        distinct_keys(enqueue_step(p, s, buffer, k)),
{
    let p1 = evict_step(p, buffer);
    if p.len() == buffer {
        lemma_distinct_drop_first(p);
    }
    if !(s.contains(k) || p1.contains(k)) {
        assert(forall|i: int| 0 <= i < p1.len() ==> p1[i] != k);
        assert(forall|i: int| 0 <= i < p1.len() ==> p1.push(k)[i] == p1[i]);
    }
}

/// Enqueuing on an empty queue makes the key the single pending element,
/// so the next dequeue returns exactly the value carrying it.
pub proof fn lemma_enqueue_then_dequeue(
    s: Seq<Seq<char>>,
    buffer: nat,
    k: Seq<char>,
)
    requires
        1 <= buffer,
        !s.contains(k),
    ensures
        enqueue_step(Seq::empty(), s, buffer, k) == seq![k],
{
    assert(enqueue_step(Seq::empty(), s, buffer, k) =~= seq![k]);
}

/// A key recorded by a dequeue is seen from that point on, until the next
/// reset clears it: together with `lemma_enqueue_seen_noop`, re-enqueuing
/// a job dequeued since the last reset never appends.
pub proof fn lemma_dequeued_key_seen(s: Seq<Seq<char>>, buffer: nat, k: Seq<char>)
    ensures
        reset_step(s, buffer).push(k).contains(k),
{
    assert(reset_step(s, buffer).push(k).last() == k);
}

/// The results of successive dequeues, pending keys first to last: each
/// dequeue pops the front, whatever `seen` does.
pub open spec fn drain_results(p: Seq<Seq<char>>) -> Seq<Seq<char>>
    decreases p.len(),
{
    if p.len() == 0 {
        Seq::empty()
    } else {
        seq![p[0]] + drain_results(p.drop_first())
    }
}

/// FIFO order: draining a pending sequence returns its keys first to
/// last, in order.
pub proof fn lemma_drain_fifo(p: Seq<Seq<char>>)
    ensures
        drain_results(p) == p,
    decreases p.len(),
{
    if p.len() == 0 {
        assert(drain_results(p) =~= p);
    } else {
        lemma_drain_fifo(p.drop_first());
        assert(drain_results(p) =~= p);
    }
}

} // verus!
