//! The hardware identification broker: a bounded association cache mapping
//! pseudonymous handles to raw card association ids, the per-game handle
//! derivation, and the worker's state machine. The worker owns the hardware
//! listener exclusively; everything here is the decision logic it runs
//! between hardware events.
use crate::codec::{sha256_hex, sha256_hex_of};
use ringbuffer::AllocRingBuffer;
use vstd::prelude::*;
use vstd::string::*;

verus! {

#[verifier::external_type_specification]
#[verifier::external_body]
#[verifier::reject_recursive_types(T)]
pub struct ExAllocRingBuffer<T>(AllocRingBuffer<T>);

/// The (handle, raw association id) pairs a ring holds, oldest first.
pub uninterp spec fn ring_entries(r: AllocRingBuffer<(String, String)>) -> Seq<
    (Seq<char>, Seq<char>),
>;

/// The fixed capacity a ring was created with.
pub uninterp spec fn ring_capacity(r: AllocRingBuffer<(String, String)>) -> nat;

/// What one bounded insertion does to the entries: appended at the newest
/// end, evicting the oldest entry when the ring is full.
pub open spec fn cache_insert(
    entries: Seq<(Seq<char>, Seq<char>)>,
    cap: nat,
    handle: Seq<char>,
    raw: Seq<char>,
) -> Seq<(Seq<char>, Seq<char>)> {
    if entries.len() < cap {
        entries.push((handle, raw))
    } else {
        entries.skip(1).push((handle, raw))
    }
}

/// Relies on AllocRingBuffer::new: an empty ring with the given capacity
/// (it panics on capacity zero, which the precondition excludes).
#[verifier::external_body]
fn ring_new(capacity: usize) -> (r: AllocRingBuffer<(String, String)>)
    requires
        capacity >= 1,
    ensures
        ring_entries(r) == Seq::<(Seq<char>, Seq<char>)>::empty(),
        ring_capacity(r) == capacity,
{
    AllocRingBuffer::new(capacity)
}

/// Relies on RingBuffer::enqueue: the pair becomes the newest entry, and
/// when the ring is already at capacity the oldest entry leaves.
#[verifier::external_body]
fn ring_enqueue(r: &mut AllocRingBuffer<(String, String)>, handle: String, raw: String)
    ensures
        ring_capacity(*final (r)) == ring_capacity(*old(r)),
        ring_entries(*old(r)).len() < ring_capacity(*old(r)) ==> ring_entries(*final (r))
            == ring_entries(*old(r)).push((handle@, raw@)),
        ring_entries(*old(r)).len() >= ring_capacity(*old(r)) ==> ring_entries(*final (r))
            == ring_entries(*old(r)).skip(1).push((handle@, raw@)),
{
    ringbuffer::RingBuffer::enqueue(r, (handle, raw));
}

/// Relies on RingBuffer::to_vec (built on its iterator): the entries in
/// order, oldest first.
#[verifier::external_body]
fn ring_snapshot(r: &AllocRingBuffer<(String, String)>) -> (v: Vec<(String, String)>)
    ensures
        v@.len() == ring_entries(*r).len(),
        forall|i: int|
            0 <= i < v@.len() ==> ((#[trigger] v@[i]).0@, v@[i].1@) == ring_entries(*r)[i],
{
    ringbuffer::RingBuffer::to_vec(r)
}

/// The handle an entry sequence resolves a raw association id to: the
/// oldest matching entry's handle.
pub open spec fn find_by_raw(entries: Seq<(Seq<char>, Seq<char>)>, raw: Seq<char>) -> Option<
    Seq<char>,
>
    decreases entries.len(),
{
    if entries.len() == 0 {
        None
    } else if entries[0].1 == raw {
        Some(entries[0].0)
    } else {
        find_by_raw(entries.drop_first(), raw)
    }
}

/// The raw association id an entry sequence resolves a handle to: the
/// oldest matching entry's raw id.
pub open spec fn find_by_handle(entries: Seq<(Seq<char>, Seq<char>)>, handle: Seq<char>) -> Option<
    Seq<char>,
>
    decreases entries.len(),
{
    if entries.len() == 0 {
        None
    } else if entries[0].0 == handle {
        Some(entries[0].1)
    } else {
        find_by_handle(entries.drop_first(), handle)
    }
}

/// A sequence with no matching raw id resolves to nothing.
pub proof fn lemma_find_by_raw_none(entries: Seq<(Seq<char>, Seq<char>)>, raw: Seq<char>)
    requires
        forall|i: int| 0 <= i < entries.len() ==> (#[trigger] entries[i]).1 != raw,
    ensures
        find_by_raw(entries, raw) is None,
    decreases entries.len(),
{
    if entries.len() > 0 {
        assert(entries[0].1 != raw);
        assert(forall|i: int|
            0 <= i < entries.drop_first().len() ==> (#[trigger] entries.drop_first()[i]).1
                != raw);
        lemma_find_by_raw_none(entries.drop_first(), raw);
    }
}

/// When raw ids are unique, resolution finds exactly the entry that
/// carries the id.
pub proof fn lemma_find_by_raw_hits(entries: Seq<(Seq<char>, Seq<char>)>, k: int)
    requires
        0 <= k < entries.len(),
        forall|i: int, j: int|
            0 <= i < j < entries.len() ==> (#[trigger] entries[i]).1 != (#[trigger] entries[j]).1,
    ensures
        find_by_raw(entries, entries[k].1) == Some(entries[k].0),
    decreases entries.len(),
{
    if k == 0 {
    } else {
        assert(entries[0].1 != entries[k].1);
        assert(forall|i: int, j: int|
            0 <= i < j < entries.drop_first().len() ==> (#[trigger] entries.drop_first()[i]).1
                != (#[trigger] entries.drop_first()[j]).1);
        assert(entries.drop_first()[k - 1] == entries[k]);
        lemma_find_by_raw_hits(entries.drop_first(), k - 1);
    }
}

/// A sequence with no matching handle resolves to nothing.
pub proof fn lemma_find_by_handle_none(entries: Seq<(Seq<char>, Seq<char>)>, handle: Seq<char>)
    requires
        forall|i: int| 0 <= i < entries.len() ==> (#[trigger] entries[i]).0 != handle,
    ensures
        find_by_handle(entries, handle) is None,
    decreases entries.len(),
{
    if entries.len() > 0 {
        assert(entries[0].0 != handle);
        assert(forall|i: int|
            0 <= i < entries.drop_first().len() ==> (#[trigger] entries.drop_first()[i]).0
                != handle);
        lemma_find_by_handle_none(entries.drop_first(), handle);
    }
}

/// When handles are unique, resolution finds exactly the entry that
/// carries the handle.
pub proof fn lemma_find_by_handle_hits(entries: Seq<(Seq<char>, Seq<char>)>, k: int)
    requires
        0 <= k < entries.len(),
        forall|i: int, j: int|
            0 <= i < j < entries.len() ==> (#[trigger] entries[i]).0 != (#[trigger] entries[j]).0,
    ensures
        find_by_handle(entries, entries[k].0) == Some(entries[k].1),
    decreases entries.len(),
{
    if k == 0 {
    } else {
        assert(entries[0].0 != entries[k].0);
        assert(forall|i: int, j: int|
            0 <= i < j < entries.drop_first().len() ==> (#[trigger] entries.drop_first()[i]).0
                != (#[trigger] entries.drop_first()[j]).0);
        assert(entries.drop_first()[k - 1] == entries[k]);
        lemma_find_by_handle_hits(entries.drop_first(), k - 1);
    }
}

/// The entries after a sequence of bounded insertions, oldest evicted
/// first.
pub open spec fn cache_after_inserts(
    entries: Seq<(Seq<char>, Seq<char>)>,
    cap: nat,
    pairs: Seq<(Seq<char>, Seq<char>)>,
) -> Seq<(Seq<char>, Seq<char>)>
    decreases pairs.len(),
{
    if pairs.len() == 0 {
        entries
    } else {
        cache_after_inserts(
            cache_insert(entries, cap, pairs[0].0, pairs[0].1),
            cap,
            pairs.drop_first(),
        )
    }
}

/// A bounded cache is a sliding window: after any sequence of insertions
/// it holds the newest `cap` pairs, in insertion order.
pub proof fn lemma_cache_fifo(
    entries: Seq<(Seq<char>, Seq<char>)>,
    cap: nat,
    pairs: Seq<(Seq<char>, Seq<char>)>,
)
    requires
        entries.len() <= cap,
        cap >= 1,
    ensures
        cache_after_inserts(entries, cap, pairs) == if entries.len() + pairs.len() <= cap {
            entries + pairs
        } else {
            (entries + pairs).skip(entries.len() + pairs.len() - cap)
        },
    decreases pairs.len(),
{
    if pairs.len() == 0 {
        assert(entries + pairs =~= entries);
        if entries.len() + pairs.len() > cap {
            assert((entries + pairs).skip(entries.len() + pairs.len() - cap) =~= entries);
        }
    } else {
        let p0 = pairs[0];
        let e2 = cache_insert(entries, cap, p0.0, p0.1);
        let rest = pairs.drop_first();
        if entries.len() < cap {
            assert(e2 =~= entries.push(p0));
            lemma_cache_fifo(e2, cap, rest);
            assert(e2 + rest =~= entries + pairs);
            if entries.len() + pairs.len() > cap {
                assert((e2 + rest).skip(e2.len() + rest.len() - cap) =~= (entries + pairs).skip(
                    entries.len() + pairs.len() - cap,
                ));
            }
        } else {
            assert(entries.len() == cap);
            assert(e2 =~= entries.skip(1).push(p0));
            assert(e2.len() == cap);
            lemma_cache_fifo(e2, cap, rest);
            assert(e2 + rest =~= (entries + pairs).skip(1));
            if e2.len() + rest.len() <= cap {
                assert(rest.len() == 0);
                assert(e2 + rest =~= e2);
                assert((entries + pairs).skip(entries.len() + pairs.len() - cap) =~= (entries
                    + pairs).skip(1));
            } else {
                assert((e2 + rest).skip(e2.len() + rest.len() - cap) =~= (entries + pairs).skip(
                    entries.len() + pairs.len() - cap,
                ));
            }
        }
    }
}

/// Ring eviction: nine pairs with pairwise distinct raw ids inserted into
/// an empty cache of capacity eight leave exactly the newest eight; the
/// first pair's raw id no longer resolves, while every later pair still
/// resolves to its own handle.
pub proof fn lemma_ring_eviction(pairs: Seq<(Seq<char>, Seq<char>)>)
    requires
        pairs.len() == 9,
        forall|i: int, j: int|
            0 <= i < j < 9 ==> (#[trigger] pairs[i]).1 != (#[trigger] pairs[j]).1,
    ensures
        cache_after_inserts(Seq::<(Seq<char>, Seq<char>)>::empty(), 8, pairs) == pairs.skip(1),
        find_by_raw(cache_after_inserts(Seq::<(Seq<char>, Seq<char>)>::empty(), 8, pairs), pairs[0].1) is None,
        forall|k: int|
            1 <= k < 9 ==> find_by_raw(
                cache_after_inserts(Seq::<(Seq<char>, Seq<char>)>::empty(), 8, pairs),
                (#[trigger] pairs[k]).1,
            ) == Some(pairs[k].0),
{
    let e0 = Seq::<(Seq<char>, Seq<char>)>::empty();
    lemma_cache_fifo(e0, 8, pairs);
    assert(e0 + pairs =~= pairs);
    let res = cache_after_inserts(e0, 8, pairs);
    assert(res =~= pairs.skip(1));
    assert forall|i: int| 0 <= i < res.len() implies (#[trigger] res[i]).1 != pairs[0].1 by {
        assert(res[i] == pairs[i + 1]);
    };
    lemma_find_by_raw_none(res, pairs[0].1);
    assert forall|k: int|
        1 <= k < 9 implies find_by_raw(res, (#[trigger] pairs[k]).1) == Some(pairs[k].0) by {
        assert forall|i: int, j: int|
            0 <= i < j < res.len() implies (#[trigger] res[i]).1 != (#[trigger] res[j]).1 by {
            assert(res[i] == pairs[i + 1]);
            assert(res[j] == pairs[j + 1]);
        };
        assert(res[k - 1] == pairs[k]);
        lemma_find_by_raw_hits(res, k - 1);
    };
}

/// Ring eviction, seen through user lookups: when the nine pairs also
/// carry pairwise distinct handles (the digest admits collisions, so this
/// must be assumed), a lookup with the first pair's handle resolves to
/// nothing, while each later pair's handle still resolves its raw id.
pub proof fn lemma_ring_eviction_by_handle(pairs: Seq<(Seq<char>, Seq<char>)>)
    requires
        pairs.len() == 9,
        forall|i: int, j: int|
            0 <= i < j < 9 ==> (#[trigger] pairs[i]).1 != (#[trigger] pairs[j]).1,
        forall|i: int, j: int|
            0 <= i < j < 9 ==> (#[trigger] pairs[i]).0 != (#[trigger] pairs[j]).0,
    ensures
        find_by_handle(
            cache_after_inserts(Seq::<(Seq<char>, Seq<char>)>::empty(), 8, pairs),
            pairs[0].0,
        ) is None,
        forall|k: int|
            1 <= k < 9 ==> find_by_handle(
                cache_after_inserts(Seq::<(Seq<char>, Seq<char>)>::empty(), 8, pairs),
                (#[trigger] pairs[k]).0,
            ) == Some(pairs[k].1),
{
    let e0 = Seq::<(Seq<char>, Seq<char>)>::empty();
    lemma_ring_eviction(pairs);
    let res = cache_after_inserts(e0, 8, pairs);
    assert forall|i: int| 0 <= i < res.len() implies (#[trigger] res[i]).0 != pairs[0].0 by {
        assert(res[i] == pairs[i + 1]);
    };
    lemma_find_by_handle_none(res, pairs[0].0);
    assert forall|k: int|
        1 <= k < 9 implies find_by_handle(res, (#[trigger] pairs[k]).0) == Some(pairs[k].1) by {
        assert forall|i: int, j: int|
            0 <= i < j < res.len() implies (#[trigger] res[i]).0 != (#[trigger] res[j]).0 by {
            assert(res[i] == pairs[i + 1]);
            assert(res[j] == pairs[j + 1]);
        };
        assert(res[k - 1] == pairs[k]);
        lemma_find_by_handle_hits(res, k - 1);
    };
}

/// The digest input a handle is derived from: the raw association id and
/// the current game's identifier, joined by ':'.
pub open spec fn handle_input(raw: Seq<char>, game: Seq<char>) -> Seq<char> {
    raw + ":"@ + game
}

/// A handle: the hex SHA-256 digest of the raw id scoped to one game.
pub open spec fn derived_handle(raw: Seq<char>, game: Seq<char>) -> Seq<char> {
    sha256_hex_of(handle_input(raw, game))
}

/// Derives the pseudonymous handle for a raw association id under the
/// given current game.
pub fn derive_handle(raw: &str, game_id: &str) -> (r: String)
    ensures
        r@ == derived_handle(raw@, game_id@),
{
    let mut s = raw.to_owned();
    s.append(":");
    s.append(game_id);
    proof {
        assert(s@ =~= handle_input(raw@, game_id@));
    }
    sha256_hex(s.as_str())
}

/// Handles are unlinkable across games: for one raw association id and two
/// different game identifiers the two digest inputs always differ, so the
/// handles agree only if the digest collides on them.
pub proof fn lemma_handle_inputs_differ_across_games(
    raw: Seq<char>,
    g1: Seq<char>,
    g2: Seq<char>,
)
    requires
        g1 != g2,
    ensures
        handle_input(raw, g1) != handle_input(raw, g2),
{
    if handle_input(raw, g1) == handle_input(raw, g2) {
        let s1 = handle_input(raw, g1);
        let s2 = handle_input(raw, g2);
        assert(s1.len() == raw.len() + ":"@.len() + g1.len());
        assert(s2.len() == raw.len() + ":"@.len() + g2.len());
        assert(g1.len() == g2.len());
        assert forall|i: int| 0 <= i < g1.len() implies g1[i] == g2[i] by {
            assert(s1[raw.len() + ":"@.len() + i] == g1[i]);
            assert(s2[raw.len() + ":"@.len() + i] == g2[i]);
        };
        assert(g1 =~= g2);
    }
}

/// The bounded association cache: at most `capacity` (handle, raw id)
/// pairs, oldest evicted first. Entries expire only by eviction.
pub struct AssocCache {
    ring: AllocRingBuffer<(String, String)>,
}

impl AssocCache {
    /// The cached pairs, oldest first.
    pub closed spec fn entries(self) -> Seq<(Seq<char>, Seq<char>)> {
        ring_entries(self.ring)
    }

    /// The fixed bound on how many pairs are kept.
    pub closed spec fn capacity(self) -> nat {
        ring_capacity(self.ring)
    }

    /// The cache never holds more pairs than its capacity.
    pub closed spec fn wf(self) -> bool {
        self.entries().len() <= self.capacity() && self.capacity() >= 1
    }

    /// An empty cache with the given bound.
    pub fn new(capacity: usize) -> (r: Self)
        requires
            capacity >= 1,
        ensures
            r.entries() == Seq::<(Seq<char>, Seq<char>)>::empty(),
            r.capacity() == capacity,
            r.wf(),
    {
        AssocCache { ring: ring_new(capacity) }
    }

    /// Remembers a pair, evicting the oldest entry when full.
    pub fn insert(&mut self, handle: String, raw: String)
        requires
            old(self).wf(),
        ensures
            final (self).capacity() == old(self).capacity(),
            final (self).entries() == cache_insert(
                old(self).entries(),
                old(self).capacity(),
                handle@,
                raw@,
            ),
            final (self).wf(),
    {
        ring_enqueue(&mut self.ring, handle, raw);
    }

    /// The handle the cache resolves a raw association id to, if any.
    pub fn handle_for_raw(&self, raw: &str) -> (r: Option<String>)
        ensures
            match r {
                Some(h) => find_by_raw(self.entries(), raw@) == Some(h@),
                None => find_by_raw(self.entries(), raw@) is None,
            },
    {
        let raw_s = raw.to_owned();
        let v = ring_snapshot(&self.ring);
        let n = v.len();
        let mut i: usize = 0;
        proof {
            assert(self.entries().skip(0) =~= self.entries());
        }
        while i < n
            invariant
                n == v@.len(),
                0 <= i <= n,
                v@.len() == self.entries().len(),
                forall|k: int|
                    0 <= k < v@.len() ==> ((#[trigger] v@[k]).0@, v@[k].1@) == self.entries()[k],
                raw_s@ == raw@,
                find_by_raw(self.entries(), raw@) == find_by_raw(
                    self.entries().skip(i as int),
                    raw@,
                ),
            decreases n - i,
        {
            if v[i].1 == raw_s {
                proof {
                    assert(self.entries().skip(i as int)[0] == self.entries()[i as int]);
                }
                return Some(v[i].0.clone());
            }
            proof {
                let rest = self.entries().skip(i as int);
                assert(rest[0] == self.entries()[i as int]);
                assert(rest.drop_first() =~= self.entries().skip(i as int + 1));
            }
            i = i + 1;
        }
        proof {
            assert(self.entries().skip(n as int) =~= Seq::<(Seq<char>, Seq<char>)>::empty());
        }
        None
    }

    /// The raw association id behind a previously issued handle, if the
    /// cache still holds it.
    pub fn raw_for_handle(&self, handle: &str) -> (r: Option<String>)
        ensures
            match r {
                Some(raw) => find_by_handle(self.entries(), handle@) == Some(raw@),
                None => find_by_handle(self.entries(), handle@) is None,
            },
    {
        let handle_s = handle.to_owned();
        let v = ring_snapshot(&self.ring);
        let n = v.len();
        let mut i: usize = 0;
        proof {
            assert(self.entries().skip(0) =~= self.entries());
        }
        while i < n
            invariant
                n == v@.len(),
                0 <= i <= n,
                v@.len() == self.entries().len(),
                forall|k: int|
                    0 <= k < v@.len() ==> ((#[trigger] v@[k]).0@, v@[k].1@) == self.entries()[k],
                handle_s@ == handle@,
                find_by_handle(self.entries(), handle@) == find_by_handle(
                    self.entries().skip(i as int),
                    handle@,
                ),
            decreases n - i,
        {
            if v[i].0 == handle_s {
                proof {
                    assert(self.entries().skip(i as int)[0] == self.entries()[i as int]);
                }
                return Some(v[i].1.clone());
            }
            proof {
                let rest = self.entries().skip(i as int);
                assert(rest[0] == self.entries()[i as int]);
                assert(rest.drop_first() =~= self.entries().skip(i as int + 1));
            }
            i = i + 1;
        }
        proof {
            assert(self.entries().skip(n as int) =~= Seq::<(Seq<char>, Seq<char>)>::empty());
        }
        None
    }
}

/// Whether the worker holds an open hardware connection.
pub enum BrokerMode {
    /// No connection; the worker blocks waiting for the next request.
    Idle,
    /// Connection open; the worker services requests until the idle window
    /// elapses.
    Listening,
}

/// A request accepted by the worker. Every accepted request is answered
/// exactly once.
pub enum BrokerRequest {
    /// Poll for a currently present card.
    Tags,
    /// Resolve a previously issued handle.
    User { handle: String },
}

/// The worker's resolution of one request. For a user lookup the worker
/// resolves the handle to the raw association id to fetch; a missing raw id
/// means the reply is "no result" without touching the hardware.
pub enum WorkerReply {
    Tags { handle: Option<String> },
    User { raw: Option<String> },
}

/// The worker's state: the association cache, which outlives hardware
/// connections, and the connection mode.
pub struct BrokerState {
    pub cache: AssocCache,
    pub mode: BrokerMode,
}

impl BrokerState {
    pub open spec fn wf(self) -> bool {
        self.cache.wf()
    }

    /// A fresh broker: idle, with an empty association cache.
    pub fn new(capacity: usize) -> (r: Self)
        requires
            capacity >= 1,
        ensures
            r.mode is Idle,
            r.cache.entries() == Seq::<(Seq<char>, Seq<char>)>::empty(),
            r.cache.capacity() == capacity,
            r.wf(),
    {
        BrokerState { cache: AssocCache::new(capacity), mode: BrokerMode::Idle }
    }

    /// The attempt to open the hardware listener for a triggering request:
    /// on success the worker starts listening, on failure it stays idle.
    /// Either way the cache is untouched.
    pub fn on_open(&mut self, ok: bool)
        requires
            old(self).mode is Idle,
        ensures
            final (self).cache == old(self).cache,
            ok ==> final (self).mode is Listening,
            !ok ==> final (self).mode is Idle,
    {
        if ok {
            self.mode = BrokerMode::Listening;
        } else {
            self.mode = BrokerMode::Idle;
        }
    }

    /// The reply owed to the request that triggered a failed hardware open:
    /// "no result" of the matching kind. The request is answered, never
    /// dropped, and the caller observes a graceful miss instead of a crash.
    pub fn refusal_reply(req: &BrokerRequest) -> (r: WorkerReply)
        ensures
            req is Tags ==> (r matches WorkerReply::Tags { handle } && handle is None),
            req is User ==> (r matches WorkerReply::User { raw } && raw is None),
    {
        match req {
            BrokerRequest::Tags => WorkerReply::Tags { handle: None },
            BrokerRequest::User { .. } => WorkerReply::User { raw: None },
        }
    }

    /// Services one tags poll, given what the hardware reported. An absent
    /// card is "no result". A present card resolves through the cache: a
    /// known raw id keeps its stable handle, a new one gets a handle derived
    /// under the current game and is remembered, evicting the oldest entry
    /// when the cache is full.
    pub fn service_tags(&mut self, poll: Option<String>, game_id: &str) -> (r: WorkerReply)
        requires
            old(self).mode is Listening,
            old(self).wf(),
        ensures
            final (self).mode is Listening,
            final (self).wf(),
            final (self).cache.capacity() == old(self).cache.capacity(),
            poll is None ==> (r matches WorkerReply::Tags { handle } && handle is None
                && final (self).cache.entries() == old(self).cache.entries()),
            poll matches Some(p) ==> match find_by_raw(old(self).cache.entries(), p@) {
                Some(known) => (r matches WorkerReply::Tags { handle } && handle matches Some(h)
                    && h@ == known && final (self).cache.entries() == old(self).cache.entries()),
                None => (r matches WorkerReply::Tags { handle } && handle matches Some(h) && h@
                    == derived_handle(p@, game_id@) && final (self).cache.entries() == cache_insert(
                    old(self).cache.entries(),
                    old(self).cache.capacity(),
                    derived_handle(p@, game_id@),
                    p@,
                )),
            },
    {
        match poll {
            None => WorkerReply::Tags { handle: None },
            Some(raw) => {
                match self.cache.handle_for_raw(raw.as_str()) {
                    Some(h) => WorkerReply::Tags { handle: Some(h) },
                    None => {
                        let h = derive_handle(raw.as_str(), game_id);
                        self.cache.insert(h.clone(), raw);
                        WorkerReply::Tags { handle: Some(h) }
                    },
                }
            },
        }
    }

    /// Services one user lookup: resolves the handle to the raw association
    /// id the hardware should be asked about, or "no result" when the cache
    /// no longer holds the handle. The cache is read, never changed.
    pub fn service_user(&self, handle: &str) -> (r: WorkerReply)
        requires
            self.mode is Listening,
        ensures
            match find_by_handle(self.cache.entries(), handle@) {
                Some(known) => (r matches WorkerReply::User { raw } && raw matches Some(rw) && rw@
                    == known),
                None => (r matches WorkerReply::User { raw } && raw is None),
            },
    {
        WorkerReply::User { raw: self.cache.raw_for_handle(handle) }
    }

    /// The end of one serviced request: if another request arrived within
    /// the idle window the worker keeps listening; otherwise it drops the
    /// hardware connection and goes idle. Idle teardown never clears the
    /// association cache.
    pub fn on_idle_window(&mut self, got_request: bool)
        requires
            old(self).mode is Listening,
        ensures
            final (self).cache == old(self).cache,
            got_request ==> final (self).mode is Listening,
            !got_request ==> final (self).mode is Idle,
    {
        if got_request {
            self.mode = BrokerMode::Listening;
        } else {
            self.mode = BrokerMode::Idle;
        }
    }
}

} // verus!
