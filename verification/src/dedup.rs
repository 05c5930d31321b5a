//! Time-bounded cache of content hashes, for duplicate suppression.

use vstd::prelude::*;

use crate::keymap::KeyMap;

verus! {

/// Time-bounded dedup cache. Times are nanoseconds on a monotonic clock.
#[derive(Debug)]
pub struct DedupCache {
    entries: KeyMap<u64>,
    ttl: u64,
}

/// What a [`DedupCache`] holds: when each key was let through, and for how
/// long that makes it a duplicate.
#[verifier::ext_equal]
pub struct DedupView {
    pub entries: Map<Seq<u8>, u64>,
    pub ttl: u64,
}

/// Time from `seen` to `now`; zero if the clock went back.
pub open spec fn age(seen: u64, now: u64) -> int {
    if now > seen {
        now - seen
    } else {
        0
    }
}

impl DedupView {
    /// A cache with no keys.
    pub open spec fn empty(ttl: u64) -> DedupView {
        DedupView { entries: Map::empty(), ttl }
    }

    /// The key is a duplicate at time `now`: it was let through less than the
    /// time to live ago.
    pub open spec fn holds(self, key: Seq<u8>, now: u64) -> bool {
        self.entries.contains_key(key) && age(self.entries[key], now) < self.ttl
    }

    /// The cache after a key was offered at time `now`.
    pub open spec fn offered(self, key: Seq<u8>, now: u64) -> DedupView {
        if self.holds(key, now) {
            self
        } else {
            DedupView { entries: self.entries.insert(key, now), ..self }
        }
    }

    /// The cache without the keys that have expired at time `now`.
    pub open spec fn pruned(self, now: u64) -> DedupView {
        DedupView {
            entries: Map::new(
                |k: Seq<u8>| self.holds(k, now),
                |k: Seq<u8>| self.entries[k],
            ),
            ..self
        }
    }
}

impl View for DedupCache {
    type V = DedupView;

    closed spec fn view(&self) -> DedupView {
        DedupView { entries: self.entries@, ttl: self.ttl }
    }
}

impl DedupCache {
    /// Every key occurs once.
    pub closed spec fn wf(&self) -> bool {
        self.entries.wf()
    }

    pub fn new(ttl: u64) -> (c: DedupCache)
        ensures
            c.wf(),
            c@ == DedupView::empty(ttl),
    {
        DedupCache { entries: KeyMap::new(), ttl }
    }

    /// Whether an entry let through at `seen` still makes its key a duplicate.
    fn live(&self, seen: u64, now: u64) -> (r: bool)
        ensures
            r == (age(seen, now) < self@.ttl),
    {
        let elapsed: u64 = if now > seen {
            now - seen
        } else {
            0
        };
        elapsed < self.ttl
    }

    /// Record that a key was let through at time `at`.
    pub fn insert(&mut self, key: [u8; 32], at: u64)
        requires
            old(self).wf(),
        ensures
            final(self).wf(),
            final(self)@ == (DedupView { entries: old(self)@.entries.insert(key@, at), ..old(self)@ }),
    {
        self.entries.insert(key, at);
    }

    /// Returns true if the key was already present (i.e., duplicate); else it
    /// is recorded as let through at time `now`.
    pub fn check_and_insert(&mut self, key: [u8; 32], now: u64) -> (duplicate: bool)
        requires
            old(self).wf(),
        ensures
            final(self).wf(),
            duplicate == old(self)@.holds(key@, now),
            final(self)@ == old(self)@.offered(key@, now),
    {
        match self.entries.find(&key) {
            Some(i) => {
                let seen: u64 = *self.entries.value(i);
                if self.live(seen, now) {
                    return true;
                }
            },
            None => {},
        }
        self.entries.insert(key, now);
        false
    }

    /// Drop every key that has expired at time `now`.
    pub fn prune(&mut self, now: u64)
        requires
            old(self).wf(),
        ensures
            final(self).wf(),
            final(self)@ == old(self)@.pruned(now),
    {
        let ghost order = self.entries.order();
        let ghost before = self@;
        let mut kept: KeyMap<u64> = KeyMap::new();
        let mut i: usize = 0;
        while i < self.entries.len()
            invariant
                i <= order.len(),
                self.entries.order() == order,
                self.entries.wf(),
                self@ == before,
                kept.wf(),
                forall|k: Seq<u8>| #[trigger]
                    kept@.dom().contains(k) <==> before.holds(k, now) && order.take(
                        i as int,
                    ).contains(k),
                forall|k: Seq<u8>| kept@.dom().contains(k) ==> #[trigger] kept@[k]
                    == before.entries[k],
            decreases order.len() - i,
        {
            let key: [u8; 32] = *self.entries.key(i);
            let seen: u64 = *self.entries.value(i);
            proof {
                lemma_take_next(order, i as int);
            }
            if self.live(seen, now) {
                kept.insert(key, seen);
            }
            i = i + 1;
        }
        proof {
            self.entries.lemma_order();
            assert(order.take(i as int) =~= order);
            assert(kept@ =~= before.pruned(now).entries);
        }
        self.entries = kept;
    }

    /// The number of keys held.
    pub fn len(&self) -> (n: usize)
        requires
            self.wf(),
        ensures
            self@.entries.dom().finite(),
            n == self@.entries.dom().len(),
    {
        self.entries.len()
    }

    /// Whether no key is held.
    pub fn is_empty(&self) -> (r: bool)
        requires
            self.wf(),
        ensures
            r == (self@.entries == Map::<Seq<u8>, u64>::empty()),
    {
        let n: usize = self.entries.len();
        proof {
            if n == 0 {
                assert(self@.entries.dom() =~= Set::empty());
                assert(self@.entries =~= Map::<Seq<u8>, u64>::empty());
            }
        }
        n == 0
    }
}

proof fn lemma_take_next(keys: Seq<Seq<u8>>, n: int)
    requires
        0 <= n < keys.len(),
    ensures
        forall|k: Seq<u8>| #[trigger]
            keys.take(n + 1).contains(k) <==> keys.take(n).contains(k) || k == keys[n],
{
    assert forall|k: Seq<u8>| #[trigger]
        keys.take(n + 1).contains(k) <==> keys.take(n).contains(k) || k == keys[n] by {
        assert(keys.take(n + 1)[n] == keys[n]);
        if keys.take(n).contains(k) {
            let j = choose|j: int| 0 <= j < n && keys.take(n)[j] == k;
            assert(keys.take(n + 1)[j] == k);
        }
        if keys.take(n + 1).contains(k) {
            let more = keys.take(n + 1);
            let j = choose|j: int| 0 <= j < more.len() && more[j] == k;
            if j < n {
                assert(keys.take(n)[j] == k);
            }
        }
    }
}

/// Law: a key that was let through is a duplicate until exactly the time to
/// live has passed, and then no longer.
pub proof fn law_duplicate_until_ttl(v: DedupView, key: Seq<u8>, at: u64, now: u64)
    requires
        !v.holds(key, at),
        at <= now,
    ensures
        v.offered(key, at).holds(key, now) <==> now - at < v.ttl,
{
}

/// Law: a key that was let through at a time that the clock has since gone
/// back behind is a duplicate, unless the time to live is zero.
pub proof fn law_clock_going_back(v: DedupView, key: Seq<u8>, at: u64, now: u64)
    requires
        !v.holds(key, at),
        now <= at,
    ensures
        v.offered(key, at).holds(key, now) <==> v.ttl > 0,
{
}

/// Law: a new cache takes no key for a duplicate, and one whose time to live
/// is zero never does.
pub proof fn law_new_cache(ttl: u64, c: DedupCache, key: Seq<u8>, now: u64, v: DedupView)
    requires
        call_ensures(DedupCache::new, (ttl,), c),
        v.ttl == 0,
    ensures
        c@.ttl == ttl,
        !c@.holds(key, now),
        !v.holds(key, now),
{
}

/// Law: a pruning keeps a key if and only if it still is a duplicate, with the
/// time at which it was let through, and keeps the time to live.
pub proof fn law_prune_frees_what_has_expired(v: DedupView, key: Seq<u8>, now: u64)
    requires
        v.entries.contains_key(key),
        v.entries[key] <= now,
    ensures
        v.pruned(now).entries.contains_key(key) <==> now - v.entries[key] < v.ttl,
        v.pruned(now).entries.contains_key(key) ==> v.pruned(now).entries[key] == v.entries[key],
        v.pruned(now).ttl == v.ttl,
{
}

/// Law: a key is told to be a duplicate if and only if it was let through
/// less than the time to live before; then nothing changes, and otherwise it
/// is noted as let through now. No other key and not the time to live change.
pub proof fn law_check_and_insert(
    c: &mut DedupCache,
    key: [u8; 32],
    now: u64,
    duplicate: bool,
)
    requires
        call_ensures(DedupCache::check_and_insert, (c, key, now), duplicate),
    ensures
        duplicate <==> {
            &&& old(c)@.entries.contains_key(key@)
            &&& now - old(c)@.entries[key@] < old(c)@.ttl
            &&& old(c)@.ttl > 0
        },
        duplicate ==> final(c)@ == old(c)@,
        !duplicate ==> final(c)@.entries == old(c)@.entries.insert(key@, now),
        final(c)@.ttl == old(c)@.ttl,
{
}

/// Law: noting a key notes that key at that time; a pruning keeps the keys
/// that are duplicates at its time, and no others.
pub proof fn law_insert_and_prune(
    c: &mut DedupCache,
    d: &mut DedupCache,
    key: [u8; 32],
    at: u64,
    other: Seq<u8>,
)
    requires
        call_ensures(DedupCache::insert, (c, key, at), ()),
        call_ensures(DedupCache::prune, (d, at), ()),
    ensures
        final(c)@.entries == old(c)@.entries.insert(key@, at),
        final(c)@.ttl == old(c)@.ttl,
        final(d)@.entries.contains_key(other) <==> {
            &&& old(d)@.entries.contains_key(other)
            &&& at - old(d)@.entries[other] < old(d)@.ttl
            &&& old(d)@.ttl > 0
        },
        final(d)@.entries.contains_key(other) ==> final(d)@.entries[other]
            == old(d)@.entries[other],
        final(d)@.ttl == old(d)@.ttl,
{
}

/// Law: offering one key never changes the answer for another.
pub proof fn law_keys_are_independent(v: DedupView, key: Seq<u8>, at: u64, other: Seq<u8>, now: u64)
    requires
        key != other,
    ensures
        v.offered(key, at).holds(other, now) == v.holds(other, now),
{
}

/// Law: pruning frees memory and nothing else. At no later time does it
/// change whether a key is a duplicate, also after more keys were offered.
pub proof fn law_prune_is_invisible(
    v: DedupView,
    at: u64,
    key: Seq<u8>,
    now: u64,
    other: Seq<u8>,
    later: u64,
)
    requires
        at <= now <= later,
    ensures
        v.pruned(at).holds(key, now) == v.holds(key, now),
        v.pruned(at).offered(key, now).holds(other, later) == v.offered(key, now).holds(
            other,
            later,
        ),
{
}

/// Something that happens to a cache: a key is offered, or expired keys are
/// dropped, at some time.
pub enum DedupStep {
    Offer(Seq<u8>, u64),
    Prune(u64),
}

impl DedupStep {
    /// When the step is taken.
    pub open spec fn time(self) -> u64 {
        match self {
            DedupStep::Offer(_, now) => now,
            DedupStep::Prune(now) => now,
        }
    }
}

/// The cache after a run of steps.
pub open spec fn after_steps(v: DedupView, steps: Seq<DedupStep>) -> DedupView
    decreases steps.len(),
{
    if steps.len() == 0 {
        v
    } else {
        let w = after_steps(v, steps.drop_last());
        match steps.last() {
            DedupStep::Offer(key, now) => w.offered(key, now),
            DedupStep::Prune(now) => w.pruned(now),
        }
    }
}

/// When a key was last accepted in a run: when it was last offered at least
/// the time to live after it was accepted before, or for the first time.
pub open spec fn last_accepted(ttl: u64, steps: Seq<DedupStep>, key: Seq<u8>) -> Option<u64>
    decreases steps.len(),
{
    if steps.len() == 0 {
        None
    } else {
        let before = last_accepted(ttl, steps.drop_last(), key);
        match steps.last() {
            DedupStep::Offer(k, now) if k == key && !(before matches Some(at) && now - at < ttl) => {
                Some(now)
            },
            _ => before,
        }
    }
}

/// Law: after any run of offers and prunings from an empty cache, by a clock
/// that does not go back, a key is a duplicate if and only if it was last
/// accepted less than the time to live ago. Offers of a duplicate do not make
/// that time longer, and prunings change nothing.
pub proof fn law_duplicate_iff_accepted_within_ttl(
    ttl: u64,
    steps: Seq<DedupStep>,
    key: Seq<u8>,
    now: u64,
)
    requires
        forall|i: int, j: int| 0 <= i <= j < steps.len() ==> steps[i].time() <= steps[j].time(),
        steps.len() > 0 ==> steps.last().time() <= now,
    ensures
        after_steps(DedupView::empty(ttl), steps).holds(key, now) <==> (last_accepted(
            ttl,
            steps,
            key,
        ) matches Some(at) && now - at < ttl),
{
    lemma_entry_is_last_accepted(ttl, steps, key);
}

proof fn lemma_entry_is_last_accepted(ttl: u64, steps: Seq<DedupStep>, key: Seq<u8>)
    requires
        forall|i: int, j: int| 0 <= i <= j < steps.len() ==> steps[i].time() <= steps[j].time(),
    ensures
        ({
            let v = after_steps(DedupView::empty(ttl), steps);
            let accepted = last_accepted(ttl, steps, key);
            &&& v.ttl == ttl
            &&& v.entries.contains_key(key) ==> accepted == Some(v.entries[key])
            &&& accepted matches Some(at) ==> {
                &&& steps.len() > 0
                &&& at <= steps.last().time()
                &&& !v.entries.contains_key(key) ==> steps.last().time() - at >= ttl
            }
        }),
    decreases steps.len(),
{
    if steps.len() > 0 {
        let before = steps.drop_last();
        assert forall|i: int, j: int| 0 <= i <= j < before.len() implies before[i].time()
            <= before[j].time() by {
            assert(before[i] == steps[i] && before[j] == steps[j]);
        }
        lemma_entry_is_last_accepted(ttl, before, key);
        if before.len() > 0 {
            assert(before.last() == steps[steps.len() - 2]);
            assert(steps.last() == steps[steps.len() - 1]);
        }
    }
}

} // verus!
