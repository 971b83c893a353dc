//! Eviction policies and access-pattern tracking.
//!
//! Times are nanoseconds since the Unix epoch, as read from the clock.
use crate::platform::{unix_time_nanos, NANOS_PER_SEC};
use vstd::prelude::*;
use vstd::set_lib::*;

verus! {

/// Eviction policy
#[derive(Debug, Clone, Copy, PartialEq, Eq, Structural)]
pub enum EvictionPolicy {
    /// Least Recently Used
    LRU,
    /// Least Frequently Used
    LFU,
    /// Time To Live
    TTL,
    /// Size-based (evict largest first)
    Size,
}

/// Access pattern for a key
#[derive(Debug, Clone)]
pub struct AccessPattern {
    /// Key
    pub key: String,
    /// Last access time (ns since the epoch)
    pub last_access: u64,
    /// Access count
    pub access_count: u64,
    /// Data size
    pub size: u64,
    /// Creation time (ns since the epoch)
    pub created_at: u64,
    /// Time to live in nanoseconds (optional)
    pub ttl: Option<u64>,
}

/// Nanoseconds from `since` to `now`; `None` when `since` lies in the future.
pub open spec fn spec_elapsed(since: u64, now: u64) -> Option<int> {
    if since <= now { Some(now - since) } else { None }
}

/// Whether a pattern has outlived its time to live at time `now`.
pub open spec fn spec_is_expired(p: AccessPattern, now: u64) -> bool {
    match p.ttl {
        Some(ttl) => match spec_elapsed(p.created_at, now) {
            Some(e) => e > ttl,
            None => false,
        },
        None => false,
    }
}

/// Whole seconds from `since` to `now`, 0 when `since` lies in the future.
pub open spec fn spec_whole_seconds(since: u64, now: u64) -> int {
    match spec_elapsed(since, now) {
        Some(e) => e / (NANOS_PER_SEC as int),
        None => 0,
    }
}

impl AccessPattern {
    /// A fresh pattern created at time `now`.
    pub fn new_at(key: String, size: u64, ttl: Option<u64>, now: u64) -> (p: Self)
        ensures
            p.key == key,
            p.last_access == now,
            p.created_at == now,
            p.access_count == 0,
            p.size == size,
            p.ttl == ttl,
    {
        AccessPattern { key, last_access: now, access_count: 0, size, created_at: now, ttl }
    }

    /// A fresh pattern created now.
    pub fn new(key: String, size: u64, ttl: Option<u64>) -> (p: Self)
        ensures
            p.key == key,
            p.last_access == p.created_at,
            p.access_count == 0,
            p.size == size,
            p.ttl == ttl,
    {
        let now = unix_time_nanos();
        Self::new_at(key, size, ttl, now)
    }

    /// Records an access at time `now`.
    pub fn record_access_at(&mut self, now: u64)
        requires
            old(self).access_count < u64::MAX,
        ensures
            *final(self) == (AccessPattern {
                last_access: now,
                access_count: (old(self).access_count + 1) as u64,
                ..*old(self)
            }),
    {
        self.last_access = now;
        self.access_count = self.access_count + 1;
    }

    /// Records an access now.
    pub fn record_access(&mut self)
        requires
            old(self).access_count < u64::MAX,
        ensures
            *final(self) == (AccessPattern {
                last_access: final(self).last_access,
                access_count: (old(self).access_count + 1) as u64,
                ..*old(self)
            }),
    {
        let now = unix_time_nanos();
        self.record_access_at(now);
    }

    /// Whether the pattern's time to live has passed at time `now`.
    pub fn is_expired_at(&self, now: u64) -> (b: bool)
        ensures
            b == spec_is_expired(*self, now),
    {
        match self.ttl {
            Some(ttl) => {
                if self.created_at <= now {
                    now - self.created_at > ttl
                } else {
                    false
                }
            },
            None => false,
        }
    }

    /// Whether the pattern's time to live has passed (TTL policy).
    pub fn is_expired(&self) -> (b: bool)
        ensures
            self.ttl is None ==> !b,
            exists|now: u64| b == #[trigger] spec_is_expired(*self, now),
    {
        let now = unix_time_nanos();
        self.is_expired_at(now)
    }

    /// Age in whole seconds at time `now`.
    pub fn age_seconds_at(&self, now: u64) -> (s: u64)
        ensures
            s == spec_whole_seconds(self.created_at, now),
    {
        if self.created_at <= now {
            (now - self.created_at) / NANOS_PER_SEC
        } else {
            0
        }
    }

    /// Age in whole seconds.
    pub fn age_seconds(&self) -> (s: u64)
        ensures
            exists|now: u64| s == #[trigger] spec_whole_seconds(self.created_at, now),
    {
        let now = unix_time_nanos();
        self.age_seconds_at(now)
    }

    /// Whole seconds since the last access at time `now`.
    pub fn idle_seconds_at(&self, now: u64) -> (s: u64)
        ensures
            s == spec_whole_seconds(self.last_access, now),
    {
        if self.last_access <= now {
            (now - self.last_access) / NANOS_PER_SEC
        } else {
            0
        }
    }

    /// Whole seconds since the last access.
    pub fn idle_seconds(&self) -> (s: u64)
        ensures
            exists|now: u64| s == #[trigger] spec_whole_seconds(self.last_access, now),
    {
        let now = unix_time_nanos();
        self.idle_seconds_at(now)
    }
}

/// Offset that places the patterns not yet expired after every expired one
/// in the TTL ranking.
pub const UNEXPIRED_RANK_OFFSET: u128 = 0x1_0000_0000_0000_0000;

/// The value by which `policy` orders patterns for eviction at time `now`:
/// the smaller, the sooner a pattern is evicted. LRU: least recent access
/// first; LFU: fewest accesses first; TTL: expired patterns first, each
/// group oldest first; Size: largest first.
pub open spec fn spec_eviction_rank(policy: EvictionPolicy, p: AccessPattern, now: u64) -> u128 {
    match policy {
        EvictionPolicy::LRU => p.last_access as u128,
        EvictionPolicy::LFU => p.access_count as u128,
        EvictionPolicy::TTL => if spec_is_expired(p, now) {
            p.created_at as u128
        } else {
            (UNEXPIRED_RANK_OFFSET + p.created_at) as u128
        },
        EvictionPolicy::Size => (u64::MAX - p.size) as u128,
    }
}

/// Computes `spec_eviction_rank`.
pub fn eviction_rank(policy: EvictionPolicy, p: &AccessPattern, now: u64) -> (r: u128)
    ensures
        r == spec_eviction_rank(policy, *p, now),
{
    match policy {
        EvictionPolicy::LRU => p.last_access as u128,
        EvictionPolicy::LFU => p.access_count as u128,
        EvictionPolicy::TTL => {
            if p.is_expired_at(now) {
                p.created_at as u128
            } else {
                UNEXPIRED_RANK_OFFSET + (p.created_at as u128)
            }
        },
        EvictionPolicy::Size => (u64::MAX - p.size) as u128,
    }
}

/// No two patterns share a key.
pub open spec fn keys_distinct(s: Seq<AccessPattern>) -> bool {
    forall|i: int, j: int| 0 <= i < s.len() && 0 <= j < s.len() && i != j ==> s[i].key@ != s[j].key@
}

/// The position of the pattern for `key`, if one is tracked.
pub open spec fn spec_find(s: Seq<AccessPattern>, key: Seq<char>) -> Option<int> {
    if exists|i: int| 0 <= i < s.len() && s[i].key@ == key {
        Some(choose|i: int| 0 <= i < s.len() && s[i].key@ == key)
    } else {
        None
    }
}

/// Sum of the sizes of the patterns.
pub open spec fn spec_total_size(s: Seq<AccessPattern>) -> nat
    decreases s.len(),
{
    if s.len() == 0 { 0 } else { spec_total_size(s.drop_last()) + s.last().size as nat }
}

/// Sum of the access counts of the patterns.
pub open spec fn spec_total_accesses(s: Seq<AccessPattern>) -> nat
    decreases s.len(),
{
    if s.len() == 0 { 0 } else { spec_total_accesses(s.drop_last()) + s.last().access_count as nat }
}

proof fn lemma_totals_monotone(s: Seq<AccessPattern>, i: int)
    requires
        0 <= i <= s.len(),
    ensures
        spec_total_size(s.take(i)) <= spec_total_size(s),
        spec_total_accesses(s.take(i)) <= spec_total_accesses(s),
    decreases s.len() - i,
{
    if i < s.len() {
        lemma_totals_monotone(s, i + 1);
        assert(s.take(i + 1).drop_last() =~= s.take(i));
    } else {
        assert(s.take(i) =~= s);
    }
}

/// The keys of the patterns that are expired at time `now`, in tracking order.
pub open spec fn spec_expired_keys(s: Seq<AccessPattern>, now: u64) -> Seq<Seq<char>>
    decreases s.len(),
{
    if s.len() == 0 {
        Seq::empty()
    } else if spec_is_expired(s.last(), now) {
        spec_expired_keys(s.drop_last(), now).push(s.last().key@)
    } else {
        spec_expired_keys(s.drop_last(), now)
    }
}

/// What a selection of eviction candidates at time `now` promises: `count`
/// keys (or all of them when fewer are tracked), distinct and tracked, in
/// eviction order, and no key left out ranks before a key that was chosen.
pub open spec fn spec_is_eviction_selection(
    s: Seq<AccessPattern>,
    policy: EvictionPolicy,
    now: u64,
    count: nat,
    res: Seq<String>,
) -> bool {
    exists|idx: Seq<int>| {
        &&& idx.len() == res.len()
        &&& res.len() == if count < s.len() { count } else { s.len() }
        &&& forall|j: int| 0 <= j < idx.len() ==> 0 <= #[trigger] idx[j] < s.len()
        &&& forall|j: int| 0 <= j < idx.len() ==> res[j]@ == #[trigger] s[idx[j]].key@
        &&& forall|j: int, k: int| 0 <= j < k < idx.len() ==> idx[j] != idx[k]
        &&& forall|j: int, k: int|
            0 <= j < k < idx.len() ==> spec_eviction_rank(policy, s[idx[j]], now) <= spec_eviction_rank(policy, s[idx[k]], now)
        &&& forall|j: int, i: int|
            0 <= j < idx.len() && 0 <= i < s.len() && !idx.contains(i)
                ==> spec_eviction_rank(policy, #[trigger] s[idx[j]], now) <= spec_eviction_rank(policy, #[trigger] s[i], now)
    }
}

/// A table of access patterns with distinct keys, in the order they were
/// first tracked.
pub struct PatternTable {
    patterns: Vec<AccessPattern>,
}

impl View for PatternTable {
    type V = Seq<AccessPattern>;

    closed spec fn view(&self) -> Seq<AccessPattern> {
        self.patterns@
    }
}

impl PatternTable {
    /// The table's invariant: no key appears twice.
    pub open spec fn wf(&self) -> bool {
        keys_distinct(self@)
    }

    /// An empty table.
    pub fn new() -> (t: Self)
        ensures
            t@ == Seq::<AccessPattern>::empty(),
            t.wf(),
    {
        PatternTable { patterns: Vec::new() }
    }

    /// The pattern at position `i`.
    pub fn get(&self, i: usize) -> (p: &AccessPattern)
        requires
            i < self@.len(),
        ensures
            *p == self@[i as int],
    {
        &self.patterns[i]
    }

    /// Number of tracked keys.
    pub fn len(&self) -> (n: usize)
        ensures
            n == self@.len(),
    {
        self.patterns.len()
    }

    /// Position of the pattern for `key`.
    pub fn find(&self, key: &str) -> (r: Option<usize>)
        requires
            self.wf(),
        ensures
            r matches Some(i) ==> i < self@.len() && self@[i as int].key@ == key@,
            r is None <==> spec_find(self@, key@) is None,
            r matches Some(i) ==> spec_find(self@, key@) == Some(i as int),
    {
        let wanted = key.to_owned();
        let mut i: usize = 0;
        while i < self.patterns.len()
            invariant
                i <= self@.len(),
                self.wf(),
                wanted@ == key@,
                forall|j: int| 0 <= j < i ==> self@[j].key@ != key@,
            decreases self@.len() - i,
        {
            let eq = self.patterns[i].key == wanted;
            if eq {
                assert(spec_find(self@, key@) == Some(i as int)) by {
                    let c = choose|c: int| 0 <= c < self@.len() && self@[c].key@ == key@;
                    assert(c == i);
                }
                return Some(i);
            }
            i = i + 1;
        }
        None
    }

    /// Tracks `pattern`, replacing the pattern already tracked under its key.
    pub fn insert(&mut self, pattern: AccessPattern)
        requires
            old(self).wf(),
        ensures
            final(self).wf(),
            match spec_find(old(self)@, pattern.key@) {
                Some(i) => final(self)@ == old(self)@.update(i, pattern),
                None => final(self)@ == old(self)@.push(pattern),
            },
    {
        match self.find(pattern.key.as_str()) {
            Some(i) => {
                self.patterns.set(i, pattern);
            },
            None => {
                self.patterns.push(pattern);
            },
        }
    }

    /// Records an access at time `now` on the pattern tracked under `key`, if any.
    pub fn record_access_at(&mut self, key: &str, now: u64)
        requires
            old(self).wf(),
            spec_find(old(self)@, key@) matches Some(i) ==> old(self)@[i].access_count < u64::MAX,
        ensures
            final(self).wf(),
            match spec_find(old(self)@, key@) {
                Some(i) => final(self)@ == old(self)@.update(i, AccessPattern {
                    last_access: now,
                    access_count: (old(self)@[i].access_count + 1) as u64,
                    ..old(self)@[i]
                }),
                None => final(self)@ == old(self)@,
            },
    {
        match self.find(key) {
            Some(i) => {
                self.patterns[i].record_access_at(now);
                assert(keys_distinct(self@)) by {
                    assert forall|a: int, b: int| 0 <= a < self@.len() && 0 <= b < self@.len() && a != b
                        implies self@[a].key@ != self@[b].key@ by {
                        assert(old(self)@[a].key@ != old(self)@[b].key@);
                    }
                }
            },
            None => {},
        }
    }
}


proof fn lemma_unchosen_exists(idx: Seq<int>, n: int)
    requires
        forall|j: int, k: int| 0 <= j < k < idx.len() ==> idx[j] != idx[k],
        forall|j: int| 0 <= j < idx.len() ==> 0 <= #[trigger] idx[j] < n,
        idx.len() < n,
    ensures
        exists|i: int| 0 <= i < n && !idx.contains(i),
{
    if forall|i: int| 0 <= i < n ==> idx.contains(i) {
        assert(idx.no_duplicates()) by {
            assert forall|j: int, k: int| 0 <= j < idx.len() && 0 <= k < idx.len() && j != k implies idx[j] != idx[k] by {
                if j < k {
                } else {
                }
            }
        }
        idx.unique_seq_to_set();
        vstd::seq_lib::seq_to_set_is_finite(idx);
        lemma_int_range(0, n);
        assert(set_int_range(0, n).subset_of(idx.to_set())) by {
            assert forall|i: int| #[trigger] set_int_range(0, n).contains(i) implies idx.to_set().contains(i) by {
                assert(idx.contains(i));
            }
        }
        lemma_len_subset(set_int_range(0, n), idx.to_set());
        assert(false);
    }
}

impl PatternTable {
    /// Chooses up to `count` keys to evict under `policy` at time `now`:
    /// those that rank first, in ranking order.
    pub fn select_eviction(&self, policy: EvictionPolicy, count: usize, now: u64) -> (res: Vec<String>)
        requires
            self.wf(),
        ensures
            spec_is_eviction_selection(self@, policy, now, count as nat, res@),
    {
        let n: usize = self.patterns.len();
        let k: usize = if count < n { count } else { n };
        let mut chosen: Vec<bool> = Vec::new();
        let mut z: usize = 0;
        while z < n
            invariant
                z <= n,
                chosen@.len() == z,
                forall|i: int| 0 <= i < z ==> !chosen@[i],
            decreases n - z,
        {
            chosen.push(false);
            z = z + 1;
        }
        let ghost s = self@;
        let mut res: Vec<String> = Vec::new();
        let ghost mut idx: Seq<int> = Seq::empty();
        let mut t: usize = 0;
        while t < k
            invariant
                s == self@,
                n == s.len(),
                k <= n,
                k == if count < n { count } else { n },
                t <= k,
                idx.len() == t,
                res@.len() == t,
                chosen@.len() == n,
                forall|j: int| 0 <= j < idx.len() ==> 0 <= #[trigger] idx[j] < n,
                forall|j: int| 0 <= j < idx.len() ==> res@[j]@ == #[trigger] s[idx[j]].key@,
                forall|j: int, m: int| 0 <= j < m < idx.len() ==> idx[j] != idx[m],
                forall|i: int| 0 <= i < n ==> (chosen@[i] <==> idx.contains(i)),
                forall|j: int, m: int|
                    0 <= j < m < idx.len() ==> spec_eviction_rank(policy, s[idx[j]], now) <= spec_eviction_rank(policy, s[idx[m]], now),
                forall|j: int, i: int|
                    0 <= j < idx.len() && 0 <= i < n && !idx.contains(i)
                        ==> spec_eviction_rank(policy, #[trigger] s[idx[j]], now) <= spec_eviction_rank(policy, #[trigger] s[i], now),
            decreases k - t,
        {
            proof {
                lemma_unchosen_exists(idx, n as int);
            }
            let mut best: usize = n;
            let mut best_rank: u128 = 0;
            let mut i: usize = 0;
            while i < n
                invariant
                    s == self@,
                    n == s.len(),
                    chosen@.len() == n,
                    i <= n,
                    best == n ==> forall|m: int| 0 <= m < i ==> chosen@[m],
                    best < n ==> best < i && !chosen@[best as int] && best_rank == spec_eviction_rank(policy, s[best as int], now),
                    best < n ==> forall|m: int| 0 <= m < i && !chosen@[m] ==> best_rank <= spec_eviction_rank(policy, #[trigger] s[m], now),
                    best <= n,
                decreases n - i,
            {
                if !chosen[i] {
                    let r: u128 = eviction_rank(policy, &self.patterns[i], now);
                    if best == n || r < best_rank {
                        best = i;
                        best_rank = r;
                    }
                }
                i = i + 1;
            }
            proof {
                if best == n {
                    let w = choose|w: int| 0 <= w < n && !idx.contains(w);
                    assert(chosen@[w]);
                    assert(false);
                }
            }
            let key = self.patterns[best].key.clone();
            res.push(key);
            chosen.set(best, true);
            proof {
                let old_idx = idx;
                idx = idx.push(best as int);
                assert forall|i2: int| 0 <= i2 < n implies (chosen@[i2] <==> idx.contains(i2)) by {
                    if i2 == best as int {
                        assert(idx[idx.len() - 1] == i2);
                    } else {
                        if old_idx.contains(i2) {
                            let w = choose|w: int| 0 <= w < old_idx.len() && old_idx[w] == i2;
                            assert(idx[w] == i2);
                        }
                        if idx.contains(i2) {
                            let w = choose|w: int| 0 <= w < idx.len() && idx[w] == i2;
                            assert(w < old_idx.len());
                            assert(old_idx[w] == i2);
                        }
                    }
                }
                assert forall|j: int| 0 <= j < idx.len() implies res@[j]@ == #[trigger] s[idx[j]].key@ by {
                    if j < old_idx.len() {
                        assert(idx[j] == old_idx[j]);
                    }
                }
                assert forall|j: int, m: int| 0 <= j < m < idx.len() implies idx[j] != idx[m] by {
                    if m == old_idx.len() {
                        assert(old_idx.contains(idx[j]));
                        assert(!chosen@[best as int] || true);
                    }
                }
                assert forall|j: int, m: int| 0 <= j < m < idx.len() implies
                    spec_eviction_rank(policy, s[idx[j]], now) <= spec_eviction_rank(policy, s[idx[m]], now) by {
                    if m == old_idx.len() {
                        assert(!old_idx.contains(best as int));
                    }
                }
                assert forall|j: int, i2: int|
                    0 <= j < idx.len() && 0 <= i2 < n && !idx.contains(i2) implies
                    spec_eviction_rank(policy, #[trigger] s[idx[j]], now) <= spec_eviction_rank(policy, #[trigger] s[i2], now) by {
                    assert(!old_idx.contains(i2)) by {
                        if old_idx.contains(i2) {
                            let w = choose|w: int| 0 <= w < old_idx.len() && old_idx[w] == i2;
                            assert(idx[w] == i2);
                        }
                    }
                    if j < old_idx.len() {
                        assert(idx[j] == old_idx[j]);
                    } else {
                        assert(i2 != best as int) by {
                            assert(idx[idx.len() - 1] == best as int);
                        }
                        assert(!chosen@[i2]);
                    }
                }
            }
            t = t + 1;
        }
        proof {
            assert(spec_is_eviction_selection(self@, policy, now, count as nat, res@)) by {
                assert(idx.len() == res@.len());
            }
        }
        res
    }
}


/// Statistics over the tracked patterns.
#[derive(Debug, Clone, Copy)]
pub struct PolicyStats {
    pub total_keys: usize,
    pub total_size: u64,
    pub total_accesses: u64,
    pub avg_access_count: u64,
}

/// The keys of a sequence of patterns.
pub open spec fn spec_keys_of(res: Seq<String>) -> Seq<Seq<char>> {
    res.map_values(|k: String| k@)
}

impl PatternTable {
    /// Stops tracking `key`.
    pub fn remove(&mut self, key: &str)
        requires
            old(self).wf(),
        ensures
            final(self).wf(),
            match spec_find(old(self)@, key@) {
                Some(i) => final(self)@ == old(self)@.remove(i),
                None => final(self)@ == old(self)@,
            },
    {
        match self.find(key) {
            Some(i) => {
                self.patterns.remove(i);
                assert(keys_distinct(self@)) by {
                    assert forall|a: int, b: int| 0 <= a < self@.len() && 0 <= b < self@.len() && a != b
                        implies self@[a].key@ != self@[b].key@ by {
                        let oa = if a < i { a } else { a + 1 };
                        let ob = if b < i { b } else { b + 1 };
                        assert(self@[a] == old(self)@[oa]);
                        assert(self@[b] == old(self)@[ob]);
                    }
                }
            },
            None => {},
        }
    }

    /// The keys whose time to live has passed at time `now`, in tracking order.
    pub fn expired_keys_at(&self, now: u64) -> (res: Vec<String>)
        ensures
            spec_keys_of(res@) == spec_expired_keys(self@, now),
    {
        let mut res: Vec<String> = Vec::new();
        let mut i: usize = 0;
        while i < self.patterns.len()
            invariant
                i <= self@.len(),
                spec_keys_of(res@) == spec_expired_keys(self@.take(i as int), now),
            decreases self@.len() - i,
        {
            proof {
                assert(self@.take(i + 1).drop_last() =~= self@.take(i as int));
                assert(self@.take(i + 1).last() == self@[i as int]);
            }
            if self.patterns[i].is_expired_at(now) {
                let k = self.patterns[i].key.clone();
                let ghost before = res@;
                res.push(k);
                proof {
                    assert(spec_keys_of(res@) =~= spec_keys_of(before).push(k@));
                }
            }
            i = i + 1;
        }
        assert(self@.take(self@.len() as int) =~= self@);
        res
    }

    /// Sums the sizes and the access counts of the tracked patterns.
    pub fn totals(&self) -> (r: (u64, u64))
        requires
            spec_total_size(self@) <= u64::MAX,
            spec_total_accesses(self@) <= u64::MAX,
        ensures
            r.0 == spec_total_size(self@),
            r.1 == spec_total_accesses(self@),
    {
        let mut size: u64 = 0;
        let mut accesses: u64 = 0;
        let mut i: usize = 0;
        while i < self.patterns.len()
            invariant
                i <= self@.len(),
                size == spec_total_size(self@.take(i as int)),
                accesses == spec_total_accesses(self@.take(i as int)),
                spec_total_size(self@) <= u64::MAX,
                spec_total_accesses(self@) <= u64::MAX,
            decreases self@.len() - i,
        {
            proof {
                assert(self@.take(i + 1).drop_last() =~= self@.take(i as int));
                assert(self@.take(i + 1).last() == self@[i as int]);
                lemma_totals_monotone(self@, i + 1);
            }
            size = size + self.patterns[i].size;
            accesses = accesses + self.patterns[i].access_count;
            i = i + 1;
        }
        assert(self@.take(self@.len() as int) =~= self@);
        (size, accesses)
    }
}

/// The pattern of `key` when it starts being tracked at time `now`: no
/// accesses yet, last access and creation at `now`.
pub open spec fn spec_fresh_pattern(key: String, size: u64, ttl: Option<u64>, now: u64) -> AccessPattern {
    AccessPattern { key, last_access: now, access_count: 0, size, created_at: now, ttl }
}

/// The table after tracking `p`: it replaces the pattern of its key, or is
/// appended when the key is new.
pub open spec fn spec_tracked_at(s: Seq<AccessPattern>, p: AccessPattern) -> Seq<AccessPattern> {
    match spec_find(s, p.key@) {
        Some(i) => s.update(i, p),
        None => s.push(p),
    }
}

/// The table after an access to `key` at time `now`: that pattern's count
/// rises by one and its last access becomes `now`; nothing else changes.
pub open spec fn spec_accessed_at(s: Seq<AccessPattern>, key: Seq<char>, now: u64) -> Seq<AccessPattern> {
    match spec_find(s, key) {
        Some(i) => s.update(i, AccessPattern { last_access: now, access_count: (s[i].access_count + 1) as u64, ..s[i] }),
        None => s,
    }
}

/// Tracks access patterns and picks keys to evict under one policy.
pub struct PolicyManager {
    policy: EvictionPolicy,
    patterns: PatternTable,
}

impl PolicyManager {
    /// The policy in force.
    pub closed spec fn spec_policy(&self) -> EvictionPolicy {
        self.policy
    }

    /// The tracked patterns, in tracking order.
    pub closed spec fn patterns(&self) -> Seq<AccessPattern> {
        self.patterns@
    }

    /// The manager's invariant: no key is tracked twice.
    pub open spec fn wf(&self) -> bool {
        keys_distinct(self.patterns())
    }

    /// A manager tracking nothing.
    pub fn new(policy: EvictionPolicy) -> (m: Self)
        ensures
            m.wf(),
            m.spec_policy() == policy,
            m.patterns() == Seq::<AccessPattern>::empty(),
    {
        PolicyManager { policy, patterns: PatternTable::new() }
    }

    /// Starts tracking `key` at time `now`, replacing any pattern it had.
    pub fn track_at(&mut self, key: String, size: u64, ttl: Option<u64>, now: u64)
        requires
            old(self).wf(),
        ensures
            final(self).wf(),
            final(self).spec_policy() == old(self).spec_policy(),
            ({
                let p = AccessPattern { key, last_access: now, access_count: 0, size, created_at: now, ttl };
                match spec_find(old(self).patterns(), key@) {
                    Some(i) => final(self).patterns() == old(self).patterns().update(i, p),
                    None => final(self).patterns() == old(self).patterns().push(p),
                }
            }),
    {
        let p = AccessPattern::new_at(key, size, ttl, now);
        self.patterns.insert(p);
    }

    /// Starts tracking `key` now, replacing any pattern it had.
    pub fn track(&mut self, key: String, size: u64, ttl: Option<u64>)
        requires
            old(self).wf(),
        ensures
            final(self).wf(),
            final(self).spec_policy() == old(self).spec_policy(),
            exists|now: u64| final(self).patterns()
                == #[trigger] spec_tracked_at(old(self).patterns(), spec_fresh_pattern(key, size, ttl, now)),
    {
        let now = unix_time_nanos();
        let ghost k = key;
        self.track_at(key, size, ttl, now);
        proof {
            assert(spec_tracked_at(old(self).patterns(), spec_fresh_pattern(k, size, ttl, now)) == self.patterns());
        }
    }

    /// Records an access to `key` at time `now`; untracked keys are ignored.
    pub fn record_access_at(&mut self, key: &str, now: u64)
        requires
            old(self).wf(),
            spec_find(old(self).patterns(), key@) matches Some(i) ==> old(self).patterns()[i].access_count < u64::MAX,
        ensures
            final(self).wf(),
            final(self).spec_policy() == old(self).spec_policy(),
            final(self).patterns() == spec_accessed_at(old(self).patterns(), key@, now),
    {
        self.patterns.record_access_at(key, now);
    }

    /// Records an access to `key` now; untracked keys are ignored.
    pub fn record_access(&mut self, key: &str)
        requires
            old(self).wf(),
            spec_find(old(self).patterns(), key@) matches Some(i) ==> old(self).patterns()[i].access_count < u64::MAX,
        ensures
            final(self).wf(),
            final(self).spec_policy() == old(self).spec_policy(),
            exists|now: u64| final(self).patterns() == #[trigger] spec_accessed_at(old(self).patterns(), key@, now),
    {
        let now = unix_time_nanos();
        self.record_access_at(key, now);
    }

    /// Stops tracking `key`.
    pub fn remove(&mut self, key: &str)
        requires
            old(self).wf(),
        ensures
            final(self).wf(),
            final(self).spec_policy() == old(self).spec_policy(),
            match spec_find(old(self).patterns(), key@) {
                Some(i) => final(self).patterns() == old(self).patterns().remove(i),
                None => final(self).patterns() == old(self).patterns(),
            },
            spec_find(final(self).patterns(), key@) is None,
    {
        self.patterns.remove(key);
        proof {
            let o = old(self).patterns();
            let f = self.patterns();
            if let Some(i) = spec_find(o, key@) {
                assert(o[i].key@ == key@);
                if exists|j: int| 0 <= j < f.len() && f[j].key@ == key@ {
                    let j = choose|j: int| 0 <= j < f.len() && f[j].key@ == key@;
                    let oj = if j < i { j } else { j + 1 };
                    assert(f[j] == o[oj]);
                    assert(false);
                }
            }
        }
    }

    /// Keys to evict at time `now`: up to `count` of them, those that rank
    /// first under the policy, in ranking order.
    pub fn select_eviction_candidates_at(&self, count: usize, now: u64) -> (res: Vec<String>)
        requires
            self.wf(),
        ensures
            spec_is_eviction_selection(self.patterns(), self.spec_policy(), now, count as nat, res@),
    {
        self.patterns.select_eviction(self.policy, count, now)
    }

    /// Keys to evict now: up to `count` of them, those that rank first under
    /// the policy, in ranking order.
    pub fn select_eviction_candidates(&self, count: usize) -> (res: Vec<String>)
        requires
            self.wf(),
        ensures
            exists|now: u64| #[trigger] spec_is_eviction_selection(self.patterns(), self.spec_policy(), now, count as nat, res@),
    {
        let now = unix_time_nanos();
        self.select_eviction_candidates_at(count, now)
    }

    /// Keys whose time to live has passed at time `now` (TTL policy).
    pub fn get_expired_keys_at(&self, now: u64) -> (res: Vec<String>)
        ensures
            spec_keys_of(res@) == spec_expired_keys(self.patterns(), now),
    {
        self.patterns.expired_keys_at(now)
    }

    /// Keys whose time to live has passed (TTL policy).
    pub fn get_expired_keys(&self) -> (res: Vec<String>)
        ensures
            exists|now: u64| spec_keys_of(res@) == spec_expired_keys(self.patterns(), now),
    {
        let now = unix_time_nanos();
        self.get_expired_keys_at(now)
    }

    /// Number of keys, total size, total accesses and mean accesses per key
    /// (0 when nothing is tracked).
    pub fn stats(&self) -> (st: PolicyStats)
        requires
            spec_total_size(self.patterns()) <= u64::MAX,
            spec_total_accesses(self.patterns()) <= u64::MAX,
        ensures
            st.total_keys == self.patterns().len(),
            st.total_size == spec_total_size(self.patterns()),
            st.total_accesses == spec_total_accesses(self.patterns()),
            st.avg_access_count == if st.total_keys > 0 { st.total_accesses / (st.total_keys as u64) } else { 0 },
    {
        let total_keys: usize = self.patterns.len();
        let (total_size, total_accesses) = self.patterns.totals();
        let avg_access_count: u64 = if total_keys > 0 { total_accesses / (total_keys as u64) } else { 0 };
        PolicyStats { total_keys, total_size, total_accesses, avg_access_count }
    }
}


/// Every key listed as expired is the key of a tracked pattern.
proof fn lemma_expired_keys_tracked(s: Seq<AccessPattern>, now: u64)
    ensures
        forall|m: int| 0 <= m < spec_expired_keys(s, now).len()
            ==> exists|i: int| 0 <= i < s.len() && s[i].key@ == #[trigger] spec_expired_keys(s, now)[m],
    decreases s.len(),
{
    if s.len() > 0 {
        let t = s.drop_last();
        lemma_expired_keys_tracked(t, now);
        assert forall|m: int| 0 <= m < spec_expired_keys(s, now).len()
            implies exists|i: int| 0 <= i < s.len() && s[i].key@ == #[trigger] spec_expired_keys(s, now)[m] by {
            if m < spec_expired_keys(t, now).len() {
                let i = choose|i: int| 0 <= i < t.len() && t[i].key@ == spec_expired_keys(t, now)[m];
                assert(s[i] == t[i]);
            } else {
                assert(s[s.len() - 1].key@ == spec_expired_keys(s, now)[m]);
            }
        }
    }
}

/// When no key is tracked twice, no key is listed twice among the expired
/// ones.
pub proof fn lemma_expired_keys_distinct(s: Seq<AccessPattern>, now: u64)
    requires
        keys_distinct(s),
    ensures
        forall|j: int, k: int| 0 <= j < k < spec_expired_keys(s, now).len()
            ==> spec_expired_keys(s, now)[j] != spec_expired_keys(s, now)[k],
    decreases s.len(),
{
    if s.len() > 0 {
        let t = s.drop_last();
        assert(keys_distinct(t)) by {
            assert forall|i: int, j: int| 0 <= i < t.len() && 0 <= j < t.len() && i != j implies t[i].key@ != t[j].key@ by {
                assert(t[i] == s[i] && t[j] == s[j]);
            }
        }
        lemma_expired_keys_distinct(t, now);
        lemma_expired_keys_tracked(t, now);
        if spec_is_expired(s.last(), now) {
            let e = spec_expired_keys(s, now);
            let et = spec_expired_keys(t, now);
            assert forall|j: int, k: int| 0 <= j < k < e.len() implies e[j] != e[k] by {
                if k == et.len() {
                    assert(e[j] == et[j]);
                    let i = choose|i: int| 0 <= i < t.len() && t[i].key@ == #[trigger] et[j];
                    assert(s[i] == t[i]);
                    assert(s[i].key@ != s[s.len() - 1].key@);
                } else {
                    assert(e[j] == et[j] && e[k] == et[k]);
                }
            }
        }
    }
}

/// When no key is tracked twice, a selection of eviction candidates names
/// no key twice.
pub proof fn lemma_eviction_selection_distinct(
    s: Seq<AccessPattern>,
    policy: EvictionPolicy,
    now: u64,
    count: nat,
    res: Seq<String>,
)
    requires
        keys_distinct(s),
        spec_is_eviction_selection(s, policy, now, count, res),
    ensures
        forall|j: int, k: int| 0 <= j < k < res.len() ==> res[j]@ != res[k]@,
{
    assert forall|j: int, k: int| 0 <= j < k < res.len() implies res[j]@ != res[k]@ by {
        let idx = choose|idx: Seq<int>| #![trigger idx.len()] {
            &&& idx.len() == res.len()
            &&& res.len() == if count < s.len() { count } else { s.len() }
            &&& forall|j: int| 0 <= j < idx.len() ==> 0 <= #[trigger] idx[j] < s.len()
            &&& forall|j: int| 0 <= j < idx.len() ==> res[j]@ == #[trigger] s[idx[j]].key@
            &&& forall|j: int, k: int| 0 <= j < k < idx.len() ==> idx[j] != idx[k]
            &&& forall|j: int, k: int|
                0 <= j < k < idx.len() ==> spec_eviction_rank(policy, s[idx[j]], now) <= spec_eviction_rank(policy, s[idx[k]], now)
            &&& forall|j: int, i: int|
                0 <= j < idx.len() && 0 <= i < s.len() && !idx.contains(i)
                    ==> spec_eviction_rank(policy, #[trigger] s[idx[j]], now) <= spec_eviction_rank(policy, #[trigger] s[i], now)
        };
        assert(0 <= idx[j] < s.len() && 0 <= idx[k] < s.len());
        assert(res[j]@ == s[idx[j]].key@ && res[k]@ == s[idx[k]].key@);
        assert(idx[j] != idx[k]);
    }
}


proof fn lemma_totals_update(s: Seq<AccessPattern>, i: int, p: AccessPattern)
    requires
        0 <= i < s.len(),
    ensures
        spec_total_size(s.update(i, p)) == spec_total_size(s) - s[i].size + p.size,
        spec_total_accesses(s.update(i, p)) == spec_total_accesses(s) - s[i].access_count + p.access_count,
    decreases s.len(),
{
    let u = s.update(i, p);
    if i == s.len() - 1 {
        assert(u.drop_last() =~= s.drop_last());
    } else {
        assert(u.drop_last() =~= s.drop_last().update(i, p));
        lemma_totals_update(s.drop_last(), i, p);
    }
}

proof fn lemma_totals_remove(s: Seq<AccessPattern>, i: int)
    requires
        0 <= i < s.len(),
    ensures
        spec_total_size(s.remove(i)) == spec_total_size(s) - s[i].size,
        spec_total_accesses(s.remove(i)) == spec_total_accesses(s) - s[i].access_count,
    decreases s.len(),
{
    let r = s.remove(i);
    if i == s.len() - 1 {
        assert(r =~= s.drop_last());
    } else {
        assert(r.drop_last() =~= s.drop_last().remove(i));
        assert(r.last() == s.last());
        lemma_totals_remove(s.drop_last(), i);
    }
}

/// Tracking `p` adds one key when its key is new, and puts its size in
/// place of the size the key had (if any); its access count starts over.
pub proof fn lemma_track_totals(s: Seq<AccessPattern>, p: AccessPattern)
    ensures
        spec_tracked_at(s, p).len() == s.len() + (if spec_find(s, p.key@) is Some { 0int } else { 1int }),
        spec_total_size(spec_tracked_at(s, p)) == spec_total_size(s) + p.size - match spec_find(s, p.key@) {
            Some(i) => s[i].size as int,
            None => 0int,
        },
        spec_total_accesses(spec_tracked_at(s, p)) == spec_total_accesses(s) + p.access_count - match spec_find(s, p.key@) {
            Some(i) => s[i].access_count as int,
            None => 0int,
        },
{
    match spec_find(s, p.key@) {
        Some(i) => {
            lemma_totals_update(s, i, p);
        },
        None => {
            assert(s.push(p).drop_last() =~= s);
        },
    }
}

/// An access to a tracked key adds one to the total of accesses and leaves
/// the number of keys and their total size alone; an access to an untracked
/// key changes nothing.
pub proof fn lemma_access_totals(s: Seq<AccessPattern>, key: Seq<char>, now: u64)
    requires
        spec_find(s, key) matches Some(i) ==> s[i].access_count < u64::MAX,
    ensures
        spec_accessed_at(s, key, now).len() == s.len(),
        spec_total_size(spec_accessed_at(s, key, now)) == spec_total_size(s),
        spec_total_accesses(spec_accessed_at(s, key, now)) == spec_total_accesses(s)
            + (if spec_find(s, key) is Some { 1int } else { 0int }),
{
    if let Some(i) = spec_find(s, key) {
        lemma_totals_update(s, i, AccessPattern { last_access: now, access_count: (s[i].access_count + 1) as u64, ..s[i] });
    }
}

/// Removing a tracked key takes one key, its size and its accesses off the
/// totals.
pub proof fn lemma_remove_totals(s: Seq<AccessPattern>, i: int)
    requires
        0 <= i < s.len(),
    ensures
        s.remove(i).len() == s.len() - 1,
        spec_total_size(s.remove(i)) == spec_total_size(s) - s[i].size,
        spec_total_accesses(s.remove(i)) == spec_total_accesses(s) - s[i].access_count,
{
    lemma_totals_remove(s, i);
}


/// The pattern tracked under `key` in `s`.
pub open spec fn spec_pattern_of(s: Seq<AccessPattern>, key: Seq<char>) -> AccessPattern {
    s[spec_find(s, key)->0]
}

proof fn lemma_find_at(s: Seq<AccessPattern>, i: int)
    requires
        keys_distinct(s),
        0 <= i < s.len(),
    ensures
        spec_find(s, s[i].key@) == Some(i),
{
    assert(s[i].key@ == s[i].key@);
    let c = choose|c: int| 0 <= c < s.len() && s[c].key@ == s[i].key@;
    assert(c == i);
}

proof fn lemma_selection_ranks(
    s: Seq<AccessPattern>,
    policy: EvictionPolicy,
    now: u64,
    count: nat,
    res: Seq<String>,
)
    requires
        keys_distinct(s),
        spec_is_eviction_selection(s, policy, now, count, res),
    ensures
        res.len() == if count < s.len() { count } else { s.len() },
        forall|j: int| 0 <= j < res.len() ==> spec_find(s, #[trigger] res[j]@) is Some,
        forall|j: int, i: int|
            #![trigger res[j], s[i]]
            0 <= j < res.len() && 0 <= i < s.len() && !spec_keys_of(res).contains(s[i].key@)
                ==> spec_eviction_rank(policy, spec_pattern_of(s, res[j]@), now) <= spec_eviction_rank(policy, s[i], now),
        forall|j: int, k: int|
            #![trigger res[j], res[k]]
            0 <= j < k < res.len()
                ==> spec_eviction_rank(policy, spec_pattern_of(s, res[j]@), now)
                    <= spec_eviction_rank(policy, spec_pattern_of(s, res[k]@), now),
{
    let idx = choose|idx: Seq<int>| #![trigger idx.len()] {
            &&& idx.len() == res.len()
            &&& res.len() == if count < s.len() { count } else { s.len() }
            &&& forall|j: int| 0 <= j < idx.len() ==> 0 <= #[trigger] idx[j] < s.len()
            &&& forall|j: int| 0 <= j < idx.len() ==> res[j]@ == #[trigger] s[idx[j]].key@
            &&& forall|j: int, k: int| 0 <= j < k < idx.len() ==> idx[j] != idx[k]
            &&& forall|j: int, k: int|
                0 <= j < k < idx.len() ==> spec_eviction_rank(policy, s[idx[j]], now) <= spec_eviction_rank(policy, s[idx[k]], now)
            &&& forall|j: int, i: int|
                0 <= j < idx.len() && 0 <= i < s.len() && !idx.contains(i)
                    ==> spec_eviction_rank(policy, #[trigger] s[idx[j]], now) <= spec_eviction_rank(policy, #[trigger] s[i], now)
        };
    assert forall|j: int| 0 <= j < res.len() implies spec_find(s, #[trigger] res[j]@) == Some(idx[j]) by {
        lemma_find_at(s, idx[j]);
    }
    assert forall|j: int, i: int|
        #![trigger res[j], s[i]]
        0 <= j < res.len() && 0 <= i < s.len() && !spec_keys_of(res).contains(s[i].key@)
            implies spec_eviction_rank(policy, spec_pattern_of(s, res[j]@), now) <= spec_eviction_rank(policy, s[i], now) by {
        lemma_find_at(s, idx[j]);
        assert(spec_find(s, res[j]@) == Some(idx[j]));
        if idx.contains(i) {
            let jj = choose|jj: int| 0 <= jj < idx.len() && idx[jj] == i;
            assert(res[jj]@ == s[idx[jj]].key@);
            assert(spec_keys_of(res)[jj] == s[i].key@);
            assert(false);
        }
        assert(spec_pattern_of(s, res[j]@) == s[idx[j]]);
    }
    assert forall|j: int, k: int|
        #![trigger res[j], res[k]]
        0 <= j < k < res.len()
            implies spec_eviction_rank(policy, spec_pattern_of(s, res[j]@), now)
                <= spec_eviction_rank(policy, spec_pattern_of(s, res[k]@), now) by {
        lemma_find_at(s, idx[j]);
        lemma_find_at(s, idx[k]);
        assert(res[j]@ == s[idx[j]].key@);
        assert(res[k]@ == s[idx[k]].key@);
    }
}

/// Under LFU, eviction takes the least accessed keys first: every key chosen
/// is tracked, has no more accesses than any tracked key left out, and the
/// keys come in non-decreasing order of accesses.
pub proof fn lemma_lfu_evicts_least_accessed(s: Seq<AccessPattern>, now: u64, count: nat, res: Seq<String>)
    requires
        keys_distinct(s),
        spec_is_eviction_selection(s, EvictionPolicy::LFU, now, count, res),
    ensures
        forall|j: int| 0 <= j < res.len() ==> spec_find(s, #[trigger] res[j]@) is Some,
        forall|j: int, i: int|
            #![trigger res[j], s[i]]
            0 <= j < res.len() && 0 <= i < s.len() && !spec_keys_of(res).contains(s[i].key@)
                ==> spec_pattern_of(s, res[j]@).access_count <= s[i].access_count,
        forall|j: int, k: int|
            #![trigger res[j], res[k]]
            0 <= j < k < res.len() ==> spec_pattern_of(s, res[j]@).access_count <= spec_pattern_of(s, res[k]@).access_count,
{
    lemma_selection_ranks(s, EvictionPolicy::LFU, now, count, res);
}

/// Under LRU, eviction takes the least recently used keys first: every key
/// chosen was last accessed no later than any tracked key left out, and the
/// keys come in order of last access.
pub proof fn lemma_lru_evicts_least_recent(s: Seq<AccessPattern>, now: u64, count: nat, res: Seq<String>)
    requires
        keys_distinct(s),
        spec_is_eviction_selection(s, EvictionPolicy::LRU, now, count, res),
    ensures
        forall|j: int| 0 <= j < res.len() ==> spec_find(s, #[trigger] res[j]@) is Some,
        forall|j: int, i: int|
            #![trigger res[j], s[i]]
            0 <= j < res.len() && 0 <= i < s.len() && !spec_keys_of(res).contains(s[i].key@)
                ==> spec_pattern_of(s, res[j]@).last_access <= s[i].last_access,
        forall|j: int, k: int|
            #![trigger res[j], res[k]]
            0 <= j < k < res.len() ==> spec_pattern_of(s, res[j]@).last_access <= spec_pattern_of(s, res[k]@).last_access,
{
    lemma_selection_ranks(s, EvictionPolicy::LRU, now, count, res);
}

/// Under the Size policy, eviction takes the largest values first: every key
/// chosen is at least as large as any tracked key left out, and the keys come
/// in non-increasing order of size.
pub proof fn lemma_size_evicts_largest(s: Seq<AccessPattern>, now: u64, count: nat, res: Seq<String>)
    requires
        keys_distinct(s),
        spec_is_eviction_selection(s, EvictionPolicy::Size, now, count, res),
    ensures
        forall|j: int| 0 <= j < res.len() ==> spec_find(s, #[trigger] res[j]@) is Some,
        forall|j: int, i: int|
            #![trigger res[j], s[i]]
            0 <= j < res.len() && 0 <= i < s.len() && !spec_keys_of(res).contains(s[i].key@)
                ==> spec_pattern_of(s, res[j]@).size >= s[i].size,
        forall|j: int, k: int|
            #![trigger res[j], res[k]]
            0 <= j < k < res.len() ==> spec_pattern_of(s, res[j]@).size >= spec_pattern_of(s, res[k]@).size,
{
    lemma_selection_ranks(s, EvictionPolicy::Size, now, count, res);
}

/// Under TTL, eviction takes expired keys before unexpired ones, oldest
/// created first within each group: no key left out is expired while a
/// chosen one is not, a chosen key in the same group as a key left out was
/// created no later, and the keys come in that order.
pub proof fn lemma_ttl_evicts_expired_first(s: Seq<AccessPattern>, now: u64, count: nat, res: Seq<String>)
    requires
        keys_distinct(s),
        spec_is_eviction_selection(s, EvictionPolicy::TTL, now, count, res),
    ensures
        forall|j: int| 0 <= j < res.len() ==> spec_find(s, #[trigger] res[j]@) is Some,
        forall|j: int, i: int|
            #![trigger res[j], s[i]]
            0 <= j < res.len() && 0 <= i < s.len() && !spec_keys_of(res).contains(s[i].key@) ==> {
                &&& spec_is_expired(s[i], now) ==> spec_is_expired(spec_pattern_of(s, res[j]@), now)
                &&& spec_is_expired(s[i], now) == spec_is_expired(spec_pattern_of(s, res[j]@), now)
                    ==> spec_pattern_of(s, res[j]@).created_at <= s[i].created_at
            },
        forall|j: int, k: int|
            #![trigger res[j], res[k]]
            0 <= j < k < res.len() ==> {
                &&& spec_is_expired(spec_pattern_of(s, res[k]@), now) ==> spec_is_expired(spec_pattern_of(s, res[j]@), now)
                &&& spec_is_expired(spec_pattern_of(s, res[k]@), now) == spec_is_expired(spec_pattern_of(s, res[j]@), now)
                    ==> spec_pattern_of(s, res[j]@).created_at <= spec_pattern_of(s, res[k]@).created_at
            },
{
    lemma_selection_ranks(s, EvictionPolicy::TTL, now, count, res);
}


/// An eviction selection names `count` tracked keys, or every tracked key
/// when fewer are tracked, none of them twice.
pub proof fn lemma_selection_names_tracked_keys(
    s: Seq<AccessPattern>,
    policy: EvictionPolicy,
    now: u64,
    count: nat,
    res: Seq<String>,
)
    requires
        keys_distinct(s),
        spec_is_eviction_selection(s, policy, now, count, res),
    ensures
        res.len() == if count < s.len() { count } else { s.len() },
        forall|j: int| 0 <= j < res.len() ==> spec_find(s, #[trigger] res[j]@) is Some,
        forall|j: int, k: int| 0 <= j < k < res.len() ==> res[j]@ != res[k]@,
{
    lemma_selection_ranks(s, policy, now, count, res);
    lemma_eviction_selection_distinct(s, policy, now, count, res);
}

} // verus!
