//! Automatic data migration between tiers.
use crate::platform::unix_time_nanos;
use crate::storage::policy::{
    keys_distinct, spec_find, spec_is_eviction_selection, spec_whole_seconds, AccessPattern, EvictionPolicy, PatternTable,
};
use crate::storage::tier::{spec_priority, TierType};
use vstd::prelude::*;

verus! {

/// Migration reason
#[derive(Debug, Clone, Copy, PartialEq, Eq, Structural)]
pub enum MigrationReason {
    /// Frequently accessed (promote to hot)
    HighAccess,
    /// Rarely accessed (demote to cold)
    LowAccess,
    /// Tier full (need to evict)
    TierFull,
    /// TTL expired
    Expired,
    /// Manual migration
    Manual,
}

/// Migration decision
#[derive(Debug, Clone)]
pub struct MigrationDecision {
    /// Key to migrate
    pub key: String,
    /// Source tier
    pub from_tier: TierType,
    /// Destination tier
    pub to_tier: TierType,
    /// Reason for migration
    pub reason: MigrationReason,
}

/// A decision as plain values: key, source, destination, reason.
pub type DecisionView = (Seq<char>, TierType, TierType, MigrationReason);

pub open spec fn decision_view(d: MigrationDecision) -> DecisionView {
    (d.key@, d.from_tier, d.to_tier, d.reason)
}

pub open spec fn decisions_view(ds: Seq<MigrationDecision>) -> Seq<DecisionView> {
    ds.map_values(|d: MigrationDecision| decision_view(d))
}

/// Migration statistics
#[derive(Debug, Clone, Copy)]
pub struct MigrationStats {
    /// Total migrations
    pub total_migrations: u64,
    /// Promotions (to hotter tier)
    pub promotions: u64,
    /// Demotions (to colder tier)
    pub demotions: u64,
    /// Bytes migrated
    pub bytes_migrated: u64,
}

impl Default for MigrationStats {
    fn default() -> (s: Self)
        ensures
            s.total_migrations == 0 && s.promotions == 0 && s.demotions == 0 && s.bytes_migrated == 0,
    {
        MigrationStats { total_migrations: 0, promotions: 0, demotions: 0, bytes_migrated: 0 }
    }
}

/// Number of tracked keys per tier; `None` for a tier nothing was ever
/// tracked in.
#[derive(Debug, Clone, Copy, PartialEq, Eq, Structural)]
pub struct TierCounts {
    pub hot: Option<usize>,
    pub warm: Option<usize>,
    pub cold: Option<usize>,
}

impl TierCounts {
    /// The count for `tier`.
    pub fn get(&self, tier: TierType) -> (c: Option<usize>)
        ensures
            c == match tier {
                TierType::Hot => self.hot,
                TierType::Warm => self.warm,
                TierType::Cold => self.cold,
            },
    {
        match tier {
            TierType::Hot => self.hot,
            TierType::Warm => self.warm,
            TierType::Cold => self.cold,
        }
    }
}

/// Whether a warm pattern is accessed often enough, at time `now`, to move to
/// the hot tier: it is at least 360 s (a tenth of an hour) old and its
/// accesses per hour reach `threshold`, compared exactly in integers.
pub open spec fn spec_should_promote(p: AccessPattern, now: u64, threshold: u64) -> bool {
    let age = spec_whole_seconds(p.created_at, now);
    age >= 360 && p.access_count * 3600 >= threshold * age
}

/// Whether a pattern has been idle for at least `hours` whole hours at `now`.
pub open spec fn spec_idle_for(p: AccessPattern, now: u64, hours: int) -> bool {
    spec_whole_seconds(p.last_access, now) >= 3600 * hours
}

/// The promotions proposed for the warm patterns `s`, in tracking order.
pub open spec fn spec_promotions(s: Seq<AccessPattern>, now: u64, threshold: u64) -> Seq<DecisionView>
    decreases s.len(),
{
    if s.len() == 0 {
        Seq::empty()
    } else {
        let r = spec_promotions(s.drop_last(), now, threshold);
        if spec_should_promote(s.last(), now, threshold) {
            r.push((s.last().key@, TierType::Warm, TierType::Hot, MigrationReason::HighAccess))
        } else {
            r
        }
    }
}

/// The demotions from `from` to `to` proposed for the patterns `s` idle for
/// at least `hours` hours, in tracking order.
pub open spec fn spec_demotions(s: Seq<AccessPattern>, now: u64, hours: int, from: TierType, to: TierType) -> Seq<DecisionView>
    decreases s.len(),
{
    if s.len() == 0 {
        Seq::empty()
    } else {
        let r = spec_demotions(s.drop_last(), now, hours, from, to);
        if spec_idle_for(s.last(), now, hours) {
            r.push((s.last().key@, from, to, MigrationReason::LowAccess))
        } else {
            r
        }
    }
}

pub open spec fn opt_seq(t: Option<Seq<AccessPattern>>) -> Seq<AccessPattern> {
    match t {
        Some(s) => s,
        None => Seq::empty(),
    }
}

fn should_promote(p: &AccessPattern, now: u64, threshold: u64) -> (b: bool)
    ensures
        b == spec_should_promote(*p, now, threshold),
{
    let age: u64 = p.age_seconds_at(now);
    if age < 360 {
        return false;
    }
    let lhs: u128 = (p.access_count as u128) * 3600;
    assert((threshold as u128) * (age as u128) <= u128::MAX) by (nonlinear_arith)
        requires
            threshold <= u64::MAX,
            age <= u64::MAX,
    ;
    let rhs: u128 = (threshold as u128) * (age as u128);
    lhs >= rhs
}

fn idle_for(p: &AccessPattern, now: u64, hours: u64) -> (b: bool)
    requires
        hours <= u32::MAX,
    ensures
        b == spec_idle_for(*p, now, hours as int),
{
    let idle: u64 = p.idle_seconds_at(now);
    (idle as u128) >= 3600 * (hours as u128)
}

fn push_promotions(t: &PatternTable, now: u64, threshold: u64, out: &mut Vec<MigrationDecision>)
    ensures
        decisions_view(final(out)@) == decisions_view(old(out)@) + spec_promotions(t@, now, threshold),
{
    let mut i: usize = 0;
    let n: usize = t.len();
    let ghost base = decisions_view(out@);
    assert(t@.take(0) =~= Seq::<AccessPattern>::empty());
    assert(base + Seq::<DecisionView>::empty() =~= base);
    while i < n
        invariant
            n == t@.len(),
            i <= n,
            decisions_view(out@) == base + spec_promotions(t@.take(i as int), now, threshold),
        decreases n - i,
    {
        proof {
            assert(t@.take(i + 1).drop_last() =~= t@.take(i as int));
            assert(t@.take(i + 1).last() == t@[i as int]);
        }
        let p = t.get(i);
        if should_promote(p, now, threshold) {
            let d = MigrationDecision {
                key: p.key.clone(),
                from_tier: TierType::Warm,
                to_tier: TierType::Hot,
                reason: MigrationReason::HighAccess,
            };
            let ghost before = out@;
            out.push(d);
            proof {
                assert(decisions_view(out@) =~= decisions_view(before).push(decision_view(d)));
                let r = spec_promotions(t@.take(i as int), now, threshold);
                assert((base + r).push(decision_view(d)) =~= base + r.push(decision_view(d)));
            }
        }
        i = i + 1;
    }
    assert(t@.take(n as int) =~= t@);
}

fn push_demotions(
    t: &PatternTable,
    now: u64,
    hours: u64,
    from: TierType,
    to: TierType,
    out: &mut Vec<MigrationDecision>,
)
    requires
        hours <= u32::MAX,
    ensures
        decisions_view(final(out)@) == decisions_view(old(out)@) + spec_demotions(t@, now, hours as int, from, to),
{
    let mut i: usize = 0;
    let n: usize = t.len();
    let ghost base = decisions_view(out@);
    assert(t@.take(0) =~= Seq::<AccessPattern>::empty());
    assert(base + Seq::<DecisionView>::empty() =~= base);
    while i < n
        invariant
            n == t@.len(),
            i <= n,
            hours <= u32::MAX,
            decisions_view(out@) == base + spec_demotions(t@.take(i as int), now, hours as int, from, to),
        decreases n - i,
    {
        proof {
            assert(t@.take(i + 1).drop_last() =~= t@.take(i as int));
            assert(t@.take(i + 1).last() == t@[i as int]);
        }
        let p = t.get(i);
        if idle_for(p, now, hours) {
            let d = MigrationDecision {
                key: p.key.clone(),
                from_tier: from,
                to_tier: to,
                reason: MigrationReason::LowAccess,
            };
            let ghost before = out@;
            out.push(d);
            proof {
                assert(decisions_view(out@) =~= decisions_view(before).push(decision_view(d)));
                let r = spec_demotions(t@.take(i as int), now, hours as int, from, to);
                assert((base + r).push(decision_view(d)) =~= base + r.push(decision_view(d)));
            }
        }
        i = i + 1;
    }
    assert(t@.take(n as int) =~= t@);
}

/// Migration manager
pub struct MigrationManager {
    hot: Option<PatternTable>,
    warm: Option<PatternTable>,
    cold: Option<PatternTable>,
    stats: MigrationStats,
    policy: EvictionPolicy,
    /// Hot tier access threshold (accesses per hour)
    hot_threshold: u64,
    /// Cold tier idle threshold (hours)
    cold_threshold: u64,
}

/// Accesses per hour that promote a warm key.
pub const HOT_THRESHOLD: u64 = 100;
/// Idle hours after which a warm key goes cold (half of it sends a hot key
/// to the warm tier).
pub const COLD_THRESHOLD: u64 = 24;

impl MigrationManager {
    /// The patterns tracked in `tier`, `None` if nothing was ever tracked there.
    pub closed spec fn spec_table(&self, tier: TierType) -> Option<Seq<AccessPattern>> {
        match tier {
            TierType::Hot => match self.hot { Some(t) => Some(t@), None => None },
            TierType::Warm => match self.warm { Some(t) => Some(t@), None => None },
            TierType::Cold => match self.cold { Some(t) => Some(t@), None => None },
        }
    }

    pub closed spec fn spec_stats(&self) -> MigrationStats {
        self.stats
    }

    pub closed spec fn spec_policy(&self) -> EvictionPolicy {
        self.policy
    }

    /// Invariant: no key twice within a tier; the thresholds are the fixed ones.
    pub closed spec fn wf(&self) -> bool {
        &&& (self.hot matches Some(t) ==> t.wf())
        &&& (self.warm matches Some(t) ==> t.wf())
        &&& (self.cold matches Some(t) ==> t.wf())
        &&& self.hot_threshold == HOT_THRESHOLD
        &&& self.cold_threshold == COLD_THRESHOLD
    }


    /// A manager tracking nothing.
    pub fn new(policy: EvictionPolicy) -> (m: Self)
        ensures
            m.wf(),
            m.spec_policy() == policy,
            m.spec_stats() == MigrationStats::default_spec(),
            forall|t: TierType| m.spec_table(t) is None,
    {
        MigrationManager {
            hot: None,
            warm: None,
            cold: None,
            stats: MigrationStats { total_migrations: 0, promotions: 0, demotions: 0, bytes_migrated: 0 },
            policy,
            hot_threshold: HOT_THRESHOLD,
            cold_threshold: COLD_THRESHOLD,
        }
    }
}

impl MigrationStats {
    pub open spec fn default_spec() -> MigrationStats {
        MigrationStats { total_migrations: 0, promotions: 0, demotions: 0, bytes_migrated: 0 }
    }
}


/// The table after tracking `p`: it replaces the pattern with the same key,
/// or is appended.
pub open spec fn spec_upsert(s: Seq<AccessPattern>, p: AccessPattern) -> Seq<AccessPattern> {
    match spec_find(s, p.key@) {
        Some(i) => s.update(i, p),
        None => s.push(p),
    }
}

/// The table after an access to `key` at time `now`.
/// Whether one more access to `key` fits in its count in table `s` (a key
/// that is not tracked needs no room).
pub open spec fn spec_count_room(s: Seq<AccessPattern>, key: Seq<char>) -> bool {
    spec_find(s, key) matches Some(i) ==> s[i].access_count < u64::MAX
}

pub open spec fn spec_touch(s: Seq<AccessPattern>, key: Seq<char>, now: u64) -> Seq<AccessPattern> {
    match spec_find(s, key) {
        Some(i) => s.update(i, AccessPattern {
            last_access: now,
            access_count: (s[i].access_count + 1) as u64,
            ..s[i]
        }),
        None => s,
    }
}

/// The table after dropping `key`.
pub open spec fn spec_drop(s: Seq<AccessPattern>, key: Seq<char>) -> Seq<AccessPattern> {
    match spec_find(s, key) {
        Some(i) => s.remove(i),
        None => s,
    }
}

fn upsert(slot: &mut Option<PatternTable>, p: AccessPattern)
    requires
        *old(slot) matches Some(t) ==> t.wf(),
    ensures
        *final(slot) matches Some(t) && t.wf() && t@ == spec_upsert(
            match *old(slot) { Some(t) => t@, None => Seq::empty() },
            p,
        ),
{
    let mut t = match slot.take() {
        Some(t) => t,
        None => PatternTable::new(),
    };
    t.insert(p);
    *slot = Some(t);
}

fn touch(slot: &mut Option<PatternTable>, key: &str, now: u64)
    requires
        *old(slot) matches Some(t) ==> t.wf() && spec_count_room(t@, key@),
    ensures
        match *old(slot) {
            Some(t) => *final(slot) matches Some(u) && u.wf() && u@ == spec_touch(t@, key@, now),
            None => *final(slot) is None,
        },
{
    match slot {
        Some(t) => {
            t.record_access_at(key, now);
        },
        None => {},
    }
}

fn drop_key(slot: &mut Option<PatternTable>, key: &str)
    requires
        *old(slot) matches Some(t) ==> t.wf(),
    ensures
        match *old(slot) {
            Some(t) => *final(slot) matches Some(u) && u.wf() && u@ == spec_drop(t@, key@),
            None => *final(slot) is None,
        },
{
    match slot {
        Some(t) => {
            t.remove(key);
        },
        None => {},
    }
}

impl MigrationManager {
    /// Tracks `key` in `tier` from time `now`, replacing its pattern there.
    pub fn track_at(&mut self, tier: TierType, key: String, size: u64, now: u64)
        requires
            old(self).wf(),
        ensures
            final(self).wf(),
            final(self).spec_policy() == old(self).spec_policy(),
            final(self).spec_stats() == old(self).spec_stats(),
            final(self).spec_table(tier) == Some(spec_upsert(
                opt_seq(old(self).spec_table(tier)),
                AccessPattern { key, last_access: now, access_count: 0, size, created_at: now, ttl: None },
            )),
            forall|t: TierType| t != tier ==> final(self).spec_table(t) == old(self).spec_table(t),
    {
        let p = AccessPattern::new_at(key, size, None, now);
        match tier {
            TierType::Hot => upsert(&mut self.hot, p),
            TierType::Warm => upsert(&mut self.warm, p),
            TierType::Cold => upsert(&mut self.cold, p),
        }
    }

    /// Tracks `key` in `tier` from now, replacing its pattern there.
    pub fn track(&mut self, tier: TierType, key: String, size: u64)
        requires
            old(self).wf(),
        ensures
            final(self).wf(),
            final(self).spec_policy() == old(self).spec_policy(),
            final(self).spec_stats() == old(self).spec_stats(),
            exists|now: u64| final(self).spec_table(tier) == Some(spec_upsert(
                opt_seq(old(self).spec_table(tier)),
                AccessPattern { key, last_access: now, access_count: 0, size, created_at: now, ttl: None },
            )),
            forall|t: TierType| t != tier ==> final(self).spec_table(t) == old(self).spec_table(t),
    {
        let now = unix_time_nanos();
        self.track_at(tier, key, size, now);
    }

    /// Records an access at time `now` to `key` in `tier`; unknown keys and
    /// tiers are ignored.
    pub fn record_access_at(&mut self, tier: TierType, key: &str, now: u64)
        requires
            old(self).wf(),
            spec_count_room(opt_seq(old(self).spec_table(tier)), key@),
        ensures
            final(self).wf(),
            final(self).spec_policy() == old(self).spec_policy(),
            final(self).spec_stats() == old(self).spec_stats(),
            final(self).spec_table(tier) == match old(self).spec_table(tier) {
                Some(s) => Some(spec_touch(s, key@, now)),
                None => None,
            },
            forall|t: TierType| t != tier ==> final(self).spec_table(t) == old(self).spec_table(t),
    {
        match tier {
            TierType::Hot => touch(&mut self.hot, key, now),
            TierType::Warm => touch(&mut self.warm, key, now),
            TierType::Cold => touch(&mut self.cold, key, now),
        }
    }

    /// Records an access now to `key` in `tier`.
    pub fn record_access(&mut self, tier: TierType, key: &str)
        requires
            old(self).wf(),
            spec_count_room(opt_seq(old(self).spec_table(tier)), key@),
        ensures
            final(self).wf(),
            final(self).spec_policy() == old(self).spec_policy(),
            final(self).spec_stats() == old(self).spec_stats(),
            match old(self).spec_table(tier) {
                Some(s) => exists|now: u64| final(self).spec_table(tier) == Some(#[trigger] spec_touch(s, key@, now)),
                None => final(self).spec_table(tier) is None,
            },
            forall|t: TierType| t != tier ==> final(self).spec_table(t) == old(self).spec_table(t),
    {
        let now = unix_time_nanos();
        self.record_access_at(tier, key, now);
    }

    /// Stops tracking `key` in `tier`.
    pub fn remove(&mut self, tier: TierType, key: &str)
        requires
            old(self).wf(),
        ensures
            final(self).wf(),
            final(self).spec_policy() == old(self).spec_policy(),
            final(self).spec_stats() == old(self).spec_stats(),
            final(self).spec_table(tier) == match old(self).spec_table(tier) {
                Some(s) => Some(spec_drop(s, key@)),
                None => None,
            },
            forall|t: TierType| t != tier ==> final(self).spec_table(t) == old(self).spec_table(t),
    {
        match tier {
            TierType::Hot => drop_key(&mut self.hot, key),
            TierType::Warm => drop_key(&mut self.warm, key),
            TierType::Cold => drop_key(&mut self.cold, key),
        }
    }

    /// The migrations suggested at time `now`: warm keys accessed often
    /// enough move to hot, hot keys idle for half the cold threshold move to
    /// warm, warm keys idle for the cold threshold move to cold.
    pub fn analyze_migrations_at(&self, now: u64) -> (res: Vec<MigrationDecision>)
        requires
            self.wf(),
        ensures
            decisions_view(res@) == spec_promotions(opt_seq(self.spec_table(TierType::Warm)), now, HOT_THRESHOLD)
                + spec_demotions(opt_seq(self.spec_table(TierType::Hot)), now, (COLD_THRESHOLD / 2) as int, TierType::Hot, TierType::Warm)
                + spec_demotions(opt_seq(self.spec_table(TierType::Warm)), now, COLD_THRESHOLD as int, TierType::Warm, TierType::Cold),
    {
        let mut res: Vec<MigrationDecision> = Vec::new();
        let empty = PatternTable::new();
        assert(decisions_view(res@) =~= Seq::<DecisionView>::empty());
        let warm = match &self.warm { Some(t) => t, None => &empty };
        let hot = match &self.hot { Some(t) => t, None => &empty };
        push_promotions(warm, now, self.hot_threshold, &mut res);
        push_demotions(hot, now, self.cold_threshold / 2, TierType::Hot, TierType::Warm, &mut res);
        push_demotions(warm, now, self.cold_threshold, TierType::Warm, TierType::Cold, &mut res);
        assert(Seq::<DecisionView>::empty() + spec_promotions(opt_seq(self.spec_table(TierType::Warm)), now, HOT_THRESHOLD)
            =~= spec_promotions(opt_seq(self.spec_table(TierType::Warm)), now, HOT_THRESHOLD));
        res
    }

    /// The migrations suggested now.
    pub fn analyze_migrations(&self) -> (res: Vec<MigrationDecision>)
        requires
            self.wf(),
        ensures
            exists|now: u64| decisions_view(res@) == spec_promotions(opt_seq(self.spec_table(TierType::Warm)), now, HOT_THRESHOLD)
                + spec_demotions(opt_seq(self.spec_table(TierType::Hot)), now, (COLD_THRESHOLD / 2) as int, TierType::Hot, TierType::Warm)
                + spec_demotions(opt_seq(self.spec_table(TierType::Warm)), now, COLD_THRESHOLD as int, TierType::Warm, TierType::Cold),
    {
        let now = unix_time_nanos();
        self.analyze_migrations_at(now)
    }

    /// Up to `count` keys of `tier` to evict under the policy at time `now`,
    /// in ranking order; none for a tier nothing was tracked in.
    pub fn select_eviction_candidates_at(&self, tier: TierType, count: usize, now: u64) -> (res: Vec<String>)
        requires
            self.wf(),
        ensures
            match self.spec_table(tier) {
                Some(s) => spec_is_eviction_selection(s, self.spec_policy(), now, count as nat, res@),
                None => res@.len() == 0,
            },
            self.spec_table(tier) matches Some(s) ==> keys_distinct(s),
    {
        let slot = match tier {
            TierType::Hot => &self.hot,
            TierType::Warm => &self.warm,
            TierType::Cold => &self.cold,
        };
        match slot {
            Some(t) => t.select_eviction(self.policy, count, now),
            None => Vec::new(),
        }
    }

    /// Up to `count` keys of `tier` to evict under the policy now, in ranking
    /// order; none for a tier nothing was tracked in.
    pub fn select_eviction_candidates(&self, tier: TierType, count: usize) -> (res: Vec<String>)
        requires
            self.wf(),
        ensures
            match self.spec_table(tier) {
                Some(s) => exists|now: u64| #[trigger] spec_is_eviction_selection(s, self.spec_policy(), now, count as nat, res@),
                None => res@.len() == 0,
            },
            self.spec_table(tier) matches Some(s) ==> keys_distinct(s),
    {
        let now = unix_time_nanos();
        self.select_eviction_candidates_at(tier, count, now)
    }

    /// Counts one executed migration of `size` bytes: a promotion when the
    /// destination tier has the higher priority, a demotion otherwise.
    pub fn record_migration(&mut self, decision: &MigrationDecision, size: u64)
        requires
            old(self).spec_stats().total_migrations < u64::MAX,
            old(self).spec_stats().promotions < u64::MAX,
            old(self).spec_stats().demotions < u64::MAX,
            old(self).spec_stats().bytes_migrated + size <= u64::MAX,
        ensures
            final(self).spec_policy() == old(self).spec_policy(),
            forall|t: TierType| final(self).spec_table(t) == old(self).spec_table(t),
            final(self).wf() == old(self).wf(),
            final(self).spec_stats() == ({
                let o = old(self).spec_stats();
                let promote = spec_priority(decision.to_tier) > spec_priority(decision.from_tier);
                MigrationStats {
                    total_migrations: (o.total_migrations + 1) as u64,
                    bytes_migrated: (o.bytes_migrated + size) as u64,
                    promotions: if promote { (o.promotions + 1) as u64 } else { o.promotions },
                    demotions: if promote { o.demotions } else { (o.demotions + 1) as u64 },
                }
            }),
    {
        self.stats.total_migrations = self.stats.total_migrations + 1;
        self.stats.bytes_migrated = self.stats.bytes_migrated + size;
        if decision.to_tier.priority() > decision.from_tier.priority() {
            self.stats.promotions = self.stats.promotions + 1;
        } else {
            self.stats.demotions = self.stats.demotions + 1;
        }
    }

    /// How many accesses `key` has seen in `tier`, if it is tracked there.
    pub fn access_count(&self, tier: TierType, key: &str) -> (r: Option<u64>)
        requires
            self.wf(),
        ensures
            r == match spec_find(opt_seq(self.spec_table(tier)), key@) {
                Some(i) => Some(opt_seq(self.spec_table(tier))[i].access_count),
                None => None::<u64>,
            },
    {
        let slot = match tier {
            TierType::Hot => &self.hot,
            TierType::Warm => &self.warm,
            TierType::Cold => &self.cold,
        };
        match slot {
            Some(t) => match t.find(key) {
                Some(i) => Some(t.get(i).access_count),
                None => None,
            },
            None => None,
        }
    }

    /// Statistics
    pub fn stats(&self) -> (s: MigrationStats)
        ensures
            s == self.spec_stats(),
    {
        self.stats
    }

    /// Number of tracked keys per tier.
    pub fn pattern_counts(&self) -> (c: TierCounts)
        ensures
            forall|t: TierType| c.get_spec(t) == match self.spec_table(t) {
                Some(s) => Some(s.len() as usize),
                None => None,
            },
    {
        let hot = match &self.hot { Some(t) => Some(t.len()), None => None };
        let warm = match &self.warm { Some(t) => Some(t.len()), None => None };
        let cold = match &self.cold { Some(t) => Some(t.len()), None => None };
        TierCounts { hot, warm, cold }
    }
}

impl TierCounts {
    pub open spec fn get_spec(&self, tier: TierType) -> Option<usize> {
        match tier {
            TierType::Hot => self.hot,
            TierType::Warm => self.warm,
            TierType::Cold => self.cold,
        }
    }
}

} // verus!
