//! The bookkeeping of tiered storage: which tiers exist, where each key's
//! data lives, how full each tier is, and what the migration manager tracks.
//! Reading and writing the data files is left to the caller, which does it
//! between the planning and committing steps below.
use crate::storage::error::TieredError;
use crate::storage::migration::{
    decisions_view, opt_seq, spec_count_room, spec_demotions, spec_drop, spec_promotions, spec_touch, spec_upsert, MigrationDecision,
    MigrationManager, MigrationStats, COLD_THRESHOLD, HOT_THRESHOLD,
};
use crate::storage::policy::{spec_find, AccessPattern, EvictionPolicy};
use crate::storage::tier::{spec_priority, spec_resized, Tier, TierConfig, TierType};
use vstd::hash_map::StringHashMap;
use vstd::prelude::*;

verus! {

/// The text of the path `std::path::Path::new(base).join(key)`.
pub uninterp spec fn path_joined(base: Seq<char>, key: Seq<char>) -> Seq<char>;

/// `std::path::Path::join` of `key` onto `base`, as text (both inputs are
/// text, so the joined path is too and `to_string_lossy` changes nothing).
#[verifier::external_body]
fn join_path(base: &str, key: &str) -> (r: String)
    ensures
        r@ == path_joined(base@, key@),
{
    std::path::Path::new(base).join(key).to_string_lossy().into_owned()
}

/// Where a key's data lives: its tier and its size. The file is the tier's
/// directory joined with the key.
#[derive(Debug, Clone, Copy, PartialEq, Eq, Structural)]
pub struct DataLocation {
    pub tier: TierType,
    pub size: u64,
}

/// Tier statistics
#[derive(Debug, Clone, Copy)]
pub struct TierStats {
    pub current_size: u64,
    pub max_size: u64,
    pub key_count: usize,
}

/// Statistics of each configured tier.
#[derive(Debug, Clone, Copy)]
pub struct TierStatsByTier {
    pub hot: Option<TierStats>,
    pub warm: Option<TierStats>,
    pub cold: Option<TierStats>,
}

impl TierStatsByTier {
    /// The statistics of `tier`, if it is configured.
    pub fn get(&self, tier: TierType) -> (s: Option<TierStats>)
        ensures
            s == match tier {
                TierType::Hot => self.hot,
                TierType::Warm => self.warm,
                TierType::Cold => self.cold,
            },
    {
        match tier {
            TierType::Hot => self.hot,
            TierType::Warm => self.warm,
            TierType::Cold => self.cold,
        }
    }
}

/// The bookkeeping of a tiered store.
pub struct TierCatalog {
    hot: Option<Tier>,
    warm: Option<Tier>,
    cold: Option<Tier>,
    locations: StringHashMap<DataLocation>,
    migration: MigrationManager,
}

/// The first of hot, warm and cold that is configured and has room for
/// `size` more bytes.
pub open spec fn spec_first_with_space(
    hot: Option<TierConfig>,
    warm: Option<TierConfig>,
    cold: Option<TierConfig>,
    size: u64,
) -> Option<TierType> {
    if hot matches Some(c) && c.current_size + size <= c.max_size {
        Some(TierType::Hot)
    } else if warm matches Some(c) && c.current_size + size <= c.max_size {
        Some(TierType::Warm)
    } else if cold matches Some(c) && c.current_size + size <= c.max_size {
        Some(TierType::Cold)
    } else {
        None
    }
}

/// A tier configuration after adding `delta` bytes.
pub open spec fn spec_config_resized(c: Option<TierConfig>, delta: i64) -> Option<TierConfig> {
    match c {
        Some(c) => Some(TierConfig { current_size: spec_resized(c.current_size, delta), ..c }),
        None => None,
    }
}

fn tier_spec(t: &Option<Tier>) -> (c: Option<u64>)
    ensures
        c == match *t { Some(t) => Some(t.spec_config().current_size), None => None },
{
    match t {
        Some(t) => Some(t.config().current_size),
        None => None,
    }
}

fn resize(slot: &mut Option<Tier>, delta: i64)
    requires
        delta > i64::MIN,
        delta >= 0 ==> (*old(slot) matches Some(t) ==> t.spec_config().current_size + delta <= u64::MAX),
    ensures
        match *old(slot) {
            Some(t) => *final(slot) matches Some(u) && u.spec_config() == (TierConfig {
                current_size: spec_resized(t.spec_config().current_size, delta),
                ..t.spec_config()
            }),
            None => *final(slot) is None,
        },
{
    match slot {
        Some(t) => t.update_size(delta),
        None => {},
    }
}

impl TierCatalog {
    /// The configuration of `tier`, `None` when it is not configured.
    pub closed spec fn spec_tier(&self, tier: TierType) -> Option<TierConfig> {
        let slot = match tier {
            TierType::Hot => self.hot,
            TierType::Warm => self.warm,
            TierType::Cold => self.cold,
        };
        match slot {
            Some(t) => Some(t.spec_config()),
            None => None,
        }
    }

    /// Where each stored key lives.
    pub closed spec fn spec_locations(&self) -> Map<Seq<char>, DataLocation> {
        self.locations@
    }

    /// The access patterns tracked in `tier`.
    pub closed spec fn spec_tracked(&self, tier: TierType) -> Option<Seq<AccessPattern>> {
        self.migration.spec_table(tier)
    }

    /// Every tracked key has seen fewer than `u64::MAX` accesses.

    pub closed spec fn spec_migration_stats(&self) -> MigrationStats {
        self.migration.spec_stats()
    }

    pub closed spec fn wf(&self) -> bool {
        self.migration.wf()
    }

    /// The tier a new value of `size` bytes goes to.
    pub open spec fn spec_target_tier(&self, size: u64) -> Option<TierType> {
        spec_first_with_space(
            self.spec_tier(TierType::Hot),
            self.spec_tier(TierType::Warm),
            self.spec_tier(TierType::Cold),
            size,
        )
    }

    /// Finds the hottest configured tier with room for `size` bytes.
    pub fn find_tier_with_space(&self, size: u64) -> (r: Result<TierType, TieredError>)
        ensures
            match r {
                Ok(t) => self.spec_target_tier(size) == Some(t),
                Err(TieredError::TierFull(msg)) => self.spec_target_tier(size) is None && msg@ == "All tiers full"@,
                Err(_) => false,
            },
    {
        if let Some(t) = &self.hot {
            if t.has_space(size) {
                return Ok(TierType::Hot);
            }
        }
        if let Some(t) = &self.warm {
            if t.has_space(size) {
                return Ok(TierType::Warm);
            }
        }
        if let Some(t) = &self.cold {
            if t.has_space(size) {
                return Ok(TierType::Cold);
            }
        }
        Err(TieredError::TierFull("All tiers full".to_owned()))
    }

    fn slot(&self, tier: TierType) -> (s: &Option<Tier>)
        ensures
            match *s {
                Some(t) => self.spec_tier(tier) == Some(t.spec_config()),
                None => self.spec_tier(tier) is None,
            },
    {
        match tier {
            TierType::Hot => &self.hot,
            TierType::Warm => &self.warm,
            TierType::Cold => &self.cold,
        }
    }

    /// The file that holds `key` when stored in `tier`.
    pub fn path_for(&self, tier: TierType, key: &str) -> (r: Result<String, TieredError>)
        ensures
            match r {
                Ok(p) => self.spec_tier(tier) is Some && p@ == path_joined(self.spec_tier(tier)->0.path@, key@),
                Err(TieredError::InvalidConfig(msg)) => self.spec_tier(tier) is None && msg@ == "Tier not found"@,
                Err(_) => false,
            },
    {
        match self.slot(tier) {
            Some(t) => Ok(join_path(t.config().path.as_str(), key)),
            None => Err(TieredError::InvalidConfig("Tier not found".to_owned())),
        }
    }

    /// Plans storing `size` bytes under `key`: the tier that receives them and
    /// the file to write.
    pub fn plan_put(&self, key: &str, size: u64) -> (r: Result<(TierType, String), TieredError>)
        ensures
            match r {
                Ok((t, p)) => self.spec_target_tier(size) == Some(t) && self.spec_tier(t) is Some
                    && p@ == path_joined(self.spec_tier(t)->0.path@, key@),
                Err(TieredError::TierFull(_)) => self.spec_target_tier(size) is None,
                Err(_) => false,
            },
    {
        let tier = self.find_tier_with_space(size)?;
        let path = self.path_for(tier, key)?;
        Ok((tier, path))
    }

    /// Records that `size` bytes for `key` were written to `tier`: the key's
    /// location, the tier's size and the tracked access pattern.
    pub fn commit_put(&mut self, key: String, tier: TierType, size: u64)
        requires
            old(self).wf(),
            old(self).spec_tier(tier) matches Some(c) && c.current_size + size <= u64::MAX,
            size <= i64::MAX,
        ensures
            final(self).wf(),
            final(self).spec_locations() == old(self).spec_locations().insert(key@, DataLocation { tier, size }),
            final(self).spec_tier(tier) == spec_config_resized(old(self).spec_tier(tier), size as i64),
            forall|t: TierType| t != tier ==> final(self).spec_tier(t) == old(self).spec_tier(t),
            final(self).spec_tracked(tier) matches Some(s) && exists|now: u64| s == spec_upsert(
                opt_seq(old(self).spec_tracked(tier)),
                AccessPattern { key, last_access: now, access_count: 0, size, created_at: now, ttl: None },
            ),
            forall|t: TierType| t != tier ==> final(self).spec_tracked(t) == old(self).spec_tracked(t),
            final(self).spec_migration_stats() == old(self).spec_migration_stats(),
    {
        let k2 = key.clone();
        self.locations.insert(k2, DataLocation { tier, size });
        match tier {
            TierType::Hot => resize(&mut self.hot, size as i64),
            TierType::Warm => resize(&mut self.warm, size as i64),
            TierType::Cold => resize(&mut self.cold, size as i64),
        }
        self.migration.track(tier, key, size);
    }

    /// Where `key` is stored.
    pub fn location(&self, key: &str) -> (r: Result<DataLocation, TieredError>)
        ensures
            match r {
                Ok(loc) => self.spec_locations().contains_key(key@) && self.spec_locations()[key@] == loc,
                Err(TieredError::KeyNotFound(k)) => !self.spec_locations().contains_key(key@) && k@ == key@,
                Err(_) => false,
            },
    {
        match self.locations.get(key) {
            Some(loc) => Ok(*loc),
            None => Err(TieredError::KeyNotFound(key.to_owned())),
        }
    }

    /// How many reads `key` has seen in `tier`, if it is tracked there.
    pub fn access_count(&self, tier: TierType, key: &str) -> (r: Option<u64>)
        requires
            self.wf(),
        ensures
            r == match spec_find(opt_seq(self.spec_tracked(tier)), key@) {
                Some(i) => Some(opt_seq(self.spec_tracked(tier))[i].access_count),
                None => None::<u64>,
            },
    {
        self.migration.access_count(tier, key)
    }

    /// The migration statistics.
    pub fn migration_stats(&self) -> (s: MigrationStats)
        ensures
            s == self.spec_migration_stats(),
    {
        self.migration.stats()
    }

    /// Records a read of `key` from `tier`.
    pub fn note_access(&mut self, tier: TierType, key: &str)
        requires
            old(self).wf(),
            spec_count_room(opt_seq(old(self).spec_tracked(tier)), key@),
        ensures
            final(self).wf(),
            final(self).spec_locations() == old(self).spec_locations(),
            forall|t: TierType| final(self).spec_tier(t) == old(self).spec_tier(t),
            final(self).spec_migration_stats() == old(self).spec_migration_stats(),
            match old(self).spec_tracked(tier) {
                Some(s) => exists|now: u64| final(self).spec_tracked(tier) == Some(#[trigger] spec_touch(s, key@, now)),
                None => final(self).spec_tracked(tier) is None,
            },
            forall|t: TierType| t != tier ==> final(self).spec_tracked(t) == old(self).spec_tracked(t),
    {
        self.migration.record_access(tier, key);
    }

    /// Forgets `key`'s location and returns it; the caller then deletes the
    /// file and calls `finish_delete`.
    pub fn begin_delete(&mut self, key: &str) -> (r: Result<DataLocation, TieredError>)
        requires
            old(self).wf(),
        ensures
            final(self).wf(),
            forall|t: TierType| final(self).spec_tier(t) == old(self).spec_tier(t),
            forall|t: TierType| final(self).spec_tracked(t) == old(self).spec_tracked(t),
            final(self).spec_migration_stats() == old(self).spec_migration_stats(),
            match r {
                Ok(loc) => {
                    &&& old(self).spec_locations().contains_key(key@)
                    &&& old(self).spec_locations()[key@] == loc
                    &&& final(self).spec_locations() == old(self).spec_locations().remove(key@)
                },
                Err(TieredError::KeyNotFound(k)) => {
                    &&& !old(self).spec_locations().contains_key(key@)
                    &&& k@ == key@
                    &&& final(self).spec_locations() == old(self).spec_locations()
                },
                Err(_) => false,
            },
    {
        let loc = match self.locations.get(key) {
            Some(loc) => *loc,
            None => {
                return Err(TieredError::KeyNotFound(key.to_owned()));
            },
        };
        self.locations.remove(key);
        Ok(loc)
    }

    /// Releases the space of a deleted key and stops tracking it.
    pub fn finish_delete(&mut self, key: &str, loc: DataLocation)
        requires
            old(self).wf(),
            loc.size <= i64::MAX,
        ensures
            final(self).wf(),
            final(self).spec_locations() == old(self).spec_locations(),
            final(self).spec_tier(loc.tier) == spec_config_resized(old(self).spec_tier(loc.tier), -(loc.size as int) as i64),
            forall|t: TierType| t != loc.tier ==> final(self).spec_tier(t) == old(self).spec_tier(t),
            final(self).spec_tracked(loc.tier) == match old(self).spec_tracked(loc.tier) {
                Some(s) => Some(spec_drop(s, key@)),
                None => None,
            },
            forall|t: TierType| t != loc.tier ==> final(self).spec_tracked(t) == old(self).spec_tracked(t),
            final(self).spec_migration_stats() == old(self).spec_migration_stats(),
    {
        let delta: i64 = -(loc.size as i64);
        match loc.tier {
            TierType::Hot => resize(&mut self.hot, delta),
            TierType::Warm => resize(&mut self.warm, delta),
            TierType::Cold => resize(&mut self.cold, delta),
        }
        self.migration.remove(loc.tier, key);
    }

    /// Whether `key` is stored.
    pub fn contains(&self, key: &str) -> (b: bool)
        ensures
            b == self.spec_locations().contains_key(key@),
    {
        self.locations.contains_key(key)
    }

    /// Number of stored keys.
    pub fn key_count(&self) -> (n: usize)
        ensures
            n == self.spec_locations().len(),
    {
        self.locations.len()
    }
}


impl TierCatalog {
    /// The migrations the access patterns suggest now.
    pub fn analyze_migrations(&self) -> (res: Vec<MigrationDecision>)
        requires
            self.wf(),
        ensures
            exists|now: u64| decisions_view(res@) == spec_promotions(opt_seq(self.spec_tracked(TierType::Warm)), now, HOT_THRESHOLD)
                + spec_demotions(opt_seq(self.spec_tracked(TierType::Hot)), now, (COLD_THRESHOLD / 2) as int, TierType::Hot, TierType::Warm)
                + spec_demotions(opt_seq(self.spec_tracked(TierType::Warm)), now, COLD_THRESHOLD as int, TierType::Warm, TierType::Cold),
    {
        self.migration.analyze_migrations()
    }

    /// The file `decision` moves its key to.
    pub fn migration_target(&self, decision: &MigrationDecision) -> (r: Result<String, TieredError>)
        ensures
            match r {
                Ok(p) => self.spec_tier(decision.to_tier) is Some
                    && p@ == path_joined(self.spec_tier(decision.to_tier)->0.path@, decision.key@),
                Err(TieredError::InvalidConfig(msg)) => self.spec_tier(decision.to_tier) is None && msg@ == "Target tier not found"@,
                Err(_) => false,
            },
    {
        match self.slot(decision.to_tier) {
            Some(t) => Ok(join_path(t.config().path.as_str(), decision.key.as_str())),
            None => Err(TieredError::InvalidConfig("Target tier not found".to_owned())),
        }
    }

    /// Records that the data of `decision.key` (of `size` bytes) moved to the
    /// destination tier: its new location, both tiers' sizes, the tracked
    /// patterns and the migration statistics.
    pub fn commit_migration(&mut self, decision: &MigrationDecision, size: u64)
        requires
            old(self).wf(),
            old(self).spec_tier(decision.to_tier) matches Some(c) && c.current_size + size <= u64::MAX,
            size <= i64::MAX,
            old(self).spec_migration_stats().total_migrations < u64::MAX,
            old(self).spec_migration_stats().promotions < u64::MAX,
            old(self).spec_migration_stats().demotions < u64::MAX,
            old(self).spec_migration_stats().bytes_migrated + size <= u64::MAX,
        ensures
            final(self).wf(),
            final(self).spec_locations() == old(self).spec_locations().insert(
                decision.key@,
                DataLocation { tier: decision.to_tier, size },
            ),
            old(self).spec_locations().contains_key(decision.key@)
                ==> final(self).spec_locations().len() == old(self).spec_locations().len(),
            decision.from_tier != decision.to_tier ==> final(self).spec_tier(decision.from_tier)
                == spec_config_resized(old(self).spec_tier(decision.from_tier), -(size as int) as i64),
            decision.from_tier != decision.to_tier ==> final(self).spec_tier(decision.to_tier)
                == spec_config_resized(old(self).spec_tier(decision.to_tier), size as i64),
            decision.from_tier == decision.to_tier ==> final(self).spec_tier(decision.to_tier) == spec_config_resized(
                spec_config_resized(old(self).spec_tier(decision.from_tier), -(size as int) as i64),
                size as i64,
            ),
            decision.from_tier == decision.to_tier && (old(self).spec_tier(decision.to_tier) matches Some(c) && c.current_size >= size)
                ==> final(self).spec_tier(decision.to_tier) == old(self).spec_tier(decision.to_tier),
            forall|t: TierType| t != decision.from_tier && t != decision.to_tier ==> final(self).spec_tier(t) == old(self).spec_tier(t),
            forall|t: TierType| t != decision.from_tier && t != decision.to_tier ==> final(self).spec_tracked(t) == old(self).spec_tracked(t),
            decision.from_tier != decision.to_tier ==> final(self).spec_tracked(decision.from_tier) == match old(self).spec_tracked(decision.from_tier) {
                Some(s) => Some(spec_drop(s, decision.key@)),
                None => None,
            },
            exists|now: u64| final(self).spec_tracked(decision.to_tier) == Some(spec_upsert(
                match old(self).spec_tracked(decision.to_tier) {
                    Some(s) => if decision.from_tier == decision.to_tier { spec_drop(s, decision.key@) } else { s },
                    None => Seq::empty(),
                },
                AccessPattern { key: decision.key, last_access: now, access_count: 0, size, created_at: now, ttl: None },
            )),
            final(self).spec_migration_stats() == ({
                let o = old(self).spec_migration_stats();
                let promote = spec_priority(decision.to_tier) > spec_priority(decision.from_tier);
                MigrationStats {
                    total_migrations: (o.total_migrations + 1) as u64,
                    bytes_migrated: (o.bytes_migrated + size) as u64,
                    promotions: if promote { (o.promotions + 1) as u64 } else { o.promotions },
                    demotions: if promote { o.demotions } else { (o.demotions + 1) as u64 },
                }
            }),
    {
        let k2 = decision.key.clone();
        self.locations.insert(k2, DataLocation { tier: decision.to_tier, size });
        let delta: i64 = -(size as i64);
        match decision.from_tier {
            TierType::Hot => resize(&mut self.hot, delta),
            TierType::Warm => resize(&mut self.warm, delta),
            TierType::Cold => resize(&mut self.cold, delta),
        }
        match decision.to_tier {
            TierType::Hot => resize(&mut self.hot, size as i64),
            TierType::Warm => resize(&mut self.warm, size as i64),
            TierType::Cold => resize(&mut self.cold, size as i64),
        }
        self.migration.remove(decision.from_tier, decision.key.as_str());
        self.migration.track(decision.to_tier, decision.key.clone(), size);
        self.migration.record_migration(decision, size);
        proof {
            if old(self).spec_locations().contains_key(decision.key@) {
                assert(self.spec_locations().dom() =~= old(self).spec_locations().dom());
            }
        }
    }

    fn stats_of(&self, tier: TierType) -> (s: Option<TierStats>)
        ensures
            match self.spec_tier(tier) {
                Some(c) => s matches Some(st) && st.current_size == c.current_size && st.max_size == c.max_size
                    && st.key_count == match self.spec_tracked(tier) { Some(p) => p.len() as usize, None => 0 },
                None => s is None,
            },
    {
        match self.slot(tier) {
            Some(t) => {
                let counts = self.migration.pattern_counts();
                assert(counts.get_spec(tier) == match self.migration.spec_table(tier) {
                    Some(s) => Some(s.len() as usize),
                    None => None::<usize>,
                });
                let key_count: usize = match counts.get(tier) {
                    Some(n) => n,
                    None => 0,
                };
                Some(TierStats {
                    current_size: t.config().current_size,
                    max_size: t.config().max_size,
                    key_count,
                })
            },
            None => None,
        }
    }

    /// Size, capacity and tracked-key count of each configured tier.
    pub fn tier_stats(&self) -> (r: TierStatsByTier)
        ensures
            forall|t: TierType| #[trigger] self.spec_tier(t) is Some <==> r.get_spec(t) is Some,
            forall|t: TierType| #[trigger] r.get_spec(t) matches Some(st) ==> {
                &&& st.current_size == self.spec_tier(t).unwrap().current_size
                &&& st.max_size == self.spec_tier(t).unwrap().max_size
                &&& st.key_count == match self.spec_tracked(t) { Some(p) => p.len() as usize, None => 0 }
            },
    {
        let hot = self.stats_of(TierType::Hot);
        let warm = self.stats_of(TierType::Warm);
        let cold = self.stats_of(TierType::Cold);
        TierStatsByTier { hot, warm, cold }
    }
}

impl TierStatsByTier {
    pub open spec fn get_spec(&self, tier: TierType) -> Option<TierStats> {
        match tier {
            TierType::Hot => self.hot,
            TierType::Warm => self.warm,
            TierType::Cold => self.cold,
        }
    }
}

/// Bytes stored in a tier configuration; none for an unconfigured tier.
pub open spec fn spec_bytes_in(c: Option<TierConfig>) -> int {
    match c {
        Some(c) => c.current_size as int,
        None => 0,
    }
}

/// Bytes stored over all tiers of a catalog.
pub open spec fn spec_stored_bytes(catalog: TierCatalog) -> int {
    spec_bytes_in(catalog.spec_tier(TierType::Hot)) + spec_bytes_in(catalog.spec_tier(TierType::Warm))
        + spec_bytes_in(catalog.spec_tier(TierType::Cold))
}

/// A committed put is found: the key is stored, at the tier and size it was
/// put with, and every other key keeps its location.
pub proof fn lemma_committed_put_is_found(before: TierCatalog, after: TierCatalog, key: Seq<char>, loc: DataLocation)
    requires
        after.spec_locations() == before.spec_locations().insert(key, loc),
    ensures
        after.spec_locations().contains_key(key),
        after.spec_locations()[key] == loc,
        forall|k: Seq<char>| k != key ==> (#[trigger] after.spec_locations().contains_key(k)
            == before.spec_locations().contains_key(k)),
        forall|k: Seq<char>| k != key && before.spec_locations().contains_key(k)
            ==> #[trigger] after.spec_locations()[k] == before.spec_locations()[k],
{
}

/// A deleted key is no longer stored, and every other key keeps its
/// location.
pub proof fn lemma_deleted_key_is_gone(before: TierCatalog, after: TierCatalog, key: Seq<char>)
    requires
        after.spec_locations() == before.spec_locations().remove(key),
    ensures
        !after.spec_locations().contains_key(key),
        forall|k: Seq<char>| k != key ==> (#[trigger] after.spec_locations().contains_key(k)
            == before.spec_locations().contains_key(k)),
{
}

/// A committed put of `size` bytes into a configured tier adds exactly
/// `size` to the bytes stored over all tiers.
pub proof fn lemma_put_adds_bytes(before: TierCatalog, after: TierCatalog, tier: TierType, size: u64)
    requires
        size <= i64::MAX,
        before.spec_tier(tier) matches Some(c) && c.current_size + size <= u64::MAX,
        after.spec_tier(tier) == spec_config_resized(before.spec_tier(tier), size as i64),
        forall|t: TierType| t != tier ==> after.spec_tier(t) == before.spec_tier(t),
    ensures
        spec_stored_bytes(after) == spec_stored_bytes(before) + size,
{
    assert(after.spec_tier(TierType::Hot) == before.spec_tier(TierType::Hot) || tier == TierType::Hot);
    assert(after.spec_tier(TierType::Warm) == before.spec_tier(TierType::Warm) || tier == TierType::Warm);
    assert(after.spec_tier(TierType::Cold) == before.spec_tier(TierType::Cold) || tier == TierType::Cold);
}

/// Finishing the delete of a key of `size` bytes, when its tier holds at
/// least that much, removes exactly `size` from the bytes stored over all
/// tiers.
pub proof fn lemma_delete_releases_bytes(before: TierCatalog, after: TierCatalog, tier: TierType, size: u64)
    requires
        size <= i64::MAX,
        before.spec_tier(tier) matches Some(c) && c.current_size >= size,
        after.spec_tier(tier) == spec_config_resized(before.spec_tier(tier), -(size as int) as i64),
        forall|t: TierType| t != tier ==> after.spec_tier(t) == before.spec_tier(t),
    ensures
        spec_stored_bytes(after) == spec_stored_bytes(before) - size,
{
    assert(after.spec_tier(TierType::Hot) == before.spec_tier(TierType::Hot) || tier == TierType::Hot);
    assert(after.spec_tier(TierType::Warm) == before.spec_tier(TierType::Warm) || tier == TierType::Warm);
    assert(after.spec_tier(TierType::Cold) == before.spec_tier(TierType::Cold) || tier == TierType::Cold);
}

/// Moving `size` bytes from one configured tier to another, when the source
/// holds at least that much, leaves the bytes stored over all tiers
/// unchanged.
pub proof fn lemma_migration_conserves_bytes(before: TierCatalog, after: TierCatalog, from: TierType, to: TierType, size: u64)
    requires
        from != to,
        size <= i64::MAX,
        before.spec_tier(from) matches Some(c) && c.current_size >= size,
        before.spec_tier(to) matches Some(c) && c.current_size + size <= u64::MAX,
        after.spec_tier(from) == spec_config_resized(before.spec_tier(from), -(size as int) as i64),
        after.spec_tier(to) == spec_config_resized(before.spec_tier(to), size as i64),
        forall|t: TierType| t != from && t != to ==> after.spec_tier(t) == before.spec_tier(t),
    ensures
        spec_stored_bytes(after) == spec_stored_bytes(before),
{
    let third = if from != TierType::Hot && to != TierType::Hot {
        TierType::Hot
    } else if from != TierType::Warm && to != TierType::Warm {
        TierType::Warm
    } else {
        TierType::Cold
    };
    assert(after.spec_tier(third) == before.spec_tier(third));
}

/// Whether the table `s` has a pattern for `key`.
pub open spec fn spec_tracks_key(s: Seq<AccessPattern>, key: Seq<char>) -> bool {
    exists|i: int| 0 <= i < s.len() && #[trigger] s[i].key@ == key
}

/// Every stored key is tracked by the migration manager in the tier that
/// holds it.
pub open spec fn spec_located_keys_tracked(c: TierCatalog) -> bool {
    forall|k: Seq<char>| #[trigger] c.spec_locations().contains_key(k)
        ==> spec_tracks_key(opt_seq(c.spec_tracked(c.spec_locations()[k].tier)), k)
}

proof fn lemma_upsert_tracks(s: Seq<AccessPattern>, p: AccessPattern, k: Seq<char>)
    ensures
        spec_tracks_key(spec_upsert(s, p), k) <==> (k == p.key@ || spec_tracks_key(s, k)),
{
    let u = spec_upsert(s, p);
    if exists|i: int| 0 <= i < s.len() && s[i].key@ == p.key@ {
        let i = choose|i: int| 0 <= i < s.len() && s[i].key@ == p.key@;
        assert(u == s.update(i, p));
        if spec_tracks_key(s, k) {
            let j = choose|j: int| 0 <= j < s.len() && #[trigger] s[j].key@ == k;
            if j == i {
                assert(u[i].key@ == k);
            } else {
                assert(u[j].key@ == k);
            }
        }
        if k == p.key@ {
            assert(u[i].key@ == k);
        }
        if spec_tracks_key(u, k) {
            let j = choose|j: int| 0 <= j < u.len() && #[trigger] u[j].key@ == k;
            if j != i {
                assert(s[j].key@ == k);
            }
        }
    } else {
        assert(u == s.push(p));
        if spec_tracks_key(s, k) {
            let j = choose|j: int| 0 <= j < s.len() && #[trigger] s[j].key@ == k;
            assert(u[j].key@ == k);
        }
        assert(u[s.len() as int].key@ == p.key@);
        if spec_tracks_key(u, k) {
            let j = choose|j: int| 0 <= j < u.len() && #[trigger] u[j].key@ == k;
            if j < s.len() {
                assert(s[j].key@ == k);
            }
        }
    }
}

proof fn lemma_drop_tracks(s: Seq<AccessPattern>, key: Seq<char>, k: Seq<char>)
    requires
        k != key,
    ensures
        spec_tracks_key(spec_drop(s, key), k) <==> spec_tracks_key(s, k),
{
    let d = spec_drop(s, key);
    match spec_find(s, key) {
        Some(i) => {
            assert(0 <= i < s.len() && s[i].key@ == key);
            assert(d == s.remove(i));
            if spec_tracks_key(s, k) {
                let j = choose|j: int| 0 <= j < s.len() && #[trigger] s[j].key@ == k;
                if j < i {
                    assert(d[j] == s[j]);
                    assert(d[j].key@ == k);
                } else {
                    assert(j != i);
                    assert(d[j - 1] == s[j]);
                    assert(d[j - 1].key@ == k);
                }
            }
            if spec_tracks_key(d, k) {
                let j = choose|j: int| 0 <= j < d.len() && #[trigger] d[j].key@ == k;
                if j < i {
                    assert(s[j].key@ == k);
                } else {
                    assert(s[j + 1].key@ == k);
                }
            }
        },
        None => {
            assert(d == s);
        },
    }
}

proof fn lemma_touch_tracks(s: Seq<AccessPattern>, key: Seq<char>, now: u64, k: Seq<char>)
    ensures
        spec_tracks_key(spec_touch(s, key, now), k) <==> spec_tracks_key(s, k),
{
    let t = spec_touch(s, key, now);
    match spec_find(s, key) {
        Some(i) => {
            assert(0 <= i < s.len() && s[i].key@ == key);
            assert(t == s.update(i, AccessPattern { last_access: now, access_count: (s[i].access_count + 1) as u64, ..s[i] }));
        },
        None => {
            assert(t == s);
        },
    }
    assert(t.len() == s.len());
    assert forall|j: int| 0 <= j < s.len() implies #[trigger] t[j].key@ == s[j].key@ by {}
    if spec_tracks_key(s, k) {
        let j = choose|j: int| 0 <= j < s.len() && #[trigger] s[j].key@ == k;
        assert(t[j].key@ == k);
    }
    if spec_tracks_key(t, k) {
        let j = choose|j: int| 0 <= j < t.len() && #[trigger] t[j].key@ == k;
        assert(s[j].key@ == k);
    }
}

/// A committed put keeps every stored key tracked in its tier; the key put
/// is tracked in the tier it went to.
pub proof fn lemma_put_keeps_keys_tracked(
    before: TierCatalog,
    after: TierCatalog,
    key: Seq<char>,
    loc: DataLocation,
    pattern: AccessPattern,
)
    requires
        spec_located_keys_tracked(before),
        pattern.key@ == key,
        after.spec_locations() == before.spec_locations().insert(key, loc),
        after.spec_tracked(loc.tier) == Some(spec_upsert(opt_seq(before.spec_tracked(loc.tier)), pattern)),
        forall|t: TierType| t != loc.tier ==> after.spec_tracked(t) == before.spec_tracked(t),
    ensures
        spec_located_keys_tracked(after),
{
    assert forall|k: Seq<char>| #[trigger] after.spec_locations().contains_key(k)
        implies spec_tracks_key(opt_seq(after.spec_tracked(after.spec_locations()[k].tier)), k) by {
        lemma_upsert_tracks(opt_seq(before.spec_tracked(loc.tier)), pattern, k);
        if k != key {
            assert(before.spec_locations().contains_key(k));
            assert(after.spec_locations()[k] == before.spec_locations()[k]);
        }
    }
}

/// Reading a key keeps every stored key tracked in its tier.
pub proof fn lemma_access_keeps_keys_tracked(before: TierCatalog, after: TierCatalog, tier: TierType, key: Seq<char>, now: u64)
    requires
        spec_located_keys_tracked(before),
        after.spec_locations() == before.spec_locations(),
        match before.spec_tracked(tier) {
            Some(s) => after.spec_tracked(tier) == Some(spec_touch(s, key, now)),
            None => after.spec_tracked(tier) is None,
        },
        forall|t: TierType| t != tier ==> after.spec_tracked(t) == before.spec_tracked(t),
    ensures
        spec_located_keys_tracked(after),
{
    assert forall|k: Seq<char>| #[trigger] after.spec_locations().contains_key(k)
        implies spec_tracks_key(opt_seq(after.spec_tracked(after.spec_locations()[k].tier)), k) by {
        assert(before.spec_locations().contains_key(k));
        if let Some(s) = before.spec_tracked(tier) {
            lemma_touch_tracks(s, key, now, k);
        }
    }
}

/// Deleting a key (forgetting its location, then untracking it) keeps every
/// stored key tracked in its tier.
pub proof fn lemma_delete_keeps_keys_tracked(before: TierCatalog, after: TierCatalog, key: Seq<char>, tier: TierType)
    requires
        spec_located_keys_tracked(before),
        after.spec_locations() == before.spec_locations().remove(key),
        after.spec_tracked(tier) == match before.spec_tracked(tier) {
            Some(s) => Some(spec_drop(s, key)),
            None => None,
        },
        forall|t: TierType| t != tier ==> after.spec_tracked(t) == before.spec_tracked(t),
    ensures
        spec_located_keys_tracked(after),
{
    assert forall|k: Seq<char>| #[trigger] after.spec_locations().contains_key(k)
        implies spec_tracks_key(opt_seq(after.spec_tracked(after.spec_locations()[k].tier)), k) by {
        assert(k != key);
        assert(before.spec_locations().contains_key(k));
        if let Some(s) = before.spec_tracked(tier) {
            lemma_drop_tracks(s, key, k);
        }
    }
}

/// A committed migration keeps every stored key tracked in its tier; the
/// moved key is tracked in its destination.
pub proof fn lemma_migration_keeps_keys_tracked(
    before: TierCatalog,
    after: TierCatalog,
    key: Seq<char>,
    from: TierType,
    loc: DataLocation,
    pattern: AccessPattern,
)
    requires
        spec_located_keys_tracked(before),
        from != loc.tier,
        pattern.key@ == key,
        after.spec_locations() == before.spec_locations().insert(key, loc),
        after.spec_tracked(from) == match before.spec_tracked(from) {
            Some(s) => Some(spec_drop(s, key)),
            None => None,
        },
        after.spec_tracked(loc.tier) == Some(spec_upsert(opt_seq(before.spec_tracked(loc.tier)), pattern)),
        forall|t: TierType| t != from && t != loc.tier ==> after.spec_tracked(t) == before.spec_tracked(t),
    ensures
        spec_located_keys_tracked(after),
{
    assert forall|k: Seq<char>| #[trigger] after.spec_locations().contains_key(k)
        implies spec_tracks_key(opt_seq(after.spec_tracked(after.spec_locations()[k].tier)), k) by {
        lemma_upsert_tracks(opt_seq(before.spec_tracked(loc.tier)), pattern, k);
        if k != key {
            assert(before.spec_locations().contains_key(k));
            assert(after.spec_locations()[k] == before.spec_locations()[k]);
            if let Some(s) = before.spec_tracked(from) {
                lemma_drop_tracks(s, key, k);
            }
        }
    }
}

/// Tiered storage builder
pub struct TieredStorageBuilder {
    hot_config: Option<TierConfig>,
    warm_config: Option<TierConfig>,
    cold_config: Option<TierConfig>,
    eviction_policy: EvictionPolicy,
}

impl TieredStorageBuilder {
    pub closed spec fn spec_config(&self, tier: TierType) -> Option<TierConfig> {
        match tier {
            TierType::Hot => self.hot_config,
            TierType::Warm => self.warm_config,
            TierType::Cold => self.cold_config,
        }
    }

    pub closed spec fn spec_policy(&self) -> EvictionPolicy {
        self.eviction_policy
    }

    /// No tier configured, LRU eviction.
    pub fn new() -> (b: Self)
        ensures
            forall|t: TierType| b.spec_config(t) is None,
            b.spec_policy() == EvictionPolicy::LRU,
    {
        TieredStorageBuilder { hot_config: None, warm_config: None, cold_config: None, eviction_policy: EvictionPolicy::LRU }
    }

    /// Configure hot tier
    pub fn hot_tier(self, path: String, max_size: u64) -> (b: Self)
        ensures
            b.spec_config(TierType::Hot) == Some(TierConfig { tier_type: TierType::Hot, path, max_size, current_size: 0 }),
            b.spec_config(TierType::Warm) == self.spec_config(TierType::Warm),
            b.spec_config(TierType::Cold) == self.spec_config(TierType::Cold),
            b.spec_policy() == self.spec_policy(),
    {
        TieredStorageBuilder { hot_config: Some(TierConfig::new(TierType::Hot, path, max_size)), ..self }
    }

    /// Configure warm tier
    pub fn warm_tier(self, path: String, max_size: u64) -> (b: Self)
        ensures
            b.spec_config(TierType::Warm) == Some(TierConfig { tier_type: TierType::Warm, path, max_size, current_size: 0 }),
            b.spec_config(TierType::Hot) == self.spec_config(TierType::Hot),
            b.spec_config(TierType::Cold) == self.spec_config(TierType::Cold),
            b.spec_policy() == self.spec_policy(),
    {
        TieredStorageBuilder { warm_config: Some(TierConfig::new(TierType::Warm, path, max_size)), ..self }
    }

    /// Configure cold tier
    pub fn cold_tier(self, path: String, max_size: u64) -> (b: Self)
        ensures
            b.spec_config(TierType::Cold) == Some(TierConfig { tier_type: TierType::Cold, path, max_size, current_size: 0 }),
            b.spec_config(TierType::Hot) == self.spec_config(TierType::Hot),
            b.spec_config(TierType::Warm) == self.spec_config(TierType::Warm),
            b.spec_policy() == self.spec_policy(),
    {
        TieredStorageBuilder { cold_config: Some(TierConfig::new(TierType::Cold, path, max_size)), ..self }
    }

    /// Set eviction policy
    pub fn eviction_policy(self, policy: EvictionPolicy) -> (b: Self)
        ensures
            forall|t: TierType| b.spec_config(t) == self.spec_config(t),
            b.spec_policy() == policy,
    {
        TieredStorageBuilder { eviction_policy: policy, ..self }
    }

    /// The configuration of `tier`, if any (its directory must exist before
    /// the store is used).
    pub fn config(&self, tier: TierType) -> (c: &Option<TierConfig>)
        ensures
            *c == self.spec_config(tier),
    {
        match tier {
            TierType::Hot => &self.hot_config,
            TierType::Warm => &self.warm_config,
            TierType::Cold => &self.cold_config,
        }
    }

    /// The bookkeeping of a store with the configured tiers, empty; an error
    /// when no tier is configured.
    pub fn build(self) -> (r: Result<TierCatalog, TieredError>)
        ensures
            match r {
                Ok(c) => {
                    &&& c.wf()
                    &&& forall|t: TierType| c.spec_tier(t) == self.spec_config(t)
                    &&& c.spec_locations() == Map::<Seq<char>, DataLocation>::empty()
                    &&& spec_located_keys_tracked(c)
                    &&& forall|t: TierType| c.spec_tracked(t) is None
                    &&& exists|t: TierType| self.spec_config(t) is Some
                },
                Err(TieredError::InvalidConfig(msg)) => {
                    &&& forall|t: TierType| self.spec_config(t) is None
                    &&& msg@ == "At least one tier must be configured"@
                },
                Err(_) => false,
            },
    {
        if self.hot_config.is_none() && self.warm_config.is_none() && self.cold_config.is_none() {
            return Err(TieredError::InvalidConfig("At least one tier must be configured".to_owned()));
        }
        let ghost me = self;
        let hot = match self.hot_config { Some(c) => Some(Tier::new(c)), None => None };
        let warm = match self.warm_config { Some(c) => Some(Tier::new(c)), None => None };
        let cold = match self.cold_config { Some(c) => Some(Tier::new(c)), None => None };
        let cat = TierCatalog {
            hot,
            warm,
            cold,
            locations: StringHashMap::new(),
            migration: MigrationManager::new(self.eviction_policy),
        };
        proof {
            if me.hot_config is Some {
                assert(me.spec_config(TierType::Hot) is Some);
            } else if me.warm_config is Some {
                assert(me.spec_config(TierType::Warm) is Some);
            } else {
                assert(me.spec_config(TierType::Cold) is Some);
            }
        }
        Ok(cat)
    }
}

impl Default for TieredStorageBuilder {
    fn default() -> (b: Self)
        ensures
            forall|t: TierType| b.spec_config(t) is None,
            b.spec_policy() == EvictionPolicy::LRU,
    {
        Self::new()
    }
}


/// Whether tier configuration `c` exists and has room for `size` more bytes.
pub open spec fn spec_has_room(c: Option<TierConfig>, size: u64) -> bool {
    c matches Some(cfg) && cfg.current_size + size <= cfg.max_size
}

/// A new value goes to the hottest configured tier with room for it: the
/// chosen tier has room and no hotter tier has; and when no tier is chosen,
/// no configured tier has room.
pub proof fn lemma_target_is_hottest_with_room(c: TierCatalog, size: u64)
    ensures
        c.spec_target_tier(size) matches Some(t) ==> spec_has_room(c.spec_tier(t), size),
        c.spec_target_tier(size) matches Some(t) ==> forall|u: TierType|
            spec_priority(u) > spec_priority(t) ==> !spec_has_room(#[trigger] c.spec_tier(u), size),
        c.spec_target_tier(size) is None ==> forall|u: TierType| !spec_has_room(#[trigger] c.spec_tier(u), size),
        (exists|u: TierType| spec_has_room(#[trigger] c.spec_tier(u), size)) ==> c.spec_target_tier(size) is Some,
{
    assert forall|u: TierType| spec_has_room(#[trigger] c.spec_tier(u), size) implies c.spec_target_tier(size) is Some by {
        match u {
            TierType::Hot => {},
            TierType::Warm => {},
            TierType::Cold => {},
        }
    }
    if let Some(t) = c.spec_target_tier(size) {
        assert forall|u: TierType| spec_priority(u) > spec_priority(t) implies !spec_has_room(#[trigger] c.spec_tier(u), size) by {
            match u {
                TierType::Hot => {},
                TierType::Warm => {},
                TierType::Cold => {},
            }
        }
    }
}

} // verus!
