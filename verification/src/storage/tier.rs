//! Tier types and configuration.
use vstd::prelude::*;

verus! {

/// Tier type
#[derive(Debug, Clone, Copy, PartialEq, Eq, Hash, Structural)]
pub enum TierType {
    /// Hot tier - NVMe storage (<1ms latency)
    Hot,
    /// Warm tier - SSD storage (<10ms latency)
    Warm,
    /// Cold tier - HDD/S3 storage (<100ms latency)
    Cold,
}

/// Priority of a tier: the hotter, the higher.
pub open spec fn spec_priority(t: TierType) -> u8 {
    match t {
        TierType::Hot => 3,
        TierType::Warm => 2,
        TierType::Cold => 1,
    }
}

/// Expected access latency of a tier, in microseconds.
pub open spec fn spec_expected_latency_micros(t: TierType) -> u64 {
    match t {
        TierType::Hot => 500,
        TierType::Warm => 5_000,
        TierType::Cold => 50_000,
    }
}

impl TierType {
    /// Expected latency for this tier, in microseconds.
    pub fn expected_latency(&self) -> (us: u64)
        ensures
            us == spec_expected_latency_micros(*self),
    {
        match self {
            TierType::Hot => 500,
            TierType::Warm => 5_000,
            TierType::Cold => 50_000,
        }
    }

    /// Priority (higher = more preferred).
    pub fn priority(&self) -> (p: u8)
        ensures
            p == spec_priority(*self),
    {
        match self {
            TierType::Hot => 3,
            TierType::Warm => 2,
            TierType::Cold => 1,
        }
    }
}

/// A hotter tier has a higher priority and a lower expected latency.
pub proof fn lemma_hotter_is_faster(a: TierType, b: TierType)
    ensures
        spec_priority(a) > spec_priority(b) <==> spec_expected_latency_micros(a) < spec_expected_latency_micros(b),
{
}

/// Tier configuration
#[derive(Debug)]
pub struct TierConfig {
    /// Tier type
    pub tier_type: TierType,
    /// The directory that holds the tier's files, as text
    pub path: String,
    /// Maximum size in bytes
    pub max_size: u64,
    /// Current size in bytes
    pub current_size: u64,
}

impl TierConfig {
    /// A configuration with nothing stored yet.
    pub fn new(tier_type: TierType, path: String, max_size: u64) -> (c: Self)
        ensures
            c.tier_type == tier_type,
            c.path == path,
            c.max_size == max_size,
            c.current_size == 0,
    {
        TierConfig { tier_type, path, max_size, current_size: 0 }
    }

    /// Whether `size` more bytes fit.
    pub fn has_space(&self, size: u64) -> (b: bool)
        ensures
            b == (self.current_size + size <= self.max_size),
    {
        self.current_size <= self.max_size && size <= self.max_size - self.current_size
    }

    /// Bytes still free (0 when over the limit).
    pub fn available_space(&self) -> (a: u64)
        ensures
            a == if self.current_size <= self.max_size { (self.max_size - self.current_size) as u64 } else { 0 },
    {
        self.max_size.saturating_sub(self.current_size)
    }
}

/// Tier implementation
pub struct Tier {
    config: TierConfig,
}

/// The size of a tier after adding `delta` bytes (clamped at zero when
/// removing more than it holds).
pub open spec fn spec_resized(current: u64, delta: i64) -> u64 {
    if delta >= 0 {
        (current + delta) as u64
    } else if current >= -delta {
        (current + delta) as u64
    } else {
        0
    }
}

impl Tier {
    /// The tier's configuration.
    pub closed spec fn spec_config(&self) -> TierConfig {
        self.config
    }

    /// A tier with the given configuration.
    pub fn new(config: TierConfig) -> (t: Self)
        ensures
            t.spec_config() == config,
    {
        Tier { config }
    }

    /// Tier type
    pub fn tier_type(&self) -> (t: TierType)
        ensures
            t == self.spec_config().tier_type,
    {
        self.config.tier_type
    }

    /// Configuration
    pub fn config(&self) -> (c: &TierConfig)
        ensures
            *c == self.spec_config(),
    {
        &self.config
    }

    /// Whether `size` more bytes fit.
    pub fn has_space(&self, size: u64) -> (b: bool)
        ensures
            b == (self.spec_config().current_size + size <= self.spec_config().max_size),
    {
        self.config.has_space(size)
    }

    /// Adds `delta` bytes to the current size; removing more than the tier
    /// holds leaves it at zero.
    pub fn update_size(&mut self, delta: i64)
        requires
            delta > i64::MIN,
            delta >= 0 ==> old(self).spec_config().current_size + delta <= u64::MAX,
        ensures
            final(self).spec_config() == (TierConfig {
                current_size: spec_resized(old(self).spec_config().current_size, delta),
                ..old(self).spec_config()
            }),
    {
        if delta >= 0 {
            self.config.current_size = self.config.current_size + (delta as u64);
        } else {
            self.config.current_size = self.config.current_size.saturating_sub((-delta) as u64);
        }
    }
}

} // verus!
