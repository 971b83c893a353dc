//! Benchmark modes: which log sync policy a benchmark run uses.
use crate::wal::policy::SyncPolicy;
use vstd::prelude::*;

verus! {

/// Benchmark mode configuration.
#[derive(Debug, Clone, Copy, PartialEq, Eq, Structural)]
pub enum BenchmarkMode {
    /// Maximum performance (no fsync), for comparison with a baseline.
    MaxPerformance,
    /// Real durability (fsync on every write), for comparison with production.
    RealDurability,
    /// Adaptive (balanced), for general use.
    Adaptive,
}

impl BenchmarkMode {
    /// The log sync policy for this mode.
    pub fn sync_policy(&self) -> (p: SyncPolicy)
        ensures
            p == match *self {
                BenchmarkMode::MaxPerformance => SyncPolicy::Never,
                BenchmarkMode::RealDurability => SyncPolicy::EveryWrite,
                BenchmarkMode::Adaptive => SyncPolicy::Adaptive(50, 1000),
            },
    {
        match self {
            BenchmarkMode::MaxPerformance => SyncPolicy::Never,
            BenchmarkMode::RealDurability => SyncPolicy::EveryWrite,
            BenchmarkMode::Adaptive => SyncPolicy::Adaptive(50, 1000),
        }
    }

    /// A description of this mode.
    pub fn description(&self) -> (s: &'static str)
        ensures
            s@ == match *self {
                BenchmarkMode::MaxPerformance => "Máximo Rendimiento (sin fsync) - Comparación con baseline"@,
                BenchmarkMode::RealDurability => "Durabilidad Real (con fsync) - Comparación con producción"@,
                BenchmarkMode::Adaptive => "Adaptativo (balanceado) - Uso general"@,
            },
    {
        match self {
            BenchmarkMode::MaxPerformance => "Máximo Rendimiento (sin fsync) - Comparación con baseline",
            BenchmarkMode::RealDurability => "Durabilidad Real (con fsync) - Comparación con producción",
            BenchmarkMode::Adaptive => "Adaptativo (balanceado) - Uso general",
        }
    }

    /// The mode a setting selects: `max_performance` or `real_durability`
    /// (all lower or all upper case); anything else, or no setting, is
    /// `Adaptive`.
    pub fn from_setting(setting: Option<&str>) -> (m: BenchmarkMode)
        ensures
            m == match setting {
                Some(s) => if s@ == "max_performance"@ || s@ == "MAX_PERFORMANCE"@ {
                    BenchmarkMode::MaxPerformance
                } else if s@ == "real_durability"@ || s@ == "REAL_DURABILITY"@ {
                    BenchmarkMode::RealDurability
                } else {
                    BenchmarkMode::Adaptive
                },
                None => BenchmarkMode::Adaptive,
            },
    {
        match setting {
            Some(s) => {
                let v = s.to_owned();
                if v == "max_performance".to_owned() || v == "MAX_PERFORMANCE".to_owned() {
                    BenchmarkMode::MaxPerformance
                } else if v == "real_durability".to_owned() || v == "REAL_DURABILITY".to_owned() {
                    BenchmarkMode::RealDurability
                } else {
                    BenchmarkMode::Adaptive
                }
            },
            None => BenchmarkMode::Adaptive,
        }
    }
}

} // verus!
