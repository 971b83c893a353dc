//! Durability modes: the trade between write throughput and what survives a
//! crash.
use vstd::prelude::*;
use vstd::string::StringExecFns;

verus! {

/// Durability mode determines how writes are persisted.
#[derive(Debug, Clone, Copy, PartialEq, Eq, Structural)]
pub enum DurabilityMode {
    /// No log, no fsync: data lives in memory only and is lost on a crash
    /// (caches, sessions, temporary data).
    Memory,
    /// Log with background fsync: at most a few milliseconds of writes are
    /// lost on a crash (logs, analytics).
    Async,
    /// Log with synchronous fsync: nothing acknowledged is lost.
    Strict,
}

/// The text that `str::to_uppercase` gives for `s`.
pub uninterp spec fn uppercased(s: Seq<char>) -> Seq<char>;

/// Whether every character of `s` is ASCII.
pub open spec fn spec_is_ascii(s: Seq<char>) -> bool {
    forall|i: int| 0 <= i < s.len() ==> (#[trigger] s[i] as u32) < 128
}

/// The ASCII uppercase form of `c`: `a` to `z` become `A` to `Z`, every other
/// character stays.
pub open spec fn spec_ascii_upper_char(c: char) -> char {
    if 'a' <= c && c <= 'z' {
        ((c as u32) - 32) as char
    } else {
        c
    }
}

/// `s` with each character in its ASCII uppercase form.
pub open spec fn spec_ascii_upper(s: Seq<char>) -> Seq<char> {
    s.map_values(|c: char| spec_ascii_upper_char(c))
}

/// `str::to_uppercase`: the Unicode uppercase form of `s`, which for ASCII
/// text maps `a` to `z` onto `A` to `Z` and keeps every other character.
#[verifier::external_body]
fn to_uppercase(s: &str) -> (r: String)
    ensures
        r@ == uppercased(s@),
        spec_is_ascii(s@) ==> r@ == spec_ascii_upper(s@),
{
    s.to_uppercase()
}

/// Whether the mode writes a log.
pub open spec fn spec_uses_wal(m: DurabilityMode) -> bool {
    m != DurabilityMode::Memory
}

/// Whether the mode fsyncs before acknowledging.
pub open spec fn spec_sync_fsync(m: DurabilityMode) -> bool {
    m == DurabilityMode::Strict
}

/// The mode named by an uppercased name, if any.
pub open spec fn spec_mode_named(upper: Seq<char>) -> Option<DurabilityMode> {
    if upper == "MEMORY"@ {
        Some(DurabilityMode::Memory)
    } else if upper == "ASYNC"@ {
        Some(DurabilityMode::Async)
    } else if upper == "STRICT"@ {
        Some(DurabilityMode::Strict)
    } else {
        None
    }
}

/// The name of mode `m`, as displayed.
pub open spec fn spec_mode_name(m: DurabilityMode) -> Seq<char> {
    match m {
        DurabilityMode::Memory => "MEMORY"@,
        DurabilityMode::Async => "ASYNC"@,
        DurabilityMode::Strict => "STRICT"@,
    }
}

/// The message for an input that names no mode.
pub open spec fn spec_invalid_mode_message(input: Seq<char>) -> Seq<char> {
    "Invalid durability mode: "@ + input + ". Valid options: MEMORY, ASYNC, STRICT"@
}

impl DurabilityMode {
    /// Human-readable description.
    pub fn description(&self) -> (s: &'static str)
        ensures
            s@ == match *self {
                DurabilityMode::Memory => "MEMORY: 3.3M RPS, no durability (cache mode)"@,
                DurabilityMode::Async => "ASYNC: 2M RPS, eventual durability (1-10ms loss)"@,
                DurabilityMode::Strict => "STRICT: 112K RPS, full durability (no loss)"@,
            },
    {
        match self {
            DurabilityMode::Memory => "MEMORY: 3.3M RPS, no durability (cache mode)",
            DurabilityMode::Async => "ASYNC: 2M RPS, eventual durability (1-10ms loss)",
            DurabilityMode::Strict => "STRICT: 112K RPS, full durability (no loss)",
        }
    }

    /// Expected throughput.
    pub fn expected_throughput(&self) -> (s: &'static str)
        ensures
            s@ == match *self {
                DurabilityMode::Memory => "3.3M RPS"@,
                DurabilityMode::Async => "2M RPS"@,
                DurabilityMode::Strict => "112K RPS"@,
            },
    {
        match self {
            DurabilityMode::Memory => "3.3M RPS",
            DurabilityMode::Async => "2M RPS",
            DurabilityMode::Strict => "112K RPS",
        }
    }

    /// What survives a crash.
    pub fn durability_guarantee(&self) -> (s: &'static str)
        ensures
            s@ == match *self {
                DurabilityMode::Memory => "None (data lost on crash)"@,
                DurabilityMode::Async => "Eventual (max 1-10ms loss)"@,
                DurabilityMode::Strict => "Full (no data loss)"@,
            },
    {
        match self {
            DurabilityMode::Memory => "None (data lost on crash)",
            DurabilityMode::Async => "Eventual (max 1-10ms loss)",
            DurabilityMode::Strict => "Full (no data loss)",
        }
    }

    /// Whether this mode writes a log.
    pub fn uses_wal(&self) -> (b: bool)
        ensures
            b == spec_uses_wal(*self),
    {
        match self {
            DurabilityMode::Memory => false,
            DurabilityMode::Async => true,
            DurabilityMode::Strict => true,
        }
    }

    /// Whether this mode fsyncs synchronously.
    pub fn sync_fsync(&self) -> (b: bool)
        ensures
            b == spec_sync_fsync(*self),
    {
        match self {
            DurabilityMode::Memory => false,
            DurabilityMode::Async => false,
            DurabilityMode::Strict => true,
        }
    }

    /// The mode's name, as displayed.
    pub fn as_str(&self) -> (s: &'static str)
        ensures
            s@ == spec_mode_name(*self),
    {
        match self {
            DurabilityMode::Memory => "MEMORY",
            DurabilityMode::Async => "ASYNC",
            DurabilityMode::Strict => "STRICT",
        }
    }

    /// The mode named by `upper`, the uppercased form of `input`; otherwise
    /// an error that quotes `input`.
    pub fn from_uppercased(input: &str, upper: &str) -> (r: Result<DurabilityMode, String>)
        ensures
            match spec_mode_named(upper@) {
                Some(m) => r == Ok::<DurabilityMode, String>(m),
                None => (r matches Err(msg) && msg@ == spec_invalid_mode_message(input@)),
            },
    {
        let u = upper.to_owned();
        if u == "MEMORY".to_owned() {
            Ok(DurabilityMode::Memory)
        } else if u == "ASYNC".to_owned() {
            Ok(DurabilityMode::Async)
        } else if u == "STRICT".to_owned() {
            Ok(DurabilityMode::Strict)
        } else {
            let mut msg = "Invalid durability mode: ".to_owned();
            msg.append(input);
            msg.append(". Valid options: MEMORY, ASYNC, STRICT");
            Err(msg)
        }
    }

    /// Parses a mode name, ignoring case.
    pub fn parse(s: &str) -> (r: Result<DurabilityMode, String>)
        ensures
            match spec_mode_named(uppercased(s@)) {
                Some(m) => r == Ok::<DurabilityMode, String>(m),
                None => (r matches Err(msg) && msg@ == spec_invalid_mode_message(s@)),
            },
            spec_is_ascii(s@) ==> match spec_mode_named(spec_ascii_upper(s@)) {
                Some(m) => r == Ok::<DurabilityMode, String>(m),
                None => r is Err,
            },
    {
        let upper = to_uppercase(s);
        DurabilityMode::from_uppercased(s, upper.as_str())
    }

    /// The mode a setting selects: the named mode, or the default (`Async`)
    /// when the setting is absent or names no mode.
    pub fn from_setting(setting: Option<&str>) -> (m: DurabilityMode)
        ensures
            m == match setting {
                Some(s) => match spec_mode_named(uppercased(s@)) {
                    Some(named) => named,
                    None => DurabilityMode::Async,
                },
                None => DurabilityMode::Async,
            },
            match setting {
                Some(s) => spec_is_ascii(s@) ==> m == match spec_mode_named(spec_ascii_upper(s@)) {
                    Some(named) => named,
                    None => DurabilityMode::Async,
                },
                None => true,
            },
    {
        match setting {
            Some(s) => match DurabilityMode::parse(s) {
                Ok(m) => m,
                Err(_) => DurabilityMode::default(),
            },
            None => DurabilityMode::default(),
        }
    }
}

impl Default for DurabilityMode {
    /// `Async`: a balance between throughput and durability.
    fn default() -> (m: Self)
        ensures
            m == DurabilityMode::Async,
    {
        DurabilityMode::Async
    }
}

impl core::str::FromStr for DurabilityMode {
    type Err = String;

    fn from_str(s: &str) -> (r: Result<Self, Self::Err>)
        ensures
            match spec_mode_named(uppercased(s@)) {
                Some(m) => r == Ok::<DurabilityMode, String>(m),
                None => (r matches Err(msg) && msg@ == spec_invalid_mode_message(s@)),
            },
            spec_is_ascii(s@) ==> match spec_mode_named(spec_ascii_upper(s@)) {
                Some(m) => r == Ok::<DurabilityMode, String>(m),
                None => r is Err,
            },
    {
        DurabilityMode::parse(s)
    }
}

/// Every mode's displayed name is ASCII and names that mode again once
/// uppercased, so a mode's name parses back to the mode.
pub proof fn lemma_mode_name_round_trip(m: DurabilityMode)
    ensures
        spec_is_ascii(spec_mode_name(m)),
        spec_mode_named(spec_ascii_upper(spec_mode_name(m))) == Some(m),
{
    reveal_strlit("MEMORY");
    reveal_strlit("ASYNC");
    reveal_strlit("STRICT");
    assert(spec_ascii_upper("MEMORY"@) =~= "MEMORY"@);
    assert(spec_ascii_upper("ASYNC"@) =~= "ASYNC"@);
    assert(spec_ascii_upper("STRICT"@) =~= "STRICT"@);
    assert("ASYNC"@ != "MEMORY"@ && "ASYNC"@.len() == 5);
    assert("STRICT"@ != "MEMORY"@) by {
        assert("STRICT"@[0] != "MEMORY"@[0]);
    }
    assert("STRICT"@ != "ASYNC"@ && "STRICT"@.len() == 6);
}

/// A mode that writes no log never fsyncs; one that fsyncs always logs.
pub proof fn lemma_fsync_implies_wal(m: DurabilityMode)
    ensures
        spec_sync_fsync(m) ==> spec_uses_wal(m),
        !spec_uses_wal(m) ==> !spec_sync_fsync(m),
{
}

} // verus!
