//! A shard's decisions: how it batches commands, which log sync policy it
//! runs, when an insert is acknowledged, and how it compacts its in-memory
//! table. The shard's loop performs the I/O and consults these.
use crate::server::durability::DurabilityMode;
use crate::wal::entry::WalEntry;
use crate::wal::policy::SyncPolicy;
use vstd::prelude::*;

verus! {

/// Most commands drained from the queue into one batch.
pub const MAX_DRAIN_SIZE: usize = 10_000;

/// Dimension of the vectors a shard stores.
pub const VECTOR_DIM: usize = 128;

/// How long a small batch waits for more commands, in microseconds.
pub const ADAPTIVE_TIMEOUT_MICROS: u64 = 50;

/// A batch of at least this many commands is processed without waiting.
pub const MIN_BATCH_FOR_IMMEDIATE_PROCESS: usize = 10;

/// More in-memory batches than this are merged into one.
pub const MAX_MEMORY_BATCHES: usize = 100;

/// Rows above which a merged table is trimmed.
pub const MAX_MEMORY_ROWS: usize = 1_000_000;

/// Rows above which a merged table is flushed to disk.
pub const FLUSH_THRESHOLD_ROWS: usize = 500_000;

/// The log sync policy a shard runs under `mode`.
pub open spec fn spec_wal_sync_policy(mode: DurabilityMode) -> SyncPolicy {
    match mode {
        DurabilityMode::Async => SyncPolicy::Adaptive(50, 1000),
        DurabilityMode::Strict => SyncPolicy::EveryWrite,
        DurabilityMode::Memory => SyncPolicy::Never,
    }
}

/// The log sync policy a shard runs under `mode`: adaptive for `Async`,
/// every write for `Strict`, never for `Memory`.
pub fn wal_sync_policy(mode: DurabilityMode) -> (p: SyncPolicy)
    ensures
        p == spec_wal_sync_policy(mode),
{
    match mode {
        DurabilityMode::Async => SyncPolicy::Adaptive(50, 1000),
        DurabilityMode::Strict => SyncPolicy::EveryWrite,
        DurabilityMode::Memory => SyncPolicy::Never,
    }
}

/// Whether a batch of `buffered` commands waits (up to
/// `ADAPTIVE_TIMEOUT_MICROS`) for more before it is processed.
pub fn waits_for_more(buffered: usize) -> (b: bool)
    ensures
        b == (buffered < MIN_BATCH_FOR_IMMEDIATE_PROCESS),
{
    buffered < MIN_BATCH_FOR_IMMEDIATE_PROCESS
}

/// How a batch of inserts is made durable.
#[derive(Debug, Clone, Copy, PartialEq, Eq, Structural)]
pub enum InsertPlan {
    /// Straight into the in-memory table.
    MemoryOnly,
    /// Appended to the log first (and synced when `sync`), then stored.
    LogFirst { sync: bool },
    /// The mode needs a log the shard does not have: the inserts fail.
    Unavailable,
}

/// How a shard under `mode`, with or without an open log, makes inserts
/// durable.
pub open spec fn spec_insert_plan(mode: DurabilityMode, has_wal: bool) -> InsertPlan {
    match mode {
        DurabilityMode::Memory => InsertPlan::MemoryOnly,
        _ => if has_wal {
            InsertPlan::LogFirst { sync: mode == DurabilityMode::Strict }
        } else {
            InsertPlan::Unavailable
        },
    }
}

/// Whether inserts made under `plan` are stored and acknowledged, given
/// whether the log sync succeeded (read only when the plan syncs).
pub open spec fn spec_insert_acknowledged(plan: InsertPlan, sync_ok: bool) -> bool {
    match plan {
        InsertPlan::MemoryOnly => true,
        InsertPlan::LogFirst { sync } => !sync || sync_ok,
        InsertPlan::Unavailable => false,
    }
}

/// How a shard under `mode` makes inserts durable.
pub fn insert_plan(mode: DurabilityMode, has_wal: bool) -> (p: InsertPlan)
    ensures
        p == spec_insert_plan(mode, has_wal),
{
    match mode {
        DurabilityMode::Memory => InsertPlan::MemoryOnly,
        DurabilityMode::Async | DurabilityMode::Strict => {
            if has_wal {
                InsertPlan::LogFirst { sync: mode == DurabilityMode::Strict }
            } else {
                InsertPlan::Unavailable
            }
        },
    }
}

/// Whether inserts made under `plan` are stored in memory and acknowledged.
pub fn insert_acknowledged(plan: InsertPlan, sync_ok: bool) -> (b: bool)
    ensures
        b == spec_insert_acknowledged(plan, sync_ok),
{
    match plan {
        InsertPlan::MemoryOnly => true,
        InsertPlan::LogFirst { sync } => !sync || sync_ok,
        InsertPlan::Unavailable => false,
    }
}

/// Under `Strict` an insert is acknowledged only once the log sync
/// succeeded; under `Memory` it always is; a logging mode without a log
/// acknowledges nothing.
pub proof fn lemma_strict_acknowledges_only_synced(has_wal: bool, sync_ok: bool)
    ensures
        spec_insert_acknowledged(spec_insert_plan(DurabilityMode::Strict, has_wal), sync_ok) ==> has_wal && sync_ok,
        spec_insert_acknowledged(spec_insert_plan(DurabilityMode::Memory, has_wal), sync_ok),
        has_wal ==> spec_insert_acknowledged(spec_insert_plan(DurabilityMode::Async, has_wal), sync_ok),
        !has_wal ==> !spec_insert_acknowledged(spec_insert_plan(DurabilityMode::Async, has_wal), sync_ok),
{
}

/// Whether an in-memory table of `batches` batches is merged.
pub fn needs_compaction(batches: usize) -> (b: bool)
    ensures
        b == (batches > MAX_MEMORY_BATCHES),
{
    batches > MAX_MEMORY_BATCHES
}

/// What happens to a merged table.
#[derive(Debug, Clone, Copy, PartialEq, Eq, Structural)]
pub enum CompactionPlan {
    /// Written to a file on disk and dropped from memory.
    Flush,
    /// Cut to its last `keep` rows, starting at row `offset`.
    Trim { offset: usize, keep: usize },
    /// Kept in memory as one batch.
    KeepMerged,
}

/// What happens to a merged table of `rows` rows.
pub open spec fn spec_compaction_plan(rows: usize) -> CompactionPlan {
    if rows > FLUSH_THRESHOLD_ROWS {
        CompactionPlan::Flush
    } else if rows > MAX_MEMORY_ROWS {
        CompactionPlan::Trim { offset: (rows - MAX_MEMORY_ROWS / 2) as usize, keep: MAX_MEMORY_ROWS / 2 }
    } else {
        CompactionPlan::KeepMerged
    }
}

/// What happens to a merged table of `rows` rows: flushed above
/// `FLUSH_THRESHOLD_ROWS`, trimmed to half of `MAX_MEMORY_ROWS` above that
/// limit, kept otherwise.
pub fn compaction_plan(rows: usize) -> (p: CompactionPlan)
    ensures
        p == spec_compaction_plan(rows),
{
    if rows > FLUSH_THRESHOLD_ROWS {
        CompactionPlan::Flush
    } else if rows > MAX_MEMORY_ROWS {
        let keep = MAX_MEMORY_ROWS / 2;
        CompactionPlan::Trim { offset: rows - keep, keep }
    } else {
        CompactionPlan::KeepMerged
    }
}

/// The flush threshold lies below the trim limit, so a merged table is
/// never trimmed: it is flushed or kept, and a kept table holds at most
/// `FLUSH_THRESHOLD_ROWS` rows.
pub proof fn lemma_merged_table_never_trimmed(rows: usize)
    ensures
        !(spec_compaction_plan(rows) is Trim),
        spec_compaction_plan(rows) is KeepMerged ==> rows <= FLUSH_THRESHOLD_ROWS,
{
}


/// The text that `bytes` decode to as UTF-8; `None` when they are not valid
/// UTF-8.
pub uninterp spec fn utf8_decoded(bytes: Seq<u8>) -> Option<Seq<char>>;

/// `String::from_utf8` of a copy of `bytes`, its error dropped.
#[verifier::external_body]
fn decode_utf8(bytes: &[u8]) -> (r: Option<String>)
    ensures
        match r {
            Some(s) => utf8_decoded(bytes@) == Some(s@),
            None => utf8_decoded(bytes@) is None,
        },
{
    match String::from_utf8(bytes.to_vec()) {
        Ok(s) => Some(s),
        Err(_) => None,
    }
}

/// The records a shard recovers from its log: the data of each insert, in
/// log order, skipping data that is not UTF-8 text; other entries recover
/// nothing.
pub open spec fn spec_recovered(entries: Seq<WalEntry>) -> Seq<Seq<char>>
    decreases entries.len(),
{
    if entries.len() == 0 {
        Seq::empty()
    } else {
        let rest = spec_recovered(entries.drop_last());
        match entries.last() {
            WalEntry::Insert { data, .. } => match utf8_decoded(data@) {
                Some(text) => rest.push(text),
                None => rest,
            },
            _ => rest,
        }
    }
}

/// The records recovered from replayed log entries (see `spec_recovered`).
pub fn recovered_inserts(entries: &Vec<WalEntry>) -> (r: Vec<String>)
    ensures
        r@.map_values(|s: String| s@) == spec_recovered(entries@),
{
    let mut out: Vec<String> = Vec::new();
    let mut i: usize = 0;
    while i < entries.len()
        invariant
            i <= entries.len(),
            out@.map_values(|s: String| s@) == spec_recovered(entries@.take(i as int)),
        decreases entries.len() - i,
    {
        let ghost before = out@;
        proof {
            assert(entries@.take(i + 1).drop_last() =~= entries@.take(i as int));
            assert(entries@.take(i + 1).last() == entries@[i as int]);
        }
        match &entries[i] {
            WalEntry::Insert { data, .. } => {
                match decode_utf8(data.as_slice()) {
                    Some(text) => {
                        out.push(text);
                        assert(out@.map_values(|s: String| s@) =~= before.map_values(|s: String| s@).push(out@.last()@));
                    },
                    None => {},
                }
            },
            _ => {},
        }
        i = i + 1;
    }
    assert(entries@.take(entries.len() as int) =~= entries@);
    out
}

} // verus!
