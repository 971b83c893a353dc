//! When the write-ahead log flushes its buffer after an append.
use vstd::prelude::*;

verus! {

/// Sync policy for the log.
#[derive(Debug, Clone, Copy, PartialEq, Eq, Structural)]
pub enum SyncPolicy {
    /// Flush after every write.
    EveryWrite,
    /// Flush after N writes.
    Batched(usize),
    /// Never flush (for testing).
    Never,
    /// Flush once `min_batch_size` writes have accumulated or
    /// `max_delay_micros` have passed since the last sync.
    Adaptive(usize, u64),
}

/// Outcome of one append under `policy`, given the number of writes counted
/// before it and the microseconds since the last sync: whether the buffer is
/// flushed, and the write count afterwards.
pub open spec fn spec_after_append(policy: SyncPolicy, count: nat, micros_since_sync: u64) -> (bool, nat) {
    let c = count + 1;
    match policy {
        SyncPolicy::EveryWrite => (true, c),
        SyncPolicy::Batched(n) => if c >= n { (true, 0) } else { (false, c) },
        SyncPolicy::Adaptive(min_batch, max_delay) => {
            if c >= min_batch || micros_since_sync >= max_delay { (true, 0) } else { (false, c) }
        },
        SyncPolicy::Never => (false, c),
    }
}

/// Counts appends since the last flush and decides, per the sync policy,
/// when the log's buffer is flushed.
pub struct WriteCounter {
    policy: SyncPolicy,
    count: usize,
}

impl WriteCounter {
    pub closed spec fn spec_policy(&self) -> SyncPolicy {
        self.policy
    }

    pub closed spec fn spec_count(&self) -> nat {
        self.count as nat
    }

    /// A counter with no writes recorded.
    pub fn new(policy: SyncPolicy) -> (c: Self)
        ensures
            c.spec_policy() == policy,
            c.spec_count() == 0,
    {
        WriteCounter { policy, count: 0 }
    }

    /// The policy in force.
    pub fn policy(&self) -> (p: SyncPolicy)
        ensures
            p == self.spec_policy(),
    {
        self.policy
    }

    /// Writes counted since the last flush.
    pub fn count(&self) -> (n: usize)
        ensures
            n == self.spec_count(),
    {
        self.count
    }

    /// Records one append; returns whether the buffer must be flushed now.
    pub fn record_append(&mut self, micros_since_sync: u64) -> (flush: bool)
        requires
            old(self).spec_count() < usize::MAX,
        ensures
            final(self).spec_policy() == old(self).spec_policy(),
            (flush, final(self).spec_count()) == spec_after_append(
                old(self).spec_policy(),
                old(self).spec_count(),
                micros_since_sync,
            ),
    {
        self.count = self.count + 1;
        match self.policy {
            SyncPolicy::EveryWrite => true,
            SyncPolicy::Batched(n) => {
                if self.count >= n {
                    self.count = 0;
                    true
                } else {
                    false
                }
            },
            SyncPolicy::Adaptive(min_batch, max_delay) => {
                if self.count >= min_batch || micros_since_sync >= max_delay {
                    self.count = 0;
                    true
                } else {
                    false
                }
            },
            SyncPolicy::Never => false,
        }
    }
}

/// Under `Batched(n)` with `n > 0`, fewer than `n` writes are ever pending:
/// an append that reaches `n` pending writes flushes them.
pub proof fn lemma_batched_bounds_pending(n: usize, count: nat, micros: u64)
    requires
        n > 0,
        count < n,
    ensures
        spec_after_append(SyncPolicy::Batched(n), count, micros).1 < n,
        spec_after_append(SyncPolicy::Batched(n), count, micros).0
            <==> count + 1 == n,
{
}

/// Under `Adaptive(min, max)`, once `max` microseconds have passed since the
/// last sync the next append always flushes, and fewer than `min` writes stay
/// pending when `min > 0`.
pub proof fn lemma_adaptive_flushes(min_batch: usize, max_delay: u64, count: nat, micros: u64)
    requires
        count < min_batch,
    ensures
        micros >= max_delay ==> spec_after_append(SyncPolicy::Adaptive(min_batch, max_delay), count, micros).0,
        spec_after_append(SyncPolicy::Adaptive(min_batch, max_delay), count, micros).1 < min_batch,
{
}

} // verus!
