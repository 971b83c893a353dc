//! Performance counters of a server shard. The rates and averages, which
//! are floating point, are computed by the caller from these counters.
use vstd::prelude::*;
use vstd::wrapping::u64_specs;
use vstd::wrapping::usize_specs;

verus! {

/// A point on the monotonic clock.
#[verifier::external_type_specification]
#[verifier::external_body]
pub struct ExInstant(std::time::Instant);

/// `std::time::Instant::now()`. Nothing is stated of the reading.
#[verifier::external_body]
fn instant_now() -> std::time::Instant {
    std::time::Instant::now()
}

/// Performance counters; each wraps around on overflow.
pub struct Metrics {
    total_inserts: usize,
    total_searches: usize,
    total_batches: usize,
    insert_latency_sum: u64,
    insert_latency_count: u64,
    batch_size_sum: usize,
    batch_count: usize,
    start_time: std::time::Instant,
}

/// The counters of a `Metrics`, in the order: inserts, searches, batches,
/// insert latency sum (µs), insert latency count, batch size sum, batch count.
pub struct MetricsView {
    pub total_inserts: usize,
    pub total_searches: usize,
    pub total_batches: usize,
    pub insert_latency_sum: u64,
    pub insert_latency_count: u64,
    pub batch_size_sum: usize,
    pub batch_count: usize,
}

impl View for Metrics {
    type V = MetricsView;

    closed spec fn view(&self) -> MetricsView {
        MetricsView {
            total_inserts: self.total_inserts,
            total_searches: self.total_searches,
            total_batches: self.total_batches,
            insert_latency_sum: self.insert_latency_sum,
            insert_latency_count: self.insert_latency_count,
            batch_size_sum: self.batch_size_sum,
            batch_count: self.batch_count,
        }
    }
}

impl Metrics {
    /// All counters at zero, started now.
    pub fn new() -> (m: Self)
        ensures
            m@ == (MetricsView {
                total_inserts: 0,
                total_searches: 0,
                total_batches: 0,
                insert_latency_sum: 0,
                insert_latency_count: 0,
                batch_size_sum: 0,
                batch_count: 0,
            }),
    {
        Metrics {
            total_inserts: 0,
            total_searches: 0,
            total_batches: 0,
            insert_latency_sum: 0,
            insert_latency_count: 0,
            batch_size_sum: 0,
            batch_count: 0,
            start_time: instant_now(),
        }
    }

    /// When the counters started.
    pub closed spec fn spec_start_time(&self) -> std::time::Instant {
        self.start_time
    }

    /// When the counters started.
    pub fn start_time(&self) -> (t: std::time::Instant)
        ensures
            t == self.spec_start_time(),
    {
        self.start_time
    }

    /// Records an insert of `count` records that took `latency_micros`.
    pub fn record_insert(&mut self, count: usize, latency_micros: u64)
        ensures
            final(self).spec_start_time() == old(self).spec_start_time(),
            final(self)@ == (MetricsView {
                total_inserts: usize_specs::wrapping_add(old(self)@.total_inserts, count),
                insert_latency_sum: u64_specs::wrapping_add(old(self)@.insert_latency_sum, latency_micros),
                insert_latency_count: u64_specs::wrapping_add(old(self)@.insert_latency_count, 1),
                ..old(self)@
            }),
    {
        self.total_inserts = self.total_inserts.wrapping_add(count);
        self.insert_latency_sum = self.insert_latency_sum.wrapping_add(latency_micros);
        self.insert_latency_count = self.insert_latency_count.wrapping_add(1);
    }

    /// Records a batch of `size` commands.
    pub fn record_batch(&mut self, size: usize)
        ensures
            final(self).spec_start_time() == old(self).spec_start_time(),
            final(self)@ == (MetricsView {
                total_batches: usize_specs::wrapping_add(old(self)@.total_batches, 1),
                batch_size_sum: usize_specs::wrapping_add(old(self)@.batch_size_sum, size),
                batch_count: usize_specs::wrapping_add(old(self)@.batch_count, 1),
                ..old(self)@
            }),
    {
        self.total_batches = self.total_batches.wrapping_add(1);
        self.batch_size_sum = self.batch_size_sum.wrapping_add(size);
        self.batch_count = self.batch_count.wrapping_add(1);
    }

    /// Records a search.
    pub fn record_search(&mut self)
        ensures
            final(self).spec_start_time() == old(self).spec_start_time(),
            final(self)@ == (MetricsView {
                total_searches: usize_specs::wrapping_add(old(self)@.total_searches, 1),
                ..old(self)@
            }),
    {
        self.total_searches = self.total_searches.wrapping_add(1);
    }

    /// Records inserted so far.
    pub fn get_total_inserts(&self) -> (n: usize)
        ensures
            n == self@.total_inserts,
    {
        self.total_inserts
    }

    /// Searches so far.
    pub fn get_total_searches(&self) -> (n: usize)
        ensures
            n == self@.total_searches,
    {
        self.total_searches
    }

    /// Batches so far.
    pub fn get_total_batches(&self) -> (n: usize)
        ensures
            n == self@.total_batches,
    {
        self.total_batches
    }

    /// Sum and count of the recorded insert latencies (µs).
    pub fn insert_latency_totals(&self) -> (r: (u64, u64))
        ensures
            r == (self@.insert_latency_sum, self@.insert_latency_count),
    {
        (self.insert_latency_sum, self.insert_latency_count)
    }

    /// Sum and count of the recorded batch sizes.
    pub fn batch_size_totals(&self) -> (r: (usize, usize))
        ensures
            r == (self@.batch_size_sum, self@.batch_count),
    {
        (self.batch_size_sum, self.batch_count)
    }
}

} // verus!
