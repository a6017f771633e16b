//! I/O statistics.

use vstd::prelude::*;

verus! {

/// Upper bounds of the latency buckets, in microseconds.
pub const LATENCY_BUCKETS: [u64; 12] = [
    1,
    4,
    16,
    64,
    256,
    1_000,
    4_000,
    16_000,
    64_000,
    256_000,
    1_000_000,
    0xffff_ffff_ffff_ffff,
];

/// Number of latency buckets.
pub const NUM_BUCKETS: usize = 12;

/// `b` is the first bucket whose bound is not below the latency.
pub open spec fn is_bucket(latency_us: u64, b: int) -> bool {
    &&& 0 <= b < NUM_BUCKETS
    &&& latency_us <= LATENCY_BUCKETS@[b]
    &&& forall|k: int| 0 <= k < b ==> #[trigger] LATENCY_BUCKETS@[k] < latency_us
}

/// The bucket of a latency.
pub open spec fn bucket_of(latency_us: u64) -> int {
    choose|b: int| is_bucket(latency_us, b)
}

/// A latency has one bucket.
pub proof fn bucket_is_unique(latency_us: u64, a: int, b: int)
    requires
        is_bucket(latency_us, a),
        is_bucket(latency_us, b),
    ensures
        a == b,
{
    if a < b {
        assert(LATENCY_BUCKETS@[a] < latency_us);
    } else if b < a {
        assert(LATENCY_BUCKETS@[b] < latency_us);
    }
}

/// Statistics of an instance.
pub struct MioStats {
    /// Submissions.
    pub submissions: u64,
    /// Completions.
    pub completions: u64,
    /// Submissions that failed.
    pub errors: u64,
    /// Completions that were dropped.
    pub cq_overflows: u64,
    /// Completions by latency bucket.
    pub latency_buckets: [u64; 12],
    /// Sum of all latencies.
    pub latency_sum_us: u64,
    /// Least latency.
    pub latency_min_us: u64,
    /// Greatest latency.
    pub latency_max_us: u64,
    /// Most entries seen in the submission queue.
    pub sq_peak_utilization: u64,
    /// Most entries seen in the completion queue.
    pub cq_peak_utilization: u64,
    /// Bytes read.
    pub bytes_read: u64,
    /// Bytes written.
    pub bytes_written: u64,
}

/// Statistics as mathematical values.
#[verifier::ext_equal]
pub struct MioStatsView {
    /// Submissions.
    pub submissions: u64,
    /// Completions.
    pub completions: u64,
    /// Submissions that failed.
    pub errors: u64,
    /// Completions that were dropped.
    pub cq_overflows: u64,
    /// Completions by latency bucket.
    pub buckets: Seq<u64>,
    /// Sum of all latencies.
    pub sum_us: u64,
    /// Least latency.
    pub min_us: u64,
    /// Greatest latency.
    pub max_us: u64,
    /// Most entries seen in the submission queue.
    pub sq_peak: u64,
    /// Most entries seen in the completion queue.
    pub cq_peak: u64,
    /// Bytes read.
    pub bytes_read: u64,
    /// Bytes written.
    pub bytes_written: u64,
}

impl MioStatsView {
    /// The statistics after a completed operation.
    pub open spec fn completed(self, latency_us: u64, bytes: u64, is_write: bool) -> MioStatsView {
        let b = bucket_of(latency_us);
        MioStatsView {
            completions: self.completions.wrapping_add(1),
            buckets: self.buckets.update(b, self.buckets[b].wrapping_add(1)),
            sum_us: self.sum_us.wrapping_add(latency_us),
            min_us: if latency_us < self.min_us {
                latency_us
            } else {
                self.min_us
            },
            max_us: if latency_us > self.max_us {
                latency_us
            } else {
                self.max_us
            },
            bytes_written: if is_write {
                self.bytes_written.wrapping_add(bytes)
            } else {
                self.bytes_written
            },
            bytes_read: if is_write {
                self.bytes_read
            } else {
                self.bytes_read.wrapping_add(bytes)
            },
            ..self
        }
    }

    /// Average latency, zero without completions.
    pub open spec fn average_us(self) -> u64 {
        if self.completions == 0 {
            0
        } else {
            (self.sum_us / self.completions) as u64
        }
    }
}

impl View for MioStats {
    type V = MioStatsView;

    open spec fn view(&self) -> MioStatsView {
        MioStatsView {
            submissions: self.submissions,
            completions: self.completions,
            errors: self.errors,
            cq_overflows: self.cq_overflows,
            buckets: self.latency_buckets@,
            sum_us: self.latency_sum_us,
            min_us: self.latency_min_us,
            max_us: self.latency_max_us,
            sq_peak: self.sq_peak_utilization,
            cq_peak: self.cq_peak_utilization,
            bytes_read: self.bytes_read,
            bytes_written: self.bytes_written,
        }
    }
}

impl MioStats {
    /// Statistics of an instance that has done nothing.
    pub fn new() -> (s: Self)
        ensures
            s@ == (MioStatsView {
                submissions: 0,
                completions: 0,
                errors: 0,
                cq_overflows: 0,
                buckets: Seq::new(12, |i: int| 0u64),
                sum_us: 0,
                min_us: u64::MAX,
                max_us: 0,
                sq_peak: 0,
                cq_peak: 0,
                bytes_read: 0,
                bytes_written: 0,
            }),
    {
        let s = MioStats {
            submissions: 0,
            completions: 0,
            errors: 0,
            cq_overflows: 0,
            latency_buckets: [0;12],
            latency_sum_us: 0,
            latency_min_us: u64::MAX,
            latency_max_us: 0,
            sq_peak_utilization: 0,
            cq_peak_utilization: 0,
            bytes_read: 0,
            bytes_written: 0,
        };
        assert(s.latency_buckets@ =~= Seq::new(12, |i: int| 0u64));
        s
    }

    /// Notes a completed operation.
    pub fn record_completion(&mut self, latency_us: u64, bytes: u64, is_write: bool)
        ensures
            final(self)@ == old(self)@.completed(latency_us, bytes, is_write),
    {
        self.completions = self.completions.wrapping_add(1);
        let bucket: usize = self.latency_bucket(latency_us);
        self.latency_buckets[bucket] = self.latency_buckets[bucket].wrapping_add(1);
        self.latency_sum_us = self.latency_sum_us.wrapping_add(latency_us);
        if latency_us < self.latency_min_us {
            self.latency_min_us = latency_us;
        }
        if latency_us > self.latency_max_us {
            self.latency_max_us = latency_us;
        }
        if is_write {
            self.bytes_written = self.bytes_written.wrapping_add(bytes);
        } else {
            self.bytes_read = self.bytes_read.wrapping_add(bytes);
        }
        assert(self@ =~= old(self)@.completed(latency_us, bytes, is_write));
    }

    /// Notes a failed operation.
    pub fn record_error(&mut self)
        ensures
            final(self)@ == (MioStatsView {
                errors: old(self)@.errors.wrapping_add(1),
                ..old(self)@
            }),
    {
        self.errors = self.errors.wrapping_add(1);
    }

    /// Notes a dropped completion.
    pub fn record_overflow(&mut self)
        ensures
            final(self)@ == (MioStatsView {
                cq_overflows: old(self)@.cq_overflows.wrapping_add(1),
                ..old(self)@
            }),
    {
        self.cq_overflows = self.cq_overflows.wrapping_add(1);
    }

    /// Notes the number of entries in the submission queue.
    pub fn update_sq_peak(&mut self, current: u64)
        ensures
            final(self)@ == (MioStatsView {
                sq_peak: if current > old(self)@.sq_peak {
                    current
                } else {
                    old(self)@.sq_peak
                },
                ..old(self)@
            }),
    {
        if current > self.sq_peak_utilization {
            self.sq_peak_utilization = current;
        }
    }

    /// Notes the number of entries in the completion queue.
    pub fn update_cq_peak(&mut self, current: u64)
        ensures
            final(self)@ == (MioStatsView {
                cq_peak: if current > old(self)@.cq_peak {
                    current
                } else {
                    old(self)@.cq_peak
                },
                ..old(self)@
            }),
    {
        if current > self.cq_peak_utilization {
            self.cq_peak_utilization = current;
        }
    }

    /// The bucket of a latency.
    fn latency_bucket(&self, latency_us: u64) -> (b: usize)
        ensures
            is_bucket(latency_us, b as int),
            b == bucket_of(latency_us),
    {
        let mut i: usize = 0;
        while i < NUM_BUCKETS - 1 && latency_us > LATENCY_BUCKETS[i]
            invariant
                0 <= i < NUM_BUCKETS,
                forall|k: int| 0 <= k < i ==> #[trigger] LATENCY_BUCKETS@[k] < latency_us,
            decreases NUM_BUCKETS - i,
        {
            i += 1;
        }
        proof {
            assert(is_bucket(latency_us, i as int));
            bucket_is_unique(latency_us, i as int, bucket_of(latency_us));
        }
        i
    }

    /// Average latency in microseconds.
    pub fn average_latency_us(&self) -> (r: u64)
        ensures
            r == self@.average_us(),
    {
        if self.completions == 0 {
            return 0;
        }
        self.latency_sum_us / self.completions
    }

    /// A copy of the statistics.
    pub fn snapshot(&self) -> (r: StatsSnapshot)
        ensures
            r == (StatsSnapshot {
                submissions: self@.submissions,
                completions: self@.completions,
                errors: self@.errors,
                cq_overflows: self@.cq_overflows,
                avg_latency_us: self@.average_us(),
                min_latency_us: self@.min_us,
                max_latency_us: self@.max_us,
                sq_peak: self@.sq_peak,
                cq_peak: self@.cq_peak,
                bytes_read: self@.bytes_read,
                bytes_written: self@.bytes_written,
            }),
    {
        StatsSnapshot {
            submissions: self.submissions,
            completions: self.completions,
            errors: self.errors,
            cq_overflows: self.cq_overflows,
            avg_latency_us: self.average_latency_us(),
            min_latency_us: self.latency_min_us,
            max_latency_us: self.latency_max_us,
            sq_peak: self.sq_peak_utilization,
            cq_peak: self.cq_peak_utilization,
            bytes_read: self.bytes_read,
            bytes_written: self.bytes_written,
        }
    }
}

/// Statistics at a point in time.
#[derive(Clone, Copy, Debug, PartialEq, Eq, Structural)]
pub struct StatsSnapshot {
    pub submissions: u64,
    pub completions: u64,
    pub errors: u64,
    pub cq_overflows: u64,
    pub avg_latency_us: u64,
    pub min_latency_us: u64,
    pub max_latency_us: u64,
    pub sq_peak: u64,
    pub cq_peak: u64,
    pub bytes_read: u64,
    pub bytes_written: u64,
}

/// Sum of the buckets from the first on.
pub open spec fn bucket_total(buckets: Seq<u64>) -> int
    decreases buckets.len(),
{
    if buckets.len() == 0 {
        0
    } else {
        bucket_total(buckets.drop_last()) + buckets.last()
    }
}

/// One bucket more makes the sum one more.
proof fn lemma_bucket_total_update(buckets: Seq<u64>, b: int, x: u64)
    requires
        0 <= b < buckets.len(),
    ensures
        bucket_total(buckets.update(b, x)) == bucket_total(buckets) - buckets[b] + x,
    decreases buckets.len(),
{
    let u = buckets.update(b, x);
    if b == buckets.len() - 1 {
        assert(u.drop_last() =~= buckets.drop_last());
    } else {
        assert(u.drop_last() =~= buckets.drop_last().update(b, x));
        lemma_bucket_total_update(buckets.drop_last(), b, x);
    }
}

/// The histogram counts every completion once, as long as no counter wraps.
pub proof fn histogram_counts_completions(
    s: MioStatsView,
    latency_us: u64,
    bytes: u64,
    is_write: bool,
)
    requires
        s.buckets.len() == NUM_BUCKETS,
        s.completions < u64::MAX,
        forall|i: int| 0 <= i < NUM_BUCKETS ==> #[trigger] s.buckets[i] <= s.completions,
        bucket_total(s.buckets) == s.completions,
    ensures
        bucket_total(s.completed(latency_us, bytes, is_write).buckets) == s.completed(
            latency_us,
            bytes,
            is_write,
        ).completions,
{
    lemma_bucket_exists(latency_us, 0);
    let b = bucket_of(latency_us);
    assert(is_bucket(latency_us, b));
    lemma_bucket_total_update(s.buckets, b, s.buckets[b].wrapping_add(1));
}

/// Every latency has a bucket at or after `from`, if it exceeds all before.
proof fn lemma_bucket_exists(latency_us: u64, from: int)
    requires
        0 <= from < NUM_BUCKETS,
        forall|k: int| 0 <= k < from ==> #[trigger] LATENCY_BUCKETS@[k] < latency_us,
    ensures
        exists|b: int| is_bucket(latency_us, b),
    decreases NUM_BUCKETS - from,
{
    if latency_us <= LATENCY_BUCKETS@[from] {
        assert(is_bucket(latency_us, from));
    } else {
        lemma_bucket_exists(latency_us, from + 1);
    }
}

/// The least and the greatest latency bound every latency that was noted.
pub proof fn extremes_bound_latencies(s: MioStatsView, latency_us: u64, bytes: u64, is_write: bool)
    ensures
        s.completed(latency_us, bytes, is_write).min_us <= latency_us,
        s.completed(latency_us, bytes, is_write).max_us >= latency_us,
        s.completed(latency_us, bytes, is_write).min_us <= s.min_us,
        s.completed(latency_us, bytes, is_write).max_us >= s.max_us,
{
}

/// The histogram has a bucket for latencies up to 1, 4, 16, 64 and 256 microseconds, up to 1,
/// 4, 16, 64 and 256 milliseconds, up to a second, and for all others. A latency counts in the
/// first one that holds it.
pub proof fn latency_counts_in_the_first_bucket(latency_us: u64, b: int)
    requires
        is_bucket(latency_us, b),
    ensures
        b == 0 <==> latency_us <= 1,
        b == 1 <==> 1 < latency_us <= 4,
        b == 2 <==> 4 < latency_us <= 16,
        b == 3 <==> 16 < latency_us <= 64,
        b == 4 <==> 64 < latency_us <= 256,
        b == 5 <==> 256 < latency_us <= 1_000,
        b == 6 <==> 1_000 < latency_us <= 4_000,
        b == 7 <==> 4_000 < latency_us <= 16_000,
        b == 8 <==> 16_000 < latency_us <= 64_000,
        b == 9 <==> 64_000 < latency_us <= 256_000,
        b == 10 <==> 256_000 < latency_us <= 1_000_000,
        b == 11 <==> 1_000_000 < latency_us,
{
    assert(LATENCY_BUCKETS@[0] == 1 && LATENCY_BUCKETS@[1] == 4 && LATENCY_BUCKETS@[2] == 16
        && LATENCY_BUCKETS@[3] == 64);
    assert(LATENCY_BUCKETS@[4] == 256 && LATENCY_BUCKETS@[5] == 1_000 && LATENCY_BUCKETS@[6] == 4_000
        && LATENCY_BUCKETS@[7] == 16_000);
    assert(LATENCY_BUCKETS@[8] == 64_000 && LATENCY_BUCKETS@[9] == 256_000 && LATENCY_BUCKETS@[10]
        == 1_000_000);
}

/// What a completion adds: its bytes to those read or those written, whichever it did, its
/// latency to the sum, and one to the count.
pub proof fn completion_adds_bytes_and_latency(
    s: MioStatsView,
    latency_us: u64,
    bytes: u64,
    is_write: bool,
)
    requires
        s.completions < u64::MAX,
        s.sum_us + latency_us <= u64::MAX,
        s.bytes_read + bytes <= u64::MAX,
        s.bytes_written + bytes <= u64::MAX,
    ensures
        ({
            let c = s.completed(latency_us, bytes, is_write);
            &&& c.completions == s.completions + 1
            &&& c.sum_us == s.sum_us + latency_us
            &&& is_write ==> c.bytes_written == s.bytes_written + bytes && c.bytes_read
                == s.bytes_read
            &&& !is_write ==> c.bytes_read == s.bytes_read + bytes && c.bytes_written
                == s.bytes_written
            &&& c.min_us == latency_us || c.min_us == s.min_us
            &&& c.max_us == latency_us || c.max_us == s.max_us
            &&& c.errors == s.errors && c.submissions == s.submissions
        }),
{
}

/// The average is the sum shared among the completions, rounded down, and zero without one.
pub proof fn average_is_an_even_share(s: MioStatsView)
    ensures
        s.completions == 0 ==> s.average_us() == 0,
        s.completions > 0 ==> s.average_us() * s.completions <= s.sum_us < (s.average_us() + 1)
            * s.completions,
{
    if s.completions > 0 {
        let n = s.completions as int;
        let x = s.sum_us as int;
        let q = x / n;
        vstd::arithmetic::div_mod::lemma_fundamental_div_mod(x, n);
        assert(q * n <= x < (q + 1) * n && 0 <= q <= x) by (nonlinear_arith)
            requires
                x == n * q + x % n,
                0 <= x % n < n,
                x >= 0,
        ;
    }
}

} // verus!
