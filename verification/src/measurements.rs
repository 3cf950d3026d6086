//! The sample aggregator: an append-only sequence of read-latency samples
//! (in nanoseconds) plus the configured total experiment duration, with the
//! derived summary statistics the final report prints.
//!
//! Statistics that are undefined on an empty sequence (min, max, average,
//! median, percentiles, standard deviation) return `None` rather than a
//! default. All derived values are integer nanoseconds: the median of an
//! even count truncates the half-nanosecond, and the standard deviation
//! rounds up, so that it is zero exactly when every sample is equal.
use vstd::prelude::*;

use vstd::multiset::Multiset;
use vstd::relations::{sorted_by, total_ordering};
use vstd::seq_lib::{lemma_multiset_commutative, lemma_sorted_unique};
use vstd::arithmetic::div_mod::{
    lemma_basic_div,
    lemma_div_by_self,
    lemma_div_is_ordered,
    lemma_div_multiples_vanish,
};

verus! {

/// Upper bound on a single latency sample, in nanoseconds (about 78 hours):
/// keeps sums of squared deviations inside 128-bit arithmetic.
pub const MAX_SAMPLE_NANOS: u64 = 0x1_0000_0000_0000;

/// Upper bound on the number of recorded samples, for the same reason.
pub const MAX_SAMPLES: usize = 0x8000_0000;

/// Latency samples of one benchmark run, in the order they were drained from
/// the sample queue, plus the configured experiment duration.
pub struct Measurements {
    durations: Vec<u64>,
    total_duration_nanos: u64,
}

impl View for Measurements {
    type V = Seq<u64>;

    closed spec fn view(&self) -> Seq<u64> {
        self.durations@
    }
}

/// The ordering the statistics sort samples by.
pub open spec fn u64_leq() -> spec_fn(u64, u64) -> bool {
    |a: u64, b: u64| a <= b
}

/// The samples in ascending order.
pub open spec fn sorted_samples(s: Seq<u64>) -> Seq<u64> {
    s.sort_by(u64_leq())
}

/// The sum of a sample sequence.
pub open spec fn sum_of(s: Seq<u64>) -> int
    decreases s.len(),
{
    if s.len() == 0 {
        0
    } else {
        sum_of(s.drop_last()) + s.last()
    }
}

/// The smallest sample (meaningful only when the sequence is non-empty).
pub open spec fn min_of(s: Seq<u64>) -> u64 {
    sorted_samples(s)[0]
}

/// The largest sample (meaningful only when the sequence is non-empty).
pub open spec fn max_of(s: Seq<u64>) -> u64 {
    sorted_samples(s)[s.len() - 1]
}

/// The arithmetic mean, truncated to whole nanoseconds.
pub open spec fn average_of(s: Seq<u64>) -> int {
    sum_of(s) / (s.len() as int)
}

/// The median: the middle sample of the sorted sequence for an odd count,
/// the truncated mean of the two middle samples for an even count.
pub open spec fn median_of(s: Seq<u64>) -> int {
    let t = sorted_samples(s);
    let n = s.len() as int;
    if n % 2 == 1 {
        t[n / 2] as int
    } else {
        (t[n / 2 - 1] + t[n / 2]) as int / 2
    }
}

/// The sorted-sequence index the p-th percentile reads:
/// `ceil(p/100 * n) - 1`, clamped to `[0, n-1]`.
pub open spec fn percentile_index(p: int, n: int) -> int {
    let i = (p * n + 99) / 100 - 1;
    if i <= 0 {
        0
    } else if i >= n {
        n - 1
    } else {
        i
    }
}

impl Measurements {
    /// Bounds under which every statistic below is free of overflow: a
    /// positive configured duration, and samples within the machine limits.
    pub open spec fn wf(&self) -> bool {
        &&& self.total_nanos() > 0
        &&& self@.len() <= MAX_SAMPLES
        &&& forall|i: int| 0 <= i < self@.len() ==> self@[i] <= MAX_SAMPLE_NANOS
    }

    /// The configured total experiment duration, in nanoseconds.
    pub closed spec fn total_nanos(&self) -> u64 {
        self.total_duration_nanos
    }

    /// Creates an empty aggregator for a run of the given (positive)
    /// configured duration.
    pub fn new(total_duration_nanos: u64) -> (m: Measurements)
        requires
            total_duration_nanos > 0,
        ensures
            m@ == Seq::<u64>::empty(),
            m.total_nanos() == total_duration_nanos,
            m.wf(),
    {
        let m = Measurements { durations: Vec::new(), total_duration_nanos };
        proof {
            assert(m@ =~= Seq::<u64>::empty());
        }
        m
    }

    /// Appends one latency sample.
    pub fn push(&mut self, nanos: u64)
        requires
            old(self).wf(),
            nanos <= MAX_SAMPLE_NANOS,
            old(self)@.len() < MAX_SAMPLES,
        ensures
            final(self)@ == old(self)@.push(nanos),
            final(self).total_nanos() == old(self).total_nanos(),
            final(self).wf(),
    {
        self.durations.push(nanos);
    }

    /// How many samples have been recorded.
    pub fn total_transactions(&self) -> (n: usize)
        ensures
            n == self@.len(),
    {
        self.durations.len()
    }

    /// Transactions per second, scaled by 1000 (milli-TPS), computed against
    /// the configured total duration, not a measured one.
    pub fn tps_milli(&self) -> (r: u128)
        requires
            self.wf(),
        ensures
            r == (self@.len() as int * 1_000_000_000_000) / (self.total_nanos() as int),
    {
        let count = self.durations.len() as u128;
        let total = self.total_duration_nanos as u128;
        (count * 1_000_000_000_000) / total
    }

    /// The smallest recorded sample, or `None` when none was recorded.
    pub fn min(&self) -> (r: Option<u64>)
        ensures
            (r is None) <==> self@.len() == 0,
            self@.len() > 0 ==> r == Some(min_of(self@)),
    {
        let n = self.durations.len();
        if n == 0 {
            return None;
        }
        let mut best = self.durations[0];
        let mut i: usize = 1;
        while i < n
            invariant
                1 <= i <= n,
                n == self@.len(),
                self@.contains(best),
                forall|k: int| 0 <= k < i ==> best <= self@[k],
            decreases n - i,
        {
            if self.durations[i] < best {
                best = self.durations[i];
            }
            i += 1;
        }
        proof {
            lemma_sorted_samples_bounds(self@);
        }
        Some(best)
    }

    /// The largest recorded sample, or `None` when none was recorded.
    pub fn max(&self) -> (r: Option<u64>)
        ensures
            (r is None) <==> self@.len() == 0,
            self@.len() > 0 ==> r == Some(max_of(self@)),
    {
        let n = self.durations.len();
        if n == 0 {
            return None;
        }
        let mut best = self.durations[0];
        let mut i: usize = 1;
        while i < n
            invariant
                1 <= i <= n,
                n == self@.len(),
                self@.contains(best),
                forall|k: int| 0 <= k < i ==> self@[k] <= best,
            decreases n - i,
        {
            if self.durations[i] > best {
                best = self.durations[i];
            }
            i += 1;
        }
        proof {
            lemma_sorted_samples_bounds(self@);
        }
        Some(best)
    }

    /// The mean sample, truncated to whole nanoseconds, or `None` when no
    /// sample was recorded.
    pub fn average(&self) -> (r: Option<u64>)
        requires
            self.wf(),
        ensures
            (r is None) <==> self@.len() == 0,
            self@.len() > 0 ==> r == Some(average_of(self@) as u64) && 0 <= average_of(
                self@,
            ) <= MAX_SAMPLE_NANOS,
    {
        let n = self.durations.len();
        if n == 0 {
            return None;
        }
        let mut acc: u128 = 0;
        let mut i: usize = 0;
        while i < n
            invariant
                0 <= i <= n,
                n == self@.len(),
                self.wf(),
                acc == sum_of(self@.subrange(0, i as int)),
                acc <= (i as int) * (MAX_SAMPLE_NANOS as int),
            decreases n - i,
        {
            proof {
                assert(self@.subrange(0, i + 1 as int).drop_last() =~= self@.subrange(
                    0,
                    i as int,
                ));
                assert((i as int) * (MAX_SAMPLE_NANOS as int) + MAX_SAMPLE_NANOS == ((
                i + 1) as int) * (MAX_SAMPLE_NANOS as int)) by (nonlinear_arith);
            }
            acc = acc + self.durations[i] as u128;
            i += 1;
        }
        proof {
            assert(self@.subrange(0, n as int) =~= self@);
            lemma_div_is_ordered(
                sum_of(self@),
                (n as int) * (MAX_SAMPLE_NANOS as int),
                n as int,
            );
            lemma_div_multiples_vanish(MAX_SAMPLE_NANOS as int, n as int);
            assert((MAX_SAMPLE_NANOS as int) * (n as int) == (n as int) * (
            MAX_SAMPLE_NANOS as int)) by (nonlinear_arith);
            assert(sum_of(self@) >= 0) by {
                lemma_sum_nonneg(self@);
            }
        }
        let a = acc / (n as u128);
        Some(a as u64)
    }

    /// The recorded samples in ascending order.
    fn sorted_durations(&self) -> (out: Vec<u64>)
        ensures
            out@ == sorted_samples(self@),
    {
        let n = self.durations.len();
        let mut out: Vec<u64> = Vec::new();
        proof {
            assert(self@.subrange(0, 0) =~= out@);
        }
        let mut i: usize = 0;
        while i < n
            invariant
                i <= n,
                n == self@.len(),
                out@.len() == i,
                sorted_by(out@, u64_leq()),
                out@.to_multiset() == self@.subrange(0, i as int).to_multiset(),
            decreases n - i,
        {
            let x = self.durations[i];
            let mut j: usize = 0;
            while j < out.len() && out[j] <= x
                invariant
                    j <= out@.len(),
                    forall|k: int| 0 <= k < j ==> out@[k] <= x,
                decreases out@.len() - j,
            {
                j += 1;
            }
            let ghost prev = out@;
            out.insert(j, x);
            proof {
                prev.insert_ensures(j as int, x);
                assert forall|p: int, q: int|
                    0 <= p < q < out@.len() implies u64_leq()(out@[p], out@[q]) by {
                    if q < j {
                        assert(u64_leq()(prev[p], prev[q]));
                    } else if q == j {
                        assert(out@[p] == prev[p] && prev[p] <= x);
                    } else if p == j {
                        assert(out@[q] == prev[q - 1] && x < prev[j as int] && (j < q - 1
                            ==> u64_leq()(prev[j as int], prev[q - 1])));
                    } else if p < j {
                        assert(out@[q] == prev[q - 1] && (p < q - 1 ==> u64_leq()(
                        prev[p], prev[q - 1])));
                    } else {
                        assert(u64_leq()(prev[p - 1], prev[q - 1]));
                    }
                }
                lemma_insert_to_multiset(prev, j as int, x);
                assert(self@.subrange(0, i + 1) =~= self@.subrange(0, i as int).push(x));
                broadcast use vstd::seq_lib::group_to_multiset_ensures;

                assert(out@.to_multiset() =~= self@.subrange(0, i + 1).to_multiset());
            }
            i += 1;
        }
        proof {
            assert(self@.subrange(0, n as int) =~= self@);
            lemma_sorted_samples_ensures(self@);
            lemma_u64_leq_total();
            lemma_sorted_unique(out@, sorted_samples(self@), u64_leq());
        }
        out
    }

    /// The median latency, or `None` when no sample was recorded. For an
    /// even count this is the truncated mean of the two middle samples of
    /// the sorted sequence; for an odd count, the single middle sample.
    pub fn median(&self) -> (r: Option<u64>)
        requires
            self.wf(),
        ensures
            (r is None) <==> self@.len() == 0,
            self@.len() > 0 ==> r == Some(median_of(self@) as u64),
    {
        let n = self.durations.len();
        if n == 0 {
            return None;
        }
        let sorted = self.sorted_durations();
        proof {
            lemma_sorted_samples_ensures(self@);
            lemma_sorted_elems_bounded(self@, MAX_SAMPLE_NANOS);
        }
        let mid = n / 2;
        if n % 2 == 1 {
            Some(sorted[mid])
        } else {
            Some((sorted[mid - 1] + sorted[mid]) / 2)
        }
    }

    /// The latency under which the given percentage of samples falls:
    /// reads index `ceil(p/100 * n) - 1` (clamped to the valid range) of the
    /// sorted samples. `None` when no sample was recorded.
    pub fn percentile(&self, percentile: u64) -> (r: Option<u64>)
        ensures
            (r is None) <==> self@.len() == 0,
            self@.len() > 0 ==> r == Some(
                sorted_samples(self@)[percentile_index(
                    percentile as int,
                    self@.len() as int,
                )],
            ),
    {
        let n = self.durations.len();
        if n == 0 {
            return None;
        }
        let sorted = self.sorted_durations();
        proof {
            lemma_sorted_samples_ensures(self@);
        }
        let pc: u64 = if percentile > 100 {
            100
        } else {
            percentile
        };
        proof {
            if percentile > 100 {
                lemma_percentile_index_clamps_high(percentile as int, n as int);
            }
        }
        proof {
            assert((pc as int) * (n as int) <= 100 * (usize::MAX as int)) by (nonlinear_arith)
                requires
                    pc <= 100,
                    n <= usize::MAX,
            ;
        }
        let num: u128 = (pc as u128) * (n as u128);
        let c: u128 = (num + 99) / 100;
        let idx: usize = if c == 0 {
            0
        } else if c > n as u128 {
            n - 1
        } else {
            (c - 1) as usize
        };
        assert(idx == percentile_index(percentile as int, self@.len() as int));
        Some(sorted[idx])
    }

    /// The 95th percentile latency.
    pub fn percentile_95(&self) -> (r: Option<u64>)
        ensures
            (r is None) <==> self@.len() == 0,
            self@.len() > 0 ==> r == Some(
                sorted_samples(self@)[percentile_index(95, self@.len() as int)],
            ),
    {
        self.percentile(95)
    }

    /// The 99th percentile latency (computed with its own percentage, not
    /// the 95th's).
    pub fn percentile_99(&self) -> (r: Option<u64>)
        ensures
            (r is None) <==> self@.len() == 0,
            self@.len() > 0 ==> r == Some(
                sorted_samples(self@)[percentile_index(99, self@.len() as int)],
            ),
    {
        self.percentile(99)
    }

    /// The population standard deviation around the truncated mean, rounded
    /// up to whole nanoseconds, or `None` when no sample was recorded.
    /// Rounding up makes the result zero exactly when every squared
    /// deviation is zero.
    pub fn standard_deviation(&self) -> (r: Option<u64>)
        requires
            self.wf(),
        ensures
            (r is None) <==> self@.len() == 0,
            r matches Some(v) ==> {
                &&& (v as int) * (v as int) >= variance_ceil_of(self@)
                &&& v > 0 ==> ((v - 1) as int) * ((v - 1) as int) < variance_ceil_of(
                    self@,
                )
            },
    {
        let n = self.durations.len();
        if n == 0 {
            return None;
        }
        let avg = match self.average() {
            Some(a) => a,
            None => { return None; },
        };
        let ghost mean = average_of(self@);
        let mut acc: u128 = 0;
        let mut i: usize = 0;
        while i < n
            invariant
                0 <= i <= n,
                n == self@.len(),
                self.wf(),
                avg as int == mean,
                0 <= mean <= MAX_SAMPLE_NANOS,
                acc == sum_sq_dev(self@.subrange(0, i as int), mean),
                acc <= (i as int) * (MAX_SAMPLE_NANOS as int) * (MAX_SAMPLE_NANOS as int),
            decreases n - i,
        {
            let x = self.durations[i];
            let d: u64 = if x >= avg {
                x - avg
            } else {
                avg - x
            };
            proof {
                assert(self@.subrange(0, i + 1).drop_last() =~= self@.subrange(0, i as int));
                assert((d as int) * (d as int) == (self@[i as int] - mean) * (
                self@[i as int] - mean)) by (nonlinear_arith)
                    requires
                        d == if self@[i as int] >= mean {
                            self@[i as int] - mean
                        } else {
                            mean - self@[i as int]
                        },
                ;
                assert((d as int) * (d as int) <= (MAX_SAMPLE_NANOS as int) * (
                MAX_SAMPLE_NANOS as int)) by (nonlinear_arith)
                    requires
                        0 <= d <= MAX_SAMPLE_NANOS,
                ;
                assert((i as int) * (MAX_SAMPLE_NANOS as int) * (MAX_SAMPLE_NANOS as int)
                    + (MAX_SAMPLE_NANOS as int) * (MAX_SAMPLE_NANOS as int) == ((i + 1) as int)
                    * (MAX_SAMPLE_NANOS as int) * (MAX_SAMPLE_NANOS as int)) by (nonlinear_arith);
                assert(((i + 1) as int) * (MAX_SAMPLE_NANOS as int) * (MAX_SAMPLE_NANOS as int)
                    <= (MAX_SAMPLES as int) * (MAX_SAMPLE_NANOS as int) * (
                MAX_SAMPLE_NANOS as int)) by (nonlinear_arith)
                    requires
                        i + 1 <= MAX_SAMPLES,
                ;
            }
            acc = acc + (d as u128) * (d as u128);
            i += 1;
        }
        proof {
            assert(self@.subrange(0, n as int) =~= self@);
            lemma_ssd_nonneg(self@, mean);
        }
        let var_ceil: u128 = (acc + (n as u128) - 1) / (n as u128);
        proof {
            lemma_div_is_ordered(
                acc + n - 1,
                (MAX_SAMPLES as int) * (MAX_SAMPLE_NANOS as int) * (MAX_SAMPLE_NANOS as int)
                    + MAX_SAMPLES,
                n as int,
            );
            assert(var_ceil == variance_ceil_of(self@));
            assert(var_ceil < 0x8000_0000_0000_0000_0000_0000_0000_0000u128 + 0x8000_0000u128);
        }
        Some(isqrt_ceil(var_ceil))
    }
}

/// The sum of squared deviations of the samples from a given mean.
pub open spec fn sum_sq_dev(s: Seq<u64>, mean: int) -> int
    decreases s.len(),
{
    if s.len() == 0 {
        0
    } else {
        sum_sq_dev(s.drop_last(), mean) + (s.last() - mean) * (s.last() - mean)
    }
}

/// The population variance around the truncated mean, rounded up to a whole
/// number of squared nanoseconds.
pub open spec fn variance_ceil_of(s: Seq<u64>) -> int {
    (sum_sq_dev(s, average_of(s)) + s.len() - 1) / (s.len() as int)
}

/// A sum of squared deviations is non-negative.
proof fn lemma_ssd_nonneg(s: Seq<u64>, mean: int)
    ensures
        sum_sq_dev(s, mean) >= 0,
    decreases s.len(),
{
    if s.len() > 0 {
        lemma_ssd_nonneg(s.drop_last(), mean);
        assert((s.last() - mean) * (s.last() - mean) >= 0) by (nonlinear_arith);
    }
}

/// The least whole number whose square is at least `v`.
fn isqrt_ceil(v: u128) -> (r: u64)
    requires
        v <= 0xFFFF_FFFF_FFFF_FFFE_0000_0000_0000_0001u128,
    ensures
        (r as int) * (r as int) >= v,
        r > 0 ==> ((r - 1) as int) * ((r - 1) as int) < v,
{
    let mut lo: u64 = 0;
    let mut hi: u64 = 0xFFFF_FFFF_FFFF_FFFF;
    proof {
        assert((hi as int) * (hi as int) >= v) by (nonlinear_arith)
            requires
                hi == 0xFFFF_FFFF_FFFF_FFFFu64,
                v <= 0xFFFF_FFFF_FFFF_FFFE_0000_0000_0000_0001u128,
        ;
    }
    while lo < hi
        invariant
            lo <= hi,
            (hi as int) * (hi as int) >= v,
            lo > 0 ==> ((lo - 1) as int) * ((lo - 1) as int) < v,
        decreases hi - lo,
    {
        let mid = lo + (hi - lo) / 2;
        proof {
            assert((mid as int) * (mid as int)
                <= 0xFFFF_FFFF_FFFF_FFFE_0000_0000_0000_0001int) by (nonlinear_arith)
                requires
                    mid <= 0xFFFF_FFFF_FFFF_FFFFu64,
            ;
        }
        if (mid as u128) * (mid as u128) >= v {
            hi = mid;
        } else {
            lo = mid + 1;
        }
    }
    lo
}

/// Inserting an element anywhere in a sequence adds exactly that element to
/// its multiset.
proof fn lemma_insert_to_multiset(s: Seq<u64>, pos: int, x: u64)
    requires
        0 <= pos <= s.len(),
    ensures
        s.insert(pos, x).to_multiset() == s.to_multiset().insert(x),
{
    broadcast use vstd::seq_lib::group_to_multiset_ensures;

    let a = s.subrange(0, pos);
    let b = s.subrange(pos, s.len() as int);
    assert(s.insert(pos, x) =~= a + (seq![x] + b));
    assert(s =~= a + b);
    lemma_multiset_commutative(a, seq![x] + b);
    lemma_multiset_commutative(seq![x], b);
    lemma_multiset_commutative(a, b);
    assert(seq![x] =~= Seq::<u64>::empty().push(x));
    assert(Seq::<u64>::empty().to_multiset() =~= Multiset::<u64>::empty());
    assert(seq![x].to_multiset() =~= Multiset::<u64>::empty().insert(x));
    assert(s.insert(pos, x).to_multiset() =~= s.to_multiset().insert(x));
}

/// Any percentage above one hundred reads the same (last) index as one
/// hundred does.
proof fn lemma_percentile_index_clamps_high(p: int, n: int)
    requires
        p > 100,
        n > 0,
    ensures
        percentile_index(p, n) == percentile_index(100, n),
{
    assert(p * n >= 100 * n) by (nonlinear_arith)
        requires
            p > 100,
            n > 0,
    ;
    lemma_div_is_ordered(100 * n + 99, p * n + 99, 100);
    assert((100 * n + 99) / 100 == n) by {
        lemma_div_multiples_vanish(n, 100);
        assert(100 * n == n * 100);
        assert((n * 100 + 99) / 100 == n) by (nonlinear_arith)
            requires
                n > 0,
        ;
    }
}

/// Samples that all lie in `[lo, hi]` sum to something in
/// `[len * lo, len * hi]`.
proof fn lemma_sum_bounds(s: Seq<u64>, lo: u64, hi: u64)
    requires
        forall|i: int| 0 <= i < s.len() ==> lo <= #[trigger] s[i] <= hi,
    ensures
        (s.len() as int) * (lo as int) <= sum_of(s) <= (s.len() as int) * (hi as int),
    decreases s.len(),
{
    if s.len() > 0 {
        let prev = s.drop_last();
        assert(forall|i: int| 0 <= i < prev.len() ==> lo <= #[trigger] prev[i] <= hi);
        lemma_sum_bounds(prev, lo, hi);
        assert((prev.len() as int) * (lo as int) + lo == (s.len() as int) * (
        lo as int)) by (nonlinear_arith)
            requires
                prev.len() + 1 == s.len(),
        ;
        assert((prev.len() as int) * (hi as int) + hi == (s.len() as int) * (
        hi as int)) by (nonlinear_arith)
            requires
                prev.len() + 1 == s.len(),
        ;
    }
}

/// For every non-empty sample sequence, the median and the mean both lie
/// between the smallest and the largest sample.
pub proof fn lemma_min_median_max(s: Seq<u64>)
    requires
        s.len() > 0,
    ensures
        min_of(s) <= median_of(s) <= max_of(s),
        min_of(s) <= average_of(s) <= max_of(s),
{
    let t = sorted_samples(s);
    let n = s.len() as int;
    let lo = min_of(s) as int;
    let hi = max_of(s) as int;
    lemma_sorted_samples_ensures(s);
    assert forall|k: int| 0 <= k < n implies lo <= #[trigger] t[k] <= hi by {
        if 0 < k {
            assert(u64_leq()(t[0], t[k]));
        }
        if k < n - 1 {
            assert(u64_leq()(t[k], t[n - 1]));
        }
    }
    if n % 2 == 0 {
        let a = t[n / 2 - 1] as int;
        let b = t[n / 2] as int;
        lemma_div_is_ordered(2 * lo, a + b, 2);
        lemma_div_is_ordered(a + b, 2 * hi, 2);
        lemma_div_multiples_vanish(lo, 2);
        lemma_div_multiples_vanish(hi, 2);
    }
    lemma_sorted_samples_bounds(s);
    lemma_sum_bounds(s, min_of(s), max_of(s));
    lemma_div_is_ordered(n * lo, sum_of(s), n);
    lemma_div_is_ordered(sum_of(s), n * hi, n);
    lemma_div_multiples_vanish(lo, n);
    lemma_div_multiples_vanish(hi, n);
    assert(n * lo == lo * n && n * hi == hi * n) by (nonlinear_arith);
}

/// The one-hundredth percentile reads the largest sample, and every
/// percentage near zero reads the smallest: whenever the percentage times
/// the count is at most one hundred, the index clamps to the bottom of the
/// sorted sequence.
pub proof fn lemma_percentile_extremes(s: Seq<u64>)
    requires
        s.len() > 0,
    ensures
        sorted_samples(s)[percentile_index(100, s.len() as int)] == max_of(s),
        forall|p: int|
            0 <= p && p * s.len() <= 100 ==> sorted_samples(s)[#[trigger] percentile_index(
                p,
                s.len() as int,
            )] == min_of(s),
{
    let n = s.len() as int;
    lemma_sorted_samples_ensures(s);
    assert((100 * n + 99) / 100 == n) by {
        lemma_div_multiples_vanish(n, 100);
        assert(100 * n == n * 100);
        assert((n * 100 + 99) / 100 == n) by (nonlinear_arith)
            requires
                n > 0,
        ;
    }
    assert(percentile_index(100, n) == n - 1);
    assert forall|p: int| 0 <= p && p * s.len() <= 100 implies sorted_samples(
        s,
    )[#[trigger] percentile_index(p, n)] == min_of(s) by {
        assert(p * n >= 0) by (nonlinear_arith)
            requires
                p >= 0,
                n > 0,
        ;
        lemma_div_is_ordered(p * n + 99, 199, 100);
        assert(199int / 100 == 1);
        lemma_div_pos(p * n + 99, 100);
        assert(percentile_index(p, n) == 0);
    }
}

/// A non-negative numerator gives a non-negative quotient.
proof fn lemma_div_pos(x: int, d: int)
    requires
        x >= 0,
        d > 0,
    ensures
        x / d >= 0,
{
    lemma_div_is_ordered(0, x, d);
}

/// A zero sum of squared deviations forces every sample onto the mean.
proof fn lemma_ssd_zero_means_constant(s: Seq<u64>, mean: int)
    requires
        sum_sq_dev(s, mean) == 0,
    ensures
        forall|i: int| 0 <= i < s.len() ==> s[i] == mean,
    decreases s.len(),
{
    if s.len() > 0 {
        let prev = s.drop_last();
        lemma_ssd_nonneg(prev, mean);
        assert((s.last() - mean) * (s.last() - mean) >= 0) by (nonlinear_arith);
        assert(sum_sq_dev(prev, mean) == 0);
        assert(s.last() == mean) by (nonlinear_arith)
            requires
                (s.last() - mean) * (s.last() - mean) == 0,
        ;
        lemma_ssd_zero_means_constant(prev, mean);
        assert forall|i: int| 0 <= i < s.len() implies s[i] == mean by {
            if i < s.len() - 1 {
                assert(prev[i] == mean);
                assert(s[i] == prev[i]);
            } else {
                assert(s[i] == s.last());
            }
        }
    }
}

/// A constant sequence sums to its length times the constant.
proof fn lemma_constant_sum(s: Seq<u64>, c: u64)
    requires
        forall|i: int| 0 <= i < s.len() ==> #[trigger] s[i] == c,
    ensures
        sum_of(s) == (s.len() as int) * (c as int),
    decreases s.len(),
{
    if s.len() > 0 {
        let prev = s.drop_last();
        lemma_constant_sum(prev, c);
        assert((prev.len() as int) * (c as int) + c == (s.len() as int) * (
        c as int)) by (nonlinear_arith)
            requires
                prev.len() + 1 == s.len(),
        ;
    }
}

/// A constant sequence has no deviation from that constant.
proof fn lemma_constant_ssd(s: Seq<u64>, c: u64)
    requires
        forall|i: int| 0 <= i < s.len() ==> #[trigger] s[i] == c,
    ensures
        sum_sq_dev(s, c as int) == 0,
    decreases s.len(),
{
    if s.len() > 0 {
        let prev = s.drop_last();
        assert(forall|i: int| 0 <= i < prev.len() ==> #[trigger] prev[i] == s[i] && s[i]
            == c);
        lemma_constant_ssd(prev, c);
        assert(s.last() == s[s.len() - 1] && s[s.len() - 1] == c);
    }
}

/// The standard deviation is zero exactly when every sample is equal: the
/// two square-root bounds that `standard_deviation` guarantees pin the
/// result to zero on a constant sequence and to a positive value otherwise.
pub proof fn lemma_stddev_zero_iff_all_equal(s: Seq<u64>, v: u64)
    requires
        s.len() > 0,
        (v as int) * (v as int) >= variance_ceil_of(s),
        v > 0 ==> ((v - 1) as int) * ((v - 1) as int) < variance_ceil_of(s),
    ensures
        (v == 0) <==> (forall|i: int, j: int|
            0 <= i < s.len() && 0 <= j < s.len() ==> s[i] == s[j]),
{
    let n = s.len() as int;
    let m = average_of(s);
    let ssd = sum_sq_dev(s, m);
    lemma_ssd_nonneg(s, m);
    if v == 0 {
        assert(variance_ceil_of(s) <= 0);
        if ssd > 0 {
            lemma_div_is_ordered(n, ssd + n - 1, n);
            lemma_div_by_self(n);
            assert(false);
        }
        lemma_ssd_zero_means_constant(s, m);
        assert(forall|i: int| 0 <= i < s.len() ==> #[trigger] s[i] == m);
    } else {
        if forall|i: int, j: int| 0 <= i < s.len() && 0 <= j < s.len() ==> s[i] == s[j] {
            let c = s[0];
            assert(forall|i: int| 0 <= i < s.len() ==> #[trigger] s[i] == c);
            lemma_constant_sum(s, c);
            lemma_div_multiples_vanish(c as int, n);
            assert(n * (c as int) == (c as int) * n) by (nonlinear_arith);
            assert(average_of(s) == c);
            lemma_constant_ssd(s, c);
            lemma_basic_div(n - 1, n);
            assert(variance_ceil_of(s) == 0);
            assert(((v - 1) as int) * ((v - 1) as int) >= 0) by (nonlinear_arith);
            assert(false);
        }
    }
}

/// Every entry of the sorted sequence obeys a bound that every sample obeys.
proof fn lemma_sorted_elems_bounded(s: Seq<u64>, bound: u64)
    requires
        forall|i: int| 0 <= i < s.len() ==> s[i] <= bound,
    ensures
        forall|k: int|
            0 <= k < sorted_samples(s).len() ==> #[trigger] sorted_samples(s)[k] <= bound,
{
    let t = sorted_samples(s);
    lemma_sorted_samples_ensures(s);
    assert forall|k: int| 0 <= k < t.len() implies #[trigger] t[k] <= bound by {
        lemma_multiset_eq_contains(t, s, t[k]);
    }
}

/// The sum of a sample sequence is non-negative.
proof fn lemma_sum_nonneg(s: Seq<u64>)
    ensures
        sum_of(s) >= 0,
    decreases s.len(),
{
    if s.len() > 0 {
        lemma_sum_nonneg(s.drop_last());
    }
}

/// `u64_leq` is a total ordering, as the sorting lemmas require.
pub proof fn lemma_u64_leq_total()
    ensures
        total_ordering(u64_leq()),
{
}

/// What sorting guarantees: the sorted sequence is a permutation of the
/// input (same multiset, same length) and is ascending.
pub proof fn lemma_sorted_samples_ensures(s: Seq<u64>)
    ensures
        sorted_samples(s).to_multiset() == s.to_multiset(),
        sorted_samples(s).len() == s.len(),
        sorted_by(sorted_samples(s), u64_leq()),
{
    s.lemma_sort_by_ensures(u64_leq());
    broadcast use vstd::seq_lib::group_to_multiset_ensures;

    assert(sorted_samples(s).to_multiset().len() == s.to_multiset().len());
}

/// Membership carries across a permutation.
proof fn lemma_multiset_eq_contains(a: Seq<u64>, b: Seq<u64>, x: u64)
    requires
        a.to_multiset() == b.to_multiset(),
        a.contains(x),
    ensures
        b.contains(x),
{
    broadcast use vstd::seq_lib::group_to_multiset_ensures;

    assert(a.to_multiset().count(x) > 0);
}

/// The first and last entries of the sorted sequence bound every sample,
/// and both occur among the samples.
pub proof fn lemma_sorted_samples_bounds(s: Seq<u64>)
    requires
        s.len() > 0,
    ensures
        s.contains(min_of(s)),
        s.contains(max_of(s)),
        forall|i: int| 0 <= i < s.len() ==> min_of(s) <= #[trigger] s[i],
        forall|i: int| 0 <= i < s.len() ==> #[trigger] s[i] <= max_of(s),
{
    let t = sorted_samples(s);
    lemma_sorted_samples_ensures(s);
    lemma_multiset_eq_contains(t, s, t[0]);
    lemma_multiset_eq_contains(t, s, t[s.len() - 1]);
    assert forall|i: int| 0 <= i < s.len() implies min_of(s) <= #[trigger] s[i] && s[i]
        <= max_of(s) by {
        lemma_multiset_eq_contains(s, t, s[i]);
        let j = choose|j: int| 0 <= j < t.len() && t[j] == s[i];
        if 0 < j {
            assert(u64_leq()(t[0], t[j]));
        }
        if j < s.len() - 1 {
            assert(u64_leq()(t[j], t[s.len() - 1]));
        }
    }
}

} // verus!
