use vstd::prelude::*;
use vstd::relations::{sorted_by, total_ordering};
use vstd::seq_lib::lemma_sorted_unique;

verus! {

/// One observation of a single attempted request.
#[derive(Clone, Debug)]
pub struct Sample {
    /// Response code, present on a completed exchange.
    pub status: Option<u16>,
    /// Whole microseconds from dispatch to completion or failure.
    pub latency: u64,
    /// Description of the failure, present iff the exchange failed.
    pub error: Option<String>,
}

impl Sample {
    /// Builds the sample of one exchange: a response code on success, a
    /// message on failure, and the elapsed time either way.
    pub fn from_outcome(outcome: Result<u16, String>, latency: u64) -> (r: Sample)
        ensures
            r.latency == latency,
            match outcome {
                Ok(code) => r.status == Some(code) && r.error.is_none(),
                Err(msg) => r.status.is_none() && r.error == Some(msg),
            },
    {
        match outcome {
            Ok(code) => Sample { status: Some(code), latency, error: None },
            Err(msg) => Sample { status: None, latency, error: Some(msg) },
        }
    }
}

/// Ascending order on latencies.
pub open spec fn ascending() -> spec_fn(u64, u64) -> bool {
    |a: u64, b: u64| a <= b
}

/// Latencies of the successful samples, in the order they were collected.
pub open spec fn success_latencies(s: Seq<Sample>) -> Seq<u64>
    decreases s.len(),
{
    if s.len() == 0 {
        Seq::empty()
    } else {
        let rest = success_latencies(s.drop_last());
        if s.last().error.is_none() {
            rest.push(s.last().latency)
        } else {
            rest
        }
    }
}

/// Latencies of the successful samples, sorted ascending.
pub open spec fn sorted_latencies(s: Seq<Sample>) -> Seq<u64> {
    success_latencies(s).sort_by(ascending())
}

/// Sum of a sequence of latencies.
pub open spec fn seq_sum(s: Seq<u64>) -> int
    decreases s.len(),
{
    if s.len() == 0 {
        0
    } else {
        seq_sum(s.drop_last()) + s.last()
    }
}

/// Largest of a sequence of latencies, zero when it is empty.
pub open spec fn seq_max(s: Seq<u64>) -> u64
    decreases s.len(),
{
    if s.len() == 0 {
        0
    } else if seq_max(s.drop_last()) >= s.last() {
        seq_max(s.drop_last())
    } else {
        s.last()
    }
}

/// Integer mean of a sequence of latencies, zero when it is empty.
pub open spec fn mean_of(s: Seq<u64>) -> int {
    if s.len() == 0 {
        0
    } else {
        seq_sum(s) / (s.len() as int)
    }
}

/// Nearest rank of percentile `p` among `n` sorted values: `p/100 * (n - 1)`
/// rounded to the nearest integer, halves upward.
pub open spec fn rank_index(p: int, n: int) -> int {
    (p * (n - 1) + 50) / 100
}

/// Nearest-rank percentile of a sorted sequence, zero when it is empty.
pub open spec fn percentile(sorted: Seq<u64>, p: int) -> u64 {
    if sorted.len() == 0 {
        0
    } else {
        sorted[rank_index(p, sorted.len() as int)]
    }
}

/// The time base of the request rate: the largest successful latency, or one
/// microsecond when nothing succeeded.
pub open spec fn wall_of(s: Seq<u64>) -> u64 {
    if s.len() == 0 {
        1
    } else {
        seq_max(s)
    }
}

/// Aggregate over all samples of one run. Latencies are in microseconds.
#[derive(Clone, Copy, Debug, PartialEq, Eq, Structural)]
pub struct Summary {
    pub total: usize,
    pub success: usize,
    pub errors: usize,
    /// Divisor of the request rate, in microseconds: requests per second are
    /// `total / (wall_latency / 1_000_000)`.
    pub wall_latency: u64,
    pub mean_latency: u64,
    pub p50_latency: u64,
    pub p95_latency: u64,
    pub p99_latency: u64,
}

impl Summary {
    /// This summary is the reduction of `samples`.
    pub open spec fn describes(self, samples: Seq<Sample>) -> bool {
        let lat = success_latencies(samples);
        let sorted = sorted_latencies(samples);
        &&& self.total == samples.len()
        &&& self.success == lat.len()
        &&& self.errors == samples.len() - lat.len()
        &&& self.wall_latency == wall_of(lat)
        &&& self.mean_latency == mean_of(lat)
        &&& self.p50_latency == percentile(sorted, 50)
        &&& self.p95_latency == percentile(sorted, 95)
        &&& self.p99_latency == percentile(sorted, 99)
    }

    /// Reduces the samples of a run to its summary. Only successful samples
    /// enter the latency statistics.
    pub fn from_samples(samples: &[Sample]) -> (r: Summary)
        ensures
            r.describes(samples@),
            r.success + r.errors == r.total,
            r.total == samples@.len(),
            r.p50_latency <= r.p95_latency <= r.p99_latency,
            r.success == 0 ==> r.mean_latency == 0 && r.p50_latency == 0 && r.p95_latency == 0
                && r.p99_latency == 0,
    {
        let mut lat: Vec<u64> = Vec::new();
        let mut i: usize = 0;
        while i < samples.len()
            invariant
                i <= samples@.len(),
                lat@ == success_latencies(samples@.take(i as int)),
                lat@.len() <= i,
            decreases samples@.len() - i,
        {
            proof {
                assert(samples@.take(i as int + 1).drop_last() =~= samples@.take(i as int));
            }
            if samples[i].error.is_none() {
                lat.push(samples[i].latency);
            }
            i += 1;
        }
        assert(samples@.take(samples@.len() as int) =~= samples@);
        let ghost collected = lat@;
        let n = lat.len();

        let mut sum: u128 = 0;
        let mut top: u64 = 0;
        let mut j: usize = 0;
        while j < n
            invariant
                n == lat@.len(),
                j <= n,
                sum == seq_sum(lat@.take(j as int)),
                sum <= j * 0xffff_ffff_ffff_ffffu64,
                top == seq_max(lat@.take(j as int)),
            decreases n - j,
        {
            proof {
                assert(lat@.take(j as int + 1).drop_last() =~= lat@.take(j as int));
            }
            sum = sum + lat[j] as u128;
            if lat[j] > top {
                top = lat[j];
            }
            j += 1;
        }
        assert(lat@.take(n as int) =~= lat@);
        let mean: u64 = if n == 0 {
            0
        } else {
            proof {
                lemma_quotient_bound(sum as int, n as int);
            }
            (sum / (n as u128)) as u64
        };
        let wall: u64 = if n == 0 { 1 } else { top };

        sort_ascending(&mut lat);
        proof {
            lemma_ascending_total();
            collected.lemma_sort_by_ensures(ascending());
            lemma_sorted_unique(lat@, collected.sort_by(ascending()), ascending());
            if n > 0 {
                lemma_percentiles_ordered(lat@);
            }
        }
        let p50 = nearest_rank(&lat, 50);
        let p95 = nearest_rank(&lat, 95);
        let p99 = nearest_rank(&lat, 99);

        Summary {
            total: samples.len(),
            success: n,
            errors: samples.len() - n,
            wall_latency: wall,
            mean_latency: mean,
            p50_latency: p50,
            p95_latency: p95,
            p99_latency: p99,
        }
    }
}

/// Value at the nearest rank of percentile `p` in a sorted vector, zero when
/// it is empty.
fn nearest_rank(sorted: &Vec<u64>, p: u64) -> (r: u64)
    requires
        p <= 100,
    ensures
        r == percentile(sorted@, p as int),
{
    let n = sorted.len();
    if n == 0 {
        0
    } else {
        proof {
            lemma_rank_in_bounds(p as int, n as int);
        }
        let idx = ((p as u128) * ((n - 1) as u128) + 50) / 100;
        sorted[idx as usize]
    }
}

/// Relies on `slice::sort_unstable`: afterwards the vector holds the same
/// elements in ascending order.
#[verifier::external_body]
fn sort_ascending(v: &mut Vec<u64>)
    ensures
        final(v)@.len() == old(v)@.len(),
        sorted_by(final(v)@, ascending()),
        final(v)@.to_multiset() == old(v)@.to_multiset(),
{
    v.sort_unstable();
}

proof fn lemma_ascending_total()
    ensures
        total_ordering(ascending()),
{
}

proof fn lemma_quotient_bound(sum: int, n: int)
    requires
        n > 0,
        0 <= sum <= n * 0xffff_ffff_ffff_ffffu64,
    ensures
        sum / n <= 0xffff_ffff_ffff_ffffu64,
{
    assert(sum / n <= 0xffff_ffff_ffff_ffffu64) by (nonlinear_arith)
        requires
            n > 0,
            0 <= sum <= n * 0xffff_ffff_ffff_ffffu64,
    ;
}

proof fn lemma_rank_in_bounds(p: int, n: int)
    requires
        0 <= p <= 100,
        n > 0,
    ensures
        0 <= rank_index(p, n) < n,
{
    assert(0 <= (p * (n - 1) + 50) / 100 < n) by (nonlinear_arith)
        requires
            0 <= p <= 100,
            n > 0,
    ;
}

proof fn lemma_rank_monotone(p: int, q: int, n: int)
    requires
        0 <= p <= q <= 100,
        n > 0,
    ensures
        rank_index(p, n) <= rank_index(q, n),
{
    assert(p * (n - 1) <= q * (n - 1)) by (nonlinear_arith)
        requires
            0 <= p <= q,
            n > 0,
    ;
}

/// In a non-empty ascending sequence the nearest-rank percentiles never
/// decrease: the 50th is at most the 95th, which is at most the 99th.
pub proof fn lemma_percentiles_ordered(sorted: Seq<u64>)
    requires
        sorted.len() > 0,
        sorted_by(sorted, ascending()),
    ensures
        percentile(sorted, 50) <= percentile(sorted, 95) <= percentile(sorted, 99),
{
    let n = sorted.len() as int;
    lemma_rank_in_bounds(50, n);
    lemma_rank_in_bounds(95, n);
    lemma_rank_in_bounds(99, n);
    lemma_rank_monotone(50, 95, n);
    lemma_rank_monotone(95, 99, n);
    let (a, b, c) = (rank_index(50, n), rank_index(95, n), rank_index(99, n));
    if a < b {
        assert(ascending()(sorted[a], sorted[b]));
    }
    if b < c {
        assert(ascending()(sorted[b], sorted[c]));
    }
}

/// Reducing the same samples twice gives the same summary.
pub proof fn lemma_reduction_deterministic(samples: Seq<Sample>, a: Summary, b: Summary)
    requires
        a.describes(samples),
        b.describes(samples),
    ensures
        a == b,
{
}

/// A run in which no request succeeded has all latency statistics zero.
pub proof fn lemma_no_success_zero_latencies(samples: Seq<Sample>, s: Summary)
    requires
        s.describes(samples),
        s.success == 0,
    ensures
        s.mean_latency == 0,
        s.p50_latency == 0,
        s.p95_latency == 0,
        s.p99_latency == 0,
{
    broadcast use vstd::seq_lib::group_to_multiset_ensures;

    lemma_ascending_total();
    success_latencies(samples).lemma_sort_by_ensures(ascending());
    assert(sorted_latencies(samples).to_multiset().len() == 0);
}

} // verus!
