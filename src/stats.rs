use vstd::prelude::*;
use vstd::arithmetic::div_mod::lemma_div_is_ordered;
use vstd::arithmetic::mul::lemma_mul_inequality;

verus! {

/// Ranks of the reported percentiles, in hundredths of a percent:
/// p50, p75, p90, p99, p99.9, p99.99 and the maximum.
pub const RANK_P50: u64 = 5000;
pub const RANK_P75: u64 = 7500;
pub const RANK_P90: u64 = 9000;
pub const RANK_P99: u64 = 9900;
pub const RANK_P999: u64 = 9990;
pub const RANK_P9999: u64 = 9999;
pub const RANK_MAX: u64 = 10000;

/// One completed request: its latency in microseconds and whether it succeeded.
#[derive(Debug, Clone, Copy, PartialEq, Eq, Structural)]
pub struct Sample {
    pub latency_us: u64,
    pub success: bool,
}

pub open spec fn sorted(s: Seq<u64>) -> bool {
    forall|i: int, j: int| 0 <= i <= j < s.len() ==> s[i] <= s[j]
}

/// Relies on slice::sort_unstable: afterwards the vector holds the same values
/// in ascending order.
#[verifier::external_body]
fn sort_ascending(v: &mut Vec<u64>)
    ensures
        final(v)@.to_multiset() == old(v)@.to_multiset(),
        sorted(final(v)@),
{
    v.sort_unstable()
}

/// The index that the nearest-rank method picks for rank `p` (in hundredths
/// of a percent) among `n` sorted samples: `ceil(p / 10000 * n) - 1`, clipped
/// to `[0, n - 1]`.
pub open spec fn rank_index(p: nat, n: nat) -> int {
    let c = (p * n + 9999) / 10000;
    if c == 0 {
        0
    } else if c > n {
        n - 1
    } else {
        c - 1
    }
}

/// The nearest-rank percentile `p` of sorted samples; zero when there are none.
pub open spec fn percentile_of(s: Seq<u64>, p: nat) -> u64 {
    if s.len() == 0 {
        0
    } else {
        s[rank_index(p, s.len())]
    }
}

/// The nearest-rank percentile at rank `p`, in hundredths of a percent, of
/// samples sorted in ascending order; zero when there are none.
pub fn percentile(sorted_latencies: &Vec<u64>, p: u64) -> (r: u64)
    requires
        p <= 10000,
    ensures
        r == percentile_of(sorted_latencies@, p as nat),
{
    let n = sorted_latencies.len();
    if n == 0 {
        return 0;
    }
    assert((p as nat) * (n as nat) <= 10000 * (n as nat)) by (nonlinear_arith)
        requires p <= 10000;
    let c: u128 = ((p as u128) * (n as u128) + 9999) / 10000;
    if c == 0 {
        sorted_latencies[0]
    } else if c > n as u128 {
        sorted_latencies[n - 1]
    } else {
        sorted_latencies[(c - 1) as usize]
    }
}

proof fn lemma_rank_index_bounds(p: nat, n: nat)
    requires
        n > 0,
    ensures
        0 <= rank_index(p, n) < n,
{
}

proof fn lemma_rank_index_monotone(p1: nat, p2: nat, n: nat)
    requires
        p1 <= p2,
    ensures
        rank_index(p1, n) <= rank_index(p2, n),
{
    lemma_mul_inequality(p1 as int, p2 as int, n as int);
    lemma_div_is_ordered((p1 * n + 9999) as int, (p2 * n + 9999) as int, 10000);
    let c1 = (p1 * n + 9999) / 10000;
    let c2 = (p2 * n + 9999) / 10000;
    assert(c1 <= c2);
    if n == 0 {
        assert(p2 * n == 0);
        assert(c2 == 0);
    }
}

/// Percentiles do not decrease as the rank grows.
pub proof fn lemma_percentile_monotone(s: Seq<u64>, p1: nat, p2: nat)
    requires
        sorted(s),
        p1 <= p2,
    ensures
        percentile_of(s, p1) <= percentile_of(s, p2),
{
    if s.len() > 0 {
        lemma_rank_index_monotone(p1, p2, s.len());
        lemma_rank_index_bounds(p1, s.len());
        lemma_rank_index_bounds(p2, s.len());
    }
}

/// The percentile at rank 100% is the largest sample.
pub proof fn lemma_percentile_max(s: Seq<u64>)
    requires
        sorted(s),
        s.len() > 0,
    ensures
        percentile_of(s, 10000) == s.last(),
        forall|i: int| 0 <= i < s.len() ==> s[i] <= percentile_of(s, 10000),
{
    let n = s.len();
    assert((10000 * n + 9999) / 10000 == n) by (nonlinear_arith)
        requires n > 0;
}

/// The latencies of the successful samples, in order.
pub open spec fn success_latencies(s: Seq<Sample>) -> Seq<u64>
    decreases s.len(),
{
    if s.len() == 0 {
        Seq::empty()
    } else if s.last().success {
        success_latencies(s.drop_last()).push(s.last().latency_us)
    } else {
        success_latencies(s.drop_last())
    }
}

proof fn lemma_success_latencies_len(s: Seq<Sample>)
    ensures
        success_latencies(s).len() <= s.len(),
    decreases s.len(),
{
    if s.len() > 0 {
        lemma_success_latencies_len(s.drop_last());
    }
}

/// The latencies of the successful samples, in ascending order.
pub fn sorted_latencies(samples: &Vec<Sample>) -> (r: Vec<u64>)
    ensures
        sorted(r@),
        r@.to_multiset() == success_latencies(samples@).to_multiset(),
{
    let mut v: Vec<u64> = Vec::new();
    let mut i: usize = 0;
    while i < samples.len()
        invariant
            0 <= i <= samples@.len(),
            v@ == success_latencies(samples@.subrange(0, i as int)),
        decreases samples@.len() - i,
    {
        let s = samples[i];
        assert(samples@.subrange(0, i as int + 1).drop_last() =~= samples@.subrange(0, i as int));
        if s.success {
            v.push(s.latency_us);
        }
        i = i + 1;
    }
    assert(samples@.subrange(0, samples@.len() as int) =~= samples@);
    sort_ascending(&mut v);
    v
}

/// Milli-requests per second: `successes` requests over `wall_us`
/// microseconds, times 1000, rounded down; zero when no time was measured.
pub open spec fn throughput_milli(successes: nat, wall_us: nat) -> nat {
    if wall_us == 0 {
        0
    } else {
        successes * 1_000_000_000 / wall_us
    }
}

/// Throughput in thousandths of a request per second, rounded down and
/// capped at `u64::MAX`; zero when no time was measured.
pub fn throughput(successes: u64, wall_us: u64) -> (r: u64)
    ensures
        throughput_milli(successes as nat, wall_us as nat) <= u64::MAX ==> r == throughput_milli(
            successes as nat,
            wall_us as nat,
        ),
        throughput_milli(successes as nat, wall_us as nat) > u64::MAX ==> r == u64::MAX,
{
    if wall_us == 0 {
        return 0;
    }
    let t: u128 = (successes as u128) * 1_000_000_000u128 / (wall_us as u128);
    if t > u64::MAX as u128 {
        u64::MAX
    } else {
        t as u64
    }
}

/// The computed throughput stands within one thousandth of a request per
/// second below the exact rate of successes over the measured time.
pub proof fn lemma_throughput_bounds(successes: nat, wall_us: nat)
    requires
        wall_us > 0,
    ensures
        throughput_milli(successes, wall_us) * wall_us <= successes * 1_000_000_000,
        successes * 1_000_000_000 < (throughput_milli(successes, wall_us) + 1) * wall_us,
{
    let a = successes * 1_000_000_000;
    let q = a / wall_us;
    assert(q * wall_us <= a && a < (q + 1) * wall_us) by (nonlinear_arith)
        requires q == a / wall_us, wall_us > 0, a >= 0;
}

/// Failed requests per ten thousand attempted, rounded down; zero when none
/// were attempted.
pub open spec fn error_rate_of(failed: nat, total: nat) -> nat {
    if total == 0 {
        0
    } else {
        failed * 10000 / total
    }
}

/// Failed requests per ten thousand attempted (hundredths of a percent),
/// rounded down; zero when none were attempted.
pub fn error_rate(failed: u64, total: u64) -> (r: u64)
    requires
        failed <= total,
    ensures
        r == error_rate_of(failed as nat, total as nat),
        r <= 10000,
{
    if total == 0 {
        return 0;
    }
    assert((failed as nat) * 10000 / (total as nat) <= 10000) by (nonlinear_arith)
        requires failed <= total, total > 0;
    ((failed as u128) * 10000u128 / (total as u128)) as u64
}

/// The samples of one round and the wall-clock time it took.
pub struct RoundResult {
    pub samples: Vec<Sample>,
    pub wall_us: u64,
}

/// The latency percentiles of one round, in microseconds.
#[derive(Debug, Clone, Copy, PartialEq, Eq, Structural)]
pub struct Percentiles {
    pub p50: u64,
    pub p75: u64,
    pub p90: u64,
    pub p99: u64,
    pub p999: u64,
    pub p9999: u64,
    pub max: u64,
}

pub open spec fn percentiles_of(s: Seq<u64>) -> Percentiles {
    Percentiles {
        p50: percentile_of(s, RANK_P50 as nat),
        p75: percentile_of(s, RANK_P75 as nat),
        p90: percentile_of(s, RANK_P90 as nat),
        p99: percentile_of(s, RANK_P99 as nat),
        p999: percentile_of(s, RANK_P999 as nat),
        p9999: percentile_of(s, RANK_P9999 as nat),
        max: percentile_of(s, RANK_MAX as nat),
    }
}

/// The reported percentiles of samples sorted in ascending order.
pub fn percentiles(sorted_latencies: &Vec<u64>) -> (r: Percentiles)
    ensures
        r == percentiles_of(sorted_latencies@),
{
    Percentiles {
        p50: percentile(sorted_latencies, RANK_P50),
        p75: percentile(sorted_latencies, RANK_P75),
        p90: percentile(sorted_latencies, RANK_P90),
        p99: percentile(sorted_latencies, RANK_P99),
        p999: percentile(sorted_latencies, RANK_P999),
        p9999: percentile(sorted_latencies, RANK_P9999),
        max: percentile(sorted_latencies, RANK_MAX),
    }
}

/// The statistics of one round.
#[derive(Debug, Clone, Copy, PartialEq, Eq, Structural)]
pub struct RoundStats {
    /// Requests attempted.
    pub total: u64,
    /// Requests that succeeded.
    pub successes: u64,
    /// Requests that failed.
    pub errors: u64,
    /// Thousandths of a successful request per second.
    pub throughput_milli: u64,
    /// Failed requests per ten thousand attempted.
    pub error_rate: u64,
    /// Latency percentiles of the successful requests.
    pub latency: Percentiles,
}

/// The maximum statistic of a round is the largest latency among its
/// successful samples: none exceeds it, and one equals it.
pub proof fn lemma_round_max_is_largest(samples: Seq<Sample>, t: Seq<u64>)
    requires
        sorted(t),
        t.to_multiset() == success_latencies(samples).to_multiset(),
        success_latencies(samples).len() > 0,
    ensures
        success_latencies(samples).contains(percentiles_of(t).max),
        forall|i: int|
            0 <= i < success_latencies(samples).len() ==> success_latencies(samples)[i]
                <= percentiles_of(t).max,
{
    let a = success_latencies(samples);
    a.to_multiset_ensures();
    t.to_multiset_ensures();
    lemma_percentile_max(t);
    assert(t.contains(t.last()));
    assert(t.to_multiset().count(t.last()) > 0);
    assert(a.to_multiset().count(t.last()) > 0);
    assert forall|i: int| 0 <= i < a.len() implies a[i] <= percentiles_of(t).max by {
        assert(a.contains(a[i]));
        assert(a.to_multiset().count(a[i]) > 0);
        assert(t.to_multiset().count(a[i]) > 0);
        assert(t.contains(a[i]));
        let j = choose|j: int| 0 <= j < t.len() && t[j] == a[i];
    }
}

/// Computes the statistics of one round: counts, throughput over the round's
/// wall-clock time, error rate, and nearest-rank percentiles of the
/// successful requests' latencies.
pub fn round_stats(round: &RoundResult) -> (r: RoundStats)
    requires
        round.samples@.len() <= u64::MAX,
    ensures
        r.total == round.samples@.len(),
        r.successes == success_latencies(round.samples@).len(),
        r.errors == r.total - r.successes,
        throughput_milli(r.successes as nat, round.wall_us as nat) <= u64::MAX ==> r.throughput_milli
            == throughput_milli(r.successes as nat, round.wall_us as nat),
        throughput_milli(r.successes as nat, round.wall_us as nat) > u64::MAX ==> r.throughput_milli
            == u64::MAX,
        r.error_rate == error_rate_of(r.errors as nat, r.total as nat),
        exists|t: Seq<u64>|
            sorted(t) && t.to_multiset() == success_latencies(round.samples@).to_multiset()
                && r.latency == #[trigger] percentiles_of(t),
{
    let lat = sorted_latencies(&round.samples);
    proof {
        lat@.to_multiset_ensures();
        success_latencies(round.samples@).to_multiset_ensures();
        lemma_success_latencies_len(round.samples@);
    }
    let total = round.samples.len() as u64;
    let successes = lat.len() as u64;
    let errors = total - successes;
    let latency = percentiles(&lat);
    RoundStats {
        total,
        successes,
        errors,
        throughput_milli: throughput(successes, round.wall_us),
        error_rate: error_rate(errors, total),
        latency,
    }
}

/// Joins the sample buffers of all connections of a round, one after another.
pub fn merge_buffers(buffers: Vec<Vec<Sample>>) -> (r: Vec<Sample>)
    ensures
        r@ == buffers@.map_values(|b: Vec<Sample>| b@).flatten(),
{
    let ghost bs = buffers@.map_values(|b: Vec<Sample>| b@);
    let mut r: Vec<Sample> = Vec::new();
    let mut i: usize = 0;
    while i < buffers.len()
        invariant
            0 <= i <= buffers@.len(),
            bs == buffers@.map_values(|b: Vec<Sample>| b@),
            r@ == bs.subrange(0, i as int).flatten(),
        decreases buffers@.len() - i,
    {
        let b = &buffers[i];
        let mut j: usize = 0;
        while j < b.len()
            invariant
                0 <= j <= b@.len(),
                r@ == bs.subrange(0, i as int).flatten() + b@.subrange(0, j as int),
            decreases b@.len() - j,
        {
            r.push(b[j]);
            assert(r@ =~= bs.subrange(0, i as int).flatten() + b@.subrange(0, j as int + 1));
            j = j + 1;
        }
        proof {
            let pre = bs.subrange(0, i as int);
            let next = bs.subrange(0, i as int + 1);
            assert(next =~= pre.push(b@));
            pre.lemma_flatten_push(b@);
            assert(b@.subrange(0, b@.len() as int) =~= b@);
        }
        i = i + 1;
    }
    assert(bs.subrange(0, buffers@.len() as int) =~= bs);
    r
}

pub open spec fn sum_of(s: Seq<u64>) -> nat
    decreases s.len(),
{
    if s.len() == 0 {
        0
    } else {
        sum_of(s.drop_last()) + s.last() as nat
    }
}

pub open spec fn min_of(s: Seq<u64>) -> u64
    decreases s.len(),
{
    if s.len() <= 1 {
        if s.len() == 0 { 0 } else { s[0] }
    } else if s.last() < min_of(s.drop_last()) {
        s.last()
    } else {
        min_of(s.drop_last())
    }
}

pub open spec fn max_of(s: Seq<u64>) -> u64
    decreases s.len(),
{
    if s.len() <= 1 {
        if s.len() == 0 { 0 } else { s[0] }
    } else if s.last() > max_of(s.drop_last()) {
        s.last()
    } else {
        max_of(s.drop_last())
    }
}

/// How one statistic varies over several rounds.
#[derive(Debug, Clone, Copy, PartialEq, Eq, Structural)]
pub struct Spread {
    /// The mean, rounded down.
    pub mean: u64,
    pub min: u64,
    pub max: u64,
}

proof fn lemma_sum_bound(s: Seq<u64>)
    ensures
        sum_of(s) <= s.len() * (u64::MAX as nat),
    decreases s.len(),
{
    if s.len() > 0 {
        lemma_sum_bound(s.drop_last());
        assert(sum_of(s.drop_last()) + s.last() <= (s.len() - 1) * (u64::MAX as nat) + (u64::MAX as nat));
        assert((s.len() - 1) * (u64::MAX as nat) + (u64::MAX as nat) == s.len() * (u64::MAX as nat)) by (nonlinear_arith);
    }
}

/// The mean, least and greatest of a statistic over several rounds; `None`
/// for fewer than two rounds, where there is nothing to summarise.
pub fn spread_of(values: &Vec<u64>) -> (r: Option<Spread>)
    ensures
        values@.len() <= 1 <==> r is None,
        r matches Some(sp) ==> sp.mean == sum_of(values@) / values@.len() && sp.min == min_of(values@)
            && sp.max == max_of(values@),
{
    let n = values.len();
    if n <= 1 {
        return None;
    }
    let mut sum: u128 = values[0] as u128;
    let mut lo: u64 = values[0];
    let mut hi: u64 = values[0];
    let mut i: usize = 1;
    assert(values@.subrange(0, 1).drop_last() =~= Seq::<u64>::empty());
    assert(sum_of(values@.subrange(0, 1)) == sum_of(Seq::<u64>::empty()) + values@[0]);
    while i < n
        invariant
            n == values@.len(),
            1 <= i <= n,
            sum == sum_of(values@.subrange(0, i as int)),
            lo == min_of(values@.subrange(0, i as int)),
            hi == max_of(values@.subrange(0, i as int)),
        decreases n - i,
    {
        let v = values[i];
        proof {
            let pre = values@.subrange(0, i as int);
            let next = values@.subrange(0, i as int + 1);
            assert(next.drop_last() =~= pre);
            lemma_sum_bound(next);
            assert((next.len() as nat) * (u64::MAX as nat) <= (u64::MAX as nat) * (u64::MAX as nat)) by (nonlinear_arith)
                requires next.len() <= u64::MAX;
        }
        sum = sum + v as u128;
        if v < lo {
            lo = v;
        }
        if v > hi {
            hi = v;
        }
        i = i + 1;
    }
    assert(values@.subrange(0, n as int) =~= values@);
    proof {
        lemma_sum_bound(values@);
        assert(sum_of(values@) / (n as nat) <= u64::MAX) by (nonlinear_arith)
            requires sum_of(values@) <= (n as nat) * (u64::MAX as nat), n >= 2;
    }
    Some(Spread { mean: (sum / (n as u128)) as u64, min: lo, max: hi })
}

/// The summary of several rounds: how throughput, median latency, p99
/// latency and the largest latency vary from round to round.
#[derive(Debug, Clone, Copy, PartialEq, Eq, Structural)]
pub struct Summary {
    pub throughput_milli: Spread,
    pub p50: Spread,
    pub p99: Spread,
    pub max: Spread,
}

pub open spec fn spread_spec(s: Seq<u64>) -> Spread {
    Spread { mean: (sum_of(s) / s.len()) as u64, min: min_of(s), max: max_of(s) }
}

/// Summarises several rounds; `None` for fewer than two.
pub fn summarize(rounds: &Vec<RoundStats>) -> (r: Option<Summary>)
    ensures
        rounds@.len() <= 1 <==> r is None,
        r matches Some(sm) ==> sm.throughput_milli == spread_spec(
            rounds@.map_values(|x: RoundStats| x.throughput_milli),
        ) && sm.p50 == spread_spec(rounds@.map_values(|x: RoundStats| x.latency.p50))
            && sm.p99 == spread_spec(rounds@.map_values(|x: RoundStats| x.latency.p99))
            && sm.max == spread_spec(rounds@.map_values(|x: RoundStats| x.latency.max)),
{
    let mut tp: Vec<u64> = Vec::new();
    let mut p50: Vec<u64> = Vec::new();
    let mut p99: Vec<u64> = Vec::new();
    let mut mx: Vec<u64> = Vec::new();
    let mut i: usize = 0;
    while i < rounds.len()
        invariant
            0 <= i <= rounds@.len(),
            tp@ == rounds@.subrange(0, i as int).map_values(|x: RoundStats| x.throughput_milli),
            p50@ == rounds@.subrange(0, i as int).map_values(|x: RoundStats| x.latency.p50),
            p99@ == rounds@.subrange(0, i as int).map_values(|x: RoundStats| x.latency.p99),
            mx@ == rounds@.subrange(0, i as int).map_values(|x: RoundStats| x.latency.max),
        decreases rounds@.len() - i,
    {
        let st = rounds[i];
        tp.push(st.throughput_milli);
        p50.push(st.latency.p50);
        p99.push(st.latency.p99);
        mx.push(st.latency.max);
        proof {
            let next = rounds@.subrange(0, i as int + 1);
            assert(tp@ =~= next.map_values(|x: RoundStats| x.throughput_milli));
            assert(p50@ =~= next.map_values(|x: RoundStats| x.latency.p50));
            assert(p99@ =~= next.map_values(|x: RoundStats| x.latency.p99));
            assert(mx@ =~= next.map_values(|x: RoundStats| x.latency.max));
        }
        i = i + 1;
    }
    assert(rounds@.subrange(0, rounds@.len() as int) =~= rounds@);
    match (spread_of(&tp), spread_of(&p50), spread_of(&p99), spread_of(&mx)) {
        (Some(a), Some(b), Some(c), Some(d)) => Some(
            Summary { throughput_milli: a, p50: b, p99: c, max: d },
        ),
        _ => None,
    }
}

} // verus!
