use ferrbench::stats::{
    error_rate, merge_buffers, percentile, percentiles, round_stats, sorted_latencies, spread_of,
    summarize, throughput, RoundResult, Sample, Spread,
};

fn ok(l: u64) -> Sample {
    Sample { latency_us: l, success: true }
}

fn failed(l: u64) -> Sample {
    Sample { latency_us: l, success: false }
}

#[test]
fn nearest_rank_indices() {
    let v: Vec<u64> = (1..=100).collect();
    assert_eq!(percentile(&v, 5000), 50);
    assert_eq!(percentile(&v, 9900), 99);
    assert_eq!(percentile(&v, 9990), 100);
    assert_eq!(percentile(&v, 10000), 100);
    assert_eq!(percentile(&v, 0), 1);
    assert_eq!(percentile(&vec![], 5000), 0);
}

#[test]
fn percentiles_do_not_decrease() {
    let v = vec![3, 9, 9, 12, 40, 41, 700];
    let p = percentiles(&v);
    assert!(p.p50 <= p.p75 && p.p75 <= p.p90 && p.p90 <= p.p99);
    assert!(p.p99 <= p.p999 && p.p999 <= p.p9999 && p.p9999 <= p.max);
    assert_eq!(p.max, 700);
    assert_eq!(p.p50, 12);
}

#[test]
fn only_successes_are_sorted() {
    let s = vec![ok(30), failed(1), ok(10), ok(20)];
    assert_eq!(sorted_latencies(&s), vec![10, 20, 30]);
}

#[test]
fn throughput_is_rounded_down() {
    assert_eq!(throughput(1000, 1_000_000), 1_000_000);
    assert_eq!(throughput(1, 3_000_000), 333);
    assert_eq!(throughput(5, 0), 0);
    assert_eq!(throughput(u64::MAX, 1), u64::MAX);
}

#[test]
fn error_rate_in_hundredths_of_percent() {
    assert_eq!(error_rate(1, 4), 2500);
    assert_eq!(error_rate(0, 0), 0);
    assert_eq!(error_rate(3, 3), 10000);
}

#[test]
fn stats_of_a_round() {
    let round = RoundResult {
        samples: vec![ok(100), ok(300), failed(5), ok(200)],
        wall_us: 2_000_000,
    };
    let st = round_stats(&round);
    assert_eq!(st.total, 4);
    assert_eq!(st.successes, 3);
    assert_eq!(st.errors, 1);
    assert_eq!(st.throughput_milli, 1500);
    assert_eq!(st.error_rate, 2500);
    assert_eq!(st.latency.p50, 200);
    assert_eq!(st.latency.max, 300);
}

#[test]
fn round_without_successes_reports_zero() {
    let round = RoundResult { samples: vec![failed(5)], wall_us: 1_000_000 };
    let st = round_stats(&round);
    assert_eq!(st.successes, 0);
    assert_eq!(st.throughput_milli, 0);
    assert_eq!(st.latency.max, 0);
    assert_eq!(st.error_rate, 10000);
}

#[test]
fn buffers_are_joined_in_order() {
    let merged = merge_buffers(vec![vec![ok(1), ok(2)], vec![], vec![failed(3)]]);
    assert_eq!(merged, vec![ok(1), ok(2), failed(3)]);
}

#[test]
fn spread_of_values() {
    assert_eq!(spread_of(&vec![4, 1, 7]), Some(Spread { mean: 4, min: 1, max: 7 }));
    assert_eq!(spread_of(&vec![4, 5]), Some(Spread { mean: 4, min: 4, max: 5 }));
    assert_eq!(spread_of(&vec![4]), None);
}

#[test]
fn summary_only_for_several_rounds() {
    let a = round_stats(&RoundResult { samples: vec![ok(10), ok(20)], wall_us: 1_000_000 });
    let b = round_stats(&RoundResult { samples: vec![ok(30)], wall_us: 1_000_000 });
    assert_eq!(summarize(&vec![a]), None);
    let sm = summarize(&vec![a, b]).unwrap();
    assert_eq!(sm.throughput_milli, Spread { mean: 1500, min: 1000, max: 2000 });
    assert_eq!(sm.max, Spread { mean: 25, min: 20, max: 30 });
}
