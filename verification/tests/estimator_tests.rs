use gamepad_tool::bins::DirectionBins;
use gamepad_tool::direction::Direction;
use gamepad_tool::estimator::MathUtil;
use gamepad_tool::ratio::Ratio;
use gamepad_tool::sample::PollingRateLog;

fn log(ts: u64, tag: i16) -> PollingRateLog {
    PollingRateLog { timestamp: ts, xyxy: (tag, 0, 0, 0) }
}

fn as_f64(r: Ratio) -> f64 {
    r.num as f64 / r.den as f64
}

#[test]
fn scenario_four_samples_rates() {
    // Samples at 0, 1000, 2000, 4000 microseconds, all distinct payloads:
    // deltas 1000, 1000, 2000; avg interval 1333.33 us; avg rate about
    // 750 Hz; min rate 500 Hz (max interval); max rate 1000 Hz.
    let logs = vec![log(0, 0), log(1000, 1), log(2000, 2), log(4000, 3)];
    let mut mu = MathUtil::new();
    let (avg, min_rate, max_rate, avg_interval) = mu.calc_frequency(&logs).unwrap();
    assert_eq!(avg, Ratio { num: 3_000_000, den: 4000 });
    assert!((as_f64(avg) - 750.0).abs() < 1e-9);
    assert_eq!(min_rate, Ratio { num: 1_000_000, den: 2000 });
    assert!((as_f64(min_rate) - 500.0).abs() < 1e-9);
    assert_eq!(max_rate, Ratio { num: 1_000_000, den: 1000 });
    assert!((as_f64(max_rate) - 1000.0).abs() < 1e-9);
    assert_eq!(avg_interval, Ratio { num: 4000, den: 3000 });
    assert!((as_f64(avg_interval) - 1333.3333333333333 / 1000.0).abs() < 1e-9);
    assert_eq!(mu.min, 1000);
    assert_eq!(mu.max, 2000);
}

#[test]
fn avg_rate_formula_over_distinct_increasing_samples() {
    // For strictly increasing timestamps with no consecutive duplicates the
    // average rate is exactly 1e6 * (n - 1) / (last - first).
    let logs = vec![log(10, 0), log(250, 1), log(260, 2), log(1000, 3), log(5000, 4)];
    let mut mu = MathUtil::new();
    let (avg, _, _, _) = mu.calc_frequency(&logs).unwrap();
    assert_eq!(avg, Ratio { num: 1_000_000 * 4, den: 5000 - 10 });
}

#[test]
fn empty_statistics_on_few_samples() {
    let mut mu = MathUtil::new();
    assert!(mu.calc_frequency(&vec![]).is_none());
    assert!(mu.calc_frequency(&vec![log(0, 0)]).is_none());
    assert_eq!(mu.min, u64::MAX);
    assert_eq!(mu.max, 0);
}

#[test]
fn identical_payload_pairs_are_ignored() {
    // The pair (0, 1000) repeats its payload and must not count at all,
    // neither in the sum nor in min/max.
    let logs = vec![log(0, 7), log(1000, 7), log(3000, 8)];
    let mut mu = MathUtil::new();
    let (avg, min_rate, max_rate, avg_interval) = mu.calc_frequency(&logs).unwrap();
    assert_eq!(avg, Ratio { num: 1_000_000, den: 2000 });
    assert_eq!(min_rate, Ratio { num: 1_000_000, den: 2000 });
    assert_eq!(max_rate, Ratio { num: 1_000_000, den: 2000 });
    assert_eq!(avg_interval, Ratio { num: 2000, den: 1000 });
    assert_eq!((mu.min, mu.max), (2000, 2000));
}

#[test]
fn all_identical_payloads_give_no_statistics() {
    let logs = vec![log(0, 7), log(1000, 7), log(2000, 7)];
    let mut mu = MathUtil::new();
    assert!(mu.calc_frequency(&logs).is_none());
}

#[test]
fn min_and_max_persist_across_calls() {
    let mut mu = MathUtil::new();
    mu.calc_frequency(&vec![log(0, 0), log(500, 1)]).unwrap();
    assert_eq!((mu.min, mu.max), (500, 500));
    // A later window with milder intervals cannot shrink the extremes.
    mu.calc_frequency(&vec![log(0, 0), log(100, 1), log(2100, 2)]).unwrap();
    assert_eq!((mu.min, mu.max), (100, 2000));
}

#[test]
fn zero_interval_reports_zero_rates() {
    // Two distinct payloads at the same instant: the interval sum is zero,
    // so the rates are undefined and read as the zero placeholder.
    let logs = vec![log(5, 1), log(5, 2)];
    let mut mu = MathUtil::new();
    let (avg, min_rate, max_rate, avg_interval) = mu.calc_frequency(&logs).unwrap();
    assert_eq!(avg, Ratio { num: 0, den: 1 });
    assert_eq!(max_rate, Ratio { num: 0, den: 1 });
    assert_eq!(min_rate, Ratio { num: 0, den: 1 });
    assert_eq!(avg_interval, Ratio { num: 0, den: 1000 });
}

#[test]
fn single_bucket_at_reference_radius_has_zero_error() {
    // An accumulator that saw only radius R in one direction, read against
    // reference R, reports exactly zero deviation.
    let mut bins = DirectionBins::new();
    let d = Direction::new(0, 0);
    bins.observe(d, 500);
    let e = bins.average_error(500);
    assert_eq!(e.num, 0);
    assert_eq!(e.den, 500);
}

#[test]
fn buckets_keep_the_larger_radius() {
    let mut bins = DirectionBins::new();
    let d = Direction::new(0, 0);
    bins.observe(d, 300);
    bins.observe(d, 200);
    assert_eq!(bins.bins.len(), 1);
    // Still the larger radius: zero deviation against 300.
    assert_eq!(bins.average_error(300).num, 0);
    bins.observe(d, 400);
    assert_eq!(bins.average_error(400).num, 0);
}

#[test]
fn error_averages_over_bucket_count() {
    let mut bins = DirectionBins::new();
    let d1 = Direction::new(0, 0);
    let d2 = Direction::new(1_000_000_000, 0);
    bins.observe(d1, 100);
    bins.observe(d2, 300);
    assert_eq!(bins.bins.len(), 2);
    // mean 200 against reference 100: |1 - 200/100| = 1, i.e. 200/200.
    let e = bins.average_error(100);
    assert_eq!((e.num, e.den), (200, 200));
    // mean 200 against reference 200: zero.
    assert_eq!(bins.average_error(200).num, 0);
}

#[test]
fn empty_accumulator_reads_full_deviation() {
    // The documented quirk: an empty accumulator divides by a count of 1,
    // so the deviation reads |1 - 0| = 1.
    let bins = DirectionBins::new();
    let e = bins.average_error(32767);
    assert_eq!((e.num, e.den), (32767, 32767));
}
