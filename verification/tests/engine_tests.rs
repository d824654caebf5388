use gamepad_tool::engine::{GamepadState, RecordError, SampleInput};
use gamepad_tool::memo::{Memo, RecordOutcome};
use gamepad_tool::ratio::Ratio;

fn snap(ts: u64, tag: i16) -> SampleInput {
    let theta = (libm::atan2(0.0, tag as f64) * 1_000_000_000.0) as i64;
    SampleInput { timestamp: ts, xyxy: (tag, 0, 0, 0), theta_l: theta, theta_r: 0 }
}

#[test]
fn record_creates_memo_on_first_use() {
    let mut g = GamepadState::new();
    assert!(g.get_polling_data(0).is_none());
    let o = g.record(0, Some(snap(0, 1)), true);
    assert_eq!(o, Ok(RecordOutcome::Recorded));
    let (log, _) = g.get_polling_data(0).unwrap();
    assert_eq!(log.len(), 1);
    assert_eq!(log[0].timestamp, 0);
    assert_eq!(log[0].xyxy, (1, 0, 0, 0));
    assert!(g.get_polling_data(1).is_none());
}

#[test]
fn duplicate_payload_with_filtering_changes_nothing() {
    let mut g = GamepadState::new();
    g.record(0, Some(snap(0, 5)), true).unwrap();
    let (log_before, res_before) = g.get_polling_data(0).unwrap();
    // Same payload again, later timestamp, filtering on: a no-op.
    let o = g.record(0, Some(snap(1000, 5)), true);
    assert_eq!(o, Ok(RecordOutcome::DuplicateSkipped));
    let (log_after, res_after) = g.get_polling_data(0).unwrap();
    assert_eq!(log_after.len(), log_before.len());
    assert_eq!(log_after[0], log_before[0]);
    assert_eq!(res_after, res_before);
}

#[test]
fn duplicate_payload_without_filtering_is_appended() {
    let mut g = GamepadState::new();
    g.record(0, Some(snap(0, 5)), false).unwrap();
    let o = g.record(0, Some(snap(1000, 5)), false);
    assert_eq!(o, Ok(RecordOutcome::Recorded));
    let (log, _) = g.get_polling_data(0).unwrap();
    assert_eq!(log.len(), 2);
}

#[test]
fn log_never_exceeds_its_bound_and_keeps_order() {
    let mut m = Memo::new();
    m.set_log_size(120);
    for i in 0..121u64 {
        let o = m.record_sample(i * 10, (i as i16, 0, 0, 0), 0, 0, true);
        assert_eq!(o, RecordOutcome::Recorded);
        assert!(m.polling_rate_log.len() <= 120);
    }
    // Reaching 121 samples evicted the oldest 101: 20 remain, in order,
    // and they are exactly the newest suffix.
    assert_eq!(m.polling_rate_log.len(), 20);
    for (j, entry) in m.polling_rate_log.iter().enumerate() {
        let i = (j + 101) as u64;
        assert_eq!(entry.timestamp, i * 10);
        assert_eq!(entry.xyxy.0, i as i16);
    }
}

#[test]
fn reset_restores_a_fresh_state() {
    let mut m = Memo::new();
    for i in 0..150u64 {
        m.record_sample(i * 1000, (i as i16, 2, 3, 4), 7, -7, true);
    }
    assert!(m.polling_rate_log.len() > 0);
    assert!(m.direction_bins.0.bins.len() > 0);
    m.reset();
    let fresh = Memo::new();
    assert_eq!(m.polling_rate_log.len(), 0);
    assert_eq!(m.polling_rate_result, fresh.polling_rate_result);
    assert_eq!(m.direction_bins.0.bins.len(), 0);
    assert_eq!(m.direction_bins.1.bins.len(), 0);
    assert_eq!(m.math_utils, fresh.math_utils);
    assert_eq!(m.log_size, fresh.log_size);
}

#[test]
fn result_recomputed_every_hundred_samples() {
    let mut g = GamepadState::new();
    for i in 0..100u64 {
        g.record(3, Some(snap(i * 1000, i as i16)), true).unwrap();
    }
    let (log, res) = g.get_polling_data(3).unwrap();
    assert_eq!(log.len(), 100);
    // 99 deltas of 1000 us each: exactly 1000 Hz.
    assert_eq!(res.polling_rate_avg, Ratio { num: 99_000_000, den: 99_000 });
    assert_eq!(res.polling_rate_min, Ratio { num: 1_000_000, den: 1000 });
    assert_eq!(res.polling_rate_max, Ratio { num: 1_000_000, den: 1000 });
    assert_eq!(res.avg_interval, Ratio { num: 99_000, den: 99_000 });
}

#[test]
fn result_not_recomputed_between_cadence_points() {
    let mut g = GamepadState::new();
    for i in 0..99u64 {
        g.record(0, Some(snap(i * 1000, i as i16)), true).unwrap();
    }
    let (_, res) = g.get_polling_data(0).unwrap();
    // 99 samples: the cadence point at 100 was never reached.
    assert_eq!(res.polling_rate_avg, Ratio { num: 0, den: 1 });
}

#[test]
fn device_unavailable_leaves_state_intact() {
    let mut g = GamepadState::new();
    for i in 0..100u64 {
        g.record(0, Some(snap(i * 1000, i as i16)), true).unwrap();
    }
    let (log_before, res_before) = g.get_polling_data(0).unwrap();
    // The device vanished: every subsequent tick fails, nothing corrupts.
    for _ in 0..5 {
        let o = g.record(0, None, true);
        assert_eq!(o, Err(RecordError::DeviceUnavailable));
        let (log, res) = g.get_polling_data(0).unwrap();
        assert_eq!(log.len(), log_before.len());
        assert_eq!(res, res_before);
    }
    // Reconnection: recording resumes.
    let o = g.record(0, Some(snap(200_000, 777)), true);
    assert_eq!(o, Ok(RecordOutcome::Recorded));
    let (log, _) = g.get_polling_data(0).unwrap();
    assert_eq!(log.len(), log_before.len() + 1);
}

#[test]
fn set_log_size_clears_logs_and_keeps_results() {
    let mut g = GamepadState::new();
    for i in 0..100u64 {
        g.record(0, Some(snap(i * 1000, i as i16)), true).unwrap();
    }
    let (_, res_before) = g.get_polling_data(0).unwrap();
    g.set_log_size(50);
    let (log, res) = g.get_polling_data(0).unwrap();
    assert_eq!(log.len(), 0);
    assert_eq!(res, res_before);
}

#[test]
fn engine_reset_clears_every_memo() {
    let mut g = GamepadState::new();
    g.record(0, Some(snap(0, 1)), true).unwrap();
    g.record(1, Some(snap(0, 2)), true).unwrap();
    g.reset();
    let fresh = Memo::new();
    for id in 0..2u32 {
        let (log, res) = g.get_polling_data(id).unwrap();
        assert_eq!(log.len(), 0);
        assert_eq!(res, fresh.polling_rate_result);
    }
}

#[test]
fn independent_devices_do_not_interfere() {
    let mut g = GamepadState::new();
    g.record(0, Some(snap(0, 1)), true).unwrap();
    g.record(7, Some(snap(0, 9)), true).unwrap();
    g.record(7, Some(snap(500, 10)), true).unwrap();
    let (log0, _) = g.get_polling_data(0).unwrap();
    let (log7, _) = g.get_polling_data(7).unwrap();
    assert_eq!(log0.len(), 1);
    assert_eq!(log7.len(), 2);
    assert_eq!(log0[0].xyxy.0, 1);
    assert_eq!(log7[1].xyxy.0, 10);
}

#[test]
fn gamepad_ids_are_sorted_and_deduplicated() {
    let mut g = GamepadState::new();
    let reported = g.get_cur_gamepads(&vec![3, 1, 2, 3, 1]);
    assert_eq!(reported, vec![3, 1, 2, 3, 1]);
    assert_eq!(g.get_gamepad_ids(), vec![1, 2, 3]);
}

#[test]
fn empty_report_keeps_the_cached_ids() {
    let mut g = GamepadState::new();
    g.get_cur_gamepads(&vec![2, 0]);
    g.get_cur_gamepads(&vec![]);
    assert_eq!(g.get_gamepad_ids(), vec![0, 2]);
}

#[test]
fn regressing_timestamp_is_clamped_to_keep_order() {
    let mut m = Memo::new();
    m.record_sample(1000, (1, 0, 0, 0), 0, 0, true);
    // A timestamp below the last logged one (which a monotonic clock never
    // produces) is clamped so the log stays ordered.
    m.record_sample(500, (2, 0, 0, 0), 0, 0, true);
    assert_eq!(m.polling_rate_log[0].timestamp, 1000);
    assert_eq!(m.polling_rate_log[1].timestamp, 1000);
}

#[test]
fn tiny_retention_bound_evicts_the_whole_log() {
    // With a bound smaller than the eviction block the whole log goes at
    // once; the bound is still never exceeded.
    let mut m = Memo::new();
    m.set_log_size(50);
    for i in 0..51u64 {
        m.record_sample(i * 10, (i as i16, 0, 0, 0), 0, 0, true);
        assert!(m.polling_rate_log.len() <= 50);
    }
    assert_eq!(m.polling_rate_log.len(), 0);
    // The cadence point at an empty log recomputed the result: no pair was
    // counted, so the rates read zero while the angular errors reflect the
    // accumulated buckets.
    assert_eq!(m.polling_rate_result.polling_rate_avg, Ratio { num: 0, den: 1 });
    assert!(m.polling_rate_result.avg_error_l.den > 0);
}
