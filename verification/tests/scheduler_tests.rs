use gamepad_tool::input::{Axes, Buttons};
use gamepad_tool::sample::PollingRateLog;
use gamepad_tool::scheduler::{
    publisher_period_micros, publisher_tick, sampler_tick, SamplerAction, UpdateFlag,
    POLLING_RATE_MICROSECONDS, STANDBY_SLEEP_TIME,
};

#[test]
fn first_start_wins() {
    let mut f = UpdateFlag::new();
    assert!(!f.is_running());
    assert!(f.try_start());
    assert!(f.is_running());
    // A second start while running is a no-op.
    assert!(!f.try_start());
    assert!(f.is_running());
}

#[test]
fn stop_is_idempotent() {
    let mut f = UpdateFlag::new();
    f.try_start();
    f.stop();
    assert!(!f.is_running());
    f.stop();
    assert!(!f.is_running());
    // Restart after a stop is a fresh first start.
    assert!(f.try_start());
}

#[test]
fn sampler_halts_on_cancellation() {
    assert_eq!(sampler_tick(false, true), SamplerAction::Halt);
    assert_eq!(sampler_tick(false, false), SamplerAction::Halt);
}

#[test]
fn sampler_records_while_devices_are_present() {
    assert_eq!(
        sampler_tick(true, true),
        SamplerAction::Record { period_micros: POLLING_RATE_MICROSECONDS }
    );
}

#[test]
fn sampler_stands_by_without_devices() {
    let a = sampler_tick(true, false);
    assert_eq!(a, SamplerAction::Standby { period_micros: STANDBY_SLEEP_TIME });
    // Standby ticks are much longer than polling ticks.
    assert!(STANDBY_SLEEP_TIME > POLLING_RATE_MICROSECONDS);
}

#[test]
fn publisher_period_from_frame_rate() {
    assert_eq!(publisher_period_micros(60), Some(16_666));
    assert_eq!(publisher_period_micros(1000), Some(1000));
    assert_eq!(publisher_period_micros(1), Some(1_000_000));
    assert_eq!(publisher_period_micros(0), None);
}

#[test]
fn publisher_runs_until_cancelled() {
    assert!(publisher_tick(true));
    assert!(!publisher_tick(false));
}

#[test]
fn button_and_axis_names() {
    assert_eq!(Buttons::A.name(), "A");
    assert_eq!(Buttons::LeftShoulder.name(), "LeftShoulder");
    assert_eq!(Buttons::RightTrigger.name(), "RightTrigger");
    assert_eq!(Buttons::DPadLeft.name(), "DPadLeft");
    assert_eq!(Axes::LeftThumbX.name(), "LeftThumbX");
    assert_eq!(Axes::RightThumbY.name(), "RightThumbY");
}

#[test]
fn fresh_sample_is_zeroed() {
    let s = PollingRateLog::new();
    assert_eq!(s.timestamp, 0);
    assert_eq!(s.xyxy, (0, 0, 0, 0));
}
