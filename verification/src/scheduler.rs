//! Dual-rate scheduler decisions.
//!
//! Two repeating activities share the engine: a high-frequency sampler and
//! a lower-frequency publisher. The host runs the loops (sleeping, locking,
//! delivering); every decision those loops take — whether to start at all,
//! whether to keep ticking, how long the next tick is, whether to fall back
//! to standby — is a function here, verified over plain values.

use vstd::prelude::*;

verus! {

/// Standby tick period in microseconds, used while no device is present.
pub const STANDBY_SLEEP_TIME: u64 = 10000;

/// Sampler tick period in microseconds (0.25 ms, a 4000 Hz poll).
pub const POLLING_RATE_MICROSECONDS: u64 = 250;

/// The shared run/cancel signal of both activities. The host holds it in
/// an atomic; the transition rules live here.
#[derive(Clone, Copy, Debug, PartialEq, Eq, Structural)]
pub struct UpdateFlag {
    pub running: bool,
}

impl UpdateFlag {
    pub fn new() -> (f: UpdateFlag)
        ensures
            !f.running,
    {
        UpdateFlag { running: false }
    }

    /// First start wins: the flag is set either way, and the caller learns
    /// whether it was the one that started the activities.
    pub fn try_start(&mut self) -> (started: bool)
        ensures
            final(self).running,
            started <==> !old(self).running,
    {
        let was = self.running;
        self.running = true;
        !was
    }

    /// Cancels both activities; idempotent.
    pub fn stop(&mut self)
        ensures
            !final(self).running,
    {
        self.running = false;
    }

    pub fn is_running(&self) -> (r: bool)
        ensures
            r == self.running,
    {
        self.running
    }
}

/// What the sampler activity does on one tick.
#[derive(Clone, Copy, Debug, PartialEq, Eq, Structural)]
pub enum SamplerAction {
    /// Record a sample now and sleep this many microseconds.
    Record { period_micros: u64 },
    /// No device present: only sleep, this many microseconds.
    Standby { period_micros: u64 },
    /// The cancellation signal is set: stop ticking.
    Halt,
}

/// The sampler's decision for one tick: halt on cancellation, record at the
/// polling period while a device is present, otherwise stand by at the much
/// longer standby period until one reappears.
pub fn sampler_tick(running: bool, has_gamepads: bool) -> (a: SamplerAction)
    ensures
        a == if !running {
            SamplerAction::Halt
        } else if has_gamepads {
            (SamplerAction::Record { period_micros: POLLING_RATE_MICROSECONDS })
        } else {
            (SamplerAction::Standby { period_micros: STANDBY_SLEEP_TIME })
        },
{
    if !running {
        SamplerAction::Halt
    } else if has_gamepads {
        SamplerAction::Record { period_micros: POLLING_RATE_MICROSECONDS }
    } else {
        SamplerAction::Standby { period_micros: STANDBY_SLEEP_TIME }
    }
}

/// The publisher's frame period: `1_000_000 / frames_per_second`
/// microseconds; a zero rate has no period.
pub fn publisher_period_micros(frame_rate: u64) -> (p: Option<u64>)
    ensures
        frame_rate > 0 ==> p == Some(1_000_000u64 / frame_rate),
        frame_rate == 0 ==> p is None,
{
    if frame_rate > 0 {
        Some(1_000_000u64 / frame_rate)
    } else {
        None
    }
}

/// The publisher's decision for one tick: publish a snapshot exactly while
/// the cancellation signal is unset.
pub fn publisher_tick(running: bool) -> (publish: bool)
    ensures
        publish == running,
{
    running
}

} // verus!
