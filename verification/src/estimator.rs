//! Incremental polling-rate estimator.
//!
//! `calc_frequency` walks consecutive sample pairs of the retained log.
//! A pair is *counted* when the later sample's timestamp lies beyond the
//! stored watermark and the two payloads differ (bitwise-equal payloads are
//! repeats of a stationary stick and say nothing about the true rate).
//! Counted pairs feed a per-call interval sum and count, and the persistent
//! minimum/maximum interval.
//!
//! Retention policy (one has to be chosen): every call recomputes the sum
//! and count over the *entire retained log*, so the watermark keeps its
//! initial value and the average always describes the current window, while
//! the minimum/maximum intervals only grow more extreme until a reset.
//! Intervals that leave the window through eviction therefore drop out of
//! the average but stay folded into the minimum/maximum.

use crate::ratio::{zero_ratio, Ratio};
use crate::sample::{ts_sorted, xyxy_eq, PollingRateLog};
use vstd::prelude::*;

verus! {

/// "No interval seen yet" sentinel for the minimum interval.
pub const INTERVAL_SENTINEL: u64 = u64::MAX;

/// Watermark-based rate/jitter statistics over a sample log.
#[derive(Clone, Copy, Debug, PartialEq, Eq, Structural)]
pub struct MathUtil {
    /// Largest counted inter-sample interval, in microseconds.
    pub max: u64,
    /// Smallest counted inter-sample interval; `INTERVAL_SENTINEL` until a
    /// pair has been counted.
    pub min: u64,
    /// Timestamps at or below this mark are already folded in.
    pub latest_time: u64,
}

/// The pair ending at index `i` is counted: it lies beyond the watermark
/// and its payload changed.
pub open spec fn pair_counted(s: Seq<PollingRateLog>, w: u64, i: int) -> bool {
    &&& 0 < i < s.len()
    &&& s[i].timestamp > w
    &&& s[i].xyxy != s[i - 1].xyxy
}

/// Interval of the pair ending at index `i`, in microseconds.
pub open spec fn pair_delta(s: Seq<PollingRateLog>, i: int) -> int {
    s[i].timestamp - s[i - 1].timestamp
}

/// Number of counted pairs among the first `n` samples.
pub open spec fn pair_count_to(s: Seq<PollingRateLog>, w: u64, n: int) -> int
    decreases n,
{
    if n <= 1 {
        0
    } else {
        pair_count_to(s, w, n - 1) + if pair_counted(s, w, n - 1) {
            1int
        } else {
            0int
        }
    }
}

/// Sum of the counted intervals among the first `n` samples.
pub open spec fn pair_sum_to(s: Seq<PollingRateLog>, w: u64, n: int) -> int
    decreases n,
{
    if n <= 1 {
        0
    } else {
        pair_sum_to(s, w, n - 1) + if pair_counted(s, w, n - 1) {
            pair_delta(s, n - 1)
        } else {
            0int
        }
    }
}

/// Minimum of `m0` and the counted intervals among the first `n` samples.
pub open spec fn min_fold_to(s: Seq<PollingRateLog>, w: u64, n: int, m0: int) -> int
    decreases n,
{
    if n <= 1 {
        m0
    } else {
        let m = min_fold_to(s, w, n - 1, m0);
        if pair_counted(s, w, n - 1) && pair_delta(s, n - 1) < m {
            pair_delta(s, n - 1)
        } else {
            m
        }
    }
}

/// Maximum of `m0` and the counted intervals among the first `n` samples.
pub open spec fn max_fold_to(s: Seq<PollingRateLog>, w: u64, n: int, m0: int) -> int
    decreases n,
{
    if n <= 1 {
        m0
    } else {
        let m = max_fold_to(s, w, n - 1, m0);
        if pair_counted(s, w, n - 1) && pair_delta(s, n - 1) > m {
            pair_delta(s, n - 1)
        } else {
            m
        }
    }
}

pub open spec fn pair_count(s: Seq<PollingRateLog>, w: u64) -> int {
    pair_count_to(s, w, s.len() as int)
}

pub open spec fn pair_sum(s: Seq<PollingRateLog>, w: u64) -> int {
    pair_sum_to(s, w, s.len() as int)
}

pub open spec fn min_fold(s: Seq<PollingRateLog>, w: u64, m0: int) -> int {
    min_fold_to(s, w, s.len() as int, m0)
}

pub open spec fn max_fold(s: Seq<PollingRateLog>, w: u64, m0: int) -> int {
    max_fold_to(s, w, s.len() as int, m0)
}

/// Rate in Hz of one interval in microseconds; an interval of zero carries
/// no rate and yields the zero placeholder instead of an infinity.
pub open spec fn rate_of(interval_micros: int) -> Ratio {
    if interval_micros > 0 {
        Ratio { num: 1_000_000, den: interval_micros as u128 }
    } else {
        zero_ratio()
    }
}

/// Average rate in Hz over `count` counted intervals summing to `sum`
/// microseconds: `1_000_000 * count / sum`.
pub open spec fn avg_rate_of(count: int, sum: int) -> Ratio {
    if sum > 0 {
        Ratio { num: (1_000_000 * count) as u128, den: sum as u128 }
    } else {
        zero_ratio()
    }
}

/// Average counted interval in milliseconds: `sum / (1000 * count)`.
pub open spec fn avg_interval_ms_of(count: int, sum: int) -> Ratio {
    if count > 0 {
        Ratio { num: sum as u128, den: (1000 * count) as u128 }
    } else {
        zero_ratio()
    }
}

/// The counted intervals up to `n` are adjacent, disjoint sub-intervals of
/// the log's span, so their sum is bounded by it.
pub proof fn lemma_pair_sum_bound(s: Seq<PollingRateLog>, w: u64, n: int)
    requires
        ts_sorted(s),
        1 <= n <= s.len(),
    ensures
        0 <= pair_sum_to(s, w, n) <= s[n - 1].timestamp - s[0].timestamp,
    decreases n,
{
    if n > 1 {
        lemma_pair_sum_bound(s, w, n - 1);
    }
}

/// Each sample begins at most one counted pair.
pub proof fn lemma_pair_count_bound(s: Seq<PollingRateLog>, w: u64, n: int)
    requires
        0 <= n,
    ensures
        0 <= pair_count_to(s, w, n) <= if n <= 1 {
            0int
        } else {
            n - 1
        },
    decreases n,
{
    if n > 1 {
        lemma_pair_count_bound(s, w, n - 1);
    }
}

/// The extremes are monotone only: folding more pairs can only lower the
/// minimum and raise the maximum. They never "heal" after an anomalous
/// interval ages out of the retained window, except on reset.
pub proof fn lemma_extremes_only_grow(s: Seq<PollingRateLog>, w: u64, n: int, m0: int)
    requires
        0 <= n,
    ensures
        min_fold_to(s, w, n, m0) <= m0,
        max_fold_to(s, w, n, m0) >= m0,
    decreases n,
{
    if n > 1 {
        lemma_extremes_only_grow(s, w, n - 1, m0);
    }
}

impl MathUtil {
    /// Fresh statistics: no interval seen, watermark at the origin.
    pub fn new() -> (m: Self)
        ensures
            m == fresh_math_util(),
    {
        MathUtil { max: 0, min: INTERVAL_SENTINEL, latest_time: 0 }
    }

    /// Folds the log's counted pairs into the running statistics and
    /// returns `(avg_rate_hz, min_rate_hz, max_rate_hz, avg_interval_ms)`,
    /// or `None` when no pair was counted (fewer than two distinct samples
    /// beyond the watermark), in which case the rates are undefined.
    pub fn calc_frequency(&mut self, logs: &Vec<PollingRateLog>) -> (result: Option<
        (Ratio, Ratio, Ratio, Ratio),
    >)
        requires
            ts_sorted(logs@),
        ensures
            calc_rel(*old(self), *final(self), logs@, result),
    {
        let ghost w = self.latest_time;
        let ghost s = logs@;
        let mut sum: u64 = 0;
        let mut valid_count: u64 = 0;
        let len = logs.len();
        let mut i: usize = 1;
        if len > 0 {
            while i < len
                invariant
                    1 <= i <= len,
                    len == s.len(),
                    s == logs@,
                    ts_sorted(s),
                    w == self.latest_time,
                    valid_count == pair_count_to(s, w, i as int),
                    sum == pair_sum_to(s, w, i as int),
                    self.min == min_fold_to(s, w, i as int, old(self).min as int),
                    self.max == max_fold_to(s, w, i as int, old(self).max as int),
                decreases len - i,
            {
                proof {
                    lemma_pair_sum_bound(s, w, (i + 1) as int);
                    lemma_pair_count_bound(s, w, (i + 1) as int);
                }
                let cur = logs[i];
                let prev = logs[i - 1];
                if cur.timestamp > self.latest_time && !xyxy_eq(cur.xyxy, prev.xyxy) {
                    let delta = cur.timestamp - prev.timestamp;
                    sum = sum + delta;
                    valid_count = valid_count + 1;
                    if delta < self.min {
                        self.min = delta;
                    }
                    if delta > self.max {
                        self.max = delta;
                    }
                }
                i = i + 1;
            }
        }
        if valid_count == 0 {
            None
        } else {
            let avg = if sum > 0 {
                Ratio::new(1_000_000u128 * (valid_count as u128), sum as u128)
            } else {
                Ratio::zero()
            };
            let min_rate = if self.max > 0 {
                Ratio::new(1_000_000u128, self.max as u128)
            } else {
                Ratio::zero()
            };
            let max_rate = if self.min > 0 {
                Ratio::new(1_000_000u128, self.min as u128)
            } else {
                Ratio::zero()
            };
            let avg_interval_ms = Ratio::new(sum as u128, 1000u128 * (valid_count as u128));
            Some((avg, min_rate, max_rate, avg_interval_ms))
        }
    }
}

/// The statistics a fresh estimator holds.
pub open spec fn fresh_math_util() -> MathUtil {
    MathUtil { max: 0, min: INTERVAL_SENTINEL, latest_time: 0 }
}

/// How one `calc_frequency` call relates the estimator's old and new state,
/// the log walked, and the returned statistics.
pub open spec fn calc_rel(
    pre: MathUtil,
    post: MathUtil,
    s: Seq<PollingRateLog>,
    result: Option<(Ratio, Ratio, Ratio, Ratio)>,
) -> bool {
    let c = pair_count(s, pre.latest_time);
    let sum = pair_sum(s, pre.latest_time);
    &&& post.latest_time == pre.latest_time
    &&& post.min == min_fold(s, pre.latest_time, pre.min as int)
    &&& post.max == max_fold(s, pre.latest_time, pre.max as int)
    &&& if c == 0 {
        result is None
    } else {
        result == Some(
            (
                avg_rate_of(c, sum),
                rate_of(post.max as int),
                rate_of(post.min as int),
                avg_interval_ms_of(c, sum),
            ),
        )
    }
}

/// Over a log of strictly increasing timestamps with no two consecutive
/// equal payloads, a fresh estimator counts every pair, so the interval sum
/// telescopes to the log's span and the average rate over `n` samples is
/// exactly `1_000_000 * (n - 1) / (last_ts - first_ts)` Hz.
pub proof fn lemma_full_scan_avg(s: Seq<PollingRateLog>)
    requires
        s.len() >= 2,
        forall|i: int| 0 < i < s.len() ==> s[i - 1].timestamp < #[trigger] s[i].timestamp,
        forall|i: int| 0 < i < s.len() ==> s[i - 1].xyxy != #[trigger] s[i].xyxy,
    ensures
        pair_count(s, 0) == s.len() - 1,
        pair_sum(s, 0) == s[s.len() - 1].timestamp - s[0].timestamp,
        avg_rate_of(pair_count(s, 0), pair_sum(s, 0)) == (Ratio {
            num: (1_000_000 * (s.len() - 1)) as u128,
            den: (s[s.len() - 1].timestamp - s[0].timestamp) as u128,
        }),
{
    lemma_full_scan_to(s, s.len() as int);
    assert(s[0].timestamp < s[s.len() - 1].timestamp);
    assert(pair_sum(s, 0) > 0);
}

/// Corollary at the estimator's own contract: a fresh estimator fed such a
/// log returns exactly the closed-form average rate.
pub proof fn lemma_fresh_full_scan_result(
    pre: MathUtil,
    post: MathUtil,
    s: Seq<PollingRateLog>,
    result: Option<(Ratio, Ratio, Ratio, Ratio)>,
)
    requires
        pre == fresh_math_util(),
        calc_rel(pre, post, s, result),
        s.len() >= 2,
        forall|i: int| 0 < i < s.len() ==> s[i - 1].timestamp < #[trigger] s[i].timestamp,
        forall|i: int| 0 < i < s.len() ==> s[i - 1].xyxy != #[trigger] s[i].xyxy,
    ensures
        result matches Some(t) && t.0 == (Ratio {
            num: (1_000_000 * (s.len() - 1)) as u128,
            den: (s[s.len() - 1].timestamp - s[0].timestamp) as u128,
        }),
{
    lemma_full_scan_avg(s);
}

proof fn lemma_full_scan_to(s: Seq<PollingRateLog>, n: int)
    requires
        s.len() >= 2,
        1 <= n <= s.len(),
        forall|i: int| 0 < i < s.len() ==> s[i - 1].timestamp < #[trigger] s[i].timestamp,
        forall|i: int| 0 < i < s.len() ==> s[i - 1].xyxy != #[trigger] s[i].xyxy,
    ensures
        pair_count_to(s, 0, n) == n - 1,
        pair_sum_to(s, 0, n) == s[n - 1].timestamp - s[0].timestamp,
        n >= 2 ==> s[0].timestamp < s[n - 1].timestamp,
    decreases n,
{
    if n > 1 {
        lemma_full_scan_to(s, n - 1);
        assert(s[n - 1].timestamp > s[n - 2].timestamp);
        assert(s[n - 1].timestamp > 0);
    }
}

} // verus!
