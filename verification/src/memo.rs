//! Per-device aggregate: the bounded sample log, the frequency estimator,
//! one angular-error accumulator per stick, and the last derived result.
//!
//! Timestamps are microseconds relative to the memo's creation; the host
//! owns the clock and passes the elapsed time in, so a sample that would
//! step backwards (which a monotonic clock never produces) is clamped to
//! the last logged timestamp to keep the log ordered.
//!
//! Eviction removes a contiguous oldest block of `CALCULATE_INTERVAL + 1`
//! samples (or the whole log when it is shorter than the block), never
//! single elements, to amortize cost.

use crate::bins::{observe_spec, spec_average_error, DirectionBins};
use crate::direction::{abs_mod, round_frac, trunc_div, Direction, ANGLE_SCALE};
use crate::estimator::{
    avg_interval_ms_of, avg_rate_of, fresh_math_util, max_fold, min_fold, pair_count, pair_sum,
    rate_of, MathUtil,
};
use crate::math::{isqrt_val, lemma_isqrt_unique, stick_radius};
use crate::ratio::{zero_ratio, Ratio};
use crate::sample::{ts_sorted, xyxy_eq, PollingRateLog};
use crate::{CALCULATE_INTERVAL, DEFAULT_DIR_PRECISION, DEFAULT_LOG_SIZE, MAX_R};
use vstd::prelude::*;

verus! {

/// The last derived statistics of one device. Replaced whole, never
/// partially mutated, so a reader always sees one consistent result.
#[derive(Clone, Copy, Debug, PartialEq, Eq, Structural)]
pub struct PollingRateResult {
    pub polling_rate_avg: Ratio,
    pub polling_rate_min: Ratio,
    pub polling_rate_max: Ratio,
    pub avg_interval: Ratio,
    pub avg_error_l: Ratio,
    pub avg_error_r: Ratio,
}

/// The zero value of a result: every statistic reads "no data yet".
pub open spec fn zero_result() -> PollingRateResult {
    PollingRateResult {
        polling_rate_avg: zero_ratio(),
        polling_rate_min: zero_ratio(),
        polling_rate_max: zero_ratio(),
        avg_interval: zero_ratio(),
        avg_error_l: zero_ratio(),
        avg_error_r: zero_ratio(),
    }
}

impl PollingRateResult {
    pub fn new() -> (r: Self)
        ensures
            r == zero_result(),
    {
        PollingRateResult {
            polling_rate_avg: Ratio::zero(),
            polling_rate_min: Ratio::zero(),
            polling_rate_max: Ratio::zero(),
            avg_interval: Ratio::zero(),
            avg_error_l: Ratio::zero(),
            avg_error_r: Ratio::zero(),
        }
    }
}

/// What one `record_sample` call returned.
#[derive(Clone, Copy, Debug, PartialEq, Eq, Structural)]
pub enum RecordOutcome {
    /// The sample was appended (and statistics possibly recomputed).
    Recorded,
    /// Duplicate filtering was on and the payload repeated the last logged
    /// one: nothing was touched.
    DuplicateSkipped,
}

/// Per-device state.
#[derive(Debug)]
pub struct Memo {
    pub polling_rate_log: Vec<PollingRateLog>,
    pub polling_rate_result: PollingRateResult,
    /// Left and right stick angular-error accumulators.
    pub direction_bins: (DirectionBins, DirectionBins),
    pub math_utils: MathUtil,
    pub log_size: usize,
}

/// The direction bucket of a fixed-point angle at the engine's precision.
pub open spec fn dir_of(theta: i64) -> Direction {
    Direction {
        int_part: trunc_div(theta as int, ANGLE_SCALE as int) as i64,
        frac_part: round_frac(
            abs_mod(theta as int, ANGLE_SCALE as int),
            DEFAULT_DIR_PRECISION as nat,
        ) as u64,
        precision: DEFAULT_DIR_PRECISION,
    }
}

/// The stick radius of an axis pair: the integer Euclidean norm.
pub open spec fn radius_of(x: i16, y: i16) -> u16 {
    isqrt_val(x * x + y * y) as u16
}

/// A call is a filtered duplicate when filtering is on and the payload
/// equals the last logged payload.
pub open spec fn is_duplicate(
    pre_log: Seq<PollingRateLog>,
    xyxy: (i16, i16, i16, i16),
    filter: bool,
) -> bool {
    filter && pre_log.len() > 0 && pre_log.last().xyxy == xyxy
}

/// The timestamp actually logged: clamped so the log stays ordered.
pub open spec fn effective_ts(pre_log: Seq<PollingRateLog>, timestamp: u64) -> u64 {
    if pre_log.len() > 0 && timestamp < pre_log.last().timestamp {
        pre_log.last().timestamp
    } else {
        timestamp
    }
}

/// How many oldest samples eviction removes from a log of `len` samples
/// bounded by `log_size`.
pub open spec fn evict_k(len: int, log_size: int) -> int {
    if len > log_size {
        if len < CALCULATE_INTERVAL + 1 {
            len
        } else {
            CALCULATE_INTERVAL + 1
        }
    } else {
        0
    }
}

/// How recomputing the derived result relates the estimator's and result's
/// old and new values to the log and accumulators read.
pub open spec fn stat_rel(
    log: Seq<PollingRateLog>,
    pre_mu: MathUtil,
    bl: Seq<(Direction, u16)>,
    br: Seq<(Direction, u16)>,
    post_mu: MathUtil,
    post_res: PollingRateResult,
) -> bool {
    let w = pre_mu.latest_time;
    let c = pair_count(log, w);
    let sum = pair_sum(log, w);
    &&& post_mu.latest_time == w
    &&& post_mu.min == min_fold(log, w, pre_mu.min as int)
    &&& post_mu.max == max_fold(log, w, pre_mu.max as int)
    &&& post_res.avg_error_l == spec_average_error(bl, MAX_R as int)
    &&& post_res.avg_error_r == spec_average_error(br, MAX_R as int)
    &&& if c == 0 {
        &&& post_res.polling_rate_avg == zero_ratio()
        &&& post_res.polling_rate_min == zero_ratio()
        &&& post_res.polling_rate_max == zero_ratio()
        &&& post_res.avg_interval == zero_ratio()
    } else {
        &&& post_res.polling_rate_avg == avg_rate_of(c, sum)
        &&& post_res.polling_rate_min == rate_of(post_mu.max as int)
        &&& post_res.polling_rate_max == rate_of(post_mu.min as int)
        &&& post_res.avg_interval == avg_interval_ms_of(c, sum)
    }
}

/// How one `record_sample` call relates a memo's prior state (given piece
/// by piece) to its posterior state `post` and the outcome `o`.
pub open spec fn record_rel(
    pre_log: Seq<PollingRateLog>,
    pre_bl: Seq<(Direction, u16)>,
    pre_br: Seq<(Direction, u16)>,
    pre_mu: MathUtil,
    pre_res: PollingRateResult,
    pre_log_size: int,
    post: Memo,
    timestamp: u64,
    xyxy: (i16, i16, i16, i16),
    theta_l: i64,
    theta_r: i64,
    filter: bool,
    o: RecordOutcome,
) -> bool {
    &&& post.log_size == pre_log_size
    &&& if is_duplicate(pre_log, xyxy, filter) {
        &&& o == RecordOutcome::DuplicateSkipped
        &&& post.polling_rate_log@ == pre_log
        &&& post.direction_bins.0.bins@ == pre_bl
        &&& post.direction_bins.1.bins@ == pre_br
        &&& post.math_utils == pre_mu
        &&& post.polling_rate_result == pre_res
    } else {
        let e = PollingRateLog { timestamp: effective_ts(pre_log, timestamp), xyxy };
        let pushed = pre_log.push(e);
        let k = evict_k(pushed.len() as int, pre_log_size);
        let bl = observe_spec(pre_bl, dir_of(theta_l), radius_of(xyxy.0, xyxy.1));
        let br = observe_spec(pre_br, dir_of(theta_r), radius_of(xyxy.2, xyxy.3));
        &&& o == RecordOutcome::Recorded
        &&& post.polling_rate_log@ == pushed.skip(k)
        &&& post.direction_bins.0.bins@ == bl
        &&& post.direction_bins.1.bins@ == br
        &&& if post.polling_rate_log@.len() % (CALCULATE_INTERVAL as nat) == 0 {
            stat_rel(post.polling_rate_log@, pre_mu, bl, br, post.math_utils,
                post.polling_rate_result)
        } else {
            &&& post.math_utils == pre_mu
            &&& post.polling_rate_result == pre_res
        }
    }
}

/// A memo in its just-created (or just-reset) state, up to `log_size`.
pub open spec fn is_fresh(m: Memo) -> bool {
    &&& m.polling_rate_log@ == Seq::<PollingRateLog>::empty()
    &&& m.polling_rate_result == zero_result()
    &&& m.direction_bins.0.bins@ == Seq::<(Direction, u16)>::empty()
    &&& m.direction_bins.1.bins@ == Seq::<(Direction, u16)>::empty()
    &&& m.math_utils == fresh_math_util()
}

impl Memo {
    /// Invariants every public operation preserves: the log is ordered and
    /// bounded, and the accumulators' keys are distinct.
    pub open spec fn wf(self) -> bool {
        &&& ts_sorted(self.polling_rate_log@)
        &&& self.polling_rate_log@.len() <= self.log_size
        &&& self.direction_bins.0.wf()
        &&& self.direction_bins.1.wf()
    }

    pub fn new() -> (m: Self)
        ensures
            is_fresh(m),
            m.log_size == DEFAULT_LOG_SIZE,
            m.wf(),
    {
        Memo {
            polling_rate_log: Vec::with_capacity(DEFAULT_LOG_SIZE),
            polling_rate_result: PollingRateResult::new(),
            direction_bins: (DirectionBins::new(), DirectionBins::new()),
            math_utils: MathUtil::new(),
            log_size: DEFAULT_LOG_SIZE,
        }
    }

    /// Clears the log, the result and both accumulators; the retention
    /// bound is kept. The state afterwards equals a freshly created memo's
    /// in everything but `log_size`.
    pub fn reset(&mut self)
        ensures
            is_fresh(*final(self)),
            final(self).log_size == old(self).log_size,
            final(self).wf(),
    {
        self.polling_rate_log.clear();
        self.polling_rate_result = PollingRateResult::new();
        self.direction_bins = (DirectionBins::new(), DirectionBins::new());
        self.math_utils = MathUtil::new();
    }

    /// Sets the retention bound and replaces the log by an empty one of the
    /// new capacity; the result, the accumulators and the estimator keep
    /// their values.
    pub fn set_log_size(&mut self, log_size: usize)
        requires
            old(self).wf(),
        ensures
            final(self).wf(),
            final(self).log_size == log_size,
            final(self).polling_rate_log@ == Seq::<PollingRateLog>::empty(),
            final(self).polling_rate_result == old(self).polling_rate_result,
            final(self).direction_bins.0.bins@ == old(self).direction_bins.0.bins@,
            final(self).direction_bins.1.bins@ == old(self).direction_bins.1.bins@,
            final(self).math_utils == old(self).math_utils,
    {
        self.log_size = log_size;
        self.polling_rate_log = Vec::with_capacity(log_size);
    }

    /// Appends one sample, feeds both accumulators, evicts the oldest block
    /// when the log outgrows its bound, and recomputes the derived result
    /// whenever the log length is a multiple of `CALCULATE_INTERVAL`.
    /// With filtering on, a payload equal to the last logged one leaves the
    /// whole state untouched.
    ///
    /// `theta_l` and `theta_r` are the sticks' direction angles in
    /// fixed-point radians (the host computes the arctangents of
    /// `xyxy.1 / xyxy.0` and `xyxy.3 / xyxy.2`).
    pub fn record_sample(
        &mut self,
        timestamp: u64,
        xyxy: (i16, i16, i16, i16),
        theta_l: i64,
        theta_r: i64,
        filter_duplicates: bool,
    ) -> (o: RecordOutcome)
        requires
            old(self).wf(),
        ensures
            final(self).wf(),
            record_rel(
                old(self).polling_rate_log@,
                old(self).direction_bins.0.bins@,
                old(self).direction_bins.1.bins@,
                old(self).math_utils,
                old(self).polling_rate_result,
                old(self).log_size as int,
                *final(self),
                timestamp,
                xyxy,
                theta_l,
                theta_r,
                filter_duplicates,
                o,
            ),
            is_duplicate(old(self).polling_rate_log@, xyxy, filter_duplicates) ==> *final(self)
                == *old(self),
    {
        let ghost pre_log = self.polling_rate_log@;
        let len0 = self.polling_rate_log.len();
        if filter_duplicates && len0 > 0 {
            let last = self.polling_rate_log[len0 - 1];
            if xyxy_eq(last.xyxy, xyxy) {
                return RecordOutcome::DuplicateSkipped;
            }
        }
        // Clamp so the log stays ordered even against a misbehaving clock.
        let ts: u64 = if len0 > 0 {
            let last = self.polling_rate_log[len0 - 1];
            if timestamp < last.timestamp {
                last.timestamp
            } else {
                timestamp
            }
        } else {
            timestamp
        };
        let entry = PollingRateLog { timestamp: ts, xyxy };
        self.polling_rate_log.push(entry);
        proof {
            assert(self.polling_rate_log@ == pre_log.push(entry));
            assert(ts_sorted(self.polling_rate_log@));
        }

        // Feed the two angular-error accumulators.
        let d_l = Direction::new(theta_l, DEFAULT_DIR_PRECISION);
        let d_r = Direction::new(theta_r, DEFAULT_DIR_PRECISION);
        let r_l = stick_radius(xyxy.0, xyxy.1);
        let r_r = stick_radius(xyxy.2, xyxy.3);
        proof {
            assert(d_l == dir_of(theta_l));
            assert(d_r == dir_of(theta_r));
            lemma_isqrt_unique(xyxy.0 * xyxy.0 + xyxy.1 * xyxy.1, r_l as int);
            lemma_isqrt_unique(xyxy.2 * xyxy.2 + xyxy.3 * xyxy.3, r_r as int);
            assert(r_l == radius_of(xyxy.0, xyxy.1));
            assert(r_r == radius_of(xyxy.2, xyxy.3));
        }
        self.direction_bins.0.observe(d_l, r_l);
        self.direction_bins.1.observe(d_r, r_r);

        // Bound the log: evict a contiguous oldest block.
        let ghost pushed = pre_log.push(entry);
        if self.polling_rate_log.len() > self.log_size {
            let len1 = self.polling_rate_log.len();
            let k: usize = if len1 < CALCULATE_INTERVAL + 1 {
                len1
            } else {
                CALCULATE_INTERVAL + 1
            };
            let tail = self.polling_rate_log.split_off(k);
            self.polling_rate_log = tail;
            proof {
                assert(self.polling_rate_log@ =~= pushed.skip(k as int));
            }
        }
        proof {
            assert(self.polling_rate_log@ == pushed.skip(
                evict_k(pushed.len() as int, self.log_size as int),
            ));
            assert(ts_sorted(self.polling_rate_log@));
        }

        // Recompute the derived result at the fixed cadence.
        if self.polling_rate_log.len() % CALCULATE_INTERVAL == 0 {
            get_performance_stat(self);
        }
        RecordOutcome::Recorded
    }
}

/// Appending a sample never leaves the log longer than its bound, and what
/// is retained is a contiguous suffix of the old log plus the new sample:
/// eviction removes an oldest prefix and keeps relative order.
pub proof fn lemma_record_keeps_bound_and_order(
    pre_log: Seq<PollingRateLog>,
    pre_bl: Seq<(Direction, u16)>,
    pre_br: Seq<(Direction, u16)>,
    pre_mu: MathUtil,
    pre_res: PollingRateResult,
    pre_log_size: int,
    post: Memo,
    timestamp: u64,
    xyxy: (i16, i16, i16, i16),
    theta_l: i64,
    theta_r: i64,
    filter: bool,
    o: RecordOutcome,
)
    requires
        pre_log.len() <= pre_log_size,
        record_rel(
            pre_log,
            pre_bl,
            pre_br,
            pre_mu,
            pre_res,
            pre_log_size,
            post,
            timestamp,
            xyxy,
            theta_l,
            theta_r,
            filter,
            o,
        ),
    ensures
        post.polling_rate_log@.len() <= pre_log_size,
        !is_duplicate(pre_log, xyxy, filter) ==> ({
            let e = PollingRateLog { timestamp: effective_ts(pre_log, timestamp), xyxy };
            let k = evict_k(pre_log.len() as int + 1, pre_log_size);
            &&& 0 <= k <= pre_log.len() + 1
            &&& post.polling_rate_log@ == pre_log.push(e).skip(k)
            &&& forall|i: int|
                0 <= i < post.polling_rate_log@.len() ==> post.polling_rate_log@[i] == pre_log.push(
                    e,
                )[i + k]
        }),
{
    if !is_duplicate(pre_log, xyxy, filter) {
        let e = PollingRateLog { timestamp: effective_ts(pre_log, timestamp), xyxy };
        let pushed = pre_log.push(e);
        let k = evict_k(pushed.len() as int, pre_log_size);
        assert(post.polling_rate_log@ == pushed.skip(k));
    }
}

/// Recording a sample and then offering the same payload again with
/// duplicate filtering on makes the second call a filtered duplicate
/// (whenever anything was retained at all), so by `record_sample`'s
/// contract it leaves the log, the accumulators and the result untouched.
pub proof fn lemma_second_identical_sample_is_duplicate(
    pre_log: Seq<PollingRateLog>,
    pre_bl: Seq<(Direction, u16)>,
    pre_br: Seq<(Direction, u16)>,
    pre_mu: MathUtil,
    pre_res: PollingRateResult,
    pre_log_size: int,
    post: Memo,
    timestamp: u64,
    xyxy: (i16, i16, i16, i16),
    theta_l: i64,
    theta_r: i64,
    filter: bool,
    o: RecordOutcome,
)
    requires
        record_rel(
            pre_log,
            pre_bl,
            pre_br,
            pre_mu,
            pre_res,
            pre_log_size,
            post,
            timestamp,
            xyxy,
            theta_l,
            theta_r,
            filter,
            o,
        ),
        o == RecordOutcome::Recorded,
        post.polling_rate_log@.len() > 0,
    ensures
        is_duplicate(post.polling_rate_log@, xyxy, true),
{
    let e = PollingRateLog { timestamp: effective_ts(pre_log, timestamp), xyxy };
    let pushed = pre_log.push(e);
    let k = evict_k(pushed.len() as int, pre_log_size);
    assert(post.polling_rate_log@ == pushed.skip(k));
    assert(post.polling_rate_log@.last() == pushed.last());
}

/// Any two fresh memos (just created, or just reset) agree on everything
/// observable: empty log, zero result, empty accumulators, fresh
/// estimator. So a reset memo equals a freshly created one in all but
/// possibly its retention bound.
pub proof fn lemma_fresh_states_agree(a: Memo, b: Memo)
    requires
        is_fresh(a),
        is_fresh(b),
    ensures
        a.polling_rate_log@ == b.polling_rate_log@,
        a.polling_rate_result == b.polling_rate_result,
        a.direction_bins.0.bins@ == b.direction_bins.0.bins@,
        a.direction_bins.1.bins@ == b.direction_bins.1.bins@,
        a.math_utils == b.math_utils,
{
}

/// Recomputes the polling-rate result of one memo from its estimator and
/// both accumulators, replacing the stored result as a whole. When no pair
/// has been counted yet the rates are undefined and read as zero ("not yet
/// available") rather than an infinity or a division by zero.
pub fn get_performance_stat(memo: &mut Memo)
    requires
        old(memo).wf(),
    ensures
        final(memo).wf(),
        final(memo).polling_rate_log@ == old(memo).polling_rate_log@,
        final(memo).direction_bins.0.bins@ == old(memo).direction_bins.0.bins@,
        final(memo).direction_bins.1.bins@ == old(memo).direction_bins.1.bins@,
        final(memo).log_size == old(memo).log_size,
        stat_rel(
            old(memo).polling_rate_log@,
            old(memo).math_utils,
            old(memo).direction_bins.0.bins@,
            old(memo).direction_bins.1.bins@,
            final(memo).math_utils,
            final(memo).polling_rate_result,
        ),
{
    let result = memo.math_utils.calc_frequency(&memo.polling_rate_log);
    let err_l = memo.direction_bins.0.average_error(MAX_R);
    let err_r = memo.direction_bins.1.average_error(MAX_R);
    match result {
        Some(r) => {
            memo.polling_rate_result = PollingRateResult {
                polling_rate_avg: r.0,
                polling_rate_min: r.1,
                polling_rate_max: r.2,
                avg_interval: r.3,
                avg_error_l: err_l,
                avg_error_r: err_r,
            };
        },
        None => {
            memo.polling_rate_result = PollingRateResult {
                polling_rate_avg: Ratio::zero(),
                polling_rate_min: Ratio::zero(),
                polling_rate_max: Ratio::zero(),
                avg_interval: Ratio::zero(),
                avg_error_l: err_l,
                avg_error_r: err_r,
            };
        },
    }
}

} // verus!
