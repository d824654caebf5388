//! Sampling engine: the registry from device identifier to per-device memo,
//! and the set of currently present device identifiers.
//!
//! Memos live in a vector of key/memo pairs with pairwise-distinct keys
//! (insertion order is kept) and are created on a device's first recorded
//! sample. The host serializes access (one writer role per engine); the
//! lock itself, and the decision to skip a tick on contention, are the
//! host's, so every operation here is a plain `&mut` method.

use crate::memo::{
    is_fresh, record_rel, zero_result, Memo, PollingRateResult, RecordOutcome,
};
use crate::estimator::fresh_math_util;
use crate::sample::PollingRateLog;
use crate::DEFAULT_LOG_SIZE;
use vstd::prelude::*;

verus! {

/// Everything one sample capture hands the engine: the elapsed time, the
/// four axis values, and the two stick angles in fixed-point radians
/// (units of 10^-9 radian; the host computes the arctangents).
#[derive(Clone, Copy, Debug, PartialEq, Eq)]
pub struct SampleInput {
    /// Microseconds since the device's memo epoch (a monotonic clock).
    pub timestamp: u64,
    /// `(left x, left y, right x, right y)` raw axis values.
    pub xyxy: (i16, i16, i16, i16),
    /// Left stick direction angle, fixed-point radians.
    pub theta_l: i64,
    /// Right stick direction angle, fixed-point radians.
    pub theta_r: i64,
}

/// Why a `record` call failed.
#[derive(Clone, Copy, Debug, PartialEq, Eq, Structural)]
pub enum RecordError {
    /// The input source produced no snapshot for the requested device
    /// (disconnected mid-call); no state was touched.
    DeviceUnavailable,
}

/// No device identifier owns two memos.
pub open spec fn memo_keys_distinct(s: Seq<(u32, Memo)>) -> bool {
    forall|i: int, j: int| 0 <= i < j < s.len() ==> (#[trigger] s[i]).0 != (#[trigger] s[j]).0
}

/// Whether some memo belongs to `id`.
pub open spec fn has_memo_in(s: Seq<(u32, Memo)>, id: u32) -> bool {
    exists|i: int| 0 <= i < s.len() && (#[trigger] s[i]).0 == id
}

/// The index of `id`'s memo (unique when keys are distinct).
pub open spec fn memo_index(s: Seq<(u32, Memo)>, id: u32) -> int {
    choose|i: int| 0 <= i < s.len() && (#[trigger] s[i]).0 == id
}

/// Strictly increasing device identifiers.
pub open spec fn ids_sorted_unique(s: Seq<u32>) -> bool {
    forall|i: int, j: int| 0 <= i < j < s.len() ==> s[i] < s[j]
}

/// Whether `s` holds `id`.
pub open spec fn contains_id(s: Seq<u32>, id: u32) -> bool {
    exists|i: int| 0 <= i < s.len() && s[i] == id
}

/// The sampling engine's whole shared state.
#[derive(Debug)]
pub struct GamepadState {
    /// Device identifiers last reported present by the input source.
    pub cur_gamepads: Vec<u32>,
    /// Registry from device identifier to its memo; created on first use.
    pub memo: Vec<(u32, Memo)>,
}

impl GamepadState {
    /// Invariants every operation preserves: distinct memo keys, and every
    /// memo well formed.
    pub open spec fn wf(self) -> bool {
        &&& memo_keys_distinct(self.memo@)
        &&& forall|i: int| 0 <= i < self.memo@.len() ==> (#[trigger] self.memo@[i]).1.wf()
    }

    pub fn new() -> (g: GamepadState)
        ensures
            g.cur_gamepads@ == Seq::<u32>::empty(),
            g.memo@ == Seq::<(u32, Memo)>::empty(),
            g.wf(),
    {
        GamepadState { cur_gamepads: Vec::with_capacity(10), memo: Vec::with_capacity(10) }
    }

    /// Stores the identifiers the input source just reported, unless the
    /// report is empty (a transient empty read must not wipe the cache),
    /// and returns a copy of the report.
    pub fn get_cur_gamepads(&mut self, ids: &Vec<u32>) -> (r: Vec<u32>)
        requires
            old(self).wf(),
        ensures
            final(self).wf(),
            r@ == ids@,
            final(self).memo@ == old(self).memo@,
            ids@.len() > 0 ==> final(self).cur_gamepads@ == ids@,
            ids@.len() == 0 ==> final(self).cur_gamepads@ == old(self).cur_gamepads@,
    {
        let r = copy_ids(ids);
        if ids.len() > 0 {
            self.cur_gamepads = copy_ids(ids);
        }
        r
    }

    /// The cached present identifiers, sorted ascending without duplicates.
    pub fn get_gamepad_ids(&self) -> (r: Vec<u32>)
        ensures
            ids_sorted_unique(r@),
            forall|id: u32| contains_id(r@, id) <==> contains_id(self.cur_gamepads@, id),
    {
        sorted_dedup(&self.cur_gamepads)
    }

    /// Records one sample for a device, creating its memo on first use.
    /// `None` means the input source could not produce a snapshot: the call
    /// fails with `DeviceUnavailable` and leaves every memo untouched.
    pub fn record(
        &mut self,
        user_index: u32,
        snapshot: Option<SampleInput>,
        is_filter_duplicate: bool,
    ) -> (result: Result<RecordOutcome, RecordError>)
        requires
            old(self).wf(),
        ensures
            final(self).wf(),
            snapshot is None ==> result == Err::<RecordOutcome, RecordError>(
                RecordError::DeviceUnavailable,
            ) && *final(self) == *old(self),
            snapshot matches Some(inp) ==> ({
                let s0 = old(self).memo@;
                &&& final(self).cur_gamepads@ == old(self).cur_gamepads@
                &&& result matches Ok(o) && ({
                    &&& has_memo_in(s0, user_index) ==> ({
                        let i = memo_index(s0, user_index);
                        &&& final(self).memo@ == s0.update(
                            i,
                            (user_index, final(self).memo@[i].1),
                        )
                        &&& record_rel(
                            s0[i].1.polling_rate_log@,
                            s0[i].1.direction_bins.0.bins@,
                            s0[i].1.direction_bins.1.bins@,
                            s0[i].1.math_utils,
                            s0[i].1.polling_rate_result,
                            s0[i].1.log_size as int,
                            final(self).memo@[i].1,
                            inp.timestamp,
                            inp.xyxy,
                            inp.theta_l,
                            inp.theta_r,
                            is_filter_duplicate,
                            o,
                        )
                    })
                    &&& !has_memo_in(s0, user_index) ==> ({
                        &&& final(self).memo@ == s0.push(
                            (user_index, final(self).memo@.last().1),
                        )
                        &&& record_rel(
                            Seq::empty(),
                            Seq::empty(),
                            Seq::empty(),
                            fresh_math_util(),
                            zero_result(),
                            DEFAULT_LOG_SIZE as int,
                            final(self).memo@.last().1,
                            inp.timestamp,
                            inp.xyxy,
                            inp.theta_l,
                            inp.theta_r,
                            is_filter_duplicate,
                            o,
                        )
                    })
                })
            }),
    {
        let inp = match snapshot {
            None => {
                return Err(RecordError::DeviceUnavailable);
            },
            Some(inp) => inp,
        };
        let ghost s0 = self.memo@;
        let n = self.memo.len();
        let mut i: usize = 0;
        while i < n
            invariant
                0 <= i <= n,
                n == s0.len(),
                self.memo@ == s0,
                old(self).memo@ == s0,
                self.cur_gamepads@ == old(self).cur_gamepads@,
                snapshot == Some(inp),
                memo_keys_distinct(s0),
                forall|j: int| 0 <= j < s0.len() ==> (#[trigger] s0[j]).1.wf(),
                forall|j: int| 0 <= j < i ==> (#[trigger] s0[j]).0 != user_index,
            decreases n - i,
        {
            if self.memo[i].0 == user_index {
                let mut pair = self.memo.remove(i);
                let o = pair.1.record_sample(
                    inp.timestamp,
                    inp.xyxy,
                    inp.theta_l,
                    inp.theta_r,
                    is_filter_duplicate,
                );
                self.memo.insert(i, pair);
                proof {
                    assert(has_memo_in(s0, user_index));
                    let idx = memo_index(s0, user_index);
                    assert(0 <= idx < s0.len() && s0[idx].0 == user_index);
                    assert(idx == i as int);
                    assert(self.memo@ =~= s0.update(i as int, (user_index, pair.1)));
                    assert forall|a: int, b: int|
                        0 <= a < b < self.memo@.len() implies (#[trigger] self.memo@[a]).0 != (
                    #[trigger] self.memo@[b]).0 by {
                        assert(s0[a].0 != s0[b].0);
                    }
                }
                return Ok(o);
            }
            i = i + 1;
        }
        let mut m = Memo::new();
        let o = m.record_sample(
            inp.timestamp,
            inp.xyxy,
            inp.theta_l,
            inp.theta_r,
            is_filter_duplicate,
        );
        self.memo.push((user_index, m));
        proof {
            assert(!has_memo_in(s0, user_index));
            assert(self.memo@ == s0.push((user_index, self.memo@.last().1)));
            assert forall|a: int, b: int|
                0 <= a < b < self.memo@.len() implies (#[trigger] self.memo@[a]).0 != (
            #[trigger] self.memo@[b]).0 by {
                if b < s0.len() {
                    assert(s0[a].0 != s0[b].0);
                } else {
                    assert(self.memo@[b].0 == user_index);
                    assert(s0[a].0 != user_index);
                }
            }
        }
        Ok(o)
    }

    /// Sets the retention bound of every memo; each memo's log is replaced
    /// by an empty one of the new capacity, everything else is kept.
    pub fn set_log_size(&mut self, log_size: usize)
        requires
            old(self).wf(),
        ensures
            final(self).wf(),
            final(self).cur_gamepads@ == old(self).cur_gamepads@,
            final(self).memo@.len() == old(self).memo@.len(),
            forall|j: int|
                0 <= j < old(self).memo@.len() ==> {
                    let pre = (#[trigger] old(self).memo@[j]).1;
                    let post = final(self).memo@[j].1;
                    &&& final(self).memo@[j].0 == old(self).memo@[j].0
                    &&& post.log_size == log_size
                    &&& post.polling_rate_log@ == Seq::<PollingRateLog>::empty()
                    &&& post.polling_rate_result == pre.polling_rate_result
                    &&& post.direction_bins.0.bins@ == pre.direction_bins.0.bins@
                    &&& post.direction_bins.1.bins@ == pre.direction_bins.1.bins@
                    &&& post.math_utils == pre.math_utils
                },
    {
        let ghost s0 = self.memo@;
        let n = self.memo.len();
        let mut i: usize = 0;
        while i < n
            invariant
                0 <= i <= n,
                n == s0.len(),
                old(self).memo@ == s0,
                self.memo@.len() == s0.len(),
                self.cur_gamepads@ == old(self).cur_gamepads@,
                memo_keys_distinct(s0),
                forall|j: int| 0 <= j < s0.len() ==> (#[trigger] s0[j]).1.wf(),
                forall|j: int| i <= j < s0.len() ==> #[trigger] self.memo@[j] == s0[j],
                forall|j: int|
                    0 <= j < i ==> {
                        let post = (#[trigger] self.memo@[j]).1;
                        let pre = s0[j].1;
                        &&& self.memo@[j].0 == s0[j].0
                        &&& post.wf()
                        &&& post.log_size == log_size
                        &&& post.polling_rate_log@ == Seq::<PollingRateLog>::empty()
                        &&& post.polling_rate_result == pre.polling_rate_result
                        &&& post.direction_bins.0.bins@ == pre.direction_bins.0.bins@
                        &&& post.direction_bins.1.bins@ == pre.direction_bins.1.bins@
                        &&& post.math_utils == pre.math_utils
                    },
            decreases n - i,
        {
            let ghost prev = self.memo@;
            let mut pair = self.memo.remove(i);
            pair.1.set_log_size(log_size);
            self.memo.insert(i, pair);
            proof {
                assert(self.memo@ =~= prev.update(i as int, pair));
            }
            i = i + 1;
        }
        proof {
            assert forall|a: int, b: int|
                0 <= a < b < self.memo@.len() implies (#[trigger] self.memo@[a]).0 != (
            #[trigger] self.memo@[b]).0 by {
                assert(s0[a].0 != s0[b].0);
                assert(self.memo@[a].0 == s0[a].0 && self.memo@[b].0 == s0[b].0);
            }
            assert forall|j: int|
                0 <= j < self.memo@.len() implies (#[trigger] self.memo@[j]).1.wf() by {
                assert(s0[j].0 == s0[j].0);
            }
        }
    }

    /// Resets every memo to its freshly created state (its retention bound
    /// is kept).
    pub fn reset(&mut self)
        requires
            old(self).wf(),
        ensures
            final(self).wf(),
            final(self).cur_gamepads@ == old(self).cur_gamepads@,
            final(self).memo@.len() == old(self).memo@.len(),
            forall|j: int|
                0 <= j < old(self).memo@.len() ==> {
                    let post = (#[trigger] final(self).memo@[j]).1;
                    &&& final(self).memo@[j].0 == old(self).memo@[j].0
                    &&& is_fresh(post)
                    &&& post.log_size == old(self).memo@[j].1.log_size
                },
    {
        let ghost s0 = self.memo@;
        let n = self.memo.len();
        let mut i: usize = 0;
        while i < n
            invariant
                0 <= i <= n,
                n == s0.len(),
                old(self).memo@ == s0,
                self.memo@.len() == s0.len(),
                self.cur_gamepads@ == old(self).cur_gamepads@,
                memo_keys_distinct(s0),
                forall|j: int| 0 <= j < s0.len() ==> (#[trigger] s0[j]).1.wf(),
                forall|j: int| i <= j < s0.len() ==> #[trigger] self.memo@[j] == s0[j],
                forall|j: int|
                    0 <= j < i ==> {
                        let post = (#[trigger] self.memo@[j]).1;
                        &&& self.memo@[j].0 == s0[j].0
                        &&& post.wf()
                        &&& is_fresh(post)
                        &&& post.log_size == s0[j].1.log_size
                    },
            decreases n - i,
        {
            let ghost prev = self.memo@;
            let mut pair = self.memo.remove(i);
            pair.1.reset();
            self.memo.insert(i, pair);
            proof {
                assert(self.memo@ =~= prev.update(i as int, pair));
            }
            i = i + 1;
        }
        proof {
            assert forall|a: int, b: int|
                0 <= a < b < self.memo@.len() implies (#[trigger] self.memo@[a]).0 != (
            #[trigger] self.memo@[b]).0 by {
                assert(s0[a].0 != s0[b].0);
                assert(self.memo@[a].0 == s0[a].0 && self.memo@[b].0 == s0[b].0);
            }
            assert forall|j: int|
                0 <= j < self.memo@.len() implies (#[trigger] self.memo@[j]).1.wf() by {
                assert(s0[j].0 == s0[j].0);
            }
        }
    }

    /// A snapshot of one device's data: a copy of its log and its last
    /// derived result. `None` when the device has no memo yet. Never blocks
    /// on or triggers a recomputation.
    pub fn get_polling_data(&self, user_id: u32) -> (r: Option<
        (Vec<PollingRateLog>, PollingRateResult),
    >)
        requires
            self.wf(),
        ensures
            r is Some <==> has_memo_in(self.memo@, user_id),
            r matches Some(data) ==> ({
                let m = self.memo@[memo_index(self.memo@, user_id)].1;
                &&& data.0@ == m.polling_rate_log@
                &&& data.1 == m.polling_rate_result
            }),
    {
        let n = self.memo.len();
        let mut i: usize = 0;
        while i < n
            invariant
                0 <= i <= n,
                n == self.memo@.len(),
                memo_keys_distinct(self.memo@),
                forall|j: int| 0 <= j < i ==> (#[trigger] self.memo@[j]).0 != user_id,
            decreases n - i,
        {
            if self.memo[i].0 == user_id {
                let lg = copy_log(&self.memo[i].1.polling_rate_log);
                let res = self.memo[i].1.polling_rate_result;
                proof {
                    assert(has_memo_in(self.memo@, user_id));
                    let idx = memo_index(self.memo@, user_id);
                    assert(0 <= idx < self.memo@.len() && self.memo@[idx].0 == user_id);
                    assert(idx == i as int);
                }
                return Some((lg, res));
            }
            i = i + 1;
        }
        None
    }
}

/// A plain element-by-element copy of an identifier list.
fn copy_ids(v: &Vec<u32>) -> (r: Vec<u32>)
    ensures
        r@ == v@,
{
    let mut r: Vec<u32> = Vec::new();
    let n = v.len();
    let mut i: usize = 0;
    while i < n
        invariant
            0 <= i <= n,
            n == v@.len(),
            r@ == v@.take(i as int),
        decreases n - i,
    {
        r.push(v[i]);
        proof {
            assert(r@ =~= v@.take((i + 1) as int));
        }
        i = i + 1;
    }
    proof {
        assert(r@ =~= v@);
    }
    r
}

/// A plain element-by-element copy of a sample log.
fn copy_log(v: &Vec<PollingRateLog>) -> (r: Vec<PollingRateLog>)
    ensures
        r@ == v@,
{
    let mut r: Vec<PollingRateLog> = Vec::new();
    let n = v.len();
    let mut i: usize = 0;
    while i < n
        invariant
            0 <= i <= n,
            n == v@.len(),
            r@ == v@.take(i as int),
        decreases n - i,
    {
        r.push(v[i]);
        proof {
            assert(r@ =~= v@.take((i + 1) as int));
        }
        i = i + 1;
    }
    proof {
        assert(r@ =~= v@);
    }
    r
}

/// Ascending, duplicate-free copy of an identifier list.
fn sorted_dedup(v: &Vec<u32>) -> (r: Vec<u32>)
    ensures
        ids_sorted_unique(r@),
        forall|id: u32| contains_id(r@, id) <==> contains_id(v@, id),
{
    let mut r: Vec<u32> = Vec::new();
    let n = v.len();
    let mut i: usize = 0;
    while i < n
        invariant
            0 <= i <= n,
            n == v@.len(),
            ids_sorted_unique(r@),
            forall|id: u32| contains_id(r@, id) <==> contains_id(v@.take(i as int), id),
        decreases n - i,
    {
        let ghost r0 = r@;
        let id = v[i];
        let m = r.len();
        let mut p: usize = 0;
        while p < m
            invariant_except_break
                0 <= p <= m,
                m == r@.len(),
                r@ == r0,
                ids_sorted_unique(r0),
                forall|q: int| 0 <= q < p ==> r0[q] < id,
            ensures
                0 <= p <= m,
                m == r@.len(),
                r@ == r0,
                ids_sorted_unique(r0),
                forall|q: int| 0 <= q < p ==> r0[q] < id,
                p < m ==> r0[p as int] >= id,
            decreases m - p,
        {
            if r[p] >= id {
                break ;
            }
            p = p + 1;
        }
        // `p` is the first position whose element is not below `id`.
        if p < r.len() && r[p] == id {
            // already present
            proof {
                assert(contains_id(r0, id));
                lemma_take_step(v@, i as int);
                assert forall|x: u32| contains_id(r@, x) <==> contains_id(
                    v@.take((i + 1) as int),
                    x,
                ) by {
                    lemma_contains_take_step(v@, i as int, x);
                }
            }
        } else {
            r.insert(p, id);
            proof {
                assert(ids_sorted_unique(r@)) by {
                    assert forall|a: int, b: int| 0 <= a < b < r@.len() implies r@[a] < r@[b] by {
                        if b < p {
                            assert(r@[a] == r0[a] && r@[b] == r0[b]);
                        } else if a > p {
                            assert(r@[a] == r0[a - 1] && r@[b] == r0[b - 1]);
                        } else if a == p {
                            assert(r@[a] == id && r@[b] == r0[b - 1]);
                            assert(p < r0.len() ==> r0[p as int] > id);
                            assert(r0[b - 1] >= r0[p as int]);
                        } else if b == p {
                            assert(r@[a] == r0[a] && r@[b] == id);
                        } else {
                            assert(r@[a] == r0[a] && r@[b] == r0[b - 1]);
                            assert(r0[b - 1] >= r0[p as int] || b - 1 < p);
                        }
                    }
                }
                assert forall|x: u32| contains_id(r@, x) <==> contains_id(
                    v@.take((i + 1) as int),
                    x,
                ) by {
                    lemma_contains_take_step(v@, i as int, x);
                    lemma_contains_insert(r0, p as int, id, x);
                }
            }
        }
        i = i + 1;
    }
    proof {
        assert(v@.take(n as int) =~= v@);
    }
    r
}

/// Taking one more element appends exactly that element.
proof fn lemma_take_step(s: Seq<u32>, i: int)
    requires
        0 <= i < s.len(),
    ensures
        s.take(i + 1) =~= s.take(i).push(s[i]),
{
}

/// Membership in a one-longer prefix is membership in the prefix or
/// equality with the new element.
proof fn lemma_contains_take_step(s: Seq<u32>, i: int, x: u32)
    requires
        0 <= i < s.len(),
    ensures
        contains_id(s.take(i + 1), x) <==> (contains_id(s.take(i), x) || x == s[i]),
{
    lemma_take_step(s, i);
    if contains_id(s.take(i + 1), x) {
        let j = choose|j: int| 0 <= j < s.take(i + 1).len() && #[trigger] s.take(i + 1)[j] == x;
        if j < i {
            assert(s.take(i)[j] == x);
        }
    }
    if contains_id(s.take(i), x) {
        let j = choose|j: int| 0 <= j < s.take(i).len() && #[trigger] s.take(i)[j] == x;
        assert(s.take(i + 1)[j] == x);
    }
    if x == s[i] {
        assert(s.take(i + 1)[i] == x);
    }
}

/// Membership after an insert is membership before, or the new element.
proof fn lemma_contains_insert(s: Seq<u32>, p: int, id: u32, x: u32)
    requires
        0 <= p <= s.len(),
    ensures
        contains_id(s.insert(p, id), x) <==> (contains_id(s, x) || x == id),
{
    let t = s.insert(p, id);
    if contains_id(t, x) {
        let j = choose|j: int| 0 <= j < t.len() && #[trigger] t[j] == x;
        if j < p {
            assert(s[j] == x);
        } else if j > p {
            assert(s[j - 1] == x);
        }
    }
    if contains_id(s, x) {
        let j = choose|j: int| 0 <= j < s.len() && #[trigger] s[j] == x;
        if j < p {
            assert(t[j] == x);
        } else {
            assert(t[j + 1] == x);
        }
    }
    if x == id {
        assert(t[p] == x);
    }
}

} // verus!
