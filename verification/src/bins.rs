//! Angular-error accumulator: per direction bucket, the maximum stick
//! radius ever observed in that direction.
//!
//! The buckets live in a vector of key/radius pairs with pairwise-distinct
//! keys (insertion order is kept). Radii only grow per bucket; new buckets
//! appear as new directions are seen; nothing shrinks except on reset.

use crate::direction::Direction;
use vstd::prelude::*;

verus! {

/// Distinct keys: no direction bucket appears twice.
pub open spec fn keys_distinct(s: Seq<(Direction, u16)>) -> bool {
    forall|i: int, j: int|
        0 <= i < j < s.len() ==> (#[trigger] s[i]).0 != (#[trigger] s[j]).0
}

/// Whether some bucket holds the direction `d`.
pub open spec fn has_bucket(s: Seq<(Direction, u16)>, d: Direction) -> bool {
    exists|i: int| 0 <= i < s.len() && (#[trigger] s[i]).0 == d
}

/// The index of the bucket holding `d` (unique when keys are distinct).
pub open spec fn bucket_index(s: Seq<(Direction, u16)>, d: Direction) -> int {
    choose|i: int| 0 <= i < s.len() && (#[trigger] s[i]).0 == d
}

/// Sum of the stored radii of the first `n` buckets.
pub open spec fn radius_sum_to(s: Seq<(Direction, u16)>, n: int) -> int
    decreases n,
{
    if n <= 0 {
        0
    } else {
        radius_sum_to(s, n - 1) + s[n - 1].1
    }
}

pub open spec fn radius_sum(s: Seq<(Direction, u16)>) -> int {
    radius_sum_to(s, s.len() as int)
}

/// What one observation does to the buckets: a new direction appends a
/// bucket, a known one keeps the larger radius.
pub open spec fn observe_spec(s: Seq<(Direction, u16)>, d: Direction, radius: u16) -> Seq<
    (Direction, u16),
> {
    if has_bucket(s, d) {
        let idx = bucket_index(s, d);
        s.update(
            idx,
            (
                d,
                if radius > s[idx].1 {
                    radius
                } else {
                    s[idx].1
                },
            ),
        )
    } else {
        s.push((d, radius))
    }
}

/// The normalized angular deviation `|1 - (sum / n) / reference|` as the
/// exact rational `|n * reference - sum| / (n * reference)`. An empty
/// accumulator is read with a denominator count of 1 — a defined but
/// arbitrary value (the full deviation 1), a quirk kept on purpose to avoid
/// a division by zero, not meaningful precision semantics.
pub open spec fn spec_average_error(s: Seq<(Direction, u16)>, reference: int) -> crate::ratio::Ratio {
    let n: int = if s.len() == 0 {
        1
    } else {
        s.len() as int
    };
    let sum = radius_sum(s);
    let den = n * reference;
    crate::ratio::Ratio {
        num: (if den >= sum {
            den - sum
        } else {
            sum - den
        }) as u128,
        den: den as u128,
    }
}

/// The per-stick map from direction bucket to maximum observed radius.
#[derive(Debug)]
pub struct DirectionBins {
    pub bins: Vec<(Direction, u16)>,
}

impl DirectionBins {
    pub open spec fn wf(self) -> bool {
        keys_distinct(self.bins@)
    }

    pub fn new() -> (b: DirectionBins)
        ensures
            b.bins@ == Seq::<(Direction, u16)>::empty(),
            b.wf(),
    {
        DirectionBins { bins: Vec::new() }
    }

    /// Records a radius for a direction: a new bucket is inserted, an
    /// existing one keeps the larger of its stored and the new radius.
    pub fn observe(&mut self, d: Direction, radius: u16)
        requires
            old(self).wf(),
        ensures
            final(self).wf(),
            final(self).bins@ == observe_spec(old(self).bins@, d, radius),
    {
        let ghost s0 = self.bins@;
        let len = self.bins.len();
        let mut i: usize = 0;
        while i < len
            invariant
                0 <= i <= len,
                len == s0.len(),
                self.bins@ == s0,
                old(self).bins@ == s0,
                keys_distinct(s0),
                forall|j: int| 0 <= j < i ==> (#[trigger] s0[j]).0 != d,
            decreases len - i,
        {
            let pair = self.bins[i];
            if pair.0 == d {
                let grown: u16 = if radius > pair.1 {
                    radius
                } else {
                    pair.1
                };
                self.bins[i] = (d, grown);
                proof {
                    assert(has_bucket(s0, d));
                    let idx = bucket_index(s0, d);
                    assert(0 <= idx < s0.len() && s0[idx].0 == d);
                    assert(idx == i as int);
                    assert(self.bins@ =~= s0.update(i as int, (d, grown)));
                    assert forall|a: int, b: int|
                        0 <= a < b < self.bins@.len() implies (#[trigger] self.bins@[a]).0 != (
                    #[trigger] self.bins@[b]).0 by {
                        assert(s0[a].0 != s0[b].0);
                    }
                }
                return ;
            }
            i = i + 1;
        }
        self.bins.push((d, radius));
        proof {
            assert(!has_bucket(s0, d));
            assert forall|a: int, b: int|
                0 <= a < b < self.bins@.len() implies (#[trigger] self.bins@[a]).0 != (
            #[trigger] self.bins@[b]).0 by {
                if b < s0.len() {
                    assert(s0[a].0 != s0[b].0);
                } else {
                    assert(self.bins@[b].0 == d);
                    assert(s0[a].0 != d);
                }
            }
        }
    }

    /// `|1 - mean_radius / max_radius_reference|`, the mean taken over the
    /// bucket count (or 1 when no bucket exists yet).
    pub fn average_error(&self, max_radius_reference: u64) -> (e: crate::ratio::Ratio)
        requires
            max_radius_reference > 0,
        ensures
            e == spec_average_error(self.bins@, max_radius_reference as int),
    {
        let ghost s = self.bins@;
        let len = self.bins.len();
        let mut sum: u128 = 0;
        let mut i: usize = 0;
        while i < len
            invariant
                0 <= i <= len,
                len == s.len(),
                self.bins@ == s,
                sum == radius_sum_to(s, i as int),
                sum <= i * 0x10000,
            decreases len - i,
        {
            sum = sum + (self.bins[i].1 as u128);
            i = i + 1;
        }
        let n: u64 = if len == 0 {
            1
        } else {
            len as u64
        };
        proof {
            assert((n as int) * (max_radius_reference as int) < u128::MAX) by (nonlinear_arith)
                requires
                    0 < n <= u64::MAX && 0 < max_radius_reference <= u64::MAX,
            ;
            assert((n as int) * (max_radius_reference as int) > 0) by (nonlinear_arith)
                requires
                    n > 0 && max_radius_reference > 0,
            ;
        }
        let den: u128 = (n as u128) * (max_radius_reference as u128);
        let num: u128 = if den >= sum {
            den - sum
        } else {
            sum - den
        };
        crate::ratio::Ratio::new(num, den)
    }
}

/// Buckets only grow: an observation never removes a bucket, never changes
/// a bucket's direction, and never shrinks a stored radius.
pub proof fn lemma_observe_never_shrinks(s: Seq<(Direction, u16)>, d: Direction, radius: u16)
    requires
        keys_distinct(s),
    ensures
        observe_spec(s, d, radius).len() >= s.len(),
        forall|i: int|
            0 <= i < s.len() ==> (#[trigger] observe_spec(s, d, radius)[i]).0 == s[i].0
                && observe_spec(s, d, radius)[i].1 >= s[i].1,
{
    if has_bucket(s, d) {
        let idx = bucket_index(s, d);
        assert(0 <= idx < s.len() && s[idx].0 == d);
    }
}

/// An accumulator that has observed only radius `radius` in a single
/// direction, read against that same radius as the reference, reports a
/// normalized deviation of exactly zero.
pub proof fn lemma_single_bucket_zero_error(d: Direction, radius: u16)
    requires
        radius > 0,
    ensures
        spec_average_error(seq![(d, radius)], radius as int).num == 0,
{
    let s = seq![(d, radius)];
    assert(s[0] == (d, radius));
    assert(radius_sum_to(s, 0) == 0);
    assert(radius_sum(s) == radius);
    let n: int = if s.len() == 0 { 1 } else { s.len() as int };
    assert(n == 1);
    let den = n * (radius as int);
    assert(den == radius);
    assert(den >= radius_sum(s));
    assert(den - radius_sum(s) == 0);
    assert(spec_average_error(s, radius as int).num == (den - radius_sum(s)) as u128);
}

} // verus!
