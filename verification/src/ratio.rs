//! Exact non-negative rationals used for every derived statistic.
//!
//! The engine never touches floating point: a polling rate, an interval or a
//! normalized error is carried as a numerator/denominator pair, and a host
//! divides the two only when it presents the value.

use vstd::prelude::*;

verus! {

/// A non-negative rational `num / den`. A well-formed ratio has `den > 0`;
/// the value `0 / 1` doubles as the "no data yet" placeholder.
#[derive(Clone, Copy, Debug, PartialEq, Eq, Structural)]
pub struct Ratio {
    pub num: u128,
    pub den: u128,
}

/// The zero value a fresh result holds for every statistic.
pub open spec fn zero_ratio() -> Ratio {
    Ratio { num: 0, den: 1 }
}

impl Ratio {
    /// The denominator is positive, so the ratio denotes a number.
    pub open spec fn wf(self) -> bool {
        self.den > 0
    }

    pub fn zero() -> (r: Ratio)
        ensures
            r == zero_ratio(),
    {
        Ratio { num: 0, den: 1 }
    }

    pub fn new(num: u128, den: u128) -> (r: Ratio)
        requires
            den > 0,
        ensures
            r == (Ratio { num, den }),
    {
        Ratio { num, den }
    }
}

} // verus!
