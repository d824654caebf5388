//! One timestamped capture of a device's four analog axis values.

use vstd::prelude::*;

verus! {

/// A single sample: microseconds since the owning memo was created, and the
/// raw axis values of both sticks as `(left x, left y, right x, right y)`.
#[derive(Clone, Copy, Debug, PartialEq, Eq)]
pub struct PollingRateLog {
    pub timestamp: u64,
    pub xyxy: (i16, i16, i16, i16),
}

impl PollingRateLog {
    pub fn new() -> (log: Self)
        ensures
            log.timestamp == 0,
            log.xyxy == (0i16, 0i16, 0i16, 0i16),
    {
        PollingRateLog { timestamp: 0, xyxy: (0, 0, 0, 0) }
    }
}

/// Timestamps never decrease along the log.
pub open spec fn ts_sorted(s: Seq<PollingRateLog>) -> bool {
    forall|i: int, j: int| 0 <= i <= j < s.len() ==> s[i].timestamp <= s[j].timestamp
}

/// Executable equality of two axis quadruples.
pub fn xyxy_eq(a: (i16, i16, i16, i16), b: (i16, i16, i16, i16)) -> (r: bool)
    ensures
        r <==> a == b,
{
    a.0 == b.0 && a.1 == b.1 && a.2 == b.2 && a.3 == b.3
}

} // verus!
