//! Small verified arithmetic helpers: the integer square root used to turn
//! an axis pair into its Euclidean stick radius.

use vstd::prelude::*;

verus! {

/// `r` is the integer square root of `n`: the largest integer whose square
/// does not exceed `n`.
pub open spec fn is_isqrt(n: int, r: int) -> bool {
    &&& r >= 0
    &&& r * r <= n
    &&& n < (r + 1) * (r + 1)
}

/// The integer square root as a value (it is unique, see
/// [`lemma_isqrt_unique`]).
pub open spec fn isqrt_val(n: int) -> int {
    choose|r: int| is_isqrt(n, r)
}

/// Two integer square roots of the same number are equal, so `isqrt_val`
/// names the root any witness exhibits.
pub proof fn lemma_isqrt_unique(n: int, r: int)
    requires
        is_isqrt(n, r),
    ensures
        isqrt_val(n) == r,
{
    assert(exists|q: int| is_isqrt(n, q)) by {
        assert(is_isqrt(n, r));
    }
    let q = isqrt_val(n);
    assert(is_isqrt(n, q));
    assert(q == r) by (nonlinear_arith)
        requires
            q >= 0 && r >= 0 && q * q <= n && n < (q + 1) * (q + 1) && r * r <= n && n < (r + 1) * (
            r + 1),
    ;
}

/// Floor of the square root of `n`, by binary search on the root.
pub fn isqrt64(n: u64) -> (r: u64)
    ensures
        is_isqrt(n as int, r as int),
{
    let mut lo: u64 = 0;
    let mut hi: u64 = 0x1_0000_0000;
    proof {
        assert((0x1_0000_0000int) * (0x1_0000_0000int) > u64::MAX) by (nonlinear_arith);
    }
    while lo + 1 < hi
        invariant
            lo < hi <= 0x1_0000_0000,
            lo * lo <= n,
            n < hi * hi,
        decreases hi - lo,
    {
        let mid: u64 = lo + (hi - lo) / 2;
        proof {
            assert((mid as int) * (mid as int) <= 0x1_0000_0000 * 0x1_0000_0000)
                by (nonlinear_arith)
                requires
                    0 <= mid <= 0x1_0000_0000,
            ;
        }
        let sq: u128 = (mid as u128) * (mid as u128);
        if sq <= n as u128 {
            lo = mid;
        } else {
            hi = mid;
        }
    }
    lo
}

/// Euclidean norm of an axis pair, rounded down to an integer. The result
/// fits in `u16`: the norm of two 16-bit axes is below 2^16.
pub fn stick_radius(x: i16, y: i16) -> (r: u16)
    ensures
        is_isqrt(x * x + y * y, r as int),
{
    proof {
        assert((x as int) * (x as int) <= 32768 * 32768 && (y as int) * (y as int) <= 32768
            * 32768 && (x as int) * (x as int) >= 0 && (y as int) * (y as int) >= 0)
            by (nonlinear_arith)
            requires
                -32768 <= x <= 32767 && -32768 <= y <= 32767,
        ;
    }
    let n: u64 = ((x as i64) * (x as i64) + (y as i64) * (y as i64)) as u64;
    let r = isqrt64(n);
    proof {
        assert(r < 0x1_0000) by (nonlinear_arith)
            requires
                is_isqrt(n as int, r as int) && n <= 2 * 32768 * 32768,
        ;
    }
    r as u16
}

} // verus!
