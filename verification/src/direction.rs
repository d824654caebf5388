//! Direction buckets: a continuous angle quantized into a discrete,
//! structurally comparable key at a configurable decimal precision.
//!
//! An angle reaches the engine as a fixed-point value in units of
//! 10^-9 radian (the host computes the arctangent and scales it), so the
//! quantization rule itself — truncate to the integer part, round the
//! fractional part half away from zero at `precision` decimal digits — is
//! exact integer arithmetic and is verified here.

use vstd::prelude::*;

verus! {

/// One fixed-point angle unit is 10^-9 radian.
pub const ANGLE_SCALE: u64 = 1_000_000_000;

/// Number of decimal digits of `ANGLE_SCALE`; a bucket precision cannot
/// exceed it, since finer digits do not exist in the fixed-point input.
pub const MAX_DIR_PRECISION: u32 = 9;

/// A quantized direction. Equality is structural: two angles that land on
/// the same integer part and the same rounded fractional digits at the same
/// precision are the same key.
#[derive(Clone, Copy, Debug, Hash, PartialEq, Eq, Structural)]
pub struct Direction {
    /// Whole radians, truncated toward zero (so `-0.7` rad has integer part 0).
    pub int_part: i64,
    /// The first `precision` decimal digits of the fractional part's
    /// magnitude, rounded half away from zero. May equal `10^precision`
    /// when the fraction rounds up.
    pub frac_part: u64,
    /// The precision this bucket was made at; kept for comparison and output.
    pub precision: u32,
}

/// `10^e`.
pub open spec fn pow10(e: nat) -> nat
    decreases e,
{
    if e == 0 {
        1
    } else {
        10 * pow10((e - 1) as nat)
    }
}

/// Division truncating toward zero, the rule `f64::trunc` follows.
pub open spec fn trunc_div(a: int, b: int) -> int {
    if a >= 0 {
        a / b
    } else {
        -((-a) / b)
    }
}

/// The magnitude of the remainder of `a` by `b`: `|a| mod b`.
pub open spec fn abs_mod(a: int, b: int) -> int {
    if a >= 0 {
        a % b
    } else {
        (-a) % b
    }
}

/// Rounding half away from zero of a non-negative fractional remainder
/// `fr` (in angle units) to `precision` decimal digits: equals
/// `round(fr * 10^precision / ANGLE_SCALE)`.
pub open spec fn round_frac(fr: int, precision: nat) -> int {
    let d = pow10((MAX_DIR_PRECISION - precision) as nat) as int;
    (fr + d / 2) / d
}

/// The bucket a fixed-point angle falls in at a given precision.
pub open spec fn spec_quantize(angle: int, precision: nat) -> (int, int) {
    (
        trunc_div(angle, ANGLE_SCALE as int),
        round_frac(abs_mod(angle, ANGLE_SCALE as int), precision),
    )
}

/// `10^e` for the small exponents a precision allows.
pub fn pow10_u64(e: u32) -> (r: u64)
    requires
        e <= MAX_DIR_PRECISION,
    ensures
        r == pow10(e as nat),
{
    let mut r: u64 = 1;
    let mut i: u32 = 0;
    while i < e
        invariant
            i <= e <= MAX_DIR_PRECISION,
            r == pow10(i as nat),
        decreases e - i,
    {
        proof {
            lemma_pow10_bound(e as nat);
            lemma_pow10_monotone((i + 1) as nat, e as nat);
        }
        r = r * 10;
        i = i + 1;
    }
    r
}

/// `10^e <= 10^9` for `e <= 9`.
proof fn lemma_pow10_monotone(e1: nat, e2: nat)
    requires
        e1 <= e2,
    ensures
        pow10(e1) <= pow10(e2),
    decreases e2,
{
    if e1 < e2 {
        lemma_pow10_monotone(e1, (e2 - 1) as nat);
    }
}

proof fn lemma_pow10_bound(e: nat)
    requires
        e <= 9,
    ensures
        pow10(e) <= 1_000_000_000,
{
    assert(pow10(9) == 1_000_000_000) by {
        reveal_with_fuel(pow10, 10);
    }
    lemma_pow10_monotone(e, 9);
}

impl Direction {
    /// Splits a fixed-point angle (units of 10^-9 radian) into the integer
    /// part and the fractional part's magnitude rounded half away from zero
    /// to `precision` decimal digits.
    pub fn new(angle: i64, precision: u32) -> (d: Direction)
        requires
            precision <= MAX_DIR_PRECISION,
        ensures
            d.int_part == spec_quantize(angle as int, precision as nat).0,
            d.frac_part == spec_quantize(angle as int, precision as nat).1,
            d.precision == precision,
    {
        let neg = angle < 0;
        let wide: i128 = angle as i128;
        let mag: u64 = if neg {
            (-wide) as u64
        } else {
            wide as u64
        };
        let ip_mag: u64 = mag / ANGLE_SCALE;
        let int_part: i64 = if neg {
            -(ip_mag as i64)
        } else {
            ip_mag as i64
        };
        let frac_raw: u64 = mag % ANGLE_SCALE;
        proof {
            lemma_pow10_bound((MAX_DIR_PRECISION - precision) as nat);
        }
        let divisor: u64 = pow10_u64(MAX_DIR_PRECISION - precision);
        proof {
            lemma_pow10_monotone(0, (MAX_DIR_PRECISION - precision) as nat);
        }
        let frac_part: u64 = (frac_raw + divisor / 2) / divisor;
        Direction { int_part, frac_part, precision }
    }
}

} // verus!
