//! Integer helpers shared by the wheel and layout code: Rust's truncating
//! division and round-half-away-from-zero, stated over mathematical integers.
use vstd::prelude::*;

verus! {

/// Division rounding toward zero, as Rust's `/` does on signed integers.
pub open spec fn trunc_div(n: int, d: int) -> int
    recommends
        d > 0,
{
    if n >= 0 {
        n / d
    } else {
        -((-n) / d)
    }
}

/// `n / d` rounded to the nearest integer, halves away from zero — what
/// `f64::round` does to the exact quotient.
pub open spec fn round_div(n: int, d: int) -> int
    recommends
        d > 0,
{
    if n >= 0 {
        (2 * n + d) / (2 * d)
    } else {
        -((2 * (-n) + d) / (2 * d))
    }
}

/// `x` limited to `lo..=hi`.
pub open spec fn clamp(x: int, lo: int, hi: int) -> int
    recommends
        lo <= hi,
{
    if x < lo {
        lo
    } else if x > hi {
        hi
    } else {
        x
    }
}

/// Truncating division of a 64-bit value by a positive divisor.
pub fn div_toward_zero(n: i64, d: i64) -> (q: i64)
    requires
        d > 0,
        n > i64::MIN,
    ensures
        q == trunc_div(n as int, d as int),
{
    if n >= 0 {
        n / d
    } else {
        let m: i64 = -n;
        let r: i64 = m / d;
        -r
    }
}

/// `n / d` rounded half away from zero.
pub fn div_round(n: i64, d: i64) -> (q: i64)
    requires
        0 < d <= 0x1_0000,
        -0x1000_0000_0000 <= n <= 0x1000_0000_0000,
    ensures
        q == round_div(n as int, d as int),
{
    if n >= 0 {
        (2 * n + d) / (2 * d)
    } else {
        let m: i64 = -n;
        let r: i64 = (2 * m + d) / (2 * d);
        -r
    }
}

} // verus!
