//! Fixed-point arithmetic helpers.
//!
//! Scalar signal values (smoothing factors, weights, loudness readings,
//! frequencies) are unsigned fixed-point numbers: a `u64` counting
//! [`SCALE`]ths, so `SCALE` itself stands for 1.0. Audio samples are signed
//! fixed-point numbers held in an `i32`.

use vstd::prelude::*;

verus! {

/// Number of fixed-point units per 1.0.
pub const SCALE: u64 = 65536;

/// Largest scalar signal value the engine produces or accepts: 65536.0.
pub const NUM_MAX: u64 = 0x1_0000_0000;

/// `a / b` rounded to the nearest integer (ties round up).
pub open spec fn rounded_div(a: int, b: int) -> int
    recommends
        b > 0,
{
    (a + b / 2) / b
}

/// Division of `a` by `b`, rounded to nearest.
pub fn div_round(a: u64, b: u64) -> (r: u64)
    requires
        b > 0,
        a + b / 2 <= u64::MAX,
    ensures
        r == rounded_div(a as int, b as int),
        r <= a,
{
    let r = (a + b / 2) / b;
    assert(r <= a) by (nonlinear_arith)
        requires
            b >= 1,
            r == (a + b / 2) as int / b as int,
    ;
    r
}

/// Smaller of two values.
pub open spec fn spec_min(a: int, b: int) -> int {
    if a <= b {
        a
    } else {
        b
    }
}

/// `r` is the integer square root of `n`.
pub open spec fn is_isqrt(n: int, r: int) -> bool {
    r >= 0 && r * r <= n < (r + 1) * (r + 1)
}

/// The integer square root as a function.
pub open spec fn sqrt_floor(n: int) -> int {
    choose|r: int| is_isqrt(n, r)
}

/// The integer square root is unique, so any witness equals [`sqrt_floor`].
pub proof fn lemma_sqrt_floor(n: int, r: int)
    requires
        is_isqrt(n, r),
    ensures
        r == sqrt_floor(n),
{
    let c = choose|q: int| is_isqrt(n, q);
    assert(is_isqrt(n, c));
    assert(r == c) by (nonlinear_arith)
        requires
            is_isqrt(n, r),
            is_isqrt(n, c),
    ;
}

/// Integer square root by binary search.
pub fn isqrt(n: u64) -> (r: u64)
    ensures
        is_isqrt(n as int, r as int),
{
    let mut lo: u64 = 0;
    let mut hi: u64 = 4294967296;
    while lo + 1 < hi
        invariant
            lo < hi <= 4294967296,
            lo * lo <= n,
            n < hi * hi,
        decreases hi - lo,
    {
        let mid: u64 = lo + (hi - lo) / 2;
        assert(mid * mid < u64::MAX) by (nonlinear_arith)
            requires
                mid < 4294967296u64,
        ;
        if mid * mid <= n {
            lo = mid;
        } else {
            hi = mid;
        }
    }
    lo
}

} // verus!
