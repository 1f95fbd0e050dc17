//! Integer helpers for the fixed-point arithmetic of the simulation.
use vstd::prelude::*;

verus! {

/// Sub-units in one unit of the arena: positions are held in thousandths of a unit.
pub const UNIT: i64 = 1000;

/// Time steps are given in microseconds.
pub const MICROS_PER_SECOND: i64 = 1_000_000;

/// Division that rounds toward zero, as Rust's `/` does on signed integers.
pub open spec fn tdiv(a: int, d: int) -> int {
    if (a >= 0) == (d > 0) {
        abs(a) / abs(d)
    } else {
        -(abs(a) / abs(d))
    }
}

pub open spec fn abs(a: int) -> int {
    if a < 0 {
        -a
    } else {
        a
    }
}

/// `r` is the integer square root of `n`.
pub open spec fn is_isqrt(n: int, r: int) -> bool {
    0 <= r && r * r <= n && n < (r + 1) * (r + 1)
}

/// The integer square root of `n >= 0`.
pub open spec fn sqrt_floor(n: int) -> int {
    choose|r: int| is_isqrt(n, r)
}

pub proof fn lemma_isqrt_exists(n: int)
    requires
        n >= 0,
    ensures
        is_isqrt(n, sqrt_floor(n)),
        n > 0 ==> sqrt_floor(n) > 0,
    decreases n,
{
    if n == 0 {
        assert(is_isqrt(0, 0));
    } else {
        lemma_isqrt_exists(n - 1);
        let r = sqrt_floor(n - 1);
        if (r + 1) * (r + 1) <= n {
            assert(n < (r + 2) * (r + 2)) by (nonlinear_arith)
                requires
                    n - 1 < (r + 1) * (r + 1),
                    r >= 0,
            ;
            assert(is_isqrt(n, r + 1));
        } else {
            assert(is_isqrt(n, r));
        }
    }
    let q = sqrt_floor(n);
    if n > 0 && q == 0 {
        assert(n < (q + 1) * (q + 1));
    }
}

pub proof fn lemma_isqrt_unique(n: int, r1: int, r2: int)
    requires
        is_isqrt(n, r1),
        is_isqrt(n, r2),
    ensures
        r1 == r2,
{
    if r1 < r2 {
        assert((r1 + 1) * (r1 + 1) <= r2 * r2) by (nonlinear_arith)
            requires
                0 <= r1 + 1 <= r2,
        ;
    }
    if r2 < r1 {
        assert((r2 + 1) * (r2 + 1) <= r1 * r1) by (nonlinear_arith)
            requires
                0 <= r2 + 1 <= r1,
        ;
    }
}

/// A number whose square does not pass `(r + 1)^2` is at most `r`.
pub proof fn lemma_below_isqrt(a: int, n: int, r: int)
    requires
        is_isqrt(n, r),
        a * a <= n,
    ensures
        abs(a) <= r,
{
    if abs(a) > r {
        assert((r + 1) * (r + 1) <= abs(a) * abs(a)) by (nonlinear_arith)
            requires
                0 <= r + 1 <= abs(a),
        ;
        assert(abs(a) * abs(a) == a * a) by (nonlinear_arith);
    }
}

pub proof fn lemma_tdiv_bound(a: int, d: int)
    requires
        d > 0,
    ensures
        abs(tdiv(a, d)) == abs(a) / d,
        abs(tdiv(a, d)) <= abs(a),
        tdiv(-a, d) == -tdiv(a, d),
{
    assert(abs(a) / d <= abs(a)) by (nonlinear_arith)
        requires
            d > 0,
            abs(a) >= 0,
    ;
    if a == 0 {
        assert(0int / d == 0);
    }
}

/// Truncating division of an `i128` by a non-zero divisor.
pub fn div_trunc(a: i128, d: i128) -> (r: i128)
    requires
        d != 0,
        a > i128::MIN,
        d > i128::MIN,
    ensures
        r == tdiv(a as int, d as int),
{
    let m: i128 = if a < 0 {
        -a
    } else {
        a
    };
    let e: i128 = if d < 0 {
        -d
    } else {
        d
    };
    let q: i128 = m / e;
    if (a >= 0) == (d > 0) {
        q
    } else {
        -q
    }
}

/// Quotient magnitude by a non-zero divisor: never above the dividend's.
pub proof fn lemma_tdiv_nonzero_bound(a: int, d: int)
    requires
        d != 0,
    ensures
        abs(tdiv(a, d)) == abs(a) / abs(d),
        abs(tdiv(a, d)) <= abs(a),
{
    assert(abs(a) / abs(d) <= abs(a)) by (nonlinear_arith)
        requires
            abs(d) >= 1,
            abs(a) >= 0,
    ;
    assert(abs(a) / abs(d) >= 0) by (nonlinear_arith)
        requires
            abs(d) >= 1,
            abs(a) >= 0,
    ;
}

/// Integer square root by bisection.
pub fn isqrt(n: u64) -> (r: u64)
    ensures
        is_isqrt(n as int, r as int),
        r == sqrt_floor(n as int),
{
    let mut lo: u64 = 0;
    let mut hi: u64 = 0x1_0000_0000;
    assert(hi * hi > n) by (nonlinear_arith)
        requires
            hi == 0x1_0000_0000u64,
            n <= u64::MAX,
    ;
    while hi - lo > 1
        invariant
            lo < hi <= 0x1_0000_0000,
            lo * lo <= n,
            n < hi * hi,
        decreases hi - lo,
    {
        let mid: u64 = lo + (hi - lo) / 2;
        assert((mid as u128) * (mid as u128) <= 0x1_0000_0000u128 * 0x1_0000_0000u128)
            by (nonlinear_arith)
            requires
                mid <= 0x1_0000_0000u64,
        ;
        let sq: u128 = (mid as u128) * (mid as u128);
        if sq <= n as u128 {
            lo = mid;
        } else {
            hi = mid;
        }
    }
    assert(hi == lo + 1);
    proof {
        let r = sqrt_floor(n as int);
        assert(is_isqrt(n as int, lo as int));
        lemma_isqrt_unique(n as int, lo as int, r);
    }
    lo
}

} // verus!
