//! Integer helpers shared by the fixed-point code: division that rounds toward
//! zero, symmetric saturation and the integer square root.

use vstd::prelude::*;

verus! {

/// Quotient of `a` by a positive `b`, rounded toward zero.
pub open spec fn quot(a: int, b: int) -> int
    recommends
        b > 0,
{
    if a >= 0 {
        a / b
    } else {
        -((-a) / b)
    }
}

/// What is left of `a` when the quotient by a positive `b`, rounded toward
/// zero, is taken out of it.
pub open spec fn rest(a: int, b: int) -> int
    recommends
        b > 0,
{
    a - quot(a, b) * b
}

/// `v` saturated to the symmetric range `-limit ..= limit`.
pub open spec fn clamp(v: int, limit: int) -> int
    recommends
        limit >= 0,
{
    if v < -limit {
        -limit
    } else if v > limit {
        limit
    } else {
        v
    }
}

/// Holds when `r` is the largest integer whose square does not exceed `n`.
pub open spec fn is_floor_sqrt(r: int, n: int) -> bool {
    0 <= r && r * r <= n < (r + 1) * (r + 1)
}

/// The integer square root of `n`, rounded down.
pub open spec fn floor_sqrt(n: int) -> int
    recommends
        n >= 0,
{
    choose|r: int| is_floor_sqrt(r, n)
}

/// The square is monotone on the naturals.
pub proof fn lemma_square_monotone(a: int, b: int)
    by (nonlinear_arith)
    requires
        0 <= a <= b,
    ensures
        a * a <= b * b,
{
}

/// At most one integer has the floor-square-root property for a given `n`.
pub proof fn lemma_floor_sqrt_unique(r: int, s: int, n: int)
    requires
        is_floor_sqrt(r, n),
        is_floor_sqrt(s, n),
    ensures
        r == s,
{
    if r < s {
        lemma_square_monotone(r + 1, s);
    } else if s < r {
        lemma_square_monotone(s + 1, r);
    }
}

/// Every natural number has a floor square root.
pub proof fn lemma_floor_sqrt_exists(n: int)
    requires
        n >= 0,
    ensures
        is_floor_sqrt(floor_sqrt(n), n),
{
    assert((n + 1) * (n + 1) > n) by (nonlinear_arith)
        requires
            n >= 0,
    ;
    lemma_floor_sqrt_below(n, n + 1);
}

/// Some `r` below `bound` is the floor square root of `n`, provided the
/// square of `bound` exceeds `n`.
proof fn lemma_floor_sqrt_below(n: int, bound: int)
    requires
        n >= 0,
        bound >= 1,
        bound * bound > n,
    ensures
        is_floor_sqrt(floor_sqrt(n), n),
    decreases bound,
{
    let r = bound - 1;
    if r * r <= n {
        assert(is_floor_sqrt(r, n));
    } else {
        assert(r >= 1) by (nonlinear_arith)
            requires
                r * r > n,
                n >= 0,
                r >= 0,
        ;
        lemma_floor_sqrt_below(n, r);
    }
}

/// A quotient rounded toward zero is no larger in magnitude than its dividend
/// and keeps its sign.
pub proof fn lemma_quot_bounded(a: int, b: int)
    by (nonlinear_arith)
    requires
        b > 0,
    ensures
        a >= 0 ==> 0 <= quot(a, b) <= a,
        a <= 0 ==> a <= quot(a, b) <= 0,
{
}

/// What is left after a quotient rounded toward zero is smaller in
/// magnitude than the divisor and has the sign of the dividend.
pub proof fn lemma_rest_bounded(a: int, b: int)
    by (nonlinear_arith)
    requires
        b > 0,
    ensures
        -b < rest(a, b) < b,
        a >= 0 ==> rest(a, b) >= 0,
        a <= 0 ==> rest(a, b) <= 0,
        quot(a, b) == 0 ==> rest(a, b) == a,
{
}

/// A product is bounded by the product of the bounds of its factors.
pub proof fn lemma_product_bounded(a: int, b: int, la: int, lb: int)
    by (nonlinear_arith)
    requires
        -la <= a <= la,
        -lb <= b <= lb,
    ensures
        -(la * lb) <= a * b <= la * lb,
{
}

/// Computes [`quot`] on machine integers.
pub fn quot_i128(a: i128, b: i128) -> (q: i128)
    requires
        b > 0,
    ensures
        q == quot(a as int, b as int),
{
    a / b
}

/// Computes [`rest`] on machine integers.
pub fn rest_i128(a: i128, b: i128) -> (r: i128)
    requires
        b > 0,
    ensures
        r == rest(a as int, b as int),
        -b < r < b,
{
    proof {
        lemma_rest_bounded(a as int, b as int);
        assert((a >= 0 ==> 0 <= quot(a as int, b as int) * b <= a) && (a <= 0 ==> a <= quot(
            a as int,
            b as int,
        ) * b <= 0)) by (nonlinear_arith)
            requires
                b > 0,
        ;
    }
    a - (a / b) * b
}

/// The value of `v` saturated to `-limit ..= limit`.
pub fn clamp_i128(v: i128, limit: i64) -> (r: i64)
    requires
        limit >= 0,
    ensures
        r == clamp(v as int, limit as int),
{
    if v < -(limit as i128) {
        -limit
    } else if v > limit as i128 {
        limit
    } else {
        v as i64
    }
}

/// Integer square root by bisection: the largest `r` with `r * r <= n`.
pub fn isqrt(n: u128) -> (r: u128)
    ensures
        is_floor_sqrt(r as int, n as int),
        r == floor_sqrt(n as int),
        r <= u64::MAX,
{
    let mut lo: u128 = 0;
    let mut hi: u128 = 0x1_0000_0000_0000_0000;
    assert(0x1_0000_0000_0000_0000int * 0x1_0000_0000_0000_0000int > u128::MAX);
    while hi - lo > 1
        invariant
            lo < hi <= 0x1_0000_0000_0000_0000,
            lo * lo <= n < hi * hi,
        decreases hi - lo,
    {
        let mid: u128 = lo + (hi - lo) / 2;
        assert(mid * mid <= u128::MAX) by (nonlinear_arith)
            requires
                mid <= 0xffff_ffff_ffff_ffff,
        ;
        if mid * mid <= n {
            lo = mid;
        } else {
            hi = mid;
        }
    }
    proof {
        assert(is_floor_sqrt(lo as int, n as int));
        lemma_floor_sqrt_unique(lo as int, floor_sqrt(n as int), n as int);
    }
    lo
}

} // verus!
