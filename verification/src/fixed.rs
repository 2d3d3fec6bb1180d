//! Scalar helpers for the scaled fixed-point arithmetic: truncating
//! division and the integer square root, as specification functions,
//! as verified executable routines, and as the lemmas the rest of the
//! crate needs about them.

use vstd::prelude::*;

verus! {

use vstd::math::abs;
use vstd::arithmetic::div_mod::lemma_div_pos_is_pos;

/// Division rounded toward zero, the rounding the executable scaled
/// arithmetic performs.  Unspecified when b is zero.
pub open spec fn quot(a: int, b: int) -> int {
    if (a >= 0) == (b >= 0) {
        abs(a) as int / abs(b) as int
    } else {
        -(abs(a) as int / abs(b) as int)
    }
}

/// The integer square root, rounded down.  Zero below zero, where it
/// is never asked for.
pub open spec fn isqrt(n: int) -> int
    recommends
        n >= 0,
    decreases n,
    when n >= 0
{
    if n <= 0 {
        0
    } else {
        let r = isqrt(n - 1);
        if (r + 1) * (r + 1) <= n {
            r + 1
        } else {
            r
        }
    }
}

/// isqrt(n) is the unique nonnegative r with r * r <= n < (r + 1) * (r + 1).
pub proof fn lemma_isqrt_bounds(n: int)
    requires
        n >= 0,
    ensures
        isqrt(n) >= 0,
        isqrt(n) * isqrt(n) <= n,
        n < (isqrt(n) + 1) * (isqrt(n) + 1),
    decreases n,
{
    if n == 0 {
    } else {
        lemma_isqrt_bounds(n - 1);
        let r = isqrt(n - 1);
        if (r + 1) * (r + 1) <= n {
            assert(isqrt(n) == r + 1);
            assert(n <= (r + 1) * (r + 1) + 1);
            assert((r + 1) * (r + 1) + 1 < (r + 2) * (r + 2)) by (nonlinear_arith)
                requires r >= 0;
        } else {
            assert(isqrt(n) == r);
        }
    }
}

pub proof fn lemma_isqrt_unique(r: int, n: int)
    requires
        r >= 0,
        r * r <= n,
        n < (r + 1) * (r + 1),
    ensures
        isqrt(n) == r,
{
    lemma_isqrt_bounds(n);
    let s = isqrt(n);
    if s < r {
        assert((s + 1) * (s + 1) <= r * r) by (nonlinear_arith)
            requires 0 <= s + 1 <= r;
    }
    if s > r {
        assert((r + 1) * (r + 1) <= s * s) by (nonlinear_arith)
            requires 0 <= r + 1 <= s;
    }
}

/// If n is at most m squared, its square root is at most m.
pub proof fn lemma_isqrt_le(m: int, n: int)
    requires
        0 <= n,
        0 <= m,
        n <= m * m,
    ensures
        isqrt(n) <= m,
{
    lemma_isqrt_bounds(n);
    if isqrt(n) > m {
        assert((m + 1) * (m + 1) <= isqrt(n) * isqrt(n)) by (nonlinear_arith)
            requires 0 <= m + 1 <= isqrt(n);
        assert(m * m < (m + 1) * (m + 1)) by (nonlinear_arith)
            requires m >= 0;
    }
}

/// If r squared is at most n, then r is at most the square root of n.
pub proof fn lemma_isqrt_ge(r: int, n: int)
    requires
        0 <= r,
        r * r <= n,
    ensures
        r <= isqrt(n),
{
    lemma_isqrt_bounds(n);
    if r > isqrt(n) {
        assert((isqrt(n) + 1) * (isqrt(n) + 1) <= r * r) by (nonlinear_arith)
            requires 0 <= isqrt(n) + 1 <= r;
    }
}

/// Scaling the radicand by a square scales the root by the factor, up
/// to the rounding of the root: isqrt(k * k * n) lies within k - 1
/// above k * isqrt(n).
pub proof fn lemma_isqrt_scale(k: int, n: int)
    requires
        k >= 1,
        n >= 0,
    ensures
        k * isqrt(n) <= isqrt(k * k * n),
        isqrt(k * k * n) <= k * isqrt(n) + k - 1,
{
    let m = isqrt(n);
    lemma_isqrt_bounds(n);
    assert(k * k * n >= 0) by (nonlinear_arith)
        requires k >= 1, n >= 0;
    assert((k * m) * (k * m) <= k * k * n) by (nonlinear_arith)
        requires m * m <= n, k >= 1, m >= 0;
    assert(k * m >= 0) by (nonlinear_arith)
        requires k >= 1, m >= 0;
    lemma_isqrt_ge(k * m, k * k * n);
    let s = isqrt(k * k * n);
    lemma_isqrt_bounds(k * k * n);
    assert(k * k * n < (k * m + k) * (k * m + k)) by (nonlinear_arith)
        requires n < (m + 1) * (m + 1), k >= 1, m >= 0;
    if s >= k * m + k {
        assert((k * m + k) * (k * m + k) <= s * s) by (nonlinear_arith)
            requires 0 <= k * m + k && k * m + k <= s;
        assert(false);
    }
}

/// Truncating division is odd in its dividend.
pub proof fn lemma_quot_neg(a: int, b: int)
    requires
        b != 0,
    ensures
        quot(-a, b) == -quot(a, b),
{
    assert(abs(-a) == abs(a));
    if a == 0 {
        assert(abs(0int) as int / abs(b) as int == 0) by {
            vstd::arithmetic::div_mod::lemma_div_of0(abs(b) as int);
        }
    }
}

/// The defining property of truncating division, stated over
/// absolute values: abs(b) * abs(quot(a, b)) <= abs(a), with the
/// next multiple of abs(b) lying strictly beyond abs(a).
pub proof fn lemma_quot_bounds(a: int, b: int)
    requires
        b != 0,
    ensures
        abs(b) * abs(quot(a, b)) <= abs(a),
        abs(a) < abs(b) * (abs(quot(a, b)) + 1),
        abs(quot(a, b)) == abs(a) as int / abs(b) as int,
{
    let ua = abs(a) as int;
    let ub = abs(b) as int;
    lemma_div_pos_is_pos(ua, ub);
    assert(ub * (ua / ub) <= ua && ua < ub * (ua / ub + 1)) by (nonlinear_arith)
        requires
            ua >= 0,
            ub > 0;
    assert(abs(quot(a, b)) == ua / ub);
}

/// The absolute value distributes over products.
pub proof fn lemma_abs_mul(a: int, b: int)
    ensures
        abs(a * b) == abs(a) * abs(b),
{
    if a >= 0 {
        if b >= 0 {
            assert(a * b >= 0) by (nonlinear_arith)
                requires a >= 0, b >= 0;
        } else {
            assert(a * b <= 0 && -(a * b) == a * (-b)) by (nonlinear_arith)
                requires a >= 0, b < 0;
        }
    } else {
        if b >= 0 {
            assert(a * b <= 0 && -(a * b) == (-a) * b) by (nonlinear_arith)
                requires a < 0, b >= 0;
        } else {
            assert(a * b >= 0 && a * b == (-a) * (-b)) by (nonlinear_arith)
                requires a < 0, b < 0;
        }
    }
}

/// Dividing an exact multiple recovers the factor.
pub proof fn lemma_quot_mul_exact(a: int, b: int)
    requires
        b > 0,
    ensures
        quot(a * b, b) == a,
{
    lemma_quot_bounds(a * b, b);
    let q = quot(a * b, b);
    let ua = abs(a);
    let ub = abs(b);
    let uq = abs(q);
    lemma_abs_mul(a, b);
    assert(abs(a * b) == ua * ub);
    assert(ub * uq <= ua * ub);
    assert(ua * ub < ub * (uq + 1));
    assert(uq == ua) by (nonlinear_arith)
        requires
            ub * uq <= ua * ub,
            ua * ub < ub * (uq + 1),
            ub >= 1;
    if a == 0 {
        assert(q == 0);
    } else if a > 0 {
        assert(a * b > 0) by (nonlinear_arith)
            requires a > 0, b > 0;
        assert(q == a);
    } else {
        assert(a * b < 0) by (nonlinear_arith)
            requires a < 0, b > 0;
        assert(q == -abs(q));
        assert(q == a);
    }
}

/// Division rounded toward zero over i128, written with unsigned
/// machine division so that each step carries its specification.
pub fn quot_i128(a: i128, b: i128) -> (q: i128)
    requires
        b != 0,
        a != i128::MIN,
        b != i128::MIN,
    ensures
        q as int == quot(a as int, b as int),
{
    let ua: u128 = if a < 0 { (-a) as u128 } else { a as u128 };
    let ub: u128 = if b < 0 { (-b) as u128 } else { b as u128 };
    let uq: u128 = ua / ub;
    proof {
        assert(ua as int == abs(a as int));
        assert(ub as int == abs(b as int));
        lemma_quot_bounds(a as int, b as int);
        assert(uq <= ua) by (nonlinear_arith)
            requires uq == ua as int / ub as int, ub >= 1, ua >= 0;
    }
    if (a < 0) != (b < 0) {
        -(uq as i128)
    } else {
        uq as i128
    }
}

/// The integer square root over u128, by binary search on the answer.
pub fn isqrt_u128(n: u128) -> (r: u128)
    ensures
        r as int == isqrt(n as int),
        r <= 0xffff_ffff_ffff_ffff,
{
    let mut lo: u128 = 0;
    let mut hi: u128 = if n < 0xffff_ffff_ffff_ffff { n } else { 0xffff_ffff_ffff_ffff };
    proof {
        if n < 0xffff_ffff_ffff_ffff {
            assert((n + 1) * (n + 1) > n) by (nonlinear_arith);
        } else {
            assert((0xffff_ffff_ffff_ffffu128 + 1) * (0xffff_ffff_ffff_ffffu128 + 1) > u128::MAX as int) by (nonlinear_arith);
        }
    }
    while lo < hi
        invariant
            lo <= hi,
            hi <= 0xffff_ffff_ffff_ffff,
            (lo as int) * (lo as int) <= n as int,
            (n as int) < (hi as int + 1) * (hi as int + 1),
        decreases hi - lo,
    {
        let mid: u128 = lo + (hi - lo + 1) / 2;
        proof {
            assert(mid * mid <= 0xffff_ffff_ffff_ffffu128 * 0xffff_ffff_ffff_ffffu128) by (nonlinear_arith)
                requires mid <= 0xffff_ffff_ffff_ffffu128;
        }
        if mid * mid <= n {
            lo = mid;
        } else {
            hi = mid - 1;
        }
    }
    proof {
        lemma_isqrt_unique(lo as int, n as int);
    }
    lo
}

/// The square of a coordinate, lifted to u128 where it always fits.
pub fn square_i64(c: i64) -> (s: u128)
    ensures
        s as int == (c as int) * (c as int),
{
    let w: i128 = c as i128;
    let m: u128 = if w < 0 { (-w) as u128 } else { w as u128 };
    proof {
        assert(m as int == abs(c as int));
        assert((m as int) * (m as int) == (c as int) * (c as int)) by (nonlinear_arith)
            requires m as int == abs(c as int);
        assert((m as int) * (m as int) <= 0x8000_0000_0000_0000i128 * 0x8000_0000_0000_0000i128) by (nonlinear_arith)
            requires m <= 0x8000_0000_0000_0000u128;
    }
    m * m
}

} // verus!
