//! The algebraic laws of the tuple algebra, stated over the same
//! models the operations' contracts use and proved for every input.

use vstd::prelude::*;

verus! {

use vstd::math::abs;
use crate::fixed::quot;
use crate::fixed::isqrt;
use crate::fixed::lemma_quot_neg;
use crate::fixed::lemma_quot_mul_exact;
use crate::fixed::lemma_isqrt_scale;
use crate::fixed::lemma_isqrt_bounds;
use crate::fixed::lemma_isqrt_ge;
use crate::fixed::lemma_quot_bounds;
use crate::fixed::lemma_abs_mul;
use vstd::arithmetic::mul::lemma_mul_is_distributive_add;
use vstd::arithmetic::mul::lemma_mul_is_distributive_add_other_way;
use vstd::arithmetic::mul::lemma_mul_inequality;
use vstd::arithmetic::mul::lemma_mul_left_inequality;
use vstd::arithmetic::mul::lemma_mul_is_commutative;
use vstd::arithmetic::mul::lemma_mul_basics;
use vstd::arithmetic::mul::lemma_mul_strict_inequality;
use vstd::arithmetic::mul::lemma_mul_nonnegative;
use crate::tuple::TupleModel;
use crate::tuple::SCALE;
use crate::tuple::EPSILON;
use crate::tuple::point_model;
use crate::tuple::vector_model;
use crate::tuple::is_point_model;
use crate::tuple::add_model;
use crate::tuple::neg_model;
use crate::tuple::cross_model;
use crate::tuple::cross_x_raw;
use crate::tuple::cross_y_raw;
use crate::tuple::cross_z_raw;
use crate::tuple::approx_eq_model;
use crate::tuple::scale_model;
use crate::tuple::sum_sq;
use crate::tuple::mag_model;
use crate::tuple::lemma_square_nonneg;
use crate::tuple::lemma_component_le_magnitude;
use crate::tuple::lemma_quot_by_larger;
use crate::tuple::div_model;

/// The zero tuple, which is also the zero vector.
pub open spec fn zero_model() -> TupleModel {
    TupleModel { x: 0, y: 0, z: 0, w: 0 }
}

/// Whatever its coordinates, a constructed point is a point and not a
/// vector, and a constructed vector is a vector and not a point.
pub proof fn lemma_point_vector_discrimination(x: int, y: int, z: int)
    ensures
        is_point_model(point_model(x, y, z)),
        !is_point_model(vector_model(x, y, z)),
{
}

/// Addition of tuples is commutative.
pub proof fn lemma_add_commutes(a: TupleModel, b: TupleModel)
    ensures
        add_model(a, b) == add_model(b, a),
{
}

/// A tuple plus its own negation is the zero tuple — exactly, and so
/// in particular within the approximate equality.
pub proof fn lemma_add_negate_is_zero(v: TupleModel)
    ensures
        add_model(v, neg_model(v)) == zero_model(),
        approx_eq_model(add_model(v, neg_model(v)), zero_model()),
{
}

/// The approximate equality is reflexive.
pub proof fn lemma_approx_eq_reflexive(a: TupleModel)
    ensures
        approx_eq_model(a, a),
{
}

/// The approximate equality is symmetric.  (It is not transitive at
/// the boundary of the tolerance, as no approximate comparison is.)
pub proof fn lemma_approx_eq_symmetric(a: TupleModel, b: TupleModel)
    ensures
        approx_eq_model(a, b) == approx_eq_model(b, a),
{
}

/// The cross product anticommutes: crossing the same two vectors in
/// the other order yields the exact componentwise negation.
pub proof fn lemma_cross_anticommutes(a: TupleModel, b: TupleModel)
    ensures
        cross_model(a, b) == neg_model(cross_model(b, a)),
{
    assert(a.y * b.z - a.z * b.y == -(b.y * a.z - b.z * a.y)) by (nonlinear_arith);
    assert(a.z * b.x - a.x * b.z == -(b.z * a.x - b.x * a.z)) by (nonlinear_arith);
    assert(a.x * b.y - a.y * b.x == -(b.x * a.y - b.y * a.x)) by (nonlinear_arith);
    lemma_quot_neg(cross_x_raw(b, a), SCALE as int);
    lemma_quot_neg(cross_y_raw(b, a), SCALE as int);
    lemma_quot_neg(cross_z_raw(b, a), SCALE as int);
}

/// Scaling by a whole factor — a raw factor of k * SCALE, k nonzero —
/// scales the magnitude by abs(k), up to the downward rounding of the
/// square root: the scaled magnitude lies between abs(k) times the
/// original and that plus abs(k) - 1.
pub proof fn lemma_scale_magnitude(v: TupleModel, k: int)
    requires
        k != 0,
    ensures
        abs(k) * mag_model(v) <= mag_model(scale_model(v, k * SCALE)),
        mag_model(scale_model(v, k * SCALE)) <= abs(k) * mag_model(v) + abs(k) - 1,
{
    let s = scale_model(v, k * SCALE);
    assert(v.x * (k * SCALE) == (v.x * k) * SCALE) by (nonlinear_arith);
    assert(v.y * (k * SCALE) == (v.y * k) * SCALE) by (nonlinear_arith);
    assert(v.z * (k * SCALE) == (v.z * k) * SCALE) by (nonlinear_arith);
    assert(v.w * (k * SCALE) == (v.w * k) * SCALE) by (nonlinear_arith);
    lemma_quot_mul_exact(v.x * k, SCALE as int);
    lemma_quot_mul_exact(v.y * k, SCALE as int);
    lemma_quot_mul_exact(v.z * k, SCALE as int);
    lemma_quot_mul_exact(v.w * k, SCALE as int);
    assert(s == (TupleModel { x: v.x * k, y: v.y * k, z: v.z * k, w: v.w * k }));
    let n = sum_sq(v);
    lemma_square_nonneg(v.x);
    lemma_square_nonneg(v.y);
    lemma_square_nonneg(v.z);
    lemma_square_nonneg(v.w);
    lemma_square_nonneg(k);
    let ak = abs(k) as int;
    let k2 = k * k;
    let sx = v.x * v.x;
    let sy = v.y * v.y;
    let sz = v.z * v.z;
    let sw = v.w * v.w;
    assert((v.x * k) * (v.x * k) == k2 * sx) by (nonlinear_arith)
        requires k2 == k * k, sx == v.x * v.x;
    assert((v.y * k) * (v.y * k) == k2 * sy) by (nonlinear_arith)
        requires k2 == k * k, sy == v.y * v.y;
    assert((v.z * k) * (v.z * k) == k2 * sz) by (nonlinear_arith)
        requires k2 == k * k, sz == v.z * v.z;
    assert((v.w * k) * (v.w * k) == k2 * sw) by (nonlinear_arith)
        requires k2 == k * k, sw == v.w * v.w;
    lemma_mul_is_distributive_add(k2, sx + sy + sz, sw);
    lemma_mul_is_distributive_add(k2, sx + sy, sz);
    lemma_mul_is_distributive_add(k2, sx, sy);
    assert(sum_sq(s) == k2 * n);
    assert(sum_sq(s) == (ak * ak) * n);
    lemma_isqrt_scale(ak, n);
    assert(mag_model(s) == isqrt(ak * ak * n));
}

/// Four absolute values never sum to more than twice the root of their
/// squares' sum: the Cauchy–Schwarz bound for four components.
proof fn lemma_sum_abs_sq(a: int, b: int, c: int, d: int)
    ensures
        ((abs(a) + abs(b) + abs(c) + abs(d)) as int) * ((abs(a) + abs(b) + abs(c) + abs(
            d,
        )) as int) <= 4 * (a * a + b * b + c * c + d * d),
{
    let ua = abs(a) as int;
    let ub = abs(b) as int;
    let uc = abs(c) as int;
    let ud = abs(d) as int;
    lemma_square_nonneg(a);
    lemma_square_nonneg(b);
    lemma_square_nonneg(c);
    lemma_square_nonneg(d);
    assert((ua + ub + uc + ud) * (ua + ub + uc + ud) <= 4 * (ua * ua + ub * ub + uc * uc + ud
        * ud)) by (nonlinear_arith)
        requires
            ua >= 0,
            ub >= 0,
            uc >= 0,
            ud >= 0;
}

/// One squared component of a scaling, bounded on both sides: with
/// q = quot(c * s, SCALE as int), the value q * q * SCALE * SCALE approximates
/// c * c * s * s from below, short of it by at most
/// 2 * SCALE * SCALE * abs(q) + SCALE * SCALE.
proof fn lemma_scale_component_sq(c: int, s: int)
    ensures
        (quot(c * s, SCALE as int) * quot(c * s, SCALE as int)) * ((SCALE as int) * (SCALE as int)) <= (c * c)
            * (s * s),
        (c * c) * (s * s) <= (quot(c * s, SCALE as int) * quot(c * s, SCALE as int)) * ((SCALE as int) * (
        SCALE as int)) + ((SCALE as int) * (SCALE as int)) * (abs(quot(c * s, SCALE as int)) as int) + ((
        SCALE as int) * (SCALE as int)) * (abs(quot(c * s, SCALE as int)) as int) + ((SCALE as int) * (
        SCALE as int)),
{
    lemma_quot_bounds(c * s, SCALE as int);
    lemma_abs_mul(c, s);
    let q = quot(c * s, SCALE as int);
    let uq = abs(q) as int;
    let uc = abs(c) as int;
    let us = abs(s) as int;
    let sc = SCALE as int;
    lemma_square_nonneg(q);
    lemma_square_nonneg(c);
    lemma_square_nonneg(s);
    assert((q * q) * (sc * sc) <= (c * c) * (s * s)) by (nonlinear_arith)
        requires
            sc * uq <= uc * us,
            uq >= 0,
            uc >= 0,
            us >= 0,
            sc >= 1,
            q * q == uq * uq,
            c * c == uc * uc,
            s * s == us * us;
    assert((c * c) * (s * s) <= (q * q) * (sc * sc) + (sc * sc) * uq + (sc * sc) * uq + (sc
        * sc)) by (nonlinear_arith)
        requires
            uc * us < sc * (uq + 1),
            uq >= 0,
            uc >= 0,
            us >= 0,
            sc >= 1,
            q * q == uq * uq,
            c * c == uc * uc,
            s * s == us * us;
}

/// Scaling by any nonzero raw factor s scales the magnitude by
/// abs(s) / SCALE, up to rounding: SCALE times the scaled magnitude
/// falls short of abs(s) times the original by less than abs(s), and
/// overshoots it by less than 3 * SCALE.
pub proof fn lemma_scale_magnitude_general(v: TupleModel, s: int)
    requires
        s != 0,
    ensures
        SCALE * mag_model(scale_model(v, s)) <= abs(s) * mag_model(v) + abs(s) - 1,
        abs(s) * mag_model(v) < SCALE * mag_model(scale_model(v, s)) + 3 * SCALE,
{
    let n = sum_sq(v);
    let big = mag_model(v);
    let sc = SCALE as int;
    let u = abs(s) as int;
    let d = scale_model(v, s);
    let t = sum_sq(d);
    let qx = quot(v.x * s, sc);
    let qy = quot(v.y * s, sc);
    let qz = quot(v.z * s, sc);
    let qw = quot(v.w * s, sc);
    let sc2 = sc * sc;
    let s2 = s * s;
    lemma_square_nonneg(v.x);
    lemma_square_nonneg(v.y);
    lemma_square_nonneg(v.z);
    lemma_square_nonneg(v.w);
    lemma_square_nonneg(qx);
    lemma_square_nonneg(qy);
    lemma_square_nonneg(qz);
    lemma_square_nonneg(qw);
    lemma_square_nonneg(s);
    lemma_isqrt_bounds(n);
    lemma_isqrt_bounds(t);
    let g = isqrt(t);
    assert(mag_model(d) == g);
    assert(sc2 >= 1 && s2 >= 1) by (nonlinear_arith)
        requires sc2 == sc * sc, s2 == s * s, sc >= 1, s != 0;
    lemma_scale_component_sq(v.x, s);
    lemma_scale_component_sq(v.y, s);
    lemma_scale_component_sq(v.z, s);
    lemma_scale_component_sq(v.w, s);
    // factor the sums: t * sc2 <= n * s2, and n * s2 nearly caught up
    lemma_mul_is_distributive_add_other_way(sc2, qx * qx + qy * qy + qz * qz, qw * qw);
    lemma_mul_is_distributive_add_other_way(sc2, qx * qx + qy * qy, qz * qz);
    lemma_mul_is_distributive_add_other_way(sc2, qx * qx, qy * qy);
    lemma_mul_is_distributive_add_other_way(s2, v.x * v.x + v.y * v.y + v.z * v.z, v.w * v.w);
    lemma_mul_is_distributive_add_other_way(s2, v.x * v.x + v.y * v.y, v.z * v.z);
    lemma_mul_is_distributive_add_other_way(s2, v.x * v.x, v.y * v.y);
    assert(t * sc2 <= n * s2);
    let amount = (abs(qx) + abs(qy) + abs(qz) + abs(qw)) as int;
    assert(n * s2 <= t * sc2 + sc2 * amount + sc2 * amount + 4 * sc2) by {
        lemma_mul_is_distributive_add(sc2, abs(qx) as int + abs(qy) as int + abs(qz) as int, abs(qw) as int);
        lemma_mul_is_distributive_add(sc2, abs(qx) as int + abs(qy) as int, abs(qz) as int);
        lemma_mul_is_distributive_add(sc2, abs(qx) as int, abs(qy) as int);
    }
    // Cauchy–Schwarz keeps the cross terms within the root's reach
    lemma_sum_abs_sq(qx, qy, qz, qw);
    assert(amount <= 2 * g + 1) by (nonlinear_arith)
        requires
            amount * amount <= 4 * t,
            t < (g + 1) * (g + 1),
            amount >= 0,
            g >= 0;
    lemma_mul_left_inequality(sc2, amount, 2 * g + 1);
    assert(n * s2 <= t * sc2 + sc2 * (2 * g + 1) + sc2 * (2 * g + 1) + 4 * sc2);
    // upper bound: sc * g stays under u * big + u
    lemma_mul_nonnegative(sc, g);
    lemma_mul_nonnegative(u, big + 1);
    lemma_mul_nonnegative(u, big);
    lemma_mul_nonnegative(sc, g + 3);
    lemma_mul_left_inequality(sc2, g * g, t);
    assert(sc2 * (g * g) <= t * sc2) by {
        lemma_mul_is_commutative(sc2, t);
    }
    assert(n * s2 < ((big + 1) * (big + 1)) * s2) by {
        lemma_mul_strict_inequality(n, (big + 1) * (big + 1), s2);
    }
    assert((sc * g) * (sc * g) == sc2 * (g * g)) by (nonlinear_arith)
        requires sc2 == sc * sc;
    assert((u * (big + 1)) * (u * (big + 1)) == ((big + 1) * (big + 1)) * s2) by (nonlinear_arith)
        requires s2 == u * u;
    assert(sc * g < u * (big + 1)) by (nonlinear_arith)
        requires
            (sc * g) * (sc * g) < (u * (big + 1)) * (u * (big + 1)),
            sc * g >= 0,
            u * (big + 1) >= 0;
    assert(u * (big + 1) == u * big + u) by {
        lemma_mul_is_distributive_add(u, big, 1);
        lemma_mul_basics(u);
    }
    // lower bound: u * big stays under sc * g + 3 * sc
    assert(t * sc2 < ((g + 1) * (g + 1)) * sc2) by {
        lemma_mul_strict_inequality(t, (g + 1) * (g + 1), sc2);
    }
    assert(n * s2 < sc2 * ((g + 3) * (g + 3))) by (nonlinear_arith)
        requires
            n * s2 <= t * sc2 + sc2 * (2 * g + 1) + sc2 * (2 * g + 1) + 4 * sc2,
            t * sc2 < ((g + 1) * (g + 1)) * sc2,
            sc2 >= 1,
            g >= 0;
    assert((big * big) * s2 <= n * s2) by {
        lemma_mul_inequality(big * big, n, s2);
    }
    assert((u * big) * (u * big) == (big * big) * s2) by (nonlinear_arith)
        requires s2 == u * u;
    assert((sc * (g + 3)) * (sc * (g + 3)) == sc2 * ((g + 3) * (g + 3))) by (nonlinear_arith)
        requires sc2 == sc * sc;
    assert(u * big < sc * (g + 3)) by (nonlinear_arith)
        requires
            (u * big) * (u * big) < (sc * (g + 3)) * (sc * (g + 3)),
            u * big >= 0,
            sc * (g + 3) >= 0,
            g >= 0,
            sc >= 1;
    assert(sc * (g + 3) == sc * g + 3 * sc) by {
        lemma_mul_is_distributive_add(sc, g, 3);
    }
}

/// One squared component of a normalization, bounded on both sides:
/// with q = quot(c * SCALE, m), the value q * q * (m * m) approximates
/// c * c * SCALE * SCALE from below, short of it by at most
/// 2 * m * m * abs(q) + m * m.
proof fn lemma_norm_component(c: int, m: int)
    requires
        m >= 1,
        abs(c) <= m,
    ensures
        (quot(c * SCALE, m) * quot(c * SCALE, m)) * (m * m) <= (c * c) * ((SCALE as int) * (
        SCALE as int)),
        (c * c) * ((SCALE as int) * (SCALE as int)) <= (quot(c * SCALE, m) * quot(c * SCALE, m))
            * (m * m) + (m * m) * (abs(quot(c * SCALE, m)) as int) + (m * m) * (abs(
        quot(c * SCALE, m),
        ) as int) + (m * m),
        abs(quot(c * SCALE, m)) <= SCALE as int,
{
    lemma_quot_bounds(c * SCALE, m);
    lemma_abs_mul(c, SCALE as int);
    lemma_quot_by_larger(c, m);
    let q = quot(c * SCALE, m);
    let uq = abs(q) as int;
    let uc = abs(c) as int;
    lemma_square_nonneg(q);
    lemma_square_nonneg(c);
    assert((q * q) * (m * m) <= (c * c) * ((SCALE as int) * (SCALE as int))) by (nonlinear_arith)
        requires
            m * uq <= uc * (SCALE as int),
            uq >= 0,
            uc >= 0,
            m >= 1,
            q * q == uq * uq,
            c * c == uc * uc;
    assert((c * c) * ((SCALE as int) * (SCALE as int)) <= (q * q) * (m * m) + (m * m) * uq + (m
        * m) * uq + (m * m)) by (nonlinear_arith)
        requires
            uc * (SCALE as int) < m * (uq + 1),
            uq >= 0,
            uc >= 0,
            m >= 1,
            q * q == uq * uq,
            c * c == uc * uc;
}

/// The two summed componentwise bounds behind the normalization laws:
/// with m the magnitude of v and t the summed squares of v normalized,
/// t * m * m approximates sum_sq(v) * SCALE * SCALE from below, short
/// of it by at most (8 * SCALE + 4) * m * m.
proof fn lemma_normalize_sums(v: TupleModel)
    requires
        mag_model(v) >= 1,
    ensures
        sum_sq(div_model(v, mag_model(v))) * (mag_model(v) * mag_model(v)) <= sum_sq(v) * ((
        SCALE as int) * (SCALE as int)),
        sum_sq(v) * ((SCALE as int) * (SCALE as int)) <= sum_sq(div_model(v, mag_model(v))) * (
        mag_model(v) * mag_model(v)) + ((mag_model(v) * mag_model(v)) * SCALE) * 8 + (mag_model(v)
            * mag_model(v)) * 4,
{
    let n = sum_sq(v);
    let m = mag_model(v);
    let sc = SCALE as int;
    lemma_square_nonneg(v.x);
    lemma_square_nonneg(v.y);
    lemma_square_nonneg(v.z);
    lemma_square_nonneg(v.w);
    lemma_isqrt_bounds(n);
    lemma_component_le_magnitude(v.x, v, n - v.x * v.x);
    lemma_component_le_magnitude(v.y, v, n - v.y * v.y);
    lemma_component_le_magnitude(v.z, v, n - v.z * v.z);
    lemma_component_le_magnitude(v.w, v, n - v.w * v.w);
    lemma_norm_component(v.x, m);
    lemma_norm_component(v.y, m);
    lemma_norm_component(v.z, m);
    lemma_norm_component(v.w, m);
    let d = div_model(v, m);
    let qx = quot(v.x * sc, m);
    let qy = quot(v.y * sc, m);
    let qz = quot(v.z * sc, m);
    let qw = quot(v.w * sc, m);
    let t = sum_sq(d);
    let m2 = m * m;
    let s2 = sc * sc;
    assert(m2 >= 1) by (nonlinear_arith)
        requires m2 == m * m, m >= 1;
    lemma_square_nonneg(qx);
    lemma_square_nonneg(qy);
    lemma_square_nonneg(qz);
    lemma_square_nonneg(qw);
    // sum the four componentwise bounds, factoring m2 and s2 out
    lemma_mul_is_distributive_add_other_way(m2, qx * qx + qy * qy + qz * qz, qw * qw);
    lemma_mul_is_distributive_add_other_way(m2, qx * qx + qy * qy, qz * qz);
    lemma_mul_is_distributive_add_other_way(m2, qx * qx, qy * qy);
    lemma_mul_is_distributive_add_other_way(s2, v.x * v.x + v.y * v.y + v.z * v.z, v.w * v.w);
    lemma_mul_is_distributive_add_other_way(s2, v.x * v.x + v.y * v.y, v.z * v.z);
    lemma_mul_is_distributive_add_other_way(s2, v.x * v.x, v.y * v.y);
    assert(t * m2 <= n * s2);
    let uqx = abs(qx) as int;
    let uqy = abs(qy) as int;
    let uqz = abs(qz) as int;
    let uqw = abs(qw) as int;
    lemma_mul_left_inequality(m2, uqx, sc);
    lemma_mul_left_inequality(m2, uqy, sc);
    lemma_mul_left_inequality(m2, uqz, sc);
    lemma_mul_left_inequality(m2, uqw, sc);
    assert(n * s2 <= t * m2 + (m2 * sc) * 8 + m2 * 4);
}

/// However small a nonzero tuple is, normalizing it never lands short
/// of the unit length: the magnitude after normalization is at least
/// SCALE - 5.
pub proof fn lemma_normalize_never_short(v: TupleModel)
    requires
        sum_sq(v) > 0,
    ensures
        mag_model(div_model(v, mag_model(v))) >= SCALE - 5,
{
    let n = sum_sq(v);
    let m = mag_model(v);
    let sc = SCALE as int;
    lemma_isqrt_ge(1, n);
    lemma_normalize_sums(v);
    let t = sum_sq(div_model(v, m));
    let m2 = m * m;
    let s2 = sc * sc;
    assert(m2 >= 1) by (nonlinear_arith)
        requires m2 == m * m, m >= 1;
    lemma_isqrt_bounds(n);
    lemma_mul_inequality(m2, n, s2);
    assert(m2 * s2 <= t * m2 + (m2 * sc) * 8 + m2 * 4);
    assert(s2 <= t + sc * 8 + 4) by (nonlinear_arith)
        requires
            m2 * s2 <= t * m2 + (m2 * sc) * 8 + m2 * 4,
            m2 >= 1;
    lemma_isqrt_ge(sc - 5, t);
}

/// Normalizing a tuple whose magnitude is at least one whole unit
/// yields a tuple of magnitude one, up to five raw units of rounding —
/// well within the tolerance of the approximate equality.
pub proof fn lemma_normalize_magnitude(v: TupleModel)
    requires
        mag_model(v) >= SCALE,
    ensures
        abs(mag_model(div_model(v, mag_model(v))) - SCALE) <= 5,
        abs(mag_model(div_model(v, mag_model(v))) - SCALE) <= EPSILON,
{
    let n = sum_sq(v);
    let m = mag_model(v);
    let sc = SCALE as int;
    let m2 = m * m;
    let s2 = sc * sc;
    lemma_square_nonneg(v.x);
    lemma_square_nonneg(v.y);
    lemma_square_nonneg(v.z);
    lemma_square_nonneg(v.w);
    assert(m2 >= 1 && n >= m2) by {
        lemma_isqrt_bounds(n);
        assert(m2 >= 1) by (nonlinear_arith)
            requires m2 == m * m, m >= 1;
    }
    lemma_normalize_never_short(v);
    lemma_normalize_sums(v);
    let t = sum_sq(div_model(v, m));
    // the magnitude cannot overshoot either: t stays under (sc + 2) squared
    lemma_square_nonneg(div_model(v, m).x);
    lemma_square_nonneg(div_model(v, m).y);
    lemma_square_nonneg(div_model(v, m).z);
    lemma_square_nonneg(div_model(v, m).w);
    lemma_isqrt_bounds(t);
    let g = isqrt(t);
    if g >= sc + 2 {
        assert((sc + 2) * (sc + 2) <= g * g) by (nonlinear_arith)
            requires 0 <= sc + 2 && sc + 2 <= g;
        lemma_mul_inequality((sc + 2) * (sc + 2), t, m2);
        lemma_isqrt_bounds(n);
        assert((m + 1) * (m + 1) == m2 + m + m + 1) by (nonlinear_arith)
            requires m2 == m * m;
        assert(n <= m2 + m + m);
        lemma_mul_inequality(n, m2 + m + m, s2);
        assert(((sc + 2) * (sc + 2)) * m2 <= (m2 + m + m) * s2);
        assert(false) by (nonlinear_arith)
            requires
                ((sc + 2) * (sc + 2)) * m2 <= (m2 + m + m) * s2,
                m2 == m * m,
                s2 == sc * sc,
                m >= sc,
                sc == 1_000_000;
    }
    assert(mag_model(div_model(v, m)) == g);
    assert(sc - 5 <= g <= sc + 1);
}

} // verus!
