//! The tuple algebra: a four-component value (x, y, z, w) over scaled
//! fixed-point coordinates, with the point/vector convention carried in
//! the w component.
//!
//! A coordinate is a real number stored as an `i64` in raw units of
//! 1/`SCALE`.  Every operation is specified against `TupleModel`, the
//! same four coordinates as unbounded integers, so each contract states
//! the exact raw value of every component of the result.

use vstd::prelude::*;

verus! {

use vstd::math::abs;
use crate::fixed::quot;
use crate::fixed::isqrt;
use crate::fixed::quot_i128;
use crate::fixed::isqrt_u128;
use crate::fixed::square_i64;
use crate::fixed::lemma_isqrt_ge;
use crate::fixed::lemma_isqrt_le;
use crate::fixed::lemma_quot_bounds;
use crate::fixed::lemma_abs_mul;

/// Raw units per whole unit: coordinates are stored times SCALE.
pub const SCALE: i64 = 1_000_000;

/// Tolerance of the approximate equality, in raw units (a hundred-thousandth
/// of a whole unit), wide enough to absorb the rounding of chained scaled
/// multiplications, divisions and square roots on coordinates in the
/// geometric range, yet far below any distinct coordinates those produce.
pub const EPSILON: i64 = 10;

/// The mathematical value of a tuple: its four raw coordinates as
/// unbounded integers.
pub struct TupleModel {
    pub x: int,
    pub y: int,
    pub z: int,
    pub w: int,
}

/// A point (w of exactly one) or a vector (w of zero), or any other
/// four-component value the arithmetic produces.
#[derive(Clone, Copy, Debug)]
pub struct Tuple {
    pub x: i64,
    pub y: i64,
    pub z: i64,
    pub w: i64,
}

impl View for Tuple {
    type V = TupleModel;

    open spec fn view(&self) -> TupleModel {
        TupleModel { x: self.x as int, y: self.y as int, z: self.z as int, w: self.w as int }
    }
}

pub open spec fn point_model(x: int, y: int, z: int) -> TupleModel {
    TupleModel { x, y, z, w: SCALE as int }
}

pub open spec fn vector_model(x: int, y: int, z: int) -> TupleModel {
    TupleModel { x, y, z, w: 0 }
}

/// A tuple is a point exactly when w equals one; everything else,
/// whatever its w, counts as a vector.
pub open spec fn is_point_model(a: TupleModel) -> bool {
    a.w == SCALE as int
}

pub open spec fn add_model(a: TupleModel, b: TupleModel) -> TupleModel {
    TupleModel { x: a.x + b.x, y: a.y + b.y, z: a.z + b.z, w: a.w + b.w }
}

pub open spec fn sub_model(a: TupleModel, b: TupleModel) -> TupleModel {
    TupleModel { x: a.x - b.x, y: a.y - b.y, z: a.z - b.z, w: a.w - b.w }
}

pub open spec fn neg_model(a: TupleModel) -> TupleModel {
    TupleModel { x: -a.x, y: -a.y, z: -a.z, w: -a.w }
}

/// Componentwise scaling by a raw factor, rounded toward zero.
pub open spec fn scale_model(a: TupleModel, f: int) -> TupleModel {
    TupleModel {
        x: quot(a.x * f, SCALE as int),
        y: quot(a.y * f, SCALE as int),
        z: quot(a.z * f, SCALE as int),
        w: quot(a.w * f, SCALE as int),
    }
}

/// Componentwise division by a raw divisor, rounded toward zero.
pub open spec fn div_model(a: TupleModel, d: int) -> TupleModel {
    TupleModel {
        x: quot(a.x * SCALE as int, d),
        y: quot(a.y * SCALE as int, d),
        z: quot(a.z * SCALE as int, d),
        w: quot(a.w * SCALE as int, d),
    }
}

/// The sum of the squares of all four raw coordinates.
pub open spec fn sum_sq(a: TupleModel) -> int {
    a.x * a.x + a.y * a.y + a.z * a.z + a.w * a.w
}

/// The Euclidean norm over all four components, in raw units,
/// rounded down.
pub open spec fn mag_model(a: TupleModel) -> int {
    isqrt(sum_sq(a))
}

/// The unscaled four-component inner product.
pub open spec fn dot_raw(a: TupleModel, b: TupleModel) -> int {
    a.x * b.x + a.y * b.y + a.z * b.z + a.w * b.w
}

/// The inner product brought back to raw units.
pub open spec fn dot_model(a: TupleModel, b: TupleModel) -> int {
    quot(dot_raw(a, b), SCALE as int)
}

pub open spec fn cross_x_raw(a: TupleModel, b: TupleModel) -> int {
    a.y * b.z - a.z * b.y
}

pub open spec fn cross_y_raw(a: TupleModel, b: TupleModel) -> int {
    a.z * b.x - a.x * b.z
}

pub open spec fn cross_z_raw(a: TupleModel, b: TupleModel) -> int {
    a.x * b.y - a.y * b.x
}

/// The 3D cross product, always a vector (w of zero).
pub open spec fn cross_model(a: TupleModel, b: TupleModel) -> TupleModel {
    TupleModel {
        x: quot(cross_x_raw(a, b), SCALE as int),
        y: quot(cross_y_raw(a, b), SCALE as int),
        z: quot(cross_z_raw(a, b), SCALE as int),
        w: 0,
    }
}

/// Equality up to the fixed tolerance, componentwise.
pub open spec fn approx_eq_model(a: TupleModel, b: TupleModel) -> bool {
    &&& abs(a.x - b.x) <= EPSILON as int
    &&& abs(a.y - b.y) <= EPSILON as int
    &&& abs(a.z - b.z) <= EPSILON as int
    &&& abs(a.w - b.w) <= EPSILON as int
}

/// Whether a raw value fits an i64 coordinate.
pub open spec fn in_i64(n: int) -> bool {
    i64::MIN <= n <= i64::MAX
}

impl Tuple {
    /// The exact constructor: any four raw coordinates are accepted,
    /// nothing is validated.
    pub fn new(x: i64, y: i64, z: i64, w: i64) -> (r: Tuple)
        ensures
            r@ == (TupleModel { x: x as int, y: y as int, z: z as int, w: w as int }),
    {
        Tuple { x, y, z, w }
    }

    /// A point: w is one.
    pub fn new_point(x: i64, y: i64, z: i64) -> (r: Tuple)
        ensures
            r@ == point_model(x as int, y as int, z as int),
    {
        Tuple::new(x, y, z, SCALE)
    }

    /// A vector: w is zero.
    pub fn new_vector(x: i64, y: i64, z: i64) -> (r: Tuple)
        ensures
            r@ == vector_model(x as int, y as int, z as int),
    {
        Tuple::new(x, y, z, 0)
    }

    /// True exactly when w equals one (an exact comparison, not an
    /// approximate one).
    pub fn is_point(&self) -> (r: bool)
        ensures
            r == is_point_model(self@),
    {
        self.w == SCALE
    }

    /// The strict negation of `is_point`: any w other than one counts
    /// as a vector.
    pub fn is_vector(&self) -> (r: bool)
        ensures
            r == !is_point_model(self@),
    {
        !self.is_point()
    }

    /// The componentwise sum.  Point plus vector is a point, vector
    /// plus vector a vector; point plus point leaves w at two, a
    /// degenerate value that is returned, not rejected.
    pub fn add(&self, other: &Tuple) -> (r: Tuple)
        requires
            in_i64(self@.x + other@.x),
            in_i64(self@.y + other@.y),
            in_i64(self@.z + other@.z),
            in_i64(self@.w + other@.w),
        ensures
            r@ == add_model(self@, other@),
    {
        Tuple::new(
            self.x + other.x,
            self.y + other.y,
            self.z + other.z,
            self.w + other.w,
        )
    }

    /// The componentwise difference.  Point minus point is a vector,
    /// point minus vector a point, vector minus vector a vector.
    pub fn sub(&self, other: &Tuple) -> (r: Tuple)
        requires
            in_i64(self@.x - other@.x),
            in_i64(self@.y - other@.y),
            in_i64(self@.z - other@.z),
            in_i64(self@.w - other@.w),
        ensures
            r@ == sub_model(self@, other@),
    {
        Tuple::new(
            self.x - other.x,
            self.y - other.y,
            self.z - other.z,
            self.w - other.w,
        )
    }

    /// The componentwise negation, w included.
    pub fn negate(&self) -> (r: Tuple)
        requires
            in_i64(-self@.x),
            in_i64(-self@.y),
            in_i64(-self@.z),
            in_i64(-self@.w),
        ensures
            r@ == neg_model(self@),
    {
        Tuple::new(-self.x, -self.y, -self.z, -self.w)
    }

    /// Componentwise scaling by a raw factor, w included; the caller
    /// keeps the point/vector convention by scaling only vectors.
    pub fn mult(&self, factor: i64) -> (r: Tuple)
        requires
            in_i64(quot(self@.x * factor, SCALE as int)),
            in_i64(quot(self@.y * factor, SCALE as int)),
            in_i64(quot(self@.z * factor, SCALE as int)),
            in_i64(quot(self@.w * factor, SCALE as int)),
        ensures
            r@ == scale_model(self@, factor as int),
    {
        Tuple::new(
            scale_component(self.x, factor),
            scale_component(self.y, factor),
            scale_component(self.z, factor),
            scale_component(self.w, factor),
        )
    }

    /// Componentwise division by a raw divisor, rounded toward zero.
    pub fn div(&self, divisor: i64) -> (r: Tuple)
        requires
            divisor != 0,
            in_i64(quot(self@.x * SCALE, divisor as int)),
            in_i64(quot(self@.y * SCALE, divisor as int)),
            in_i64(quot(self@.z * SCALE, divisor as int)),
            in_i64(quot(self@.w * SCALE, divisor as int)),
        ensures
            r@ == div_model(self@, divisor as int),
    {
        Tuple::new(
            div_component(self.x, divisor),
            div_component(self.y, divisor),
            div_component(self.z, divisor),
            div_component(self.w, divisor),
        )
    }

    /// The Euclidean norm over all four components, rounded down to a
    /// raw coordinate.  On a vector (w of zero) this is the familiar
    /// 3D length.
    pub fn magnitude(&self) -> (r: i64)
        requires
            sum_sq(self@) <= i64::MAX * i64::MAX,
        ensures
            r as int == mag_model(self@),
            r >= 0,
    {
        let sx = square_i64(self.x);
        let sy = square_i64(self.y);
        let sz = square_i64(self.z);
        let sw = square_i64(self.w);
        let total: u128 = sx + sy + sz + sw;
        let root = isqrt_u128(total);
        proof {
            lemma_isqrt_le(i64::MAX as int, total as int);
        }
        root as i64
    }

    /// The unit tuple in the same direction: each component divided by
    /// the magnitude.  Asks for a nonzero tuple, since a zero magnitude
    /// has no finite quotient to return.
    pub fn normalize(&self) -> (r: Tuple)
        requires
            sum_sq(self@) > 0,
            sum_sq(self@) <= i64::MAX * i64::MAX,
        ensures
            r@ == div_model(self@, mag_model(self@)),
    {
        let m = self.magnitude();
        proof {
            lemma_isqrt_ge(1, sum_sq(self@));
            lemma_normalize_fits(self@);
        }
        self.div(m)
    }

    /// The full four-component dot product, brought back to raw units;
    /// on two vectors it is the standard 3D dot product.
    pub fn dot_product(&self, other: &Tuple) -> (r: i64)
        requires
            abs(self@.x * other@.x) + abs(self@.y * other@.y) + abs(self@.z * other@.z) + abs(
                self@.w * other@.w,
            ) <= i128::MAX,
            in_i64(dot_model(self@, other@)),
        ensures
            r as int == dot_model(self@, other@),
    {
        let px = mul_i64(self.x, other.x);
        let py = mul_i64(self.y, other.y);
        let pz = mul_i64(self.z, other.z);
        let pw = mul_i64(self.w, other.w);
        let total: i128 = px + py + pz + pw;
        let q = quot_i128(total, SCALE as i128);
        q as i64
    }

    /// The standard 3D cross product of the x, y, z components; the
    /// result is always constructed as a vector (w of zero).
    pub fn cross_product(&self, other: &Tuple) -> (r: Tuple)
        requires
            abs(cross_x_raw(self@, other@)) <= i128::MAX,
            abs(cross_y_raw(self@, other@)) <= i128::MAX,
            abs(cross_z_raw(self@, other@)) <= i128::MAX,
            in_i64(quot(cross_x_raw(self@, other@), SCALE as int)),
            in_i64(quot(cross_y_raw(self@, other@), SCALE as int)),
            in_i64(quot(cross_z_raw(self@, other@), SCALE as int)),
        ensures
            r@ == cross_model(self@, other@),
    {
        Tuple::new_vector(
            cross_component(self.y, other.z, self.z, other.y),
            cross_component(self.z, other.x, self.x, other.z),
            cross_component(self.x, other.y, self.y, other.x),
        )
    }

    /// Equality within the fixed tolerance, componentwise: the
    /// comparison geometric tests should use, since chained arithmetic
    /// rounds each coordinate.
    pub fn approx_eq(&self, other: &Tuple) -> (r: bool)
        ensures
            r == approx_eq_model(self@, other@),
    {
        abs_diff_le_eps(self.x, other.x) && abs_diff_le_eps(self.y, other.y)
            && abs_diff_le_eps(self.z, other.z) && abs_diff_le_eps(self.w, other.w)
    }
}

impl PartialEq for Tuple {
    /// Tuples compare equal when every component matches within the
    /// fixed tolerance.
    fn eq(&self, other: &Tuple) -> (r: bool) {
        self.approx_eq(other)
    }
}

impl vstd::std_specs::cmp::PartialEqSpecImpl for Tuple {
    open spec fn obeys_eq_spec() -> bool {
        true
    }

    open spec fn eq_spec(&self, other: &Tuple) -> bool {
        approx_eq_model(self@, other@)
    }
}

/// Products of two i64 values stay well inside i128.
proof fn lemma_i64_product_fits(a: int, b: int)
    by (nonlinear_arith)
    requires
        -0x8000_0000_0000_0000 <= a <= 0x7fff_ffff_ffff_ffff,
        -0x8000_0000_0000_0000 <= b <= 0x7fff_ffff_ffff_ffff,
    ensures
        -0x4000_0000_0000_0000_0000_0000_0000_0000 <= a * b,
        a * b <= 0x4000_0000_0000_0000_0000_0000_0000_0000,
{
}

/// One coordinate times another, exactly, in i128.
fn mul_i64(a: i64, b: i64) -> (p: i128)
    ensures
        p as int == a as int * b as int,
        abs(p as int) <= 0x4000_0000_0000_0000_0000_0000_0000_0000,
{
    proof {
        lemma_i64_product_fits(a as int, b as int);
    }
    (a as i128) * (b as i128)
}

/// One scaled component of `mult`.
fn scale_component(c: i64, f: i64) -> (r: i64)
    requires
        in_i64(quot(c as int * f as int, SCALE as int)),
    ensures
        r as int == quot(c as int * f as int, SCALE as int),
{
    let p = mul_i64(c, f);
    let q = quot_i128(p, SCALE as i128);
    q as i64
}

/// One scaled component of `div`.
fn div_component(c: i64, d: i64) -> (r: i64)
    requires
        d != 0,
        in_i64(quot(c as int * SCALE, d as int)),
    ensures
        r as int == quot(c as int * SCALE, d as int),
{
    let p = mul_i64(c, SCALE);
    let q = quot_i128(p, d as i128);
    q as i64
}

/// One component of `cross_product`: (a * b - c * d) / SCALE.
fn cross_component(a: i64, b: i64, c: i64, d: i64) -> (r: i64)
    requires
        abs(a as int * b as int - c as int * d as int) <= i128::MAX,
        in_i64(quot(a as int * b as int - c as int * d as int, SCALE as int)),
    ensures
        r as int == quot(a as int * b as int - c as int * d as int, SCALE as int),
{
    let p = mul_i64(a, b);
    let q = mul_i64(c, d);
    let diff: i128 = p - q;
    let r = quot_i128(diff, SCALE as i128);
    r as i64
}

/// Whether two coordinates lie within the tolerance of one another.
fn abs_diff_le_eps(a: i64, b: i64) -> (r: bool)
    ensures
        r == (abs(a as int - b as int) <= EPSILON as int),
{
    let d: i128 = (a as i128) - (b as i128);
    let m: i128 = if d < 0 { -d } else { d };
    m <= EPSILON as i128
}

/// A square is nonnegative, and equals the square of the absolute value.
pub proof fn lemma_square_nonneg(a: int)
    by (nonlinear_arith)
    ensures
        a * a >= 0,
        abs(a) * abs(a) == a * a,
{
}

/// Every component of a nonzero tuple divided by its own magnitude
/// stays within one whole unit, so `normalize` fits every coordinate.
proof fn lemma_normalize_fits(a: TupleModel)
    requires
        sum_sq(a) > 0,
        mag_model(a) >= 1,
    ensures
        abs(quot(a.x * SCALE, mag_model(a))) <= SCALE as int,
        abs(quot(a.y * SCALE, mag_model(a))) <= SCALE as int,
        abs(quot(a.z * SCALE, mag_model(a))) <= SCALE as int,
        abs(quot(a.w * SCALE, mag_model(a))) <= SCALE as int,
{
    lemma_square_nonneg(a.x);
    lemma_square_nonneg(a.y);
    lemma_square_nonneg(a.z);
    lemma_square_nonneg(a.w);
    lemma_component_le_magnitude(a.x, a, sum_sq(a) - a.x * a.x);
    lemma_component_le_magnitude(a.y, a, sum_sq(a) - a.y * a.y);
    lemma_component_le_magnitude(a.z, a, sum_sq(a) - a.z * a.z);
    lemma_component_le_magnitude(a.w, a, sum_sq(a) - a.w * a.w);
    lemma_quot_by_larger(a.x, mag_model(a));
    lemma_quot_by_larger(a.y, mag_model(a));
    lemma_quot_by_larger(a.z, mag_model(a));
    lemma_quot_by_larger(a.w, mag_model(a));
}

/// No coordinate outweighs the whole norm.
pub(crate) proof fn lemma_component_le_magnitude(c: int, a: TupleModel, rest: int)
    requires
        rest >= 0,
        sum_sq(a) == c * c + rest,
    ensures
        abs(c) <= mag_model(a),
{
    lemma_square_nonneg(c);
    lemma_isqrt_ge(abs(c) as int, sum_sq(a));
}

/// Dividing c * SCALE by anything at least abs(c) stays within SCALE.
pub(crate) proof fn lemma_quot_by_larger(c: int, m: int)
    requires
        m >= 1,
        abs(c) <= m,
    ensures
        abs(quot(c * SCALE, m)) <= SCALE as int,
{
    lemma_quot_bounds(c * SCALE, m);
    lemma_abs_mul(c, SCALE as int);
    let uq = abs(quot(c * SCALE, m));
    assert(m * uq <= abs(c) * (SCALE as int));
    assert(uq <= SCALE as int) by (nonlinear_arith)
        requires
            m * uq <= abs(c) * (SCALE as int),
            abs(c) <= m,
            m >= 1,
            uq >= 0,
            SCALE as int >= 0;
}

} // verus!
