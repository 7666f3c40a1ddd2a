//! Three-component vectors of fixed-point scalars and their algebra.

use crate::fixed::{
    floor_sqrt, fx_div, fx_mul, in_range, isqrt, lemma_product_magnitude, lemma_scaled_bounds,
    lemma_scaled_magnitude, lemma_square_nonnegative, magnitude_of, narrow, quotient,
    representable, round_div, rounded_quotient, trunc_div, wide_product, COORD_MAX, ONE,
};
use crate::unit_length::{lemma_unit_components, lemma_unit_length};
use vstd::prelude::*;

verus! {

/// The mathematical model of a vector: three raw values of unbounded size.
pub ghost struct Triple {
    pub x: int,
    pub y: int,
    pub z: int,
}

impl Triple {
    /// Whether every component is the raw value of a scalar.
    pub open spec fn representable(self) -> bool {
        representable(self.x) && representable(self.y) && representable(self.z)
    }

    /// Whether every component lies within the coordinate range.
    pub open spec fn in_range(self) -> bool {
        in_range(self.x) && in_range(self.y) && in_range(self.z)
    }

    /// Whether this is the zero vector.
    pub open spec fn is_zero(self) -> bool {
        self.x == 0 && self.y == 0 && self.z == 0
    }

    /// The component-wise sum.
    pub open spec fn plus(self, other: Triple) -> Triple {
        Triple { x: self.x + other.x, y: self.y + other.y, z: self.z + other.z }
    }

    /// The component-wise difference.
    pub open spec fn minus(self, other: Triple) -> Triple {
        Triple { x: self.x - other.x, y: self.y - other.y, z: self.z - other.z }
    }

    /// The opposite vector.
    pub open spec fn negated(self) -> Triple {
        Triple { x: -self.x, y: -self.y, z: -self.z }
    }

    /// The component-wise product.
    pub open spec fn times(self, other: Triple) -> Triple {
        Triple {
            x: fx_mul(self.x, other.x),
            y: fx_mul(self.y, other.y),
            z: fx_mul(self.z, other.z),
        }
    }

    /// The component-wise quotient.
    pub open spec fn over(self, other: Triple) -> Triple {
        Triple {
            x: fx_div(self.x, other.x),
            y: fx_div(self.y, other.y),
            z: fx_div(self.z, other.z),
        }
    }

    /// The vector taken `k` times over.
    pub open spec fn multiple(self, k: int) -> Triple {
        Triple { x: k * self.x, y: k * self.y, z: k * self.z }
    }

    /// The vector stretched by the scalar `s`.
    pub open spec fn scaled(self, s: int) -> Triple {
        Triple { x: fx_mul(self.x, s), y: fx_mul(self.y, s), z: fx_mul(self.z, s) }
    }

    /// The vector shrunk by the scalar `s`.
    pub open spec fn shrunk(self, s: int) -> Triple {
        Triple { x: fx_div(self.x, s), y: fx_div(self.y, s), z: fx_div(self.z, s) }
    }

    /// The sum of the raw component products, before scaling.
    pub open spec fn raw_dot(self, other: Triple) -> int {
        self.x * other.x + self.y * other.y + self.z * other.z
    }

    /// The dot product, as a scalar.
    pub open spec fn dot(self, other: Triple) -> int {
        trunc_div(self.raw_dot(other), ONE as int)
    }

    /// The cross product.
    pub open spec fn cross(self, other: Triple) -> Triple {
        Triple {
            x: trunc_div(self.y * other.z - self.z * other.y, ONE as int),
            y: trunc_div(self.z * other.x - self.x * other.z, ONE as int),
            z: trunc_div(self.x * other.y - self.y * other.x, ONE as int),
        }
    }

    /// The squared Euclidean norm of the raw components.
    pub open spec fn norm_sq(self) -> int {
        self.raw_dot(self)
    }

    /// The Euclidean norm as a scalar, rounded down.
    pub open spec fn length(self) -> int {
        floor_sqrt(self.norm_sq())
    }

    /// The Euclidean norm in millionths of a scalar step, rounded down.
    pub open spec fn fine_length(self) -> int {
        floor_sqrt(self.norm_sq() * ONE * ONE)
    }

    /// Whether the vector has length one to within one step: its length,
    /// rounded down, is `ONE - 1`, `ONE` or `ONE + 1`.
    pub open spec fn is_unit(self) -> bool {
        ONE - 1 <= self.length() <= ONE + 1
    }

    /// The vector divided by its norm, the norm taken at the finer step and
    /// each component rounded to the nearest scalar.
    pub open spec fn unit(self) -> Triple {
        Triple {
            x: round_div(self.x * ONE * ONE, self.fine_length()),
            y: round_div(self.y * ONE * ONE, self.fine_length()),
            z: round_div(self.z * ONE * ONE, self.fine_length()),
        }
    }
}

/// A vector of three fixed-point scalars.
#[derive(Debug, Clone, Copy, PartialEq, Eq, Structural)]
pub struct Vector3 {
    pub x: i64,
    pub y: i64,
    pub z: i64,
}

impl View for Vector3 {
    type V = Triple;

    open spec fn view(&self) -> Triple {
        Triple { x: self.x as int, y: self.y as int, z: self.z as int }
    }
}

impl Vector3 {
    /// The vector whose components are those of `t`, where they are
    /// representable.
    pub open spec fn of(t: Triple) -> Vector3 {
        Vector3 { x: t.x as i64, y: t.y as i64, z: t.z as i64 }
    }

    /// The vector with the given components.
    pub fn new(x: i64, y: i64, z: i64) -> (v: Self)
        ensures
            v.x == x,
            v.y == y,
            v.z == z,
    {
        Vector3 { x, y, z }
    }

    /// Whether every component lies within the coordinate range.
    pub fn in_range(&self) -> (r: bool)
        ensures
            r == self@.in_range(),
    {
        -COORD_MAX <= self.x && self.x <= COORD_MAX && -COORD_MAX <= self.y && self.y <= COORD_MAX
            && -COORD_MAX <= self.z && self.z <= COORD_MAX
    }

    /// Whether this is the zero vector.
    pub fn is_zero(&self) -> (r: bool)
        ensures
            r == self@.is_zero(),
    {
        self.x == 0 && self.y == 0 && self.z == 0
    }

    /// The sum of the raw component products of two vectors.
    fn raw_dot(&self, other: &Self) -> (r: i128)
        requires
            -0x4000_0000_0000_0000_0000_0000_0000_0000 <= self@.raw_dot(other@)
                < 0x4000_0000_0000_0000_0000_0000_0000_0000,
        ensures
            r == self@.raw_dot(other@),
    {
        let px: i128 = wide_product(self.x, other.x);
        let py: i128 = wide_product(self.y, other.y);
        let pz: i128 = wide_product(self.z, other.z);
        px + py + pz
    }

    /// The dot product.
    pub fn dot(&self, other: &Self) -> (r: i64)
        requires
            representable(self@.dot(other@)),
        ensures
            r == self@.dot(other@),
    {
        proof {
            lemma_scaled_bounds(self@.raw_dot(other@));
        }
        narrow(quotient(self.raw_dot(other), ONE as i128))
    }

    /// The cross product.
    pub fn cross(&self, other: &Self) -> (r: Self)
        requires
            self@.cross(other@).representable(),
        ensures
            r@ == self@.cross(other@),
    {
        let cx: i128 = wide_product(self.y, other.z) - wide_product(self.z, other.y);
        let cy: i128 = wide_product(self.z, other.x) - wide_product(self.x, other.z);
        let cz: i128 = wide_product(self.x, other.y) - wide_product(self.y, other.x);
        Self::new(
            narrow(quotient(cx, ONE as i128)),
            narrow(quotient(cy, ONE as i128)),
            narrow(quotient(cz, ONE as i128)),
        )
    }

    /// The sum of the squares of the raw components.
    pub(crate) fn norm_sq(&self) -> (q: u128)
        ensures
            q == self@.norm_sq(),
            q <= 0xc000_0000_0000_0000_0000_0000_0000_0000,
    {
        let sx: i128 = wide_product(self.x, self.x);
        let sy: i128 = wide_product(self.y, self.y);
        let sz: i128 = wide_product(self.z, self.z);
        proof {
            lemma_square_nonnegative(self.x as int);
            lemma_square_nonnegative(self.y as int);
            lemma_square_nonnegative(self.z as int);
        }
        (sx as u128) + (sy as u128) + (sz as u128)
    }

    /// The Euclidean norm, rounded down to a scalar: never negative, and
    /// zero for the zero vector alone. The squared norm must be under
    /// `2^126`, so that the norm is a scalar.
    pub fn magnitude(&self) -> (r: i64)
        requires
            self@.norm_sq() < 0x4000_0000_0000_0000_0000_0000_0000_0000,
        ensures
            r == self@.length(),
            r * r <= self@.norm_sq() < (r + 1) * (r + 1),
            r >= 0,
            r == 0 <==> self@.is_zero(),
    {
        let q: u128 = self.norm_sq();
        let m: u128 = isqrt(q);
        proof {
            lemma_norm_sq_positive(self@);
            assert(m < 0x8000_0000_0000_0000) by (nonlinear_arith)
                requires
                    m * m <= q,
                    q < 0x4000_0000_0000_0000_0000_0000_0000_0000,
            ;
            assert(m == 0 <==> q == 0) by (nonlinear_arith)
                requires
                    m * m <= q < (m + 1) * (m + 1),
            ;
        }
        narrow(m as i128)
    }

    /// The vector divided by its norm, to within rounding: a vector of unit
    /// length, whatever the length of this one. The zero vector has no
    /// direction and is left out.
    pub fn normalized(&self) -> (r: Self)
        requires
            self@.in_range(),
            !self@.is_zero(),
        ensures
            r@ == self@.unit(),
            r@.is_unit(),
    {
        let q: u128 = self.norm_sq();
        proof {
            lemma_norm_sq_positive(self@);
            lemma_unit_length(self@);
            lemma_in_range_square(self.x as int);
            lemma_in_range_square(self.y as int);
            lemma_in_range_square(self.z as int);
            lemma_unit_components(self@);
        }
        let m: u128 = isqrt(q * 1_000_000_000_000);
        let k: i128 = 1_000_000_000_000;
        Self::new(
            narrow(rounded_quotient((self.x as i128) * k, m as i128)),
            narrow(rounded_quotient((self.y as i128) * k, m as i128)),
            narrow(rounded_quotient((self.z as i128) * k, m as i128)),
        )
    }
}

/// The squared norm is never negative, and zero for the zero vector alone.
pub proof fn lemma_norm_sq_positive(t: Triple)
    ensures
        t.norm_sq() >= 0,
        t.norm_sq() == 0 <==> t.is_zero(),
{
    assert(t.x * t.x >= 0 && (t.x * t.x == 0 <==> t.x == 0)) by (nonlinear_arith);
    assert(t.y * t.y >= 0 && (t.y * t.y == 0 <==> t.y == 0)) by (nonlinear_arith);
    assert(t.z * t.z >= 0 && (t.z * t.z == 0 <==> t.z == 0)) by (nonlinear_arith);
}

/// Vectors within the coordinate range have a dot product, a cross product
/// and a norm that are scalars.
pub proof fn lemma_in_range_products(a: Triple, b: Triple)
    requires
        a.in_range(),
        b.in_range(),
    ensures
        representable(a.dot(b)),
        a.cross(b).representable(),
        0 <= a.norm_sq() <= 3_000_000_000_000_000_000_000_000,
{
    let w = COORD_MAX as int;
    lemma_product_magnitude(a.x, b.x, w, w);
    lemma_product_magnitude(a.y, b.y, w, w);
    lemma_product_magnitude(a.z, b.z, w, w);
    lemma_product_magnitude(a.y, b.z, w, w);
    lemma_product_magnitude(a.z, b.y, w, w);
    lemma_product_magnitude(a.z, b.x, w, w);
    lemma_product_magnitude(a.x, b.z, w, w);
    lemma_product_magnitude(a.x, b.y, w, w);
    lemma_product_magnitude(a.y, b.x, w, w);
    lemma_scaled_magnitude(a.raw_dot(b), 3_000_000_000_000_000_000);
    lemma_scaled_magnitude(a.y * b.z - a.z * b.y, 2_000_000_000_000_000_000);
    lemma_scaled_magnitude(a.z * b.x - a.x * b.z, 2_000_000_000_000_000_000);
    lemma_scaled_magnitude(a.x * b.y - a.y * b.x, 2_000_000_000_000_000_000);
    lemma_in_range_square(a.x);
    lemma_in_range_square(a.y);
    lemma_in_range_square(a.z);
}

/// A vector within the coordinate range can be stretched, and shrunk, by
/// any scalar within that range but zero, and multiplied and divided
/// component by component by any such vector without a zero component.
pub proof fn lemma_in_range_scaling(a: Triple, b: Triple, s: int)
    requires
        a.in_range(),
        b.in_range(),
        in_range(s),
    ensures
        a.scaled(s).representable(),
        a.times(b).representable(),
        s != 0 ==> a.shrunk(s).representable(),
        b.x != 0 && b.y != 0 && b.z != 0 ==> a.over(b).representable(),
{
    lemma_in_range_product(a.x, s);
    lemma_in_range_product(a.y, s);
    lemma_in_range_product(a.z, s);
    lemma_in_range_product(a.x, b.x);
    lemma_in_range_product(a.y, b.y);
    lemma_in_range_product(a.z, b.z);
    if s != 0 {
        lemma_in_range_quotient(a.x, s);
        lemma_in_range_quotient(a.y, s);
        lemma_in_range_quotient(a.z, s);
    }
    if b.x != 0 && b.y != 0 && b.z != 0 {
        lemma_in_range_quotient(a.x, b.x);
        lemma_in_range_quotient(a.y, b.y);
        lemma_in_range_quotient(a.z, b.z);
    }
}

/// The product of two scalars within the coordinate range is a scalar.
proof fn lemma_in_range_product(a: int, b: int)
    requires
        in_range(a),
        in_range(b),
    ensures
        representable(fx_mul(a, b)),
{
    lemma_product_magnitude(a, b, COORD_MAX as int, COORD_MAX as int);
    lemma_scaled_magnitude(a * b, 1_000_000_000_000_000_000);
}

/// The quotient of a scalar within the coordinate range by a non-zero
/// scalar is a scalar.
proof fn lemma_in_range_quotient(a: int, b: int)
    requires
        in_range(a),
        b != 0,
    ensures
        representable(fx_div(a, b)),
{
    let n = magnitude_of(a * ONE);
    let k = magnitude_of(b);
    assert(0 <= n / k <= n) by (nonlinear_arith)
        requires
            n >= 0,
            k >= 1,
    ;
}

/// The square of a coordinate within range.
pub proof fn lemma_in_range_square(c: int)
    requires
        in_range(c),
    ensures
        0 <= c * c <= 1_000_000_000_000_000_000_000_000,
{
    assert(0 <= c * c <= 1_000_000_000_000_000_000_000_000) by (nonlinear_arith)
        requires
            -1_000_000_000_000 <= c <= 1_000_000_000_000,
    ;
}

} // verus!
