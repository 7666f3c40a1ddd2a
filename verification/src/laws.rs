//! Laws of the vector algebra and of the intersection test, each proved for
//! every input.

use crate::fixed::{
    floor_sqrt, fx_div, fx_mul, is_floor_sqrt, lemma_floor_sqrt_exists, lemma_floor_sqrt_is,
    magnitude_of, trunc_div, ONE,
};
use crate::ray::{Ray, RayResult};
use crate::vector3::Vector3;
use crate::visible_object::VisibleObject;
use vstd::prelude::*;
use vstd::std_specs::ops::{AddSpec, DivSpec, MulSpec, NegSpec};

verus! {

/// Addition commutes: `a + b` is defined exactly where `b + a` is, and the
/// two are equal.
pub proof fn lemma_add_commutes(a: Vector3, b: Vector3)
    ensures
        a@.plus(b@) == b@.plus(a@),
        a.add_req(b) == b.add_req(a),
        a.add_spec(b) == b.add_spec(a),
{
}

/// The dot product commutes.
pub proof fn lemma_dot_commutes(a: Vector3, b: Vector3)
    ensures
        a@.raw_dot(b@) == b@.raw_dot(a@),
        a@.dot(b@) == b@.dot(a@),
{
    assert(a@.raw_dot(b@) == b@.raw_dot(a@)) by (nonlinear_arith)
        requires
            a@.raw_dot(b@) == a.x * b.x + a.y * b.y + a.z * b.z,
            b@.raw_dot(a@) == b.x * a.x + b.y * a.y + b.z * a.z,
    ;
}

/// The cross product changes sign when its operands change places:
/// `cross(a, b)` is the opposite of `cross(b, a)`. Where both products are
/// vectors, the second can be negated, and its opposite is the first.
pub proof fn lemma_cross_anticommutes(a: Vector3, b: Vector3)
    ensures
        a@.cross(b@) == b@.cross(a@).negated(),
        a@.cross(b@).representable() && b@.cross(a@).representable() ==> {
            &&& Vector3::of(b@.cross(a@)).neg_req()
            &&& Vector3::of(a@.cross(b@)) == Vector3::of(b@.cross(a@)).neg_spec()
        },
{
    lemma_difference_flips(a.y as int, b.z as int, a.z as int, b.y as int);
    lemma_difference_flips(a.z as int, b.x as int, a.x as int, b.z as int);
    lemma_difference_flips(a.x as int, b.y as int, a.y as int, b.x as int);
}

/// The scaled difference of two products changes sign when the factors of
/// each product change places and the products change roles.
proof fn lemma_difference_flips(p: int, q: int, r: int, s: int)
    ensures
        trunc_div(p * q - r * s, ONE as int) == -trunc_div(s * r - q * p, ONE as int),
{
    assert(p * q - r * s == -(s * r - q * p)) by (nonlinear_arith);
}

/// Stretching by a non-zero scalar and shrinking by it again gives the
/// vector back to within a tolerance that depends on the scalar alone: no
/// component moves away from zero or changes sign, and none moves toward
/// zero by as much as `1 + ONE / |s|` steps. For a scalar of magnitude one
/// or more, that is at most one step.
pub proof fn lemma_scale_round_trip(v: Vector3, s: i64)
    requires
        s != 0,
    ensures
        round_trip_close(v.x as int, v@.scaled(s as int).shrunk(s as int).x, s as int),
        round_trip_close(v.y as int, v@.scaled(s as int).shrunk(s as int).y, s as int),
        round_trip_close(v.z as int, v@.scaled(s as int).shrunk(s as int).z, s as int),
        v.mul_req(s) ==> v.mul_spec(s).div_req(s) && v.mul_spec(s).div_spec(s)@
            == v@.scaled(s as int).shrunk(s as int),
{
    lemma_component_round_trip(v.x as int, s as int);
    lemma_component_round_trip(v.y as int, s as int);
    lemma_component_round_trip(v.z as int, s as int);
}

/// Whether `back` is what is left of the component `c` after a stretch by
/// `s` and a shrink by `s`: it has the sign of `c`, is no larger in
/// magnitude, and falls short of it by less than `1 + ONE / |s|`.
pub open spec fn round_trip_close(c: int, back: int, s: int) -> bool {
    &&& (c >= 0 ==> 0 <= back <= c)
    &&& (c <= 0 ==> c <= back <= 0)
    &&& magnitude_of(c - back) * magnitude_of(s) < magnitude_of(s) + ONE
    &&& (magnitude_of(s) >= ONE ==> magnitude_of(c - back) <= 1)
}

/// The round trip of one component.
proof fn lemma_component_round_trip(c: int, s: int)
    requires
        s != 0,
    ensures
        round_trip_close(c, fx_div(fx_mul(c, s), s), s),
{
    let a = magnitude_of(c);
    let k = magnitude_of(s);
    let n = a * k;
    assert(magnitude_of(c * s) == n) by (nonlinear_arith)
        requires
            a == c || a == -c,
            k == s || k == -s,
            a >= 0,
            k >= 0,
            n == a * k,
    ;
    assert(n >= 0) by (nonlinear_arith)
        requires
            a >= 0,
            k >= 0,
            n == a * k,
    ;
    let m = n / 1_000_000;
    assert(n == m * 1_000_000 + n % 1_000_000);
    assert(magnitude_of(fx_mul(c, s)) == m);
    let w = m * 1_000_000;
    assert(magnitude_of(fx_mul(c, s) * ONE) == w);
    let y = w / k;
    assert(y * k <= w < (y + 1) * k && y >= 0) by (nonlinear_arith)
        requires
            w >= 0,
            k >= 1,
            y == w / k,
    ;
    assert(magnitude_of(fx_div(fx_mul(c, s), s)) == y);
    assert(y <= a) by (nonlinear_arith)
        requires
            y * k <= w,
            w <= a * k,
            k >= 1,
            y >= 0,
            a >= 0,
    ;
    assert((a - y) * k < k + 1_000_000) by (nonlinear_arith)
        requires
            w < (y + 1) * k,
            a * k < w + 1_000_000,
            k >= 1,
    ;
    let back = fx_div(fx_mul(c, s), s);
    // The signs: the product has the sign of `c` times that of `s`, and the
    // quotient by `s` has the sign of `c` again.
    assert((c * s < 0) == ((c < 0) != (s < 0)) || c == 0) by (nonlinear_arith)
        requires
            s != 0,
    ;
    assert(c == 0 ==> c * s == 0) by (nonlinear_arith);
    assert(c >= 0 ==> back == y);
    assert(c <= 0 ==> back == -y);
    assert(magnitude_of(c - back) == a - y);
    if k >= 1_000_000 {
        assert(a - y <= 1) by (nonlinear_arith)
            requires
                (a - y) * k < k + 1_000_000,
                k >= 1_000_000,
                a - y >= 0,
        ;
    }
}

/// The square root of a square is the magnitude of what was squared.
pub proof fn lemma_floor_sqrt_of_square(b: int)
    ensures
        floor_sqrt(b * b) == magnitude_of(b),
{
    let a = magnitude_of(b);
    assert(a * a == b * b && b * b < (a + 1) * (a + 1)) by (nonlinear_arith)
        requires
            a >= 0,
            a == b || a == -b,
    ;
    lemma_floor_sqrt_is(b * b, a);
}

/// Casting is a function of the object and the ray: two casts of one ray at
/// one object have the same outcome.
pub proof fn lemma_cast_twice(object: VisibleObject, ray: Ray, first: RayResult, second: RayResult)
    requires
        first == object.intersection(ray),
        second == object.intersection(ray),
    ensures
        first == second,
{
}

/// When a ray strikes: its line meets the surface, it does not point away
/// from the centre, and its origin is outside the surface or on it. A ray
/// that points away from the centre misses, and so does one that starts
/// inside, by whatever margin.
pub proof fn lemma_struck_exactly_when(object: VisibleObject, ray: Ray)
    ensures
        object.struck_by(ray) <==> object.discriminant(ray) >= 0 && object.offset(ray) <= 0
            && object.clearance(ray) >= 0,
        object.struck_by(ray) ==> 0 <= object.near_root(ray) <= object.far_root(ray),
        object.offset(ray) > 0 ==> object.intersection(ray) == RayResult::RayMiss,
        object.clearance(ray) < 0 ==> object.intersection(ray) == RayResult::RayMiss,
{
    let b = object.offset(ray);
    let c = object.clearance(ray);
    let d = object.discriminant(ray);
    if d >= 0 {
        lemma_floor_sqrt_exists(d);
        let r = floor_sqrt(d);
        assert(is_floor_sqrt(d, r));
        if b <= 0 && c >= 0 {
            // The discriminant is at most the offset squared, and so is its
            // root at most the offset's magnitude.
            if r > -b {
                assert((1 - b) * (1 - b) <= r * r) by (nonlinear_arith)
                    requires
                        0 <= 1 - b <= r,
                ;
                assert((1 - b) * (1 - b) == b * b - 2 * b + 1) by (nonlinear_arith);
            }
        }
    }
}

/// A ray that starts exactly on the surface and does not point away from
/// the centre strikes at its own origin, with parameter zero. One that
/// points away from the centre misses: the surface is behind it.
pub proof fn lemma_origin_on_surface(object: VisibleObject, ray: Ray)
    requires
        object.clearance(ray) == 0,
    ensures
        object.discriminant(ray) >= 0,
        object.offset(ray) <= 0 ==> {
            &&& object.near_root(ray) == 0
            &&& object.intersection(ray) == (RayResult::RayHit {
                target: object,
                point: ray.origin,
            })
        },
        object.offset(ray) > 0 ==> {
            &&& object.far_root(ray) == 0
            &&& object.intersection(ray) == RayResult::RayMiss
        },
{
    let b = object.offset(ray);
    lemma_floor_sqrt_of_square(b);
    assert(b * b >= 0) by (nonlinear_arith);
    if b <= 0 {
        let p = object.strike_point(ray);
        assert(ray.direction.x * 0 == 0 && ray.direction.y * 0 == 0 && ray.direction.z * 0 == 0)
            by (nonlinear_arith);
        assert(p == ray.origin@);
        assert(Vector3::of(p) == ray.origin);
    }
}

/// A ray whose line only grazes the surface strikes it, at the one point
/// that they share, unless it points away from the centre.
pub proof fn lemma_tangent_is_hit(object: VisibleObject, ray: Ray)
    requires
        object.discriminant(ray) == 0,
    ensures
        object.near_root(ray) == object.far_root(ray) == -object.offset(ray),
        object.struck_by(ray) <==> object.offset(ray) <= 0,
{
    lemma_floor_sqrt_is(0, 0);
    let b = object.offset(ray);
    assert(b * b >= 0) by (nonlinear_arith);
}

} // verus!
