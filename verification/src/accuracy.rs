//! How close a reported hit is to the surface that was struck.

use crate::fixed::{
    floor_sqrt, fx_mul, lemma_floor_sqrt_exists, lemma_product_magnitude, magnitude_of, ONE,
};
use crate::ray::Ray;
use crate::unit_length::lemma_unit_in_range;
use crate::vector3::Triple;
use crate::visible_object::VisibleObject;
use vstd::prelude::*;

verus! {

/// The sum of the magnitudes of the components.
pub open spec fn taxicab(t: Triple) -> int {
    magnitude_of(t.x) + magnitude_of(t.y) + magnitude_of(t.z)
}

/// How far the point that a ray is reported to strike is off the surface:
/// its squared distance from the centre, minus the squared radius, in
/// squared raw steps.
pub open spec fn surface_gap(object: VisibleObject, ray: Ray) -> int {
    object.strike_point(ray).minus(object.center()).norm_sq() - object.extent() * object.extent()
}

/// What is known of one component `e` of the step from the origin to the
/// hit, where `u` is that component of the vector from the centre to the
/// origin, `d` that of the direction and `t` the ray's parameter.
spec fn component_facts(u: int, d: int, t: int, e: int, eps: int) -> bool {
    &&& e == fx_mul(d, t)
    &&& d * t == e * ONE + eps
    &&& -ONE < eps < ONE
    &&& 1_000_000_000_000 * ((u + e) * (u + e)) == 1_000_000_000_000 * (u * u) + 2_000_000 * ((d
        * u) * t) - 2_000_000 * (u * eps) + (d * d) * (t * t) - 2 * ((d * t) * eps) + eps * eps
    &&& -(magnitude_of(u) * 999_999) <= u * eps <= magnitude_of(u) * 999_999
    &&& -(t * 999_999_999_999) <= (d * t) * eps <= t * 999_999_999_999
    &&& 0 <= eps * eps <= 999_999 * 999_999
}

/// One component of the step from the origin to the hit.
proof fn lemma_component_step(u: int, d: int, t: int) -> (r: (int, int))
    requires
        -ONE - 1 <= d <= ONE + 1,
        t >= 0,
    ensures
        component_facts(u, d, t, r.0, r.1),
{
    let n = d * t;
    let e = fx_mul(d, t);
    let eps = n - e * 1_000_000;
    let m = magnitude_of(n);
    assert(m == (m / 1_000_000) * 1_000_000 + m % 1_000_000);
    assert(-1_000_000 < eps < 1_000_000);
    let g = e * 1_000_000;
    assert(g == n - eps);
    assert((u + e) * (u + e) == u * u + 2 * (u * e) + e * e) by (nonlinear_arith);
    assert(1_000_000 * (u * e) == u * g) by (nonlinear_arith)
        requires
            g == e * 1_000_000,
    ;
    assert(1_000_000_000_000 * (e * e) == g * g) by (nonlinear_arith)
        requires
            g == e * 1_000_000,
    ;
    assert(u * g == (d * u) * t - u * eps) by (nonlinear_arith)
        requires
            g == d * t - eps,
    ;
    assert(g * g == n * n - 2 * (n * eps) + eps * eps) by (nonlinear_arith)
        requires
            g == n - eps,
    ;
    assert(n * n == (d * d) * (t * t)) by (nonlinear_arith)
        requires
            n == d * t,
    ;
    lemma_product_magnitude(u, eps, magnitude_of(u), 999_999);
    lemma_product_magnitude(d, t, 1_000_001, t);
    assert(1_000_001 * t == t * 1_000_001) by (nonlinear_arith);
    lemma_product_magnitude(n, eps, t * 1_000_001, 999_999);
    assert((t * 1_000_001) * 999_999 == t * 999_999_999_999);
    lemma_product_magnitude(eps, eps, 999_999, 999_999);
    assert(eps * eps >= 0) by (nonlinear_arith);
    (e, eps)
}

/// A reported hit lies near the surface. With `t` the ray's parameter at
/// the hit, `r` the rounded root of the discriminant and `oc` the vector
/// from the centre to the ray's origin, the squared distance of the
/// reported point from the centre differs from the squared radius by no
/// more than `2r + 8t + 2|oc| + 3` steps and five millionths of `t^2`,
/// where `|oc|` adds up the magnitudes of the components.
pub proof fn lemma_hit_near_surface(object: VisibleObject, ray: Ray)
    requires
        ray.well_formed(),
        object.struck_by(ray),
    ensures
        ONE * magnitude_of(surface_gap(object, ray)) <= ONE * (2 * floor_sqrt(
            object.discriminant(ray),
        ) + 8 * object.near_root(ray) + 2 * taxicab(ray.origin@.minus(object.center())) + 3) + 5
            * (object.near_root(ray) * object.near_root(ray)),
{
    let d = ray.direction@;
    let oc = ray.origin@.minus(object.center());
    let rad = object.extent();
    let b = object.offset(ray);
    let c = object.clearance(ray);
    let disc = object.discriminant(ray);
    let r = floor_sqrt(disc);
    let t = object.near_root(ray);
    let gap = surface_gap(object, ray);
    lemma_unit_in_range(d);
    lemma_floor_sqrt_exists(disc);
    // The direction's squared norm is within a few parts in a million of one.
    let d2 = d.norm_sq();
    assert(999_999 * 999_999 <= d2 < 1_000_002 * 1_000_002);
    // The three components of the step.
    let (ex, px) = lemma_component_step(oc.x, d.x, t);
    let (ey, py) = lemma_component_step(oc.y, d.y, t);
    let (ez, pz) = lemma_component_step(oc.z, d.z, t);
    let hit = object.strike_point(ray).minus(object.center());
    assert(hit.x == oc.x + ex && hit.y == oc.y + ey && hit.z == oc.z + ez);
    // The rounding of the offset.
    let raw = d.raw_dot(oc);
    let beta = raw - b * 1_000_000;
    let m = magnitude_of(raw);
    assert(m == (m / 1_000_000) * 1_000_000 + m % 1_000_000);
    assert(-1_000_000 < beta < 1_000_000);
    let tt = t * t;
    let bt = b * t;
    assert(((d.x * oc.x) * t) + ((d.y * oc.y) * t) + ((d.z * oc.z) * t) == 1_000_000 * bt + beta
        * t) by (nonlinear_arith)
        requires
            d.x * oc.x + d.y * oc.y + d.z * oc.z == b * 1_000_000 + beta,
            bt == b * t,
    ;
    lemma_product_magnitude(beta, t, 999_999, t);
    assert(999_999 * t == t * 999_999) by (nonlinear_arith);
    assert(((d.x * d.x) * tt) + ((d.y * d.y) * tt) + ((d.z * d.z) * tt) == d2 * tt)
        by (nonlinear_arith)
        requires
            d2 == d.x * d.x + d.y * d.y + d.z * d.z,
    ;
    assert(tt >= 0 && 999_998_000_001 * tt <= d2 * tt <= 1_000_004_000_003 * tt)
        by (nonlinear_arith)
        requires
            tt == t * t,
            999_998_000_001 <= d2 <= 1_000_004_000_003,
    ;
    assert(r * r == b * b + 2 * bt + tt) by (nonlinear_arith)
        requires
            r == -b - t,
            bt == b * t,
            tt == t * t,
    ;
    assert(r * r <= disc <= r * r + 2 * r) by (nonlinear_arith)
        requires
            r * r <= disc < (r + 1) * (r + 1),
    ;
    // The gap, a million million times over, term by term.
    let k = 1_000_000_000_000int;
    let lead = k * (oc.x * oc.x + oc.y * oc.y + oc.z * oc.z - rad * rad);
    assert(lead == k * c);
    assert(c == b * b - disc);
    let cross_terms = 2_000_000 * (1_000_000 * bt + beta * t) - 2_000_000 * (oc.x * px + oc.y * py
        + oc.z * pz);
    let square_terms = d2 * tt - 2 * ((d.x * t) * px + (d.y * t) * py + (d.z * t) * pz) + (px * px
        + py * py + pz * pz);
    assert(k * gap == lead + cross_terms + square_terms);
    assert(k * gap == k * (r * r - disc) + (d2 * tt - k * tt) + 2_000_000 * (beta * t) - 2_000_000
        * (oc.x * px + oc.y * py + oc.z * pz) - 2 * ((d.x * t) * px + (d.y * t) * py + (d.z * t)
        * pz) + (px * px + py * py + pz * pz));
    let bound = k * (2 * r + 8 * t + 2 * taxicab(oc) + 3) + 5_000_000 * tt;
    assert(-bound <= k * gap <= bound);
    assert(tt == object.near_root(ray) * object.near_root(ray));
}

} // verus!
