//! Visible shapes and the test of a ray against one.

use crate::fixed::{
    floor_sqrt, isqrt, lemma_product_magnitude, lemma_scaled_magnitude, wide_product, COORD_MAX,
    ONE,
};
use crate::material::Material;
use crate::ray::{Ray, RayResult};
use crate::unit_length::lemma_unit_in_range;
use crate::vector3::{Triple, Vector3};
use vstd::prelude::*;

verus! {

/// A shape that a ray can strike.
#[derive(Debug, Clone, Copy, PartialEq, Eq)]
pub enum VisibleObject {
    /// The sphere about `position` of the given radius.
    Sphere { position: Vector3, radius: i64, material: Material },
}

impl VisibleObject {
    /// The centre of the shape.
    pub open spec fn center(&self) -> Triple {
        match self {
            VisibleObject::Sphere { position, .. } => position@,
        }
    }

    /// The radius of the shape, as a raw scalar.
    pub open spec fn extent(&self) -> int {
        match self {
            VisibleObject::Sphere { radius, .. } => *radius as int,
        }
    }

    /// Whether the shape lies within the coordinate range and has a positive
    /// radius.
    pub open spec fn well_formed(&self) -> bool {
        self.center().in_range() && 0 < self.extent() <= COORD_MAX
    }

    /// The ray's direction dotted with the vector from the centre to the
    /// ray's origin: negative where the ray points toward the centre.
    pub open spec fn offset(&self, ray: Ray) -> int {
        ray.direction@.dot(ray.origin@.minus(self.center()))
    }

    /// How far the ray's origin is outside the surface: the squared distance
    /// from the centre minus the squared radius, in squared raw steps.
    pub open spec fn clearance(&self, ray: Ray) -> int {
        ray.origin@.minus(self.center()).norm_sq() - self.extent() * self.extent()
    }

    /// The discriminant of the quadratic in the ray's parameter, in squared
    /// raw steps: negative where the ray's line does not meet the surface.
    pub open spec fn discriminant(&self, ray: Ray) -> int {
        self.offset(ray) * self.offset(ray) - self.clearance(ray)
    }

    /// The smaller root of the quadratic, as a scalar: the parameter at
    /// which the ray's line first meets the surface.
    pub open spec fn near_root(&self, ray: Ray) -> int
        recommends
            self.discriminant(ray) >= 0,
    {
        -self.offset(ray) - floor_sqrt(self.discriminant(ray))
    }

    /// The larger root of the quadratic, as a scalar.
    pub open spec fn far_root(&self, ray: Ray) -> int
        recommends
            self.discriminant(ray) >= 0,
    {
        -self.offset(ray) + floor_sqrt(self.discriminant(ray))
    }

    /// Whether the ray strikes the shape: its line meets the surface, its
    /// origin is outside the surface or on it, and the line first meets the
    /// surface at or ahead of the origin. How far the origin is outside is
    /// exact, so an origin inside by any margin is never struck.
    pub open spec fn struck_by(&self, ray: Ray) -> bool {
        self.discriminant(ray) >= 0 && self.clearance(ray) >= 0 && self.near_root(ray) >= 0
    }

    /// Where the ray strikes the shape.
    pub open spec fn strike_point(&self, ray: Ray) -> Triple
        recommends
            self.struck_by(ray),
    {
        ray.origin@.plus(ray.direction@.scaled(self.near_root(ray)))
    }

    /// The outcome of casting the ray at the shape.
    pub open spec fn intersection(&self, ray: Ray) -> RayResult {
        if self.struck_by(ray) {
            RayResult::RayHit { target: *self, point: Vector3::of(self.strike_point(ray)) }
        } else {
            RayResult::RayMiss
        }
    }

    /// Casts the ray at the shape. The ray hits where its line meets the
    /// surface at or ahead of its origin, and the point reported is the
    /// nearer of the two crossings. A ray that starts inside the shape, or
    /// beyond it, misses.
    pub fn test_intersect(&self, ray: Ray) -> (r: RayResult)
        requires
            self.well_formed(),
            ray.well_formed(),
            ray.origin@.in_range(),
        ensures
            r == self.intersection(ray),
    {
        match self {
            VisibleObject::Sphere { position, radius, material: _ } => {
                let dir: Vector3 = ray.direction;
                proof {
                    lemma_unit_in_range(dir@);
                }
                let oc: Vector3 = ray.origin - position;
                proof {
                    let w = 2_000_000_000_000int;
                    lemma_product_magnitude(dir.x as int, oc.x as int, ONE + 1, w);
                    lemma_product_magnitude(dir.y as int, oc.y as int, ONE + 1, w);
                    lemma_product_magnitude(dir.z as int, oc.z as int, ONE + 1, w);
                    lemma_scaled_magnitude(dir@.raw_dot(oc@), 7_000_000_000_000);
                    lemma_product_magnitude(oc.x as int, oc.x as int, w, w);
                    lemma_product_magnitude(oc.y as int, oc.y as int, w, w);
                    lemma_product_magnitude(oc.z as int, oc.z as int, w, w);
                    lemma_product_magnitude(
                        *radius as int,
                        *radius as int,
                        COORD_MAX as int,
                        COORD_MAX as int,
                    );
                }
                let b: i64 = dir.dot(&oc);
                proof {
                    lemma_product_magnitude(
                        b as int,
                        b as int,
                        7_000_000_000_000,
                        7_000_000_000_000,
                    );
                }
                let c: i128 = (oc.norm_sq() as i128) - wide_product(*radius, *radius);
                let d: i128 = wide_product(b, b) - c;
                if d < 0 {
                    return RayResult::new_miss();
                }
                if c < 0 {
                    // The origin is inside: the surface ahead is its far
                    // side, which is not reported.
                    return RayResult::new_miss();
                }
                let root: u128 = isqrt(d as u128);
                let t: i128 = -(b as i128) - (root as i128);
                if t < 0 {
                    return RayResult::new_miss();
                }
                proof {
                    let m = 7_000_000_000_000int;
                    lemma_product_magnitude(dir.x as int, t as int, ONE + 1, m);
                    lemma_product_magnitude(dir.y as int, t as int, ONE + 1, m);
                    lemma_product_magnitude(dir.z as int, t as int, ONE + 1, m);
                    lemma_scaled_magnitude(dir.x * t, 8_000_000_000_000);
                    lemma_scaled_magnitude(dir.y * t, 8_000_000_000_000);
                    lemma_scaled_magnitude(dir.z * t, 8_000_000_000_000);
                }
                let point: Vector3 = ray.origin + dir * (t as i64);
                RayResult::new_hit(*self, point)
            },
        }
    }
}

} // verus!
