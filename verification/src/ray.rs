//! Rays and the outcome of casting one at an object.

use crate::vector3::Vector3;
use crate::visible_object::VisibleObject;
use vstd::prelude::*;

verus! {

/// A half-line: the points `origin + t * direction` for `t >= 0`.
#[derive(Debug, Clone, Copy, PartialEq, Eq, Structural)]
pub struct Ray {
    pub origin: Vector3,
    pub direction: Vector3,
}

impl Ray {
    /// Whether the direction has unit length.
    pub open spec fn well_formed(&self) -> bool {
        self.direction@.is_unit()
    }

    /// The ray from `origin` along `direction`. The direction is stored
    /// normalised, whatever its length was.
    pub fn new(origin: Vector3, direction: Vector3) -> (r: Self)
        requires
            direction@.in_range(),
            !direction@.is_zero(),
        ensures
            r.origin == origin,
            r.direction@ == direction@.unit(),
            r.well_formed(),
    {
        Ray { origin, direction: direction.normalized() }
    }
}

/// What a ray met.
#[derive(Debug, Clone, Copy, PartialEq, Eq)]
pub enum RayResult {
    /// The ray struck `target` at `point`.
    RayHit { target: VisibleObject, point: Vector3 },
    /// The ray struck nothing.
    RayMiss,
}

impl RayResult {
    /// The outcome of a ray that struck `target` at `point`.
    pub fn new_hit(target: VisibleObject, point: Vector3) -> (r: Self)
        ensures
            r == (RayResult::RayHit { target, point }),
    {
        RayResult::RayHit { target, point }
    }

    /// The outcome of a ray that struck nothing.
    pub fn new_miss() -> (r: Self)
        ensures
            r == RayResult::RayMiss,
    {
        RayResult::RayMiss
    }
}

} // verus!
