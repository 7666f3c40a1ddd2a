//! The arithmetic operators of vectors, for owned and borrowed operands
//! alike.

use crate::fixed::{narrow, scaled_product, scaled_quotient};
use crate::vector3::Vector3;
use vstd::prelude::*;
use vstd::std_specs::ops::{AddSpecImpl, DivSpecImpl, MulSpecImpl, NegSpecImpl, SubSpecImpl};

verus! {

impl AddSpecImpl for Vector3 {
    open spec fn obeys_add_spec() -> bool {
        true
    }

    open spec fn add_req(self, other: Vector3) -> bool {
        self@.plus(other@).representable()
    }

    open spec fn add_spec(self, other: Vector3) -> Vector3 {
        Vector3::of(self@.plus(other@))
    }
}

impl core::ops::Add for Vector3 {
    type Output = Vector3;

    /// The component-wise sum.
    fn add(self, other: Vector3) -> (r: Vector3) {
        Vector3::new(self.x + other.x, self.y + other.y, self.z + other.z)
    }
}

impl<'a> AddSpecImpl<Vector3> for &'a Vector3 {
    open spec fn obeys_add_spec() -> bool {
        true
    }

    open spec fn add_req(self, other: Vector3) -> bool {
        self@.plus(other@).representable()
    }

    open spec fn add_spec(self, other: Vector3) -> Vector3 {
        Vector3::of(self@.plus(other@))
    }
}

impl<'a> core::ops::Add<Vector3> for &'a Vector3 {
    type Output = Vector3;

    /// The component-wise sum.
    fn add(self, other: Vector3) -> (r: Vector3) {
        Vector3::new(self.x + other.x, self.y + other.y, self.z + other.z)
    }
}

impl<'a> AddSpecImpl<&'a Vector3> for Vector3 {
    open spec fn obeys_add_spec() -> bool {
        true
    }

    open spec fn add_req(self, other: &'a Vector3) -> bool {
        self@.plus(other@).representable()
    }

    open spec fn add_spec(self, other: &'a Vector3) -> Vector3 {
        Vector3::of(self@.plus(other@))
    }
}

impl<'a> core::ops::Add<&'a Vector3> for Vector3 {
    type Output = Vector3;

    /// The component-wise sum.
    fn add(self, other: &'a Vector3) -> (r: Vector3) {
        Vector3::new(self.x + other.x, self.y + other.y, self.z + other.z)
    }
}

impl<'a, 'b> AddSpecImpl<&'b Vector3> for &'a Vector3 {
    open spec fn obeys_add_spec() -> bool {
        true
    }

    open spec fn add_req(self, other: &'b Vector3) -> bool {
        self@.plus(other@).representable()
    }

    open spec fn add_spec(self, other: &'b Vector3) -> Vector3 {
        Vector3::of(self@.plus(other@))
    }
}

impl<'a, 'b> core::ops::Add<&'b Vector3> for &'a Vector3 {
    type Output = Vector3;

    /// The component-wise sum.
    fn add(self, other: &'b Vector3) -> (r: Vector3) {
        Vector3::new(self.x + other.x, self.y + other.y, self.z + other.z)
    }
}

impl SubSpecImpl for Vector3 {
    open spec fn obeys_sub_spec() -> bool {
        true
    }

    open spec fn sub_req(self, other: Vector3) -> bool {
        self@.minus(other@).representable()
    }

    open spec fn sub_spec(self, other: Vector3) -> Vector3 {
        Vector3::of(self@.minus(other@))
    }
}

impl core::ops::Sub for Vector3 {
    type Output = Vector3;

    /// The component-wise difference.
    fn sub(self, other: Vector3) -> (r: Vector3) {
        Vector3::new(self.x - other.x, self.y - other.y, self.z - other.z)
    }
}

impl<'a> SubSpecImpl<Vector3> for &'a Vector3 {
    open spec fn obeys_sub_spec() -> bool {
        true
    }

    open spec fn sub_req(self, other: Vector3) -> bool {
        self@.minus(other@).representable()
    }

    open spec fn sub_spec(self, other: Vector3) -> Vector3 {
        Vector3::of(self@.minus(other@))
    }
}

impl<'a> core::ops::Sub<Vector3> for &'a Vector3 {
    type Output = Vector3;

    /// The component-wise difference.
    fn sub(self, other: Vector3) -> (r: Vector3) {
        Vector3::new(self.x - other.x, self.y - other.y, self.z - other.z)
    }
}

impl<'a> SubSpecImpl<&'a Vector3> for Vector3 {
    open spec fn obeys_sub_spec() -> bool {
        true
    }

    open spec fn sub_req(self, other: &'a Vector3) -> bool {
        self@.minus(other@).representable()
    }

    open spec fn sub_spec(self, other: &'a Vector3) -> Vector3 {
        Vector3::of(self@.minus(other@))
    }
}

impl<'a> core::ops::Sub<&'a Vector3> for Vector3 {
    type Output = Vector3;

    /// The component-wise difference.
    fn sub(self, other: &'a Vector3) -> (r: Vector3) {
        Vector3::new(self.x - other.x, self.y - other.y, self.z - other.z)
    }
}

impl<'a, 'b> SubSpecImpl<&'b Vector3> for &'a Vector3 {
    open spec fn obeys_sub_spec() -> bool {
        true
    }

    open spec fn sub_req(self, other: &'b Vector3) -> bool {
        self@.minus(other@).representable()
    }

    open spec fn sub_spec(self, other: &'b Vector3) -> Vector3 {
        Vector3::of(self@.minus(other@))
    }
}

impl<'a, 'b> core::ops::Sub<&'b Vector3> for &'a Vector3 {
    type Output = Vector3;

    /// The component-wise difference.
    fn sub(self, other: &'b Vector3) -> (r: Vector3) {
        Vector3::new(self.x - other.x, self.y - other.y, self.z - other.z)
    }
}

impl MulSpecImpl for Vector3 {
    open spec fn obeys_mul_spec() -> bool {
        true
    }

    open spec fn mul_req(self, other: Vector3) -> bool {
        self@.times(other@).representable()
    }

    open spec fn mul_spec(self, other: Vector3) -> Vector3 {
        Vector3::of(self@.times(other@))
    }
}

impl core::ops::Mul for Vector3 {
    type Output = Vector3;

    /// The component-wise product.
    fn mul(self, other: Vector3) -> (r: Vector3) {
        Vector3::new(
            narrow(scaled_product(self.x, other.x)),
            narrow(scaled_product(self.y, other.y)),
            narrow(scaled_product(self.z, other.z)),
        )
    }
}

impl<'a> MulSpecImpl<Vector3> for &'a Vector3 {
    open spec fn obeys_mul_spec() -> bool {
        true
    }

    open spec fn mul_req(self, other: Vector3) -> bool {
        self@.times(other@).representable()
    }

    open spec fn mul_spec(self, other: Vector3) -> Vector3 {
        Vector3::of(self@.times(other@))
    }
}

impl<'a> core::ops::Mul<Vector3> for &'a Vector3 {
    type Output = Vector3;

    /// The component-wise product.
    fn mul(self, other: Vector3) -> (r: Vector3) {
        Vector3::new(
            narrow(scaled_product(self.x, other.x)),
            narrow(scaled_product(self.y, other.y)),
            narrow(scaled_product(self.z, other.z)),
        )
    }
}

impl<'a> MulSpecImpl<&'a Vector3> for Vector3 {
    open spec fn obeys_mul_spec() -> bool {
        true
    }

    open spec fn mul_req(self, other: &'a Vector3) -> bool {
        self@.times(other@).representable()
    }

    open spec fn mul_spec(self, other: &'a Vector3) -> Vector3 {
        Vector3::of(self@.times(other@))
    }
}

impl<'a> core::ops::Mul<&'a Vector3> for Vector3 {
    type Output = Vector3;

    /// The component-wise product.
    fn mul(self, other: &'a Vector3) -> (r: Vector3) {
        Vector3::new(
            narrow(scaled_product(self.x, other.x)),
            narrow(scaled_product(self.y, other.y)),
            narrow(scaled_product(self.z, other.z)),
        )
    }
}

impl<'a, 'b> MulSpecImpl<&'b Vector3> for &'a Vector3 {
    open spec fn obeys_mul_spec() -> bool {
        true
    }

    open spec fn mul_req(self, other: &'b Vector3) -> bool {
        self@.times(other@).representable()
    }

    open spec fn mul_spec(self, other: &'b Vector3) -> Vector3 {
        Vector3::of(self@.times(other@))
    }
}

impl<'a, 'b> core::ops::Mul<&'b Vector3> for &'a Vector3 {
    type Output = Vector3;

    /// The component-wise product.
    fn mul(self, other: &'b Vector3) -> (r: Vector3) {
        Vector3::new(
            narrow(scaled_product(self.x, other.x)),
            narrow(scaled_product(self.y, other.y)),
            narrow(scaled_product(self.z, other.z)),
        )
    }
}

impl DivSpecImpl for Vector3 {
    open spec fn obeys_div_spec() -> bool {
        true
    }

    open spec fn div_req(self, other: Vector3) -> bool {
        other.x != 0 && other.y != 0 && other.z != 0 && self@.over(other@).representable()
    }

    open spec fn div_spec(self, other: Vector3) -> Vector3 {
        Vector3::of(self@.over(other@))
    }
}

impl core::ops::Div for Vector3 {
    type Output = Vector3;

    /// The component-wise quotient.
    fn div(self, other: Vector3) -> (r: Vector3) {
        Vector3::new(
            narrow(scaled_quotient(self.x, other.x)),
            narrow(scaled_quotient(self.y, other.y)),
            narrow(scaled_quotient(self.z, other.z)),
        )
    }
}

impl<'a> DivSpecImpl<Vector3> for &'a Vector3 {
    open spec fn obeys_div_spec() -> bool {
        true
    }

    open spec fn div_req(self, other: Vector3) -> bool {
        other.x != 0 && other.y != 0 && other.z != 0 && self@.over(other@).representable()
    }

    open spec fn div_spec(self, other: Vector3) -> Vector3 {
        Vector3::of(self@.over(other@))
    }
}

impl<'a> core::ops::Div<Vector3> for &'a Vector3 {
    type Output = Vector3;

    /// The component-wise quotient.
    fn div(self, other: Vector3) -> (r: Vector3) {
        Vector3::new(
            narrow(scaled_quotient(self.x, other.x)),
            narrow(scaled_quotient(self.y, other.y)),
            narrow(scaled_quotient(self.z, other.z)),
        )
    }
}

impl<'a> DivSpecImpl<&'a Vector3> for Vector3 {
    open spec fn obeys_div_spec() -> bool {
        true
    }

    open spec fn div_req(self, other: &'a Vector3) -> bool {
        other.x != 0 && other.y != 0 && other.z != 0 && self@.over(other@).representable()
    }

    open spec fn div_spec(self, other: &'a Vector3) -> Vector3 {
        Vector3::of(self@.over(other@))
    }
}

impl<'a> core::ops::Div<&'a Vector3> for Vector3 {
    type Output = Vector3;

    /// The component-wise quotient.
    fn div(self, other: &'a Vector3) -> (r: Vector3) {
        Vector3::new(
            narrow(scaled_quotient(self.x, other.x)),
            narrow(scaled_quotient(self.y, other.y)),
            narrow(scaled_quotient(self.z, other.z)),
        )
    }
}

impl<'a, 'b> DivSpecImpl<&'b Vector3> for &'a Vector3 {
    open spec fn obeys_div_spec() -> bool {
        true
    }

    open spec fn div_req(self, other: &'b Vector3) -> bool {
        other.x != 0 && other.y != 0 && other.z != 0 && self@.over(other@).representable()
    }

    open spec fn div_spec(self, other: &'b Vector3) -> Vector3 {
        Vector3::of(self@.over(other@))
    }
}

impl<'a, 'b> core::ops::Div<&'b Vector3> for &'a Vector3 {
    type Output = Vector3;

    /// The component-wise quotient.
    fn div(self, other: &'b Vector3) -> (r: Vector3) {
        Vector3::new(
            narrow(scaled_quotient(self.x, other.x)),
            narrow(scaled_quotient(self.y, other.y)),
            narrow(scaled_quotient(self.z, other.z)),
        )
    }
}

impl MulSpecImpl<i64> for Vector3 {
    open spec fn obeys_mul_spec() -> bool {
        true
    }

    open spec fn mul_req(self, scalar: i64) -> bool {
        self@.scaled(scalar as int).representable()
    }

    open spec fn mul_spec(self, scalar: i64) -> Vector3 {
        Vector3::of(self@.scaled(scalar as int))
    }
}

impl core::ops::Mul<i64> for Vector3 {
    type Output = Vector3;

    /// The vector stretched by a scalar.
    fn mul(self, scalar: i64) -> (r: Vector3) {
        Vector3::new(
            narrow(scaled_product(self.x, scalar)),
            narrow(scaled_product(self.y, scalar)),
            narrow(scaled_product(self.z, scalar)),
        )
    }
}

impl<'a> MulSpecImpl<i64> for &'a Vector3 {
    open spec fn obeys_mul_spec() -> bool {
        true
    }

    open spec fn mul_req(self, scalar: i64) -> bool {
        self@.scaled(scalar as int).representable()
    }

    open spec fn mul_spec(self, scalar: i64) -> Vector3 {
        Vector3::of(self@.scaled(scalar as int))
    }
}

impl<'a> core::ops::Mul<i64> for &'a Vector3 {
    type Output = Vector3;

    /// The vector stretched by a scalar.
    fn mul(self, scalar: i64) -> (r: Vector3) {
        Vector3::new(
            narrow(scaled_product(self.x, scalar)),
            narrow(scaled_product(self.y, scalar)),
            narrow(scaled_product(self.z, scalar)),
        )
    }
}

impl DivSpecImpl<i64> for Vector3 {
    open spec fn obeys_div_spec() -> bool {
        true
    }

    open spec fn div_req(self, scalar: i64) -> bool {
        scalar != 0 && self@.shrunk(scalar as int).representable()
    }

    open spec fn div_spec(self, scalar: i64) -> Vector3 {
        Vector3::of(self@.shrunk(scalar as int))
    }
}

impl core::ops::Div<i64> for Vector3 {
    type Output = Vector3;

    /// The vector shrunk by a non-zero scalar.
    fn div(self, scalar: i64) -> (r: Vector3) {
        Vector3::new(
            narrow(scaled_quotient(self.x, scalar)),
            narrow(scaled_quotient(self.y, scalar)),
            narrow(scaled_quotient(self.z, scalar)),
        )
    }
}

impl<'a> DivSpecImpl<i64> for &'a Vector3 {
    open spec fn obeys_div_spec() -> bool {
        true
    }

    open spec fn div_req(self, scalar: i64) -> bool {
        scalar != 0 && self@.shrunk(scalar as int).representable()
    }

    open spec fn div_spec(self, scalar: i64) -> Vector3 {
        Vector3::of(self@.shrunk(scalar as int))
    }
}

impl<'a> core::ops::Div<i64> for &'a Vector3 {
    type Output = Vector3;

    /// The vector shrunk by a non-zero scalar.
    fn div(self, scalar: i64) -> (r: Vector3) {
        Vector3::new(
            narrow(scaled_quotient(self.x, scalar)),
            narrow(scaled_quotient(self.y, scalar)),
            narrow(scaled_quotient(self.z, scalar)),
        )
    }
}

impl MulSpecImpl<Vector3> for i64 {
    open spec fn obeys_mul_spec() -> bool {
        true
    }

    open spec fn mul_req(self, vector: Vector3) -> bool {
        vector@.scaled(self as int).representable()
    }

    open spec fn mul_spec(self, vector: Vector3) -> Vector3 {
        Vector3::of(vector@.scaled(self as int))
    }
}

impl core::ops::Mul<Vector3> for i64 {
    type Output = Vector3;

    /// The vector stretched by a scalar.
    fn mul(self, vector: Vector3) -> (r: Vector3) {
        Vector3::new(
            narrow(scaled_product(vector.x, self)),
            narrow(scaled_product(vector.y, self)),
            narrow(scaled_product(vector.z, self)),
        )
    }
}

impl<'a> MulSpecImpl<&'a Vector3> for i64 {
    open spec fn obeys_mul_spec() -> bool {
        true
    }

    open spec fn mul_req(self, vector: &'a Vector3) -> bool {
        vector@.scaled(self as int).representable()
    }

    open spec fn mul_spec(self, vector: &'a Vector3) -> Vector3 {
        Vector3::of(vector@.scaled(self as int))
    }
}

impl<'a> core::ops::Mul<&'a Vector3> for i64 {
    type Output = Vector3;

    /// The vector stretched by a scalar.
    fn mul(self, vector: &'a Vector3) -> (r: Vector3) {
        Vector3::new(
            narrow(scaled_product(vector.x, self)),
            narrow(scaled_product(vector.y, self)),
            narrow(scaled_product(vector.z, self)),
        )
    }
}

impl NegSpecImpl for Vector3 {
    open spec fn obeys_neg_spec() -> bool {
        true
    }

    open spec fn neg_req(self) -> bool {
        self@.negated().representable()
    }

    open spec fn neg_spec(self) -> Vector3 {
        Vector3::of(self@.negated())
    }
}

impl core::ops::Neg for Vector3 {
    type Output = Vector3;

    /// The opposite vector.
    fn neg(self) -> (r: Vector3) {
        Vector3::new(-self.x, -self.y, -self.z)
    }
}

impl<'a> NegSpecImpl for &'a Vector3 {
    open spec fn obeys_neg_spec() -> bool {
        true
    }

    open spec fn neg_req(self) -> bool {
        self@.negated().representable()
    }

    open spec fn neg_spec(self) -> Vector3 {
        Vector3::of(self@.negated())
    }
}

impl<'a> core::ops::Neg for &'a Vector3 {
    type Output = Vector3;

    /// The opposite vector.
    fn neg(self) -> (r: Vector3) {
        Vector3::new(-self.x, -self.y, -self.z)
    }
}

} // verus!
