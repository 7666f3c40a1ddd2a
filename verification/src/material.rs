//! Surface materials.

use crate::fixed::ONE;
use vstd::prelude::*;

verus! {

/// How a surface looks: its colour, how rough and how opaque it is, how it
/// bends light, and whether it gives off light of its own.
#[derive(Debug, Clone, Copy, PartialEq, Eq)]
pub struct Material {
    /// The red, green and blue channels, as scalars.
    pub color: [i64; 3],
    /// How much the surface scatters what it reflects.
    pub roughness: i64,
    /// From zero, fully transparent, to one, fully opaque.
    pub opacity: i64,
    /// The refractive index of the medium behind the surface.
    pub refractive_index: i64,
    /// Whether the surface is a light.
    pub is_light: bool,
}

impl Material {
    /// Whether a colour is brighter than the display range in some channel:
    /// such a surface emits light.
    pub open spec fn emits(color: [i64; 3]) -> bool {
        color[0] > ONE || color[1] > ONE || color[2] > ONE
    }

    /// Whether the light flag agrees with the colour.
    pub open spec fn well_formed(&self) -> bool {
        self.is_light == Self::emits(self.color)
    }

    /// A material of the given appearance. It is a light if and only if some
    /// colour channel exceeds one. No input is range-checked.
    pub fn new(color: [i64; 3], roughness: i64, opacity: i64, refractive_index: i64) -> (m:
        Material)
        ensures
            m.color == color,
            m.roughness == roughness,
            m.opacity == opacity,
            m.refractive_index == refractive_index,
            m.is_light == Self::emits(color),
            m.well_formed(),
    {
        let is_light: bool = color[0] > ONE || color[1] > ONE || color[2] > ONE;
        Material { color, roughness, opacity, refractive_index, is_light }
    }
}

} // verus!
