//! Phong materials: three reflectivity coefficients and a shininess exponent.

use vstd::prelude::*;
use crate::fx::SCALE;
use crate::vec3::Vec3;

verus! {

#[derive(Clone, Copy, PartialEq, Eq, Structural, Debug)]
pub struct Material {
    /// Ambient reflectivity, each component in `[0, 1]`.
    pub k_amb: Vec3,
    /// Diffuse reflectivity, each component in `[0, 1]`.
    pub k_dif: Vec3,
    /// Specular reflectivity, each component in `[0, 1]`.
    pub k_esp: Vec3,
    /// Shininess exponent, in `[1, 10000]`.
    pub e: u32,
}

/// A reflectivity coefficient: every component in `[0, 1]`.
pub open spec fn coeff_ok(v: Vec3) -> bool {
    0 <= v.x <= SCALE && 0 <= v.y <= SCALE && 0 <= v.z <= SCALE
}

pub open spec fn material_ok(m: Material) -> bool {
    coeff_ok(m.k_amb) && coeff_ok(m.k_dif) && coeff_ok(m.k_esp) && 1 <= m.e <= 10000
}

impl Material {
    /// Constructor.
    pub fn new(k_amb: Vec3, k_dif: Vec3, k_esp: Vec3, e: u32) -> (r: Material)
        requires
            coeff_ok(k_amb),
            coeff_ok(k_dif),
            coeff_ok(k_esp),
            1 <= e <= 10000,
        ensures
            r == (Material { k_amb, k_dif, k_esp, e }),
            material_ok(r),
    {
        Material { k_amb, k_dif, k_esp, e }
    }

    /// A neutral bright material.
    pub fn white() -> (r: Material)
        ensures
            material_ok(r),
            r.k_amb == r.k_dif && r.k_dif == r.k_esp,
            r.e == 10,
    {
        let k = Vec3 { x: 52428, y: 52428, z: 52428 };
        Material { k_amb: k, k_dif: k, k_esp: k, e: 10 }
    }
}

} // verus!
