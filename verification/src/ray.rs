//! Parametric rays `R(t) = origin + t * dr`.

use vstd::prelude::*;
use crate::fx::{bnd, fmul, qz, RAYB, TMAX, SCALE, lemma_mul_mag, lemma_qz_mag_le};
use crate::vec3::{Vec3, vbnd, plus_s, scale_s};

verus! {

#[derive(Clone, Copy, PartialEq, Eq, Structural, Debug)]
pub struct Ray {
    pub origin: Vec3,
    pub dr: Vec3,
}

/// Rays the intersection queries accept: both vectors inside the envelope.
pub open spec fn ray_ok(r: Ray) -> bool {
    vbnd(r.origin, RAYB as int) && vbnd(r.dr, RAYB as int)
}

/// The point `origin + t * dr`.
pub open spec fn at_s(r: Ray, t: int) -> Vec3 {
    plus_s(r.origin, scale_s(r.dr, t))
}

impl Ray {
    /// Constructor. When `dr` is a unit vector, the parameter `t` equals the
    /// distance from the origin.
    pub fn new(origin: Vec3, dr: Vec3) -> (r: Ray)
        ensures
            r == (Ray { origin, dr }),
    {
        Ray { origin, dr }
    }

    /// The point reached after parameter `t`.
    pub fn at(&self, t: i64) -> (p: Vec3)
        requires
            ray_ok(*self),
            bnd(t as int, TMAX as int),
        ensures
            p == at_s(*self, t as int),
            vbnd(p, 0x100_0000_0000_0000),
    {
        proof {
            lemma_mul_mag(self.dr.x as int, t as int, RAYB as int, TMAX as int);
            lemma_mul_mag(self.dr.y as int, t as int, RAYB as int, TMAX as int);
            lemma_mul_mag(self.dr.z as int, t as int, RAYB as int, TMAX as int);
            lemma_qz_mag_le(self.dr.x * t, (RAYB as int) * (TMAX as int), SCALE as int);
            lemma_qz_mag_le(self.dr.y * t, (RAYB as int) * (TMAX as int), SCALE as int);
            lemma_qz_mag_le(self.dr.z * t, (RAYB as int) * (TMAX as int), SCALE as int);
        }
        self.origin.plus(self.dr.scaled(t))
    }
}

/// A hit point of a bounded primary ray stays inside the ray envelope, so a
/// shadow ray starting there is again acceptable.
pub proof fn lemma_at_bound(r: Ray, t: int, ob: int)
    requires
        vbnd(r.origin, ob),
        vbnd(r.dr, crate::fx::DIRB as int),
        0 <= t <= TMAX as int,
    ensures
        vbnd(at_s(r, t), ob + 0x4_0000_0000),
{
    lemma_mul_mag(r.dr.x as int, t, crate::fx::DIRB as int, TMAX as int);
    lemma_mul_mag(r.dr.y as int, t, crate::fx::DIRB as int, TMAX as int);
    lemma_mul_mag(r.dr.z as int, t, crate::fx::DIRB as int, TMAX as int);
    lemma_qz_mag_le(r.dr.x * t, (crate::fx::DIRB as int) * (TMAX as int), SCALE as int);
    lemma_qz_mag_le(r.dr.y * t, (crate::fx::DIRB as int) * (TMAX as int), SCALE as int);
    lemma_qz_mag_le(r.dr.z * t, (crate::fx::DIRB as int) * (TMAX as int), SCALE as int);
}

} // verus!
