//! Light sources: point, spot and directional.
//!
//! The user hands a spot or directional light the direction it points; the
//! constructor negates it, so that during shading the stored `dr` points from
//! a lit surface toward the source (spot: the test direction; directional:
//! the "toward light" direction).

use vstd::prelude::*;
use crate::fx::{bnd, fmul, MAXC, SCALE, lemma_fmul_unit_box};
use crate::vec3::{Vec3, vbnd, neg_s, scale_s};

verus! {

#[derive(Clone, Copy, PartialEq, Eq, Structural, Debug)]
pub enum Light {
    Point { pos: Vec3, intensity: Vec3 },
    Spotlight { pos: Vec3, dr: Vec3, cos_angle: i64, intensity: Vec3 },
    Directional { dr: Vec3, intensity: Vec3 },
}

/// An intensity: nonnegative components, inside the scene envelope.
pub open spec fn intensity_ok(v: Vec3) -> bool {
    0 <= v.x <= MAXC && 0 <= v.y <= MAXC && 0 <= v.z <= MAXC
}

pub open spec fn light_ok(l: Light) -> bool {
    match l {
        Light::Point { pos, intensity } => vbnd(pos, MAXC as int) && intensity_ok(intensity),
        Light::Spotlight { pos, dr, cos_angle, intensity } => vbnd(pos, MAXC as int) && vbnd(
            dr,
            SCALE as int,
        ) && bnd(cos_angle as int, SCALE as int) && intensity_ok(intensity),
        Light::Directional { dr, intensity } => vbnd(dr, SCALE as int) && intensity_ok(intensity),
    }
}

/// The stored intensity: the color scaled by the scalar brightness.
pub open spec fn tinted(color: Vec3, brightness: i64) -> Vec3 {
    scale_s(color, brightness as int)
}

proof fn lemma_tinted_ok(color: Vec3, brightness: i64)
    requires
        crate::material::coeff_ok(color),
        0 <= brightness <= MAXC,
    ensures
        intensity_ok(tinted(color, brightness)),
        0 <= fmul(color.x as int, brightness as int) <= MAXC,
        0 <= fmul(color.y as int, brightness as int) <= MAXC,
        0 <= fmul(color.z as int, brightness as int) <= MAXC,
{
    lemma_fmul_unit_box(color.x as int, brightness as int, MAXC as int);
    lemma_fmul_unit_box(color.y as int, brightness as int, MAXC as int);
    lemma_fmul_unit_box(color.z as int, brightness as int, MAXC as int);
}

impl Light {
    /// A point light at `pos` with intensity `color * brightness`.
    pub fn point(pos: Vec3, color: Vec3, brightness: i64) -> (r: Light)
        requires
            vbnd(pos, MAXC as int),
            crate::material::coeff_ok(color),
            0 <= brightness <= MAXC,
        ensures
            r == (Light::Point { pos, intensity: tinted(color, brightness) }),
            light_ok(r),
    {
        proof {
            lemma_tinted_ok(color, brightness);
        }
        Light::Point { pos, intensity: color.scaled(brightness) }
    }

    /// A spot light at `pos` pointing along `dr`, lighting the cone whose
    /// half-angle has the given cosine, with intensity `color * brightness`.
    pub fn spotlight(pos: Vec3, dr: Vec3, cos_angle: i64, color: Vec3, brightness: i64) -> (r:
        Light)
        requires
            vbnd(pos, MAXC as int),
            vbnd(dr, SCALE as int),
            bnd(cos_angle as int, SCALE as int),
            crate::material::coeff_ok(color),
            0 <= brightness <= MAXC,
        ensures
            r == (Light::Spotlight {
                pos,
                dr: neg_s(dr),
                cos_angle,
                intensity: tinted(color, brightness),
            }),
            light_ok(r),
    {
        proof {
            lemma_tinted_ok(color, brightness);
        }
        Light::Spotlight { pos, dr: dr.negated(), cos_angle, intensity: color.scaled(brightness) }
    }

    /// A directional light shining along `dr`, with intensity
    /// `color * brightness`.
    pub fn directional(dr: Vec3, color: Vec3, brightness: i64) -> (r: Light)
        requires
            vbnd(dr, SCALE as int),
            crate::material::coeff_ok(color),
            0 <= brightness <= MAXC,
        ensures
            r == (Light::Directional { dr: neg_s(dr), intensity: tinted(color, brightness) }),
            light_ok(r),
    {
        proof {
            lemma_tinted_ok(color, brightness);
        }
        Light::Directional { dr: dr.negated(), intensity: color.scaled(brightness) }
    }
}

} // verus!
