//! Spheres and their ray intersection.

use vstd::prelude::*;
use crate::fx::{absi, bnd, qz, MAXC, RAYB, SCALE, TMAX, wmul, lemma_sqrt_floor_bounds};
use crate::vec3::{
    Vec3, vbnd, dot_raw, minus_s, norm2, normalize_s, orient_s, length_s, orient_against,
    lemma_dot_raw_bound, lemma_component_le_length, lemma_norm2_nonneg,
};
use crate::ray::{Ray, ray_ok, at_s};
use crate::material::{Material, material_ok, coeff_ok};
use crate::texture::{Texture, tex_ok, sample_s};
use crate::angle::{atan2_s, asin_s, atan2_fx, asin_fx, PI_FX, PI2_FX, TWO_PI_FX};
use crate::vec3::hadamard_s;
use crate::solve::{quad_roots_s, quad_roots};

verus! {

pub struct Sphere {
    pub center: Vec3,
    pub radius: i64,
    pub material: Material,
    pub texture: Option<Texture>,
}

pub open spec fn sphere_ok(s: &Sphere) -> bool {
    &&& vbnd(s.center, MAXC as int)
    &&& 0 < s.radius <= MAXC
    &&& material_ok(s.material)
    &&& (s.texture is Some ==> tex_ok(&s.texture->Some_0))
}

/// The longitude coordinate of the outward unit normal:
/// `1/2 + (atan2(nz, nx) - pi/2) / (-2 pi)`.
pub open spec fn sphere_uv_u(n: Vec3) -> int {
    32768 + qz(
        (atan2_s(n.z as int, n.x as int) - PI2_FX as int) * (SCALE as int),
        -(TWO_PI_FX as int),
    )
}

/// The latitude coordinate of the outward unit normal:
/// `1/2 - asin(ny) / pi`.
pub open spec fn sphere_uv_v(n: Vec3) -> int {
    32768 - qz(asin_s(n.y as int) * (SCALE as int), PI_FX as int)
}

/// The material the sphere reports for the outward unit normal `n`: its
/// base material, with the coefficients tinted by the texel the normal's
/// longitude and latitude select when a texture is present.
pub open spec fn sphere_material_s(s: &Sphere, n: Vec3) -> Material {
    if s.texture is Some {
        let c = sample_s(&s.texture->Some_0, sphere_uv_u(n), sphere_uv_v(n));
        Material {
            k_amb: hadamard_s(c, s.material.k_amb),
            k_dif: hadamard_s(c, s.material.k_dif),
            k_esp: hadamard_s(c, s.material.k_esp),
            e: s.material.e,
        }
    } else {
        s.material
    }
}

/// The quadric coefficients of `|R(t) - C|^2 = r^2` in raw integer units:
/// with `v = C - O`, they are `a = D.D`, `b = -2 D.v`, `c = v.v - r^2`.
pub open spec fn sphere_coeffs(s: &Sphere, r: &Ray) -> (int, int, int) {
    let v = minus_s(s.center, r.origin);
    (
        dot_raw(r.dr, r.dr),
        -2 * dot_raw(r.dr, v),
        dot_raw(v, v) - s.radius * s.radius,
    )
}

/// The intersection in the model: the smallest strictly positive root inside
/// the accepted range, with the outward normal `normalize(P - C)` oriented
/// against the ray and the material (texture-tinted by the outward normal
/// when a texture is present).
pub open spec fn sphere_hit_s(s: &Sphere, r: &Ray) -> Option<(int, Vec3, Material)> {
    let abc = sphere_coeffs(s, r);
    match quad_roots_s(abc.0, abc.1, abc.2) {
        None => None,
        Some((lo, hi)) => {
            let t = if lo > 0 {
                lo
            } else {
                hi
            };
            if 0 < t <= TMAX {
                let pc = minus_s(at_s(*r, t), s.center);
                if norm2(pc) == 0 {
                    None
                } else {
                    Some(
                        (
                            t,
                            orient_s(normalize_s(pc), r.dr),
                            sphere_material_s(s, normalize_s(pc)),
                        ),
                    )
                }
            } else {
                None
            }
        },
    }
}

impl Sphere {
    /// Constructor.
    pub fn new(center: Vec3, radius: i64, material: Material, texture: Option<Texture>) -> (r:
        Sphere)
        requires
            vbnd(center, MAXC as int),
            0 < radius <= MAXC,
            material_ok(material),
            texture is Some ==> tex_ok(&texture->Some_0),
        ensures
            r.center == center,
            r.radius == radius,
            r.material == material,
            r.texture == texture,
            sphere_ok(&r),
    {
        Sphere { center, radius, material, texture }
    }

    /// The nearest intersection of `ray` with the sphere: the parameter `t`,
    /// the unit surface normal oriented against the ray, and the material.
    /// `None` when the discriminant is negative, when no root is strictly
    /// positive, or on a degenerate hit (outside the working envelope, or a
    /// hit point that rounds onto the center).
    pub fn get_intersection(&self, ray: &Ray) -> (res: Option<(i64, Vec3, Material)>)
        requires
            sphere_ok(self),
            ray_ok(*ray),
        ensures
            res is Some <==> sphere_hit_s(self, ray) is Some,
            res is Some ==> {
                let (t, n, m) = sphere_hit_s(self, ray)->Some_0;
                &&& res->Some_0.0 == t
                &&& res->Some_0.1 == n
                &&& res->Some_0.2 == m
                &&& 0 < t <= TMAX
                &&& dot_raw(n, ray.dr) <= 0
                &&& vbnd(n, SCALE as int)
                &&& material_ok(m)
            },
            // the returned parameter is the smallest accepted root
            res is Some ==> {
                let (lo, hi) = quad_roots_s(
                    sphere_coeffs(self, ray).0,
                    sphere_coeffs(self, ray).1,
                    sphere_coeffs(self, ray).2,
                )->Some_0;
                (0 < lo ==> res->Some_0.0 <= lo) && (0 < hi ==> res->Some_0.0 <= hi)
            },
    {
        let v = self.center.minus(ray.origin);
        proof {
            lemma_dot_raw_bound(ray.dr, ray.dr, RAYB as int, RAYB as int);
            lemma_dot_raw_bound(ray.dr, v, RAYB as int, RAYB as int + MAXC as int);
            lemma_dot_raw_bound(v, v, RAYB as int + MAXC as int, RAYB as int + MAXC as int);
            crate::fx::lemma_mul_mag(self.radius as int, self.radius as int, MAXC as int, MAXC as int);
        }
        let a0 = ray.dr.dot_wide(&ray.dr);
        let b0 = -2 * ray.dr.dot_wide(&v);
        let c0 = v.dot_wide(&v) - wmul(self.radius, self.radius);
        match quad_roots(a0, b0, c0) {
            None => None,
            Some((lo, hi)) => {
                let t = if lo > 0 {
                    lo
                } else {
                    hi
                };
                if 0 < t && t <= TMAX {
                    let pc = ray.at(t).minus(self.center);
                    let n2 = pc.dot_wide(&pc);
                    if n2 == 0 {
                        None
                    } else {
                        proof {
                            lemma_norm2_nonneg(pc);
                            crate::fx::lemma_sqrt_floor_pos(norm2(pc) as nat);
                            assert(length_s(pc) > 0);
                        }
                        let nrm = pc.normalize();
                        let m = self.derived_material(nrm);
                        let n = orient_against(nrm, ray.dr);
                        Some((t, n, m))
                    }
                } else {
                    None
                }
            },
        }
    }

    /// The material at a hit with outward unit normal `nrm`: the base
    /// material, tinted by the texture sample the normal selects when a
    /// texture is present.
    fn derived_material(&self, nrm: Vec3) -> (m: Material)
        requires
            sphere_ok(self),
            vbnd(nrm, SCALE as int),
        ensures
            m == sphere_material_s(self, nrm),
            material_ok(m),
    {
        match &self.texture {
            None => self.material,
            Some(tex) => {
                let at = atan2_fx(nrm.z, nrm.x);
                let sv = asin_fx(nrm.y);
                proof {
                    crate::fx::lemma_mul_mag(
                        at - PI2_FX,
                        SCALE as int,
                        308831,
                        SCALE as int,
                    );
                    crate::fx::lemma_qz_mag_le(
                        (at - PI2_FX) * (SCALE as int),
                        308831int * 65536int,
                        TWO_PI_FX as int,
                    );
                    crate::fx::lemma_mul_mag(sv as int, SCALE as int, PI_FX as int, SCALE as int);
                    crate::fx::lemma_qz_mag_le(
                        sv * (SCALE as int),
                        (PI_FX as int) * 65536int,
                        PI_FX as int,
                    );
                }
                let u = 32768 + crate::fx::divq(
                    crate::fx::wmul(at - PI2_FX, SCALE),
                    -(TWO_PI_FX as i128),
                ) as i64;
                let v = 32768 - crate::fx::divq(
                    crate::fx::wmul(sv, SCALE),
                    PI_FX as i128,
                ) as i64;
                let c = tex.sample(u, v);
                proof {
                    crate::plane::lemma_tint_coeffs(c, self.material);
                }
                Material {
                    k_amb: c.hadamard(self.material.k_amb),
                    k_dif: c.hadamard(self.material.k_dif),
                    k_esp: c.hadamard(self.material.k_esp),
                    e: self.material.e,
                }
            },
        }
    }

    /// Move the sphere by `v`; outside the working envelope the sphere is
    /// left unchanged.
    pub fn translate(&mut self, v: Vec3)
        requires
            sphere_ok(&*old(self)),
        ensures
            sphere_translate_rel(&*old(self), &*final(self), v),
            sphere_ok(&*final(self)),
    {
        if within_envelope(self.center, v) {
            self.center = self.center.plus(v);
        }
    }
}

impl Sphere {
    /// Apply an affine transform to the center (the radius is unchanged);
    /// outside the working envelope the sphere is left unchanged.
    pub fn transform(&mut self, m: &crate::mat4::Matrix4)
        requires
            sphere_ok(&*old(self)),
            crate::mat4::mbnd4(*m, crate::mat4::TRB as int),
        ensures
            sphere_transform_rel(&*old(self), &*final(self), *m),
            sphere_ok(&*final(self)),
    {
        let c2 = m.transform_point(self.center);
        if within_envelope(Vec3 { x: 0, y: 0, z: 0 }, c2) {
            self.center = c2;
        }
    }
}

/// How a translation acts on a sphere: inside the envelope the center
/// shifts by `d`; outside it nothing changes. Radius and material are
/// always kept.
pub open spec fn sphere_translate_rel(pre: &Sphere, post: &Sphere, d: Vec3) -> bool {
    &&& post.radius == pre.radius
    &&& post.material == pre.material
    &&& post.texture == pre.texture
    &&& (fits_envelope(pre.center, d) ==> post.center == crate::vec3::plus_s(pre.center, d))
    &&& (!fits_envelope(pre.center, d) ==> post.center == pre.center)
}

/// How an affine transform acts on a sphere: inside the envelope the center
/// maps through the matrix; outside it nothing changes.
pub open spec fn sphere_transform_rel(pre: &Sphere, post: &Sphere, m: crate::mat4::Matrix4) -> bool {
    &&& post.radius == pre.radius
    &&& post.material == pre.material
    &&& post.texture == pre.texture
    &&& (vbnd(crate::mat4::xform_point_s(m, pre.center), MAXC as int) ==> post.center
        == crate::mat4::xform_point_s(m, pre.center))
    &&& (!vbnd(crate::mat4::xform_point_s(m, pre.center), MAXC as int) ==> post.center
        == pre.center)
}

/// Whether the exact sum `c + v` stays inside the scene envelope.
pub open spec fn fits_envelope(c: Vec3, v: Vec3) -> bool {
    bnd(c.x + v.x, MAXC as int) && bnd(c.y + v.y, MAXC as int) && bnd(c.z + v.z, MAXC as int)
}

pub fn within_envelope(c: Vec3, v: Vec3) -> (r: bool)
    ensures
        r == fits_envelope(c, v),
{
    let sx = (c.x as i128) + (v.x as i128);
    let sy = (c.y as i128) + (v.y as i128);
    let sz = (c.z as i128) + (v.z as i128);
    -(MAXC as i128) <= sx && sx <= MAXC as i128 && -(MAXC as i128) <= sy && sy <= MAXC as i128
        && -(MAXC as i128) <= sz && sz <= MAXC as i128
}

} // verus!
