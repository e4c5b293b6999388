//! Planes and their ray intersection, with optional tiled textures.

use vstd::prelude::*;
use crate::fx::{
    absi, bnd, fmul, qz, MAXC, RAYB, SCALE, TMAX, lemma_fmul_unit_box, lemma_qz_mag,
    lemma_sqrt_floor_pos, wmul, wmul2, divq,
};
use crate::vec3::{
    Vec3, vbnd, dot_raw, dot_s, cross_s, crx, cry, crz, minus_s, norm2, normalize_s, orient_s,
    length_s, hadamard_s, orient_against, lemma_dot_raw_bound, lemma_dot_fits, lemma_cross_fits,
    lemma_norm2_nonneg, VLIM,
};
use crate::ray::{Ray, ray_ok, at_s};
use crate::material::{Material, material_ok, coeff_ok};
use crate::texture::{Texture, tex_ok, sample_s};
use crate::solve::{cap_t, cap_root};

verus! {

pub struct Plane {
    /// A known point of the plane.
    pub pc: Vec3,
    /// The unit normal.
    pub normal: Vec3,
    pub material: Material,
    pub texture: Option<Texture>,
    pub tx_scale: i64,
    pub ty_scale: i64,
}

pub open spec fn plane_ok(p: &Plane) -> bool {
    &&& vbnd(p.pc, MAXC as int)
    &&& vbnd(p.normal, SCALE as int)
    &&& material_ok(p.material)
    &&& (p.texture is Some ==> tex_ok(&p.texture->Some_0) && p.tx_scale != 0 && p.ty_scale != 0)
}

/// The ray parameter of `N . (R(t) - Pc) = 0`: `None` for a parallel ray,
/// otherwise `-N.(O - Pc) / N.D`, accepted when `0 <= t <= TMAX`.
pub open spec fn plane_t_s(p: &Plane, r: &Ray) -> Option<int> {
    let top = dot_raw(p.normal, minus_s(r.origin, p.pc));
    let bot = dot_raw(p.normal, r.dr);
    if bot == 0 {
        None
    } else {
        let t = cap_t(qz((-top) * (SCALE as int), bot));
        if 0 <= t <= TMAX {
            Some(t)
        } else {
            None
        }
    }
}

/// The fractional wrap of a fixed-point scalar into `[0, 1)`.
pub open spec fn wrap_s(x: int) -> int {
    let r = x - (SCALE as int) * qz(x, SCALE as int);
    if r < 0 {
        r + SCALE as int
    } else {
        r
    }
}

/// The material the plane reports at `pt`: its base material, with the
/// coefficients tinted by the sampled texel when a texture is present. The
/// two in-plane directions come from crossing the normal with the first two
/// world axes.
pub open spec fn plane_material_s(p: &Plane, pt: Vec3) -> Material {
    if p.texture is Some {
        let tex = &p.texture->Some_0;
        let c1 = cross_s(p.normal, Vec3 { x: SCALE, y: 0, z: 0 });
        let b1c = if c1.x == 0 && c1.y == 0 && c1.z == 0 {
            cross_s(p.normal, Vec3 { x: 0, y: SCALE, z: 0 })
        } else {
            c1
        };
        if norm2(b1c) == 0 {
            p.material
        } else {
            let b1 = normalize_s(b1c);
            let b2 = cross_s(p.normal, b1);
            let pd = minus_s(pt, p.pc);
            let u = wrap_s(qz(dot_s(pd, b1) * (SCALE as int), p.ty_scale as int));
            let v = wrap_s(qz(dot_s(pd, b2) * (SCALE as int), p.tx_scale as int));
            let c = sample_s(tex, u, v);
            Material {
                k_amb: hadamard_s(c, p.material.k_amb),
                k_dif: hadamard_s(c, p.material.k_dif),
                k_esp: hadamard_s(c, p.material.k_esp),
                e: p.material.e,
            }
        }
    } else {
        p.material
    }
}

/// The full intersection in the model.
pub open spec fn plane_hit_s(p: &Plane, r: &Ray) -> Option<(int, Vec3, Material)> {
    match plane_t_s(p, r) {
        None => None,
        Some(t) => Some(
            (t, orient_s(p.normal, r.dr), plane_material_s(p, at_s(*r, t))),
        ),
    }
}

impl Plane {
    /// Constructor; the normal is normalized here.
    pub fn new(
        pc: Vec3,
        normal: Vec3,
        material: Material,
        texture: Option<Texture>,
        tx_scale: i64,
        ty_scale: i64,
    ) -> (r: Plane)
        requires
            vbnd(pc, MAXC as int),
            vbnd(normal, VLIM as int),
            length_s(normal) > 0,
            material_ok(material),
            texture is Some ==> tex_ok(&texture->Some_0) && tx_scale != 0 && ty_scale != 0,
        ensures
            r.pc == pc,
            r.normal == normalize_s(normal),
            r.material == material,
            r.texture == texture,
            r.tx_scale == tx_scale,
            r.ty_scale == ty_scale,
            plane_ok(&r),
    {
        Plane { pc, normal: normal.normalize(), material, texture, tx_scale, ty_scale }
    }

    /// The nearest intersection of `ray` with the plane: `None` when the ray
    /// is parallel or the solution lies behind the origin or outside the
    /// accepted range; otherwise the parameter, the normal oriented against
    /// the ray, and the (possibly texture-tinted) material.
    pub fn get_intersection(&self, ray: &Ray) -> (res: Option<(i64, Vec3, Material)>)
        requires
            plane_ok(self),
            ray_ok(*ray),
        ensures
            res is Some <==> plane_hit_s(self, ray) is Some,
            res is Some ==> {
                let (t, n, m) = plane_hit_s(self, ray)->Some_0;
                &&& res->Some_0.0 == t
                &&& res->Some_0.1 == n
                &&& res->Some_0.2 == m
                &&& 0 <= t <= TMAX
                &&& dot_raw(n, ray.dr) < 0
                &&& vbnd(n, SCALE as int)
                &&& material_ok(m)
            },
    {
        let po = ray.origin.minus(self.pc);
        proof {
            lemma_dot_raw_bound(self.normal, po, SCALE as int, RAYB as int + MAXC as int);
            lemma_dot_raw_bound(self.normal, ray.dr, SCALE as int, RAYB as int);
        }
        let top = self.normal.dot_wide(&po);
        let bot = self.normal.dot_wide(&ray.dr);
        if bot == 0 {
            None
        } else {
            let t = cap_root(divq(wmul2(-top, SCALE as i128), bot));
            if 0 <= t && t <= TMAX {
                let n = orient_against(self.normal, ray.dr);
                let m = self.derived_material(ray.at(t));
                Some((t, n, m))
            } else {
                None
            }
        }
    }

    /// The material at a hit point: the base material, tinted by the texture
    /// sample when one is present.
    fn derived_material(&self, pt: Vec3) -> (m: Material)
        requires
            plane_ok(self),
            vbnd(pt, 0x100_0000_0000_0000),
        ensures
            m == plane_material_s(self, pt),
            material_ok(m),
    {
        match &self.texture {
            None => self.material,
            Some(tex) => {
                proof {
                    lemma_cross_fits(self.normal, Vec3 { x: SCALE, y: 0, z: 0 }, SCALE as int, SCALE as int);
                    lemma_cross_fits(self.normal, Vec3 { x: 0, y: SCALE, z: 0 }, SCALE as int, SCALE as int);
                }
                let c1 = self.normal.cross(Vec3::x_axis());
                let b1c = if c1.x == 0 && c1.y == 0 && c1.z == 0 {
                    self.normal.cross(Vec3::y_axis())
                } else {
                    c1
                };
                let n2 = b1c.dot_wide(&b1c);
                if n2 == 0 {
                    self.material
                } else {
                    proof {
                        lemma_norm2_nonneg(b1c);
                        lemma_sqrt_floor_pos(norm2(b1c) as nat);
                    }
                    let b1 = b1c.normalize();
                    proof {
                        lemma_cross_fits(self.normal, b1, SCALE as int, SCALE as int);
                    }
                    let b2 = self.normal.cross(b1);
                    let pd = pt.minus(self.pc);
                    proof {
                        lemma_dot_fits(pd, b1, 0x200_0000_0000_0000, SCALE as int);
                        lemma_dot_fits(pd, b2, 0x200_0000_0000_0000, 2 * SCALE as int);
                    }
                    let du = pd.dot(b1);
                    let dv = pd.dot(b2);
                    proof {
                        lemma_qz_mag(du * (SCALE as int), self.ty_scale as int);
                        lemma_qz_mag(dv * (SCALE as int), self.tx_scale as int);
                    }
                    let u = wrap_frac(divq(wmul(du, SCALE), self.ty_scale as i128));
                    let v = wrap_frac(divq(wmul(dv, SCALE), self.tx_scale as i128));
                    let c = tex.sample(u, v);
                    proof {
                        lemma_tint_coeffs(c, self.material);
                    }
                    Material {
                        k_amb: c.hadamard(self.material.k_amb),
                        k_dif: c.hadamard(self.material.k_dif),
                        k_esp: c.hadamard(self.material.k_esp),
                        e: self.material.e,
                    }
                }
            },
        }
    }
}

impl Plane {
    /// Move the plane by `d`; outside the working envelope it is left
    /// unchanged.
    pub fn translate(&mut self, d: Vec3)
        requires
            plane_ok(&*old(self)),
        ensures
            plane_translate_rel(&*old(self), &*final(self), d),
            plane_ok(&*final(self)),
    {
        if crate::sphere::within_envelope(self.pc, d) {
            self.pc = self.pc.plus(d);
        }
    }
}

/// How a translation acts on a plane: inside the envelope the known point
/// shifts by `d`; outside it nothing changes. Everything else is kept.
pub open spec fn plane_translate_rel(pre: &Plane, post: &Plane, d: Vec3) -> bool {
    &&& post.normal == pre.normal
    &&& post.material == pre.material
    &&& post.texture == pre.texture
    &&& post.tx_scale == pre.tx_scale
    &&& post.ty_scale == pre.ty_scale
    &&& (crate::sphere::fits_envelope(pre.pc, d) ==> post.pc == crate::vec3::plus_s(pre.pc, d))
    &&& (!crate::sphere::fits_envelope(pre.pc, d) ==> post.pc == pre.pc)
}

/// Tinting keeps reflectivity coefficients inside `[0, 1]`.
pub proof fn lemma_tint_coeffs(c: Vec3, m: Material)
    requires
        coeff_ok(c),
        material_ok(m),
    ensures
        coeff_ok(hadamard_s(c, m.k_amb)),
        coeff_ok(hadamard_s(c, m.k_dif)),
        coeff_ok(hadamard_s(c, m.k_esp)),
        bnd(fmul(c.x as int, m.k_amb.x as int), i64::MAX as int),
        bnd(fmul(c.y as int, m.k_amb.y as int), i64::MAX as int),
        bnd(fmul(c.z as int, m.k_amb.z as int), i64::MAX as int),
        bnd(fmul(c.x as int, m.k_dif.x as int), i64::MAX as int),
        bnd(fmul(c.y as int, m.k_dif.y as int), i64::MAX as int),
        bnd(fmul(c.z as int, m.k_dif.z as int), i64::MAX as int),
        bnd(fmul(c.x as int, m.k_esp.x as int), i64::MAX as int),
        bnd(fmul(c.y as int, m.k_esp.y as int), i64::MAX as int),
        bnd(fmul(c.z as int, m.k_esp.z as int), i64::MAX as int),
{
    lemma_fmul_unit_box(c.x as int, m.k_amb.x as int, SCALE as int);
    lemma_fmul_unit_box(c.y as int, m.k_amb.y as int, SCALE as int);
    lemma_fmul_unit_box(c.z as int, m.k_amb.z as int, SCALE as int);
    lemma_fmul_unit_box(c.x as int, m.k_dif.x as int, SCALE as int);
    lemma_fmul_unit_box(c.y as int, m.k_dif.y as int, SCALE as int);
    lemma_fmul_unit_box(c.z as int, m.k_dif.z as int, SCALE as int);
    lemma_fmul_unit_box(c.x as int, m.k_esp.x as int, SCALE as int);
    lemma_fmul_unit_box(c.y as int, m.k_esp.y as int, SCALE as int);
    lemma_fmul_unit_box(c.z as int, m.k_esp.z as int, SCALE as int);
}

/// The fractional part of a fixed-point scalar, in `[0, 1)`.
pub fn wrap_frac(x: i128) -> (r: i64)
    requires
        bnd(x as int, 0x4000_0000_0000_0000_0000_0000_0000_0000),
    ensures
        r == wrap_s(x as int),
        0 <= r < SCALE,
{
    let q = divq(x, SCALE as i128);
    proof {
        lemma_qz_mag(x as int, SCALE as int);
        lemma_wrap_range(x as int);
    }
    let rr = x - q * (SCALE as i128);
    if rr < 0 {
        (rr + SCALE as i128) as i64
    } else {
        rr as i64
    }
}

/// The remainder `x - SCALE * qz(x, SCALE)` lies strictly inside
/// `(-SCALE, SCALE)`.
proof fn lemma_wrap_range(x: int)
    ensures
        -(SCALE as int) < x - (SCALE as int) * qz(x, SCALE as int) < SCALE as int,
{
    let s = SCALE as int;
    if x >= 0 {
        vstd::arithmetic::div_mod::lemma_fundamental_div_mod(x, s);
    } else {
        vstd::arithmetic::div_mod::lemma_fundamental_div_mod(-x, s);
    }
}

} // verus!
