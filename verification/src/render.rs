//! The rendering kernel: Phong shading with hard shadows, and the
//! framebuffer assembly.
//!
//! The framebuffer after a render is a pure function of the scene and the
//! camera pose: `fb_spec` names every byte, `draw_scene` produces exactly
//! that sequence, and `render_range` produces any contiguous pixel range of
//! it, so disjoint ranges computed in parallel compose to the same image.

use vstd::prelude::*;
use crate::fx::{absi, bnd, clamp_s, fmul, qz, CAMB, DIRB, MAXC, RAYB, SCALE, TMAX,
    lemma_fmul_unit_box, lemma_fmul_range, lemma_mul_mag, lemma_qz_mag_le, lemma_sqrt_floor_pos,
    wmul, divq, fmul_x, clamp_x};
use crate::vec3::{
    Vec3, vbnd, dot_raw, dot_s, minus_s, neg_s, norm2, normalize_s, plus_s, scale_s, clamp_vs,
    lemma_dot_fits, lemma_norm2_nonneg,
};
use crate::ray::{Ray, ray_ok, at_s, lemma_at_bound};
use crate::material::{Material, material_ok};
use crate::light::{Light, light_ok};
use crate::shape::{Shape, shape_hit_s};
use crate::scene::{Scene, scene_ok, scene_hit_s};
use crate::camera::{Camera, camera_ok, primary_ray_s};

verus! {

/// Shadow-ray parameters at most this close to the surface are ignored
/// (about 1e-4 in whole units).
pub const SH_MIN: i64 = 6;

/// For point and spot lights, shadow-ray parameters at least this large lie
/// beyond the light (about 1 - 1e-4 in whole units).
pub const SH_MAX: i64 = 65530;

/// Bound on primary-ray origins.
pub const ORB: i64 = 0x100_2000_0000;

/// Bound on primary-ray hit points.
pub const HPB: i64 = 0x104_2000_0000;

/// Fixed-point power with a natural exponent.
pub open spec fn pow_s(b: int, e: nat) -> int
    decreases e,
{
    if e == 0 {
        SCALE as int
    } else {
        fmul(b, pow_s(b, (e - 1) as nat))
    }
}

/// A power of a base in `[0, 1]` stays in `[0, 1]`.
pub proof fn lemma_pow_box(b: int, e: nat)
    requires
        0 <= b <= SCALE as int,
    ensures
        0 <= pow_s(b, e) <= SCALE as int,
    decreases e,
{
    if e > 0 {
        lemma_pow_box(b, (e - 1) as nat);
        lemma_fmul_unit_box(b, pow_s(b, (e - 1) as nat), SCALE as int);
    }
}

/// Fixed-point power, by repeated multiplication.
pub fn pow_fx(b: i64, e: u32) -> (r: i64)
    requires
        0 <= b <= SCALE,
    ensures
        r == pow_s(b as int, e as nat),
        0 <= r <= SCALE,
{
    let mut r: i64 = SCALE;
    let mut i: u32 = 0;
    proof {
        lemma_pow_box(b as int, 0);
    }
    while i < e
        invariant
            0 <= b <= SCALE,
            0 <= i <= e,
            r == pow_s(b as int, i as nat),
            0 <= r <= SCALE,
        decreases e - i,
    {
        proof {
            lemma_fmul_unit_box(b as int, r as int, SCALE as int);
            lemma_pow_box(b as int, (i + 1) as nat);
            assert(pow_s(b as int, (i + 1) as nat) == fmul(b as int, pow_s(b as int, i as nat)));
        }
        r = fmul_x(b, r);
        i = i + 1;
    }
    r
}

/// The vector from a surface point toward the light.
pub open spec fn light_dir_s(l: Light, p: Vec3) -> Vec3 {
    match l {
        Light::Point { pos, .. } => minus_s(pos, p),
        Light::Spotlight { pos, .. } => minus_s(pos, p),
        Light::Directional { dr, .. } => dr,
    }
}

pub open spec fn light_intensity_s(l: Light) -> Vec3 {
    match l {
        Light::Point { intensity, .. } => intensity,
        Light::Spotlight { intensity, .. } => intensity,
        Light::Directional { intensity, .. } => intensity,
    }
}

pub open spec fn light_is_directional(l: Light) -> bool {
    l is Directional
}

/// Whether a spot light's cone excludes the point (a degenerate zero vector
/// toward the light also excludes it).
pub open spec fn spot_excludes_s(l: Light, ldr: Vec3) -> bool {
    match l {
        Light::Spotlight { dr, cos_angle, .. } => norm2(ldr) == 0 || dot_s(
            dr,
            normalize_s(ldr),
        ) <= cos_angle,
        _ => false,
    }
}

/// Whether one primitive blocks the shadow ray: it reports a parameter
/// beyond the surface epsilon and, except for directional lights, short of
/// the light.
pub open spec fn blocks_s(s: &Shape, sray: &Ray, isdir: bool) -> bool {
    match shape_hit_s(s, sray) {
        Some((tl, n, m)) => tl > SH_MIN && (isdir || tl < SH_MAX),
        None => false,
    }
}

/// Whether any primitive other than `skip` blocks the shadow ray, among the
/// first `k` primitives.
pub open spec fn occluded_s(sc: &Scene, skip: int, sray: &Ray, isdir: bool, k: int) -> bool
    decreases k,
{
    if k <= 0 {
        false
    } else {
        occluded_s(sc, skip, sray, isdir, k - 1) || (k - 1 != skip && blocks_s(
            &sc.shapes@[k - 1],
            sray,
            isdir,
        ))
    }
}

/// One light's contribution at a hit point: zero when the spot cone excludes
/// the point, the direction degenerates, or the light is occluded; otherwise
/// the Lambertian diffuse term plus the Phong specular term.
pub open spec fn light_term_s(
    sc: &Scene,
    skip: int,
    p: Vec3,
    n: Vec3,
    m: Material,
    raydir: Vec3,
    l: Light,
) -> Vec3 {
    let ldr = light_dir_s(l, p);
    let inten = light_intensity_s(l);
    let isdir = light_is_directional(l);
    if spot_excludes_s(l, ldr) || norm2(ldr) == 0 || occluded_s(
        sc,
        skip,
        &Ray { origin: p, dr: ldr },
        isdir,
        sc.shapes@.len() as int,
    ) {
        Vec3 { x: 0, y: 0, z: 0 }
    } else {
        let lv = normalize_s(ldr);
        let ln = dot_s(lv, n);
        let rvec = minus_s(scale_s(n, 2 * ln), lv);
        let rv = dot_s(rvec, neg_s(raydir));
        let dif = if ln > 0 {
            Vec3 {
                x: fmul(fmul(m.k_dif.x as int, ln), inten.x as int) as i64,
                y: fmul(fmul(m.k_dif.y as int, ln), inten.y as int) as i64,
                z: fmul(fmul(m.k_dif.z as int, ln), inten.z as int) as i64,
            }
        } else {
            Vec3 { x: 0, y: 0, z: 0 }
        };
        let esp = if rv > 0 {
            let pw = pow_s(clamp_s(rv, 0, SCALE as int), m.e as nat);
            Vec3 {
                x: fmul(fmul(m.k_esp.x as int, pw), inten.x as int) as i64,
                y: fmul(fmul(m.k_esp.y as int, pw), inten.y as int) as i64,
                z: fmul(fmul(m.k_esp.z as int, pw), inten.z as int) as i64,
            }
        } else {
            Vec3 { x: 0, y: 0, z: 0 }
        };
        plus_s(dif, esp)
    }
}

/// The shaded intensity at a hit point, folding the contributions of the
/// first `k` lights over the ambient term.
pub open spec fn shade_fold_s(
    sc: &Scene,
    skip: int,
    p: Vec3,
    n: Vec3,
    m: Material,
    raydir: Vec3,
    k: int,
) -> Vec3
    decreases k,
{
    if k <= 0 {
        crate::vec3::hadamard_s(m.k_amb, sc.ambient_light)
    } else {
        plus_s(
            shade_fold_s(sc, skip, p, n, m, raydir, k - 1),
            light_term_s(sc, skip, p, n, m, raydir, sc.lights@[k - 1]),
        )
    }
}

/// The shaded intensity at a hit of the primary ray.
pub open spec fn shade_s(sc: &Scene, r: &Ray, skip: int, t: int, n: Vec3, m: Material) -> Vec3 {
    shade_fold_s(sc, skip, at_s(*r, t), n, m, r.dr, sc.lights@.len() as int)
}

/// Every light term is componentwise inside `[0, 4 * MAXC]`.
proof fn lemma_term_box(sc: &Scene, skip: int, p: Vec3, n: Vec3, m: Material, raydir: Vec3, l: Light)
    requires
        material_ok(m),
        light_ok(l),
        vbnd(n, SCALE as int),
    ensures
        0 <= light_term_s(sc, skip, p, n, m, raydir, l).x <= 8 * MAXC as int,
        0 <= light_term_s(sc, skip, p, n, m, raydir, l).y <= 8 * MAXC as int,
        0 <= light_term_s(sc, skip, p, n, m, raydir, l).z <= 8 * MAXC as int,
{
    let ldr = light_dir_s(l, p);
    let inten = light_intensity_s(l);
    if spot_excludes_s(l, ldr) || norm2(ldr) == 0 || occluded_s(
        sc,
        skip,
        &Ray { origin: p, dr: ldr },
        light_is_directional(l),
        sc.shapes@.len() as int,
    ) {
    } else {
        lemma_norm2_nonneg(ldr);
        crate::fx::lemma_sqrt_floor_pos(norm2(ldr) as nat);
        crate::vec3::lemma_normalize_box(ldr);
        let lv = normalize_s(ldr);
        lemma_dot_fits(lv, n, SCALE as int, SCALE as int);
        let ln = dot_s(lv, n);
        lemma_contrib_box(m.k_dif, ln, inten);
        let rvec = minus_s(scale_s(n, 2 * ln), lv);
        let rv = dot_s(rvec, neg_s(raydir));
        lemma_pow_box(clamp_s(rv, 0, SCALE as int), m.e as nat);
        lemma_contrib_box(m.k_esp, pow_s(clamp_s(rv, 0, SCALE as int), m.e as nat), inten);
    }
}

/// One shading product `k * v * i` is componentwise inside `[0, 4 * MAXC]`
/// whenever the middle factor is positive and at most 4.
proof fn lemma_contrib_box(k: Vec3, v: int, inten: Vec3)
    requires
        crate::material::coeff_ok(k),
        crate::light::intensity_ok(inten),
    ensures
        0 <= v <= 4 * SCALE as int ==> {
            &&& 0 <= fmul(k.x as int, v) <= 4 * SCALE as int
            &&& 0 <= fmul(k.y as int, v) <= 4 * SCALE as int
            &&& 0 <= fmul(k.z as int, v) <= 4 * SCALE as int
            &&& 0 <= fmul(fmul(k.x as int, v), inten.x as int) <= 4 * MAXC as int
            &&& 0 <= fmul(fmul(k.y as int, v), inten.y as int) <= 4 * MAXC as int
            &&& 0 <= fmul(fmul(k.z as int, v), inten.z as int) <= 4 * MAXC as int
        },
{
    if 0 <= v && v <= 4 * SCALE as int {
        assert(((SCALE as int) * (4 * SCALE as int)) / (SCALE as int) == 4 * SCALE as int) by {
            vstd::arithmetic::div_mod::lemma_div_multiples_vanish(4 * SCALE as int, SCALE as int);
            assert((SCALE as int) * (4 * SCALE as int) == (4 * SCALE as int) * (SCALE as int))
                by (nonlinear_arith);
        }
        assert(((4 * SCALE as int) * (MAXC as int)) / (SCALE as int) == 4 * MAXC as int) by {
            vstd::arithmetic::div_mod::lemma_div_multiples_vanish(4 * MAXC as int, SCALE as int);
            assert((4 * SCALE as int) * (MAXC as int) == (4 * MAXC as int) * (SCALE as int))
                by (nonlinear_arith);
        }
        lemma_fmul_range(k.x as int, v, SCALE as int, 4 * SCALE as int);
        lemma_fmul_range(k.y as int, v, SCALE as int, 4 * SCALE as int);
        lemma_fmul_range(k.z as int, v, SCALE as int, 4 * SCALE as int);
        lemma_fmul_range(fmul(k.x as int, v), inten.x as int, 4 * SCALE as int, MAXC as int);
        lemma_fmul_range(fmul(k.y as int, v), inten.y as int, 4 * SCALE as int, MAXC as int);
        lemma_fmul_range(fmul(k.z as int, v), inten.z as int, 4 * SCALE as int, MAXC as int);
    }
}

/// Whether any primitive other than `skip` occludes the shadow ray.
fn in_shadow(sc: &Scene, skip: usize, sray: &Ray, isdir: bool) -> (b: bool)
    requires
        scene_ok(sc),
        ray_ok(*sray),
    ensures
        b == occluded_s(sc, skip as int, sray, isdir, sc.shapes@.len() as int),
{
    let mut i: usize = 0;
    while i < sc.shapes.len()
        invariant
            scene_ok(sc),
            ray_ok(*sray),
            0 <= i <= sc.shapes@.len(),
            !occluded_s(sc, skip as int, sray, isdir, i as int),
        decreases sc.shapes@.len() - i,
    {
        if i != skip {
            match sc.shapes[i].get_intersection(sray) {
                Some((tl, _, _)) => {
                    if tl > SH_MIN && (isdir || tl < SH_MAX) {
                        proof {
                            lemma_occluded_mono(sc, skip as int, sray, isdir, i as int + 1, sc.shapes@.len() as int);
                        }
                        return true;
                    }
                },
                None => {},
            }
        }
        i = i + 1;
    }
    false
}

/// Occlusion among a prefix implies occlusion among the whole list.
proof fn lemma_occluded_mono(sc: &Scene, skip: int, sray: &Ray, isdir: bool, k: int, n: int)
    requires
        0 <= k <= n,
        occluded_s(sc, skip, sray, isdir, k),
    ensures
        occluded_s(sc, skip, sray, isdir, n),
    decreases n,
{
    if k < n {
        lemma_occluded_mono(sc, skip, sray, isdir, k, n - 1);
    }
}

/// One light's contribution at a hit point.
fn light_term(sc: &Scene, skip: usize, p: Vec3, n: Vec3, m: &Material, raydir: Vec3, l: &Light)
    -> (c: Vec3)
    requires
        scene_ok(sc),
        vbnd(p, HPB as int),
        vbnd(n, SCALE as int),
        material_ok(*m),
        vbnd(raydir, DIRB as int),
        light_ok(*l),
    ensures
        c == light_term_s(sc, skip as int, p, n, *m, raydir, *l),
        0 <= c.x <= 16 * MAXC as int,
        0 <= c.y <= 16 * MAXC as int,
        0 <= c.z <= 16 * MAXC as int,
{
    proof {
        lemma_term_box(sc, skip as int, p, n, *m, raydir, *l);
    }
    let (ldr, inten, isdir): (Vec3, Vec3, bool) = match l {
        Light::Point { pos, intensity } => (pos.minus(p), *intensity, false),
        Light::Spotlight { pos, intensity, .. } => (pos.minus(p), *intensity, false),
        Light::Directional { dr, intensity } => (*dr, *intensity, true),
    };
    let nrm2 = ldr.dot_wide(&ldr);
    let excluded: bool = match l {
        Light::Spotlight { dr, cos_angle, .. } => {
            if nrm2 == 0 {
                true
            } else {
                proof {
                    lemma_norm2_nonneg(ldr);
                    lemma_sqrt_floor_pos(norm2(ldr) as nat);
                    crate::vec3::lemma_normalize_box(ldr);
                    lemma_dot_fits(*dr, normalize_s(ldr), SCALE as int, SCALE as int);
                }
                dr.dot(ldr.normalize()) <= *cos_angle
            }
        },
        _ => false,
    };
    if excluded {
        return Vec3 { x: 0, y: 0, z: 0 };
    }
    if nrm2 == 0 {
        return Vec3 { x: 0, y: 0, z: 0 };
    }
    let sray = Ray { origin: p, dr: ldr };
    if in_shadow(sc, skip, &sray, isdir) {
        return Vec3 { x: 0, y: 0, z: 0 };
    }
    proof {
        lemma_norm2_nonneg(ldr);
        lemma_sqrt_floor_pos(norm2(ldr) as nat);
        crate::vec3::lemma_normalize_box(ldr);
    }
    let lv = ldr.normalize();
    proof {
        lemma_dot_fits(lv, n, SCALE as int, SCALE as int);
    }
    let ln = lv.dot(n);
    proof {
        lemma_scale_rvec(n, ln);
        lemma_dot_fits(
            minus_s(scale_s(n, 2 * ln as int), lv),
            neg_s(raydir),
            7 * SCALE as int,
            DIRB as int,
        );
    }
    let rvec = n.scaled(2 * ln).minus(lv);
    let rv = rvec.dot(raydir.negated());
    let dif = if ln > 0 {
        proof {
            lemma_contrib_box(m.k_dif, ln as int, inten);
        }
        Vec3 {
            x: fmul_x(fmul_x(m.k_dif.x, ln), inten.x),
            y: fmul_x(fmul_x(m.k_dif.y, ln), inten.y),
            z: fmul_x(fmul_x(m.k_dif.z, ln), inten.z),
        }
    } else {
        Vec3 { x: 0, y: 0, z: 0 }
    };
    let esp = if rv > 0 {
        let pw = pow_fx(clamp_x(rv, 0, SCALE), m.e);
        proof {
            lemma_contrib_box(m.k_esp, pw as int, inten);
        }
        Vec3 {
            x: fmul_x(fmul_x(m.k_esp.x, pw), inten.x),
            y: fmul_x(fmul_x(m.k_esp.y, pw), inten.y),
            z: fmul_x(fmul_x(m.k_esp.z, pw), inten.z),
        }
    } else {
        Vec3 { x: 0, y: 0, z: 0 }
    };
    dif.plus(esp)
}

/// The scaled reflection vector's components are bounded.
proof fn lemma_scale_rvec(n: Vec3, ln: i64)
    requires
        vbnd(n, SCALE as int),
        bnd(ln as int, 3 * SCALE as int),
    ensures
        bnd(fmul(n.x as int, 2 * ln), 6 * SCALE as int),
        bnd(fmul(n.y as int, 2 * ln), 6 * SCALE as int),
        bnd(fmul(n.z as int, 2 * ln), 6 * SCALE as int),
        vbnd(minus_s(scale_s(n, 2 * ln as int), Vec3 { x: 0, y: 0, z: 0 }), 6 * SCALE as int),
{
    lemma_mul_mag(n.x as int, 2 * ln, SCALE as int, 6 * SCALE as int);
    lemma_mul_mag(n.y as int, 2 * ln, SCALE as int, 6 * SCALE as int);
    lemma_mul_mag(n.z as int, 2 * ln, SCALE as int, 6 * SCALE as int);
    lemma_qz_mag_le(n.x * (2 * ln), (SCALE as int) * (6 * SCALE as int), SCALE as int);
    lemma_qz_mag_le(n.y * (2 * ln), (SCALE as int) * (6 * SCALE as int), SCALE as int);
    lemma_qz_mag_le(n.z * (2 * ln), (SCALE as int) * (6 * SCALE as int), SCALE as int);
    assert(((SCALE as int) * (6 * SCALE as int)) / (SCALE as int) == 6 * SCALE as int) by {
        vstd::arithmetic::div_mod::lemma_div_multiples_vanish(6 * SCALE as int, SCALE as int);
        assert((SCALE as int) * (6 * SCALE as int) == (6 * SCALE as int) * (SCALE as int))
            by (nonlinear_arith);
    }
}

/// The shaded intensity at a hit of the primary ray.
pub fn shade(sc: &Scene, ray: &Ray, skip: usize, t: i64, n: Vec3, m: &Material) -> (c: Vec3)
    requires
        scene_ok(sc),
        ray_ok(*ray),
        vbnd(ray.origin, ORB as int),
        vbnd(ray.dr, DIRB as int),
        0 <= t <= TMAX,
        vbnd(n, SCALE as int),
        material_ok(*m),
    ensures
        c == shade_s(sc, ray, skip as int, t as int, n, *m),
        0 <= c.x,
        0 <= c.y,
        0 <= c.z,
{
    proof {
        lemma_at_bound(*ray, t as int, ORB as int);
        lemma_fmul_unit_box(m.k_amb.x as int, sc.ambient_light.x as int, MAXC as int);
        lemma_fmul_unit_box(m.k_amb.y as int, sc.ambient_light.y as int, MAXC as int);
        lemma_fmul_unit_box(m.k_amb.z as int, sc.ambient_light.z as int, MAXC as int);
    }
    let p = ray.at(t);
    let mut acc = Vec3 {
        x: fmul_x(m.k_amb.x, sc.ambient_light.x),
        y: fmul_x(m.k_amb.y, sc.ambient_light.y),
        z: fmul_x(m.k_amb.z, sc.ambient_light.z),
    };
    let mut i: usize = 0;
    while i < sc.lights.len()
        invariant
            scene_ok(sc),
            ray_ok(*ray),
            vbnd(ray.origin, ORB as int),
            vbnd(ray.dr, DIRB as int),
            0 <= t <= TMAX,
            vbnd(n, SCALE as int),
            material_ok(*m),
            p == at_s(*ray, t as int),
            vbnd(p, HPB as int),
            0 <= i <= sc.lights@.len(),
            acc == shade_fold_s(sc, skip as int, p, n, *m, ray.dr, i as int),
            0 <= acc.x <= MAXC as int + i * (16 * MAXC as int),
            0 <= acc.y <= MAXC as int + i * (16 * MAXC as int),
            0 <= acc.z <= MAXC as int + i * (16 * MAXC as int),
        decreases sc.lights@.len() - i,
    {
        let term = light_term(sc, skip, p, n, m, ray.dr, &sc.lights[i]);
        proof {
            assert(MAXC as int + (i as int) * (16 * MAXC as int) + 16 * MAXC as int
                <= i64::MAX as int) by (nonlinear_arith)
                requires
                    0 <= i as int <= 100000,
            ;
            assert((i as int + 1) * (16 * MAXC as int) == (i as int) * (16 * MAXC as int) + 16
                * MAXC as int) by (nonlinear_arith);
        }
        acc = Vec3 { x: acc.x + term.x, y: acc.y + term.y, z: acc.z + term.z };
        i = i + 1;
    }
    acc
}

/// A fully shadowed point keeps only the ambient term: when every light is
/// excluded, degenerate or occluded at the point, the shade is exactly
/// `k_amb` tinted by the ambient light.
pub proof fn lemma_fully_shadowed(
    sc: &Scene,
    skip: int,
    p: Vec3,
    n: Vec3,
    m: Material,
    raydir: Vec3,
    k: int,
)
    requires
        0 <= k <= sc.lights@.len(),
        forall|j: int|
            0 <= j < k ==> {
                let l = #[trigger] sc.lights@[j];
                let ldr = light_dir_s(l, p);
                spot_excludes_s(l, ldr) || norm2(ldr) == 0 || occluded_s(
                    sc,
                    skip,
                    &Ray { origin: p, dr: ldr },
                    light_is_directional(l),
                    sc.shapes@.len() as int,
                )
            },
    ensures
        shade_fold_s(sc, skip, p, n, m, raydir, k) == crate::vec3::hadamard_s(
            m.k_amb,
            sc.ambient_light,
        ),
    decreases k,
{
    if k > 0 {
        lemma_fully_shadowed(sc, skip, p, n, m, raydir, k - 1);
        let amb = crate::vec3::hadamard_s(m.k_amb, sc.ambient_light);
        assert(light_term_s(sc, skip, p, n, m, raydir, sc.lights@[k - 1]) == (Vec3 {
            x: 0,
            y: 0,
            z: 0,
        }));
        assert(plus_s(amb, Vec3 { x: 0, y: 0, z: 0 }) == amb);
    }
}

/// Two renders of the same scene and camera produce identical framebuffers.
pub proof fn lemma_render_deterministic(fb1: Seq<u8>, fb2: Seq<u8>, sc: &Scene, cam: &Camera)
    requires
        fb1 == fb_spec(sc, cam),
        fb2 == fb_spec(sc, cam),
    ensures
        fb1 == fb2,
{
}

/// A clamped intensity channel as a byte in `[0, 255]`.
pub open spec fn byte_s(v: int) -> int {
    qz(clamp_s(v, 0, SCALE as int) * 255, SCALE as int)
}

proof fn lemma_byte_box(v: int)
    ensures
        0 <= byte_s(v) <= 255,
{
    let c = clamp_s(v, 0, SCALE as int);
    lemma_mul_mag(c, 255, SCALE as int, 255);
    lemma_qz_mag_le(c * 255, (SCALE as int) * 255, SCALE as int);
    assert(((SCALE as int) * 255) / (SCALE as int) == 255) by {
        vstd::arithmetic::div_mod::lemma_div_multiples_vanish(255, SCALE as int);
        assert((SCALE as int) * 255 == 255 * (SCALE as int)) by (nonlinear_arith);
    }
    assert(c * 255 >= 0) by (nonlinear_arith)
        requires
            c >= 0,
    ;
    assert((c * 255) / (SCALE as int) >= 0) by {
        vstd::arithmetic::div_mod::lemma_div_pos_is_pos(c * 255, SCALE as int);
    }
}

fn byte_of(v: i64) -> (b: u8)
    ensures
        b == byte_s(v as int),
{
    proof {
        lemma_byte_box(v as int);
    }
    let c = clamp_x(v, 0, SCALE);
    divq(wmul(c, 255), SCALE as i128) as u8
}

/// The three color bytes of one pixel, in blue, green, red order.
pub open spec fn pixel_bgr_s(sc: &Scene, cam: &Camera, row: int, col: int) -> (int, int, int) {
    let ray = primary_ray_s(cam, row, col);
    match scene_hit_s(sc, &ray) {
        None => (
            qz(sc.bg_color.z as int, SCALE as int),
            qz(sc.bg_color.y as int, SCALE as int),
            qz(sc.bg_color.x as int, SCALE as int),
        ),
        Some((i, t, n, m)) => {
            let c = shade_s(sc, &ray, i, t, n, m);
            (byte_s(c.z as int), byte_s(c.y as int), byte_s(c.x as int))
        },
    }
}

/// The byte at offset `k` of the framebuffer: pixels in row-major order,
/// four bytes each, blue, green, red, then an alpha byte that is always 255.
pub open spec fn fb_byte_s(sc: &Scene, cam: &Camera, k: int) -> u8 {
    let p = k / 4;
    let ch = k % 4;
    let row = p / (cam.viewport.cols as int);
    let col = p % (cam.viewport.cols as int);
    let bgr = pixel_bgr_s(sc, cam, row, col);
    if ch == 0 {
        bgr.0 as u8
    } else if ch == 1 {
        bgr.1 as u8
    } else if ch == 2 {
        bgr.2 as u8
    } else {
        255u8
    }
}

/// The whole framebuffer of a render, byte by byte.
pub open spec fn fb_spec(sc: &Scene, cam: &Camera) -> Seq<u8> {
    Seq::new((cam.viewport.rows * cam.viewport.cols * 4) as nat, |k: int| fb_byte_s(sc, cam, k))
}

/// Every pixel's alpha byte is 255.
pub proof fn lemma_alpha_opaque(sc: &Scene, cam: &Camera, p: int)
    requires
        0 <= p < cam.viewport.rows * cam.viewport.cols,
    ensures
        fb_spec(sc, cam)[4 * p + 3] == 255,
{
    vstd::arithmetic::div_mod::lemma_fundamental_div_mod_converse(4 * p + 3, 4, p, 3);
}

} // verus!

verus! {

/// The color bytes of pixel `p` (row-major index), as stored: blue, green,
/// red.
#[verifier::rlimit(100)]
fn pixel_bytes(sc: &Scene, cam: &Camera, row: u32, col: u32) -> (b: (u8, u8, u8))
    requires
        scene_ok(sc),
        camera_ok(cam),
        row < cam.viewport.rows,
        col < cam.viewport.cols,
    ensures
        b.0 == pixel_bgr_s(sc, cam, row as int, col as int).0,
        b.1 == pixel_bgr_s(sc, cam, row as int, col as int).1,
        b.2 == pixel_bgr_s(sc, cam, row as int, col as int).2,
{
    let ray = cam.primary_ray(row, col);
    match sc.get_intersection(&ray) {
        None => (bg_byte(sc.bg_color.z), bg_byte(sc.bg_color.y), bg_byte(sc.bg_color.x)),
        Some((i, t, n, m)) => {
            let c = shade(sc, &ray, i, t, n, &m);
            (byte_of(c.z), byte_of(c.y), byte_of(c.x))
        },
    }
}

/// A stored background channel truncated to its byte.
fn bg_byte(v: i64) -> (b: u8)
    requires
        0 <= v <= crate::scene::BGMAX,
    ensures
        b == qz(v as int, SCALE as int),
{
    proof {
        lemma_qz_mag_le(v as int, 255 * (SCALE as int), SCALE as int);
        assert((255 * (SCALE as int)) / (SCALE as int) == 255) by {
            vstd::arithmetic::div_mod::lemma_div_multiples_vanish(255, SCALE as int);
        }
        assert(qz(v as int, SCALE as int) >= 0) by {
            vstd::arithmetic::div_mod::lemma_div_pos_is_pos(v as int, SCALE as int);
        }
    }
    divq(v as i128, SCALE as i128) as u8
}

/// Render the contiguous pixel range `[start, start + count)` of the image
/// the camera sees; the result is exactly that slice of the full
/// framebuffer, so disjoint ranges rendered in parallel compose to the same
/// bytes as one sequential render.
#[verifier::rlimit(100)]
pub fn render_range(cam: &Camera, sc: &Scene, start: usize, count: usize) -> (out: Vec<u8>)
    requires
        camera_ok(cam),
        scene_ok(sc),
        start + count <= cam.viewport.rows * cam.viewport.cols,
    ensures
        out@.len() == 4 * count,
        out@ == fb_spec(sc, cam).subrange(4 * start, 4 * (start + count)),
{
    let cols = cam.viewport.cols as usize;
    let mut out: Vec<u8> = Vec::new();
    let mut p: usize = start;
    proof {
        assert((cam.viewport.rows as int) * (cam.viewport.cols as int) <= 4096 * 4096)
            by (nonlinear_arith)
            requires
                1 <= cam.viewport.rows <= 4096,
                1 <= cam.viewport.cols <= 4096,
        ;
    }
    while p < start + count
        invariant
            camera_ok(cam),
            scene_ok(sc),
            start <= p <= start + count,
            start + count <= cam.viewport.rows * cam.viewport.cols,
            (cam.viewport.rows as int) * (cam.viewport.cols as int) <= 4096 * 4096,
            cols == cam.viewport.cols,
            out@.len() == 4 * (p - start),
            forall|k: int|
                0 <= k < out@.len() ==> out@[k] == fb_byte_s(sc, cam, 4 * (start as int) + k),
        decreases start + count - p,
    {
        proof {
            assert((p as int) < (cols as int) * (cam.viewport.rows as int)) by (nonlinear_arith)
                requires
                    (p as int) < (cam.viewport.rows as int) * (cam.viewport.cols as int),
                    cols == cam.viewport.cols,
            ;
            assert((p as int) / (cols as int) < cam.viewport.rows as int) by {
                vstd::arithmetic::div_mod::lemma_multiply_divide_lt(
                    p as int,
                    cols as int,
                    cam.viewport.rows as int,
                );
            }
        }
        let row = p / cols;
        let col = p % cols;
        let bgr = pixel_bytes(sc, cam, row as u32, col as u32);
        proof {
            let pi = p as int;
            vstd::arithmetic::div_mod::lemma_fundamental_div_mod_converse(4 * pi, 4, pi, 0);
            vstd::arithmetic::div_mod::lemma_fundamental_div_mod_converse(4 * pi + 1, 4, pi, 1);
            vstd::arithmetic::div_mod::lemma_fundamental_div_mod_converse(4 * pi + 2, 4, pi, 2);
            vstd::arithmetic::div_mod::lemma_fundamental_div_mod_converse(4 * pi + 3, 4, pi, 3);
        }
        out.push(bgr.0);
        out.push(bgr.1);
        out.push(bgr.2);
        out.push(255);
        p = p + 1;
    }
    proof {
        assert(4 * ((start + count) as int) <= fb_spec(sc, cam).len()) by (nonlinear_arith)
            requires
                (start + count) as int <= (cam.viewport.rows as int) * (cam.viewport.cols as int),
                fb_spec(sc, cam).len() == (cam.viewport.rows * cam.viewport.cols * 4) as nat,
        ;
        assert(out@ =~= fb_spec(sc, cam).subrange(
            4 * (start as int),
            4 * ((start + count) as int),
        ));
    }
    out
}

impl Camera {
    /// Render the scene into the camera's framebuffer. The result is the
    /// byte-for-byte image `fb_spec` names: a pure function of the scene and
    /// the camera pose, so two renders of the same state are identical.
    pub fn draw_scene(&mut self, scene: &Scene)
        requires
            camera_ok(&*old(self)),
            scene_ok(scene),
        ensures
            final(self).pos == old(self).pos,
            final(self).ex == old(self).ex,
            final(self).ey == old(self).ey,
            final(self).ez == old(self).ez,
            final(self).focal_distance == old(self).focal_distance,
            final(self).projection_type == old(self).projection_type,
            final(self).obl_sin == old(self).obl_sin,
            final(self).obl_cos == old(self).obl_cos,
            final(self).viewport == old(self).viewport,
            final(self).framebuffer@ == fb_spec(scene, &*old(self)),
            camera_ok(&*final(self)),
    {
        proof {
            assert((self.viewport.rows as int) * (self.viewport.cols as int) <= 4096 * 4096)
                by (nonlinear_arith)
                requires
                    1 <= self.viewport.rows <= 4096,
                    1 <= self.viewport.cols <= 4096,
            ;
        }
        let total: usize = (self.viewport.rows as usize) * (self.viewport.cols as usize);
        let fb = render_range(self, scene, 0, total);
        proof {
            assert(fb@ =~= fb_spec(scene, &*old(self)));
        }
        self.framebuffer = fb;
        proof {
            assert((self.viewport.cols * self.viewport.rows * 4) as int == 4 * (
            (self.viewport.rows as int) * (self.viewport.cols as int))) by (nonlinear_arith);
        }
    }

    /// Cast the primary ray of pixel `(row, col)` and report what it hits:
    /// the index of the primitive, the hit point, and the oriented normal.
    pub fn send_ray(&self, row: u32, col: u32, scene: &Scene) -> (res: Option<(usize, Vec3, Vec3)>)
        requires
            camera_ok(self),
            scene_ok(scene),
            row < self.viewport.rows,
            col < self.viewport.cols,
        ensures
            res is Some <==> scene_hit_s(
                scene,
                &primary_ray_s(self, row as int, col as int),
            ) is Some,
            res is Some ==> {
                let (i, t, n, m) = scene_hit_s(
                    scene,
                    &primary_ray_s(self, row as int, col as int),
                )->Some_0;
                &&& res->Some_0.0 == i
                &&& res->Some_0.1 == at_s(primary_ray_s(self, row as int, col as int), t)
                &&& res->Some_0.2 == n
            },
    {
        let ray = self.primary_ray(row, col);
        match scene.get_intersection(&ray) {
            None => None,
            Some((i, t, n, _m)) => Some((i, ray.at(t), n)),
        }
    }
}

/// The contiguous pixel range of worker `i` when `total` pixels are split
/// into `parts` equal ranges, the last absorbing the remainder. Ranges of
/// distinct workers are disjoint and together cover every pixel, so workers
/// writing their own ranges never touch the same byte.
pub fn pixel_slice(total: usize, parts: usize, i: usize) -> (r: (usize, usize))
    requires
        1 <= parts,
        i < parts,
    ensures
        r.0 == (i as int) * ((total as int) / (parts as int)),
        i + 1 < parts ==> r.1 == (total as int) / (parts as int),
        i + 1 == parts ==> r.1 == total - r.0,
        r.0 + r.1 <= total,
        i + 1 == parts ==> r.0 + r.1 == total,
{
    let q = total / parts;
    proof {
        lemma_slice_bounds(total as int, parts as int, i as int);
    }
    let start = i * q;
    let len = if i + 1 == parts {
        total - start
    } else {
        q
    };
    (start, len)
}

/// Bounds for the equal-range split of `total` into `parts`.
proof fn lemma_slice_bounds(total: int, parts: int, i: int)
    requires
        1 <= parts,
        0 <= i < parts,
        0 <= total,
    ensures
        0 <= i * (total / parts),
        i * (total / parts) + total / parts <= total,
{
    let q = total / parts;
    assert(q >= 0) by {
        vstd::arithmetic::div_mod::lemma_div_pos_is_pos(total, parts);
    }
    assert(0 <= i * q) by (nonlinear_arith)
        requires
            0 <= i,
            0 <= q,
    ;
    assert(parts * q <= total) by {
        vstd::arithmetic::div_mod::lemma_fundamental_div_mod(total, parts);
    }
    assert(i * q + q <= parts * q) by (nonlinear_arith)
        requires
            i < parts,
            0 <= q,
    ;
}

/// Ranges of distinct workers never overlap: each worker's range ends where
/// the next worker's begins.
pub proof fn lemma_slices_disjoint(total: int, parts: int, i: int)
    requires
        1 <= parts,
        0 <= i,
        i + 1 < parts,
        0 <= total,
    ensures
        i * (total / parts) + total / parts == (i + 1) * (total / parts),
{
    assert(i * (total / parts) + total / parts == (i + 1) * (total / parts)) by (nonlinear_arith);
}

} // verus!
