//! Affine transform builders: translation, scaling about a point, shears,
//! rotation about an arbitrary axis, and reflection across a plane.
//!
//! Rotation needs the sine and cosine of the angle; they are transcendental,
//! so the builders take them as fixed-point arguments instead of an angle.

use vstd::prelude::*;
use crate::fx::{absi, bnd, fmul, qz, MAXC, SCALE, lemma_mul_mag, lemma_qz_mag_le, fmul_x};
use crate::vec3::{Vec3, vbnd, neg_s, normalize_s, length_s, VLIM};
use crate::mat4::{Matrix4, mbnd4, mat4_mul_s, envelope_s, TRB};
use crate::vec4::Vec4;

verus! {

/// The translation by `(tx, ty, tz)`.
pub open spec fn translation4_s(tx: i64, ty: i64, tz: i64) -> Matrix4 {
    Matrix4 {
        r0: Vec4 { x: SCALE, y: 0, z: 0, w: tx },
        r1: Vec4 { x: 0, y: SCALE, z: 0, w: ty },
        r2: Vec4 { x: 0, y: 0, z: SCALE, w: tz },
        r3: Vec4 { x: 0, y: 0, z: 0, w: SCALE },
    }
}

/// Conjugation of a linear core with the translation to and from `pc`,
/// entries kept inside the working envelope after each product.
pub open spec fn conjugate_s(pc: Vec3, core: Matrix4) -> Matrix4 {
    envelope_s(
        mat4_mul_s(
            envelope_s(mat4_mul_s(translation4_s(pc.x, pc.y, pc.z), core)),
            translation4_s((-pc.x) as i64, (-pc.y) as i64, (-pc.z) as i64),
        ),
    )
}

/// The scaling by `(sx, sy, sz)` about the origin.
pub open spec fn scale4_core_s(sx: i64, sy: i64, sz: i64) -> Matrix4 {
    Matrix4 {
        r0: Vec4 { x: sx, y: 0, z: 0, w: 0 },
        r1: Vec4 { x: 0, y: sy, z: 0, w: 0 },
        r2: Vec4 { x: 0, y: 0, z: sz, w: 0 },
        r3: Vec4 { x: 0, y: 0, z: 0, w: SCALE },
    }
}

/// Rodrigues rotation core about the unit axis `u` with the given sine and
/// cosine of the angle.
pub open spec fn rodrigues_s(u: Vec3, sin_a: i64, cos_a: i64) -> Matrix4 {
    let omc = SCALE - cos_a;
    Matrix4 {
        r0: Vec4 {
            x: (cos_a + fmul(fmul(u.x as int, u.x as int), omc as int)) as i64,
            y: (fmul(fmul(u.x as int, u.y as int), omc as int) - fmul(
                u.z as int,
                sin_a as int,
            )) as i64,
            z: (fmul(fmul(u.x as int, u.z as int), omc as int) + fmul(
                u.y as int,
                sin_a as int,
            )) as i64,
            w: 0,
        },
        r1: Vec4 {
            x: (fmul(fmul(u.y as int, u.x as int), omc as int) + fmul(
                u.z as int,
                sin_a as int,
            )) as i64,
            y: (cos_a + fmul(fmul(u.y as int, u.y as int), omc as int)) as i64,
            z: (fmul(fmul(u.y as int, u.z as int), omc as int) - fmul(
                u.x as int,
                sin_a as int,
            )) as i64,
            w: 0,
        },
        r2: Vec4 {
            x: (fmul(fmul(u.z as int, u.x as int), omc as int) - fmul(
                u.y as int,
                sin_a as int,
            )) as i64,
            y: (fmul(fmul(u.z as int, u.y as int), omc as int) + fmul(
                u.x as int,
                sin_a as int,
            )) as i64,
            z: (cos_a + fmul(fmul(u.z as int, u.z as int), omc as int)) as i64,
            w: 0,
        },
        r3: Vec4 { x: 0, y: 0, z: 0, w: SCALE },
    }
}

/// Householder core `I - 2 * u * u^T` for the unit normal `u`.
pub open spec fn householder_core_s(u: Vec3) -> Matrix4 {
    Matrix4 {
        r0: Vec4 {
            x: (SCALE - 2 * fmul(u.x as int, u.x as int)) as i64,
            y: (-2 * fmul(u.x as int, u.y as int)) as i64,
            z: (-2 * fmul(u.x as int, u.z as int)) as i64,
            w: 0,
        },
        r1: Vec4 {
            x: (-2 * fmul(u.y as int, u.x as int)) as i64,
            y: (SCALE - 2 * fmul(u.y as int, u.y as int)) as i64,
            z: (-2 * fmul(u.y as int, u.z as int)) as i64,
            w: 0,
        },
        r2: Vec4 {
            x: (-2 * fmul(u.z as int, u.x as int)) as i64,
            y: (-2 * fmul(u.z as int, u.y as int)) as i64,
            z: (SCALE - 2 * fmul(u.z as int, u.z as int)) as i64,
            w: 0,
        },
        r3: Vec4 { x: 0, y: 0, z: 0, w: SCALE },
    }
}

/// The translation by `(tx, ty, tz)`.
pub fn translation_matrix(tx: i64, ty: i64, tz: i64) -> (r: Matrix4)
    requires
        bnd(tx as int, MAXC as int),
        bnd(ty as int, MAXC as int),
        bnd(tz as int, MAXC as int),
    ensures
        r == translation4_s(tx, ty, tz),
        mbnd4(r, MAXC as int),
{
    Matrix4 {
        r0: Vec4 { x: SCALE, y: 0, z: 0, w: tx },
        r1: Vec4 { x: 0, y: SCALE, z: 0, w: ty },
        r2: Vec4 { x: 0, y: 0, z: SCALE, w: tz },
        r3: Vec4 { x: 0, y: 0, z: 0, w: SCALE },
    }
}

/// Conjugation of a bounded linear core with the translations to and from
/// `pc`.
fn conjugated(pc: Vec3, core: &Matrix4) -> (r: Matrix4)
    requires
        vbnd(pc, MAXC as int),
        mbnd4(*core, TRB as int),
    ensures
        r == conjugate_s(pc, *core),
        mbnd4(r, TRB as int),
{
    let t_in = translation_matrix(pc.x, pc.y, pc.z);
    let t_out = translation_matrix(-pc.x, -pc.y, -pc.z);
    let m1 = t_in.mul_mat(core).envelope();
    m1.mul_mat(&t_out).envelope()
}

/// The scaling by `(sx, sy, sz)` about the point `pc`.
pub fn scale_matrix(sx: i64, sy: i64, sz: i64, pc: Vec3) -> (r: Matrix4)
    requires
        bnd(sx as int, TRB as int),
        bnd(sy as int, TRB as int),
        bnd(sz as int, TRB as int),
        vbnd(pc, MAXC as int),
    ensures
        r == conjugate_s(pc, scale4_core_s(sx, sy, sz)),
        mbnd4(r, TRB as int),
{
    let core = Matrix4 {
        r0: Vec4 { x: sx, y: 0, z: 0, w: 0 },
        r1: Vec4 { x: 0, y: sy, z: 0, w: 0 },
        r2: Vec4 { x: 0, y: 0, z: sz, w: 0 },
        r3: Vec4 { x: 0, y: 0, z: 0, w: SCALE },
    };
    conjugated(pc, &core)
}

/// Shear along the first axis by the two given coefficients.
pub fn shear_matrix_x(sh_yz: i64, sh_zy: i64) -> (r: Matrix4)
    requires
        bnd(sh_yz as int, TRB as int),
        bnd(sh_zy as int, TRB as int),
    ensures
        r.r0 == (Vec4 { x: SCALE, y: sh_yz, z: sh_zy, w: 0 }),
        r.r1 == (Vec4 { x: 0, y: SCALE, z: 0, w: 0 }),
        r.r2 == (Vec4 { x: 0, y: 0, z: SCALE, w: 0 }),
        r.r3 == (Vec4 { x: 0, y: 0, z: 0, w: SCALE }),
        mbnd4(r, TRB as int),
{
    Matrix4 {
        r0: Vec4 { x: SCALE, y: sh_yz, z: sh_zy, w: 0 },
        r1: Vec4 { x: 0, y: SCALE, z: 0, w: 0 },
        r2: Vec4 { x: 0, y: 0, z: SCALE, w: 0 },
        r3: Vec4 { x: 0, y: 0, z: 0, w: SCALE },
    }
}

/// Shear along the second axis by the two given coefficients.
pub fn shear_matrix_y(sh_xz: i64, sh_zx: i64) -> (r: Matrix4)
    requires
        bnd(sh_xz as int, TRB as int),
        bnd(sh_zx as int, TRB as int),
    ensures
        r.r0 == (Vec4 { x: SCALE, y: 0, z: 0, w: 0 }),
        r.r1 == (Vec4 { x: sh_xz, y: SCALE, z: sh_zx, w: 0 }),
        r.r2 == (Vec4 { x: 0, y: 0, z: SCALE, w: 0 }),
        r.r3 == (Vec4 { x: 0, y: 0, z: 0, w: SCALE }),
        mbnd4(r, TRB as int),
{
    Matrix4 {
        r0: Vec4 { x: SCALE, y: 0, z: 0, w: 0 },
        r1: Vec4 { x: sh_xz, y: SCALE, z: sh_zx, w: 0 },
        r2: Vec4 { x: 0, y: 0, z: SCALE, w: 0 },
        r3: Vec4 { x: 0, y: 0, z: 0, w: SCALE },
    }
}

/// Shear along the third axis by the two given coefficients.
pub fn shear_matrix_z(sh_xy: i64, sh_yx: i64) -> (r: Matrix4)
    requires
        bnd(sh_xy as int, TRB as int),
        bnd(sh_yx as int, TRB as int),
    ensures
        r.r0 == (Vec4 { x: SCALE, y: 0, z: 0, w: 0 }),
        r.r1 == (Vec4 { x: 0, y: SCALE, z: 0, w: 0 }),
        r.r2 == (Vec4 { x: sh_xy, y: sh_yx, z: SCALE, w: 0 }),
        r.r3 == (Vec4 { x: 0, y: 0, z: 0, w: SCALE }),
        mbnd4(r, TRB as int),
{
    Matrix4 {
        r0: Vec4 { x: SCALE, y: 0, z: 0, w: 0 },
        r1: Vec4 { x: 0, y: SCALE, z: 0, w: 0 },
        r2: Vec4 { x: sh_xy, y: sh_yx, z: SCALE, w: 0 },
        r3: Vec4 { x: 0, y: 0, z: 0, w: SCALE },
    }
}

/// A diagonal Rodrigues entry: `cos + u_i^2 * (1 - cos)`.
fn rot_diag(a: i64, cos_a: i64, omc: i64) -> (r: i64)
    requires
        bnd(a as int, SCALE as int),
        bnd(cos_a as int, SCALE as int),
        0 <= omc <= 2 * SCALE,
    ensures
        r == cos_a + fmul(fmul(a as int, a as int), omc as int),
        bnd(r as int, 4 * SCALE as int),
{
    proof {
        lemma_mul_mag(a as int, a as int, SCALE as int, SCALE as int);
        lemma_qz_mag_le(a * a, (SCALE as int) * (SCALE as int), SCALE as int);
        let p = fmul(a as int, a as int);
        lemma_mul_mag(p, omc as int, SCALE as int, 2 * SCALE as int);
        lemma_qz_mag_le(p * omc, (SCALE as int) * (2 * SCALE as int), SCALE as int);
    }
    cos_a + fmul_x(fmul_x(a, a), omc)
}

/// An off-diagonal Rodrigues entry: `u_i * u_j * (1 - cos) +/- u_k * sin`.
fn rot_off(a: i64, b: i64, c: i64, omc: i64, sin_a: i64, plus: bool) -> (r: i64)
    requires
        bnd(a as int, SCALE as int),
        bnd(b as int, SCALE as int),
        bnd(c as int, SCALE as int),
        bnd(sin_a as int, SCALE as int),
        0 <= omc <= 2 * SCALE,
    ensures
        plus ==> r == fmul(fmul(a as int, b as int), omc as int) + fmul(c as int, sin_a as int),
        !plus ==> r == fmul(fmul(a as int, b as int), omc as int) - fmul(c as int, sin_a as int),
        bnd(r as int, 4 * SCALE as int),
{
    proof {
        lemma_mul_mag(a as int, b as int, SCALE as int, SCALE as int);
        lemma_qz_mag_le(a * b, (SCALE as int) * (SCALE as int), SCALE as int);
        let p = fmul(a as int, b as int);
        lemma_mul_mag(p, omc as int, SCALE as int, 2 * SCALE as int);
        lemma_qz_mag_le(p * omc, (SCALE as int) * (2 * SCALE as int), SCALE as int);
        lemma_mul_mag(c as int, sin_a as int, SCALE as int, SCALE as int);
        lemma_qz_mag_le(c * sin_a, (SCALE as int) * (SCALE as int), SCALE as int);
    }
    let main = fmul_x(fmul_x(a, b), omc);
    let swing = fmul_x(c, sin_a);
    if plus {
        main + swing
    } else {
        main - swing
    }
}

/// Rotation about the axis through `pc` along `axis`, by the angle whose sine
/// and cosine are given (Rodrigues formula conjugated with the translation).
pub fn rotation_around_axis(axis: Vec3, sin_a: i64, cos_a: i64, pc: Vec3) -> (r: Matrix4)
    requires
        vbnd(axis, VLIM as int),
        length_s(axis) > 0,
        crate::fx::unit_pair(sin_a as int, cos_a as int),
        vbnd(pc, MAXC as int),
    ensures
        r == conjugate_s(pc, rodrigues_s(normalize_s(axis), sin_a, cos_a)),
        mbnd4(r, TRB as int),
{
    let u = axis.normalize();
    let omc = SCALE - cos_a;
    let core = Matrix4 {
        r0: Vec4 {
            x: rot_diag(u.x, cos_a, omc),
            y: rot_off(u.x, u.y, u.z, omc, sin_a, false),
            z: rot_off(u.x, u.z, u.y, omc, sin_a, true),
            w: 0,
        },
        r1: Vec4 {
            x: rot_off(u.y, u.x, u.z, omc, sin_a, true),
            y: rot_diag(u.y, cos_a, omc),
            z: rot_off(u.y, u.z, u.x, omc, sin_a, false),
            w: 0,
        },
        r2: Vec4 {
            x: rot_off(u.z, u.x, u.y, omc, sin_a, false),
            y: rot_off(u.z, u.y, u.x, omc, sin_a, true),
            z: rot_diag(u.z, cos_a, omc),
            w: 0,
        },
        r3: Vec4 { x: 0, y: 0, z: 0, w: SCALE },
    };
    conjugated(pc, &core)
}

/// A Householder diagonal entry: `1 - 2 * u_i^2`.
fn hh_diag(a: i64) -> (r: i64)
    requires
        bnd(a as int, SCALE as int),
    ensures
        r == SCALE - 2 * fmul(a as int, a as int),
        bnd(r as int, 4 * SCALE as int),
{
    proof {
        lemma_mul_mag(a as int, a as int, SCALE as int, SCALE as int);
        lemma_qz_mag_le(a * a, (SCALE as int) * (SCALE as int), SCALE as int);
    }
    SCALE - 2 * fmul_x(a, a)
}

/// A Householder off-diagonal entry: `-2 * u_i * u_j`.
fn hh_off(a: i64, b: i64) -> (r: i64)
    requires
        bnd(a as int, SCALE as int),
        bnd(b as int, SCALE as int),
    ensures
        r == -2 * fmul(a as int, b as int),
        bnd(r as int, 4 * SCALE as int),
{
    proof {
        lemma_mul_mag(a as int, b as int, SCALE as int, SCALE as int);
        lemma_qz_mag_le(a * b, (SCALE as int) * (SCALE as int), SCALE as int);
    }
    -2 * fmul_x(a, b)
}

/// Reflection across the plane through `pc` with the given normal:
/// `I - 2 * u * u^T` conjugated with the translation to `pc`.
pub fn householder_reflection(pc: Vec3, normal: Vec3) -> (r: Matrix4)
    requires
        vbnd(normal, VLIM as int),
        length_s(normal) > 0,
        vbnd(pc, MAXC as int),
    ensures
        r == conjugate_s(pc, householder_core_s(normalize_s(normal))),
        mbnd4(r, TRB as int),
{
    let u = normal.normalize();
    let core = Matrix4 {
        r0: Vec4 { x: hh_diag(u.x), y: hh_off(u.x, u.y), z: hh_off(u.x, u.z), w: 0 },
        r1: Vec4 { x: hh_off(u.y, u.x), y: hh_diag(u.y), z: hh_off(u.y, u.z), w: 0 },
        r2: Vec4 { x: hh_off(u.z, u.x), y: hh_off(u.z, u.y), z: hh_diag(u.z), w: 0 },
        r3: Vec4 { x: 0, y: 0, z: 0, w: SCALE },
    };
    conjugated(pc, &core)
}

} // verus!
