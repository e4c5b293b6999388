//! 4x4 matrices over fixed-point scalars: affine transforms of 3D space.

use vstd::prelude::*;
use crate::fx::{bnd, clamp_s, qz, SCALE};
use crate::vec3::Vec3;
use crate::vec4::{Vec4, vbnd4, dot4_s, dot4_raw, lemma_dot4_raw_bound};

verus! {

/// Magnitude limit on the entries of a transform inside the working envelope.
pub const TRB: i64 = 0x2_0000_0000;

#[derive(Clone, Copy, PartialEq, Eq, Structural, Debug)]
pub struct Matrix4 {
    pub r0: Vec4,
    pub r1: Vec4,
    pub r2: Vec4,
    pub r3: Vec4,
}

/// Every entry of `m` has magnitude at most `b`.
pub open spec fn mbnd4(m: Matrix4, b: int) -> bool {
    vbnd4(m.r0, b) && vbnd4(m.r1, b) && vbnd4(m.r2, b) && vbnd4(m.r3, b)
}

pub open spec fn col_x(m: Matrix4) -> Vec4 {
    Vec4 { x: m.r0.x, y: m.r1.x, z: m.r2.x, w: m.r3.x }
}

pub open spec fn col_y(m: Matrix4) -> Vec4 {
    Vec4 { x: m.r0.y, y: m.r1.y, z: m.r2.y, w: m.r3.y }
}

pub open spec fn col_z(m: Matrix4) -> Vec4 {
    Vec4 { x: m.r0.z, y: m.r1.z, z: m.r2.z, w: m.r3.z }
}

pub open spec fn col_w(m: Matrix4) -> Vec4 {
    Vec4 { x: m.r0.w, y: m.r1.w, z: m.r2.w, w: m.r3.w }
}

pub open spec fn identity4_s() -> Matrix4 {
    Matrix4 {
        r0: Vec4 { x: SCALE, y: 0, z: 0, w: 0 },
        r1: Vec4 { x: 0, y: SCALE, z: 0, w: 0 },
        r2: Vec4 { x: 0, y: 0, z: SCALE, w: 0 },
        r3: Vec4 { x: 0, y: 0, z: 0, w: SCALE },
    }
}

/// Product of two matrices, one rounding per entry.
pub open spec fn mat4_mul_s(a: Matrix4, b: Matrix4) -> Matrix4 {
    Matrix4 {
        r0: Vec4 {
            x: dot4_s(a.r0, col_x(b)) as i64,
            y: dot4_s(a.r0, col_y(b)) as i64,
            z: dot4_s(a.r0, col_z(b)) as i64,
            w: dot4_s(a.r0, col_w(b)) as i64,
        },
        r1: Vec4 {
            x: dot4_s(a.r1, col_x(b)) as i64,
            y: dot4_s(a.r1, col_y(b)) as i64,
            z: dot4_s(a.r1, col_z(b)) as i64,
            w: dot4_s(a.r1, col_w(b)) as i64,
        },
        r2: Vec4 {
            x: dot4_s(a.r2, col_x(b)) as i64,
            y: dot4_s(a.r2, col_y(b)) as i64,
            z: dot4_s(a.r2, col_z(b)) as i64,
            w: dot4_s(a.r2, col_w(b)) as i64,
        },
        r3: Vec4 {
            x: dot4_s(a.r3, col_x(b)) as i64,
            y: dot4_s(a.r3, col_y(b)) as i64,
            z: dot4_s(a.r3, col_z(b)) as i64,
            w: dot4_s(a.r3, col_w(b)) as i64,
        },
    }
}

/// Application to a point: homogeneous coordinate 1.
pub open spec fn xform_point_s(m: Matrix4, v: Vec3) -> Vec3 {
    let h = Vec4 { x: v.x, y: v.y, z: v.z, w: SCALE };
    Vec3 { x: dot4_s(m.r0, h) as i64, y: dot4_s(m.r1, h) as i64, z: dot4_s(m.r2, h) as i64 }
}

/// Application to a direction: homogeneous coordinate 0, so the translation
/// column has no effect.
pub open spec fn xform_dir_s(m: Matrix4, v: Vec3) -> Vec3 {
    let h = Vec4 { x: v.x, y: v.y, z: v.z, w: 0 };
    Vec3 { x: dot4_s(m.r0, h) as i64, y: dot4_s(m.r1, h) as i64, z: dot4_s(m.r2, h) as i64 }
}

/// Entry-wise sum.
pub open spec fn plus_mat4_s(a: Matrix4, b: Matrix4) -> Matrix4 {
    Matrix4 {
        r0: plus_v4(a.r0, b.r0),
        r1: plus_v4(a.r1, b.r1),
        r2: plus_v4(a.r2, b.r2),
        r3: plus_v4(a.r3, b.r3),
    }
}

/// Entry-wise difference.
pub open spec fn minus_mat4_s(a: Matrix4, b: Matrix4) -> Matrix4 {
    Matrix4 {
        r0: minus_v4(a.r0, b.r0),
        r1: minus_v4(a.r1, b.r1),
        r2: minus_v4(a.r2, b.r2),
        r3: minus_v4(a.r3, b.r3),
    }
}

pub open spec fn plus_v4(a: Vec4, b: Vec4) -> Vec4 {
    Vec4 {
        x: (a.x + b.x) as i64,
        y: (a.y + b.y) as i64,
        z: (a.z + b.z) as i64,
        w: (a.w + b.w) as i64,
    }
}

pub open spec fn minus_v4(a: Vec4, b: Vec4) -> Vec4 {
    Vec4 {
        x: (a.x - b.x) as i64,
        y: (a.y - b.y) as i64,
        z: (a.z - b.z) as i64,
        w: (a.w - b.w) as i64,
    }
}

/// Every entry clamped into the working envelope.
pub open spec fn envelope_s(m: Matrix4) -> Matrix4 {
    Matrix4 { r0: cap_row(m.r0), r1: cap_row(m.r1), r2: cap_row(m.r2), r3: cap_row(m.r3) }
}

pub open spec fn cap_row(v: Vec4) -> Vec4 {
    Vec4 {
        x: clamp_s(v.x as int, -TRB as int, TRB as int) as i64,
        y: clamp_s(v.y as int, -TRB as int, TRB as int) as i64,
        z: clamp_s(v.z as int, -TRB as int, TRB as int) as i64,
        w: clamp_s(v.w as int, -TRB as int, TRB as int) as i64,
    }
}

impl Matrix4 {
    /// Constructor from four row vectors.
    pub fn new(r0: Vec4, r1: Vec4, r2: Vec4, r3: Vec4) -> (r: Matrix4)
        ensures
            r == (Matrix4 { r0, r1, r2, r3 }),
    {
        Matrix4 { r0, r1, r2, r3 }
    }

    /// The identity transform.
    pub fn identity() -> (r: Matrix4)
        ensures
            r == identity4_s(),
    {
        Matrix4 {
            r0: Vec4 { x: SCALE, y: 0, z: 0, w: 0 },
            r1: Vec4 { x: 0, y: SCALE, z: 0, w: 0 },
            r2: Vec4 { x: 0, y: 0, z: SCALE, w: 0 },
            r3: Vec4 { x: 0, y: 0, z: 0, w: SCALE },
        }
    }

    /// Matrix product.
    pub fn mul_mat(&self, rhs: &Matrix4) -> (r: Matrix4)
        requires
            mbnd4(*self, 0x40_0000_0000),
            mbnd4(*rhs, 0x40_0000_0000),
        ensures
            r == mat4_mul_s(*self, *rhs),
    {
        proof {
            lemma_mat4_mul_fits(*self, *rhs);
        }
        let cx = Vec4 { x: rhs.r0.x, y: rhs.r1.x, z: rhs.r2.x, w: rhs.r3.x };
        let cy = Vec4 { x: rhs.r0.y, y: rhs.r1.y, z: rhs.r2.y, w: rhs.r3.y };
        let cz = Vec4 { x: rhs.r0.z, y: rhs.r1.z, z: rhs.r2.z, w: rhs.r3.z };
        let cw = Vec4 { x: rhs.r0.w, y: rhs.r1.w, z: rhs.r2.w, w: rhs.r3.w };
        Matrix4 {
            r0: Vec4 {
                x: self.r0.dot(cx),
                y: self.r0.dot(cy),
                z: self.r0.dot(cz),
                w: self.r0.dot(cw),
            },
            r1: Vec4 {
                x: self.r1.dot(cx),
                y: self.r1.dot(cy),
                z: self.r1.dot(cz),
                w: self.r1.dot(cw),
            },
            r2: Vec4 {
                x: self.r2.dot(cx),
                y: self.r2.dot(cy),
                z: self.r2.dot(cz),
                w: self.r2.dot(cw),
            },
            r3: Vec4 {
                x: self.r3.dot(cx),
                y: self.r3.dot(cy),
                z: self.r3.dot(cz),
                w: self.r3.dot(cw),
            },
        }
    }

    /// Entry-wise sum of two matrices.
    pub fn plus(self, rhs: Matrix4) -> (r: Matrix4)
        requires
            mbnd4(self, 0x40_0000_0000),
            mbnd4(rhs, 0x40_0000_0000),
        ensures
            r == plus_mat4_s(self, rhs),
    {
        Matrix4 {
            r0: row_plus(self.r0, rhs.r0),
            r1: row_plus(self.r1, rhs.r1),
            r2: row_plus(self.r2, rhs.r2),
            r3: row_plus(self.r3, rhs.r3),
        }
    }

    /// Entry-wise difference of two matrices.
    pub fn minus(self, rhs: Matrix4) -> (r: Matrix4)
        requires
            mbnd4(self, 0x40_0000_0000),
            mbnd4(rhs, 0x40_0000_0000),
        ensures
            r == minus_mat4_s(self, rhs),
    {
        Matrix4 {
            r0: row_minus(self.r0, rhs.r0),
            r1: row_minus(self.r1, rhs.r1),
            r2: row_minus(self.r2, rhs.r2),
            r3: row_minus(self.r3, rhs.r3),
        }
    }

    /// Copy with every entry clamped into the working envelope; the identity
    /// on any transform whose entries already lie inside it.
    pub fn envelope(&self) -> (r: Matrix4)
        ensures
            r == envelope_s(*self),
            mbnd4(r, TRB as int),
    {
        Matrix4 {
            r0: cap_row_x(self.r0),
            r1: cap_row_x(self.r1),
            r2: cap_row_x(self.r2),
            r3: cap_row_x(self.r3),
        }
    }

    /// Application to a point (homogeneous coordinate 1).
    pub fn transform_point(&self, v: Vec3) -> (r: Vec3)
        requires
            mbnd4(*self, TRB as int),
            crate::vec3::vbnd(v, 0x200_0000_0000),
        ensures
            r == xform_point_s(*self, v),
            crate::vec3::vbnd(r, 0x2000_0000_0000_0000),
    {
        let h = Vec4 { x: v.x, y: v.y, z: v.z, w: SCALE };
        proof {
            lemma_xform_row_fits(self.r0, h);
            lemma_xform_row_fits(self.r1, h);
            lemma_xform_row_fits(self.r2, h);
        }
        Vec3 { x: self.r0.dot(h), y: self.r1.dot(h), z: self.r2.dot(h) }
    }

    /// Application to a direction (homogeneous coordinate 0).
    pub fn transform_dir(&self, v: Vec3) -> (r: Vec3)
        requires
            mbnd4(*self, TRB as int),
            crate::vec3::vbnd(v, 0x200_0000_0000),
        ensures
            r == xform_dir_s(*self, v),
            crate::vec3::vbnd(r, 0x2000_0000_0000_0000),
    {
        let h = Vec4 { x: v.x, y: v.y, z: v.z, w: 0 };
        proof {
            lemma_xform_row_fits(self.r0, h);
            lemma_xform_row_fits(self.r1, h);
            lemma_xform_row_fits(self.r2, h);
        }
        Vec3 { x: self.r0.dot(h), y: self.r1.dot(h), z: self.r2.dot(h) }
    }
}

fn row_plus(a: Vec4, b: Vec4) -> (r: Vec4)
    requires
        vbnd4(a, 0x40_0000_0000),
        vbnd4(b, 0x40_0000_0000),
    ensures
        r == plus_v4(a, b),
{
    Vec4 { x: a.x + b.x, y: a.y + b.y, z: a.z + b.z, w: a.w + b.w }
}

fn row_minus(a: Vec4, b: Vec4) -> (r: Vec4)
    requires
        vbnd4(a, 0x40_0000_0000),
        vbnd4(b, 0x40_0000_0000),
    ensures
        r == minus_v4(a, b),
{
    Vec4 { x: a.x - b.x, y: a.y - b.y, z: a.z - b.z, w: a.w - b.w }
}

fn cap_row_x(v: Vec4) -> (r: Vec4)
    ensures
        r == cap_row(v),
        vbnd4(r, TRB as int),
{
    Vec4 {
        x: crate::fx::clamp_x(v.x, -TRB, TRB),
        y: crate::fx::clamp_x(v.y, -TRB, TRB),
        z: crate::fx::clamp_x(v.z, -TRB, TRB),
        w: crate::fx::clamp_x(v.w, -TRB, TRB),
    }
}

/// One row of an envelope-bounded transform applied to a bounded vector
/// yields a bounded fixed-point value.
proof fn lemma_xform_row_fits(row: Vec4, h: Vec4)
    requires
        vbnd4(row, TRB as int),
        vbnd4(h, 0x200_0000_0000),
    ensures
        crate::fx::bnd(dot4_s(row, h), 0x2000_0000_0000_0000),
{
    lemma_dot4_raw_bound(row, h, TRB as int, 0x200_0000_0000);
    crate::fx::lemma_qz_mag_le(
        dot4_raw(row, h),
        4 * ((TRB as int) * 0x200_0000_0000),
        SCALE as int,
    );
}

/// Entries of two bounded matrices produce bounded product entries.
proof fn lemma_mat4_mul_fits(a: Matrix4, b: Matrix4)
    requires
        mbnd4(a, 0x40_0000_0000),
        mbnd4(b, 0x40_0000_0000),
    ensures
        crate::fx::bnd(dot4_s(a.r0, col_x(b)), i64::MAX as int),
        crate::fx::bnd(dot4_s(a.r0, col_y(b)), i64::MAX as int),
        crate::fx::bnd(dot4_s(a.r0, col_z(b)), i64::MAX as int),
        crate::fx::bnd(dot4_s(a.r0, col_w(b)), i64::MAX as int),
        crate::fx::bnd(dot4_s(a.r1, col_x(b)), i64::MAX as int),
        crate::fx::bnd(dot4_s(a.r1, col_y(b)), i64::MAX as int),
        crate::fx::bnd(dot4_s(a.r1, col_z(b)), i64::MAX as int),
        crate::fx::bnd(dot4_s(a.r1, col_w(b)), i64::MAX as int),
        crate::fx::bnd(dot4_s(a.r2, col_x(b)), i64::MAX as int),
        crate::fx::bnd(dot4_s(a.r2, col_y(b)), i64::MAX as int),
        crate::fx::bnd(dot4_s(a.r2, col_z(b)), i64::MAX as int),
        crate::fx::bnd(dot4_s(a.r2, col_w(b)), i64::MAX as int),
        crate::fx::bnd(dot4_s(a.r3, col_x(b)), i64::MAX as int),
        crate::fx::bnd(dot4_s(a.r3, col_y(b)), i64::MAX as int),
        crate::fx::bnd(dot4_s(a.r3, col_z(b)), i64::MAX as int),
        crate::fx::bnd(dot4_s(a.r3, col_w(b)), i64::MAX as int),
{
    lemma_mm_fit(a.r0, col_x(b));
    lemma_mm_fit(a.r0, col_y(b));
    lemma_mm_fit(a.r0, col_z(b));
    lemma_mm_fit(a.r0, col_w(b));
    lemma_mm_fit(a.r1, col_x(b));
    lemma_mm_fit(a.r1, col_y(b));
    lemma_mm_fit(a.r1, col_z(b));
    lemma_mm_fit(a.r1, col_w(b));
    lemma_mm_fit(a.r2, col_x(b));
    lemma_mm_fit(a.r2, col_y(b));
    lemma_mm_fit(a.r2, col_z(b));
    lemma_mm_fit(a.r2, col_w(b));
    lemma_mm_fit(a.r3, col_x(b));
    lemma_mm_fit(a.r3, col_y(b));
    lemma_mm_fit(a.r3, col_z(b));
    lemma_mm_fit(a.r3, col_w(b));
}

proof fn lemma_mm_fit(r: Vec4, c: Vec4)
    requires
        vbnd4(r, 0x40_0000_0000),
        vbnd4(c, 0x40_0000_0000),
    ensures
        crate::fx::bnd(dot4_s(r, c), i64::MAX as int),
{
    lemma_dot4_raw_bound(r, c, 0x40_0000_0000, 0x40_0000_0000);
    crate::fx::lemma_qz_mag_le(
        dot4_raw(r, c),
        4 * (0x40_0000_0000int * 0x40_0000_0000int),
        SCALE as int,
    );
}

/// The transformed image of a bounded point under an envelope-bounded
/// transform fits the vector limits of `dot` and `cross`.
pub proof fn lemma_xform_bound(m: Matrix4, v: Vec3)
    requires
        mbnd4(m, TRB as int),
        crate::vec3::vbnd(v, crate::fx::MAXC as int),
    ensures
        crate::vec3::vbnd(xform_point_s(m, v), 0x80_0000_0000_0000),
        crate::vec3::vbnd(xform_dir_s(m, v), 0x80_0000_0000_0000),
{
    let h = Vec4 { x: v.x, y: v.y, z: v.z, w: SCALE };
    let h0 = Vec4 { x: v.x, y: v.y, z: v.z, w: 0 };
    assert(vbnd4(h, crate::fx::MAXC as int));
    assert(vbnd4(h0, crate::fx::MAXC as int));
    lemma_dot4_raw_bound(m.r0, h, TRB as int, crate::fx::MAXC as int);
    lemma_dot4_raw_bound(m.r1, h, TRB as int, crate::fx::MAXC as int);
    lemma_dot4_raw_bound(m.r2, h, TRB as int, crate::fx::MAXC as int);
    lemma_dot4_raw_bound(m.r0, h0, TRB as int, crate::fx::MAXC as int);
    lemma_dot4_raw_bound(m.r1, h0, TRB as int, crate::fx::MAXC as int);
    lemma_dot4_raw_bound(m.r2, h0, TRB as int, crate::fx::MAXC as int);
    crate::fx::lemma_qz_mag_le(dot4_raw(m.r0, h), 4 * ((TRB as int) * (crate::fx::MAXC as int)), SCALE as int);
    crate::fx::lemma_qz_mag_le(dot4_raw(m.r1, h), 4 * ((TRB as int) * (crate::fx::MAXC as int)), SCALE as int);
    crate::fx::lemma_qz_mag_le(dot4_raw(m.r2, h), 4 * ((TRB as int) * (crate::fx::MAXC as int)), SCALE as int);
    crate::fx::lemma_qz_mag_le(dot4_raw(m.r0, h0), 4 * ((TRB as int) * (crate::fx::MAXC as int)), SCALE as int);
    crate::fx::lemma_qz_mag_le(dot4_raw(m.r1, h0), 4 * ((TRB as int) * (crate::fx::MAXC as int)), SCALE as int);
    crate::fx::lemma_qz_mag_le(dot4_raw(m.r2, h0), 4 * ((TRB as int) * (crate::fx::MAXC as int)), SCALE as int);
}

} // verus!
