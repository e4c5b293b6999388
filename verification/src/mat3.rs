//! 3x3 matrices over fixed-point scalars, stored as three row vectors.

use vstd::prelude::*;
use crate::fx::{bnd, fmul, qz, SCALE};
use crate::vec3::{Vec3, vbnd, dot_s, dot_raw, DOTB};

verus! {

#[derive(Clone, Copy, PartialEq, Eq, Structural, Debug)]
pub struct Matrix3 {
    pub rx: Vec3,
    pub ry: Vec3,
    pub rz: Vec3,
}

/// Every entry of `m` has magnitude at most `b`.
pub open spec fn mbnd3(m: Matrix3, b: int) -> bool {
    vbnd(m.rx, b) && vbnd(m.ry, b) && vbnd(m.rz, b)
}

/// Application of a matrix to a column vector, one rounding per component.
pub open spec fn mul_vec3_s(m: Matrix3, v: Vec3) -> Vec3 {
    Vec3 { x: dot_s(m.rx, v) as i64, y: dot_s(m.ry, v) as i64, z: dot_s(m.rz, v) as i64 }
}

/// Entry-wise difference.
pub open spec fn minus_mat3_s(a: Matrix3, b: Matrix3) -> Matrix3 {
    Matrix3 {
        rx: crate::vec3::minus_s(a.rx, b.rx),
        ry: crate::vec3::minus_s(a.ry, b.ry),
        rz: crate::vec3::minus_s(a.rz, b.rz),
    }
}

/// The outer product `a * b^T` of two vectors, one rounding per entry.
pub open spec fn outer_s(a: Vec3, b: Vec3) -> Matrix3 {
    Matrix3 {
        rx: Vec3 {
            x: fmul(a.x as int, b.x as int) as i64,
            y: fmul(a.x as int, b.y as int) as i64,
            z: fmul(a.x as int, b.z as int) as i64,
        },
        ry: Vec3 {
            x: fmul(a.y as int, b.x as int) as i64,
            y: fmul(a.y as int, b.y as int) as i64,
            z: fmul(a.y as int, b.z as int) as i64,
        },
        rz: Vec3 {
            x: fmul(a.z as int, b.x as int) as i64,
            y: fmul(a.z as int, b.y as int) as i64,
            z: fmul(a.z as int, b.z as int) as i64,
        },
    }
}

pub open spec fn identity3_s() -> Matrix3 {
    Matrix3 {
        rx: Vec3 { x: SCALE, y: 0, z: 0 },
        ry: Vec3 { x: 0, y: SCALE, z: 0 },
        rz: Vec3 { x: 0, y: 0, z: SCALE },
    }
}

impl Matrix3 {
    /// Constructor from three row vectors.
    pub fn new(rx: Vec3, ry: Vec3, rz: Vec3) -> (r: Matrix3)
        ensures
            r == (Matrix3 { rx, ry, rz }),
    {
        Matrix3 { rx, ry, rz }
    }

    /// The identity matrix.
    pub fn identity() -> (r: Matrix3)
        ensures
            r == identity3_s(),
    {
        Matrix3 {
            rx: Vec3 { x: SCALE, y: 0, z: 0 },
            ry: Vec3 { x: 0, y: SCALE, z: 0 },
            rz: Vec3 { x: 0, y: 0, z: SCALE },
        }
    }

    /// Entry-wise difference of two matrices.
    pub fn minus(self, rhs: Matrix3) -> (r: Matrix3)
        requires
            mbnd3(self, i64::MAX as int - DOTB as int),
            mbnd3(rhs, DOTB as int),
        ensures
            r == minus_mat3_s(self, rhs),
    {
        Matrix3 {
            rx: self.rx.minus(rhs.rx),
            ry: self.ry.minus(rhs.ry),
            rz: self.rz.minus(rhs.rz),
        }
    }

    /// Entry-wise sum of two matrices.
    pub fn plus(self, rhs: Matrix3) -> (r: Matrix3)
        requires
            mbnd3(self, DOTB as int),
            mbnd3(rhs, DOTB as int),
        ensures
            r == plus_mat3_s(self, rhs),
    {
        Matrix3 { rx: self.rx.plus(rhs.rx), ry: self.ry.plus(rhs.ry), rz: self.rz.plus(rhs.rz) }
    }

    /// Entry-wise negation.
    pub fn negated(self) -> (r: Matrix3)
        requires
            mbnd3(self, DOTB as int),
        ensures
            r == neg_mat3_s(self),
    {
        Matrix3 { rx: self.rx.negated(), ry: self.ry.negated(), rz: self.rz.negated() }
    }

    /// Matrix product.
    pub fn mul_mat(&self, rhs: &Matrix3) -> (r: Matrix3)
        requires
            mbnd3(*self, DOTB as int),
            mbnd3(*rhs, DOTB as int),
        ensures
            r == mat3_mul_s(*self, *rhs),
    {
        let cx = Vec3 { x: rhs.rx.x, y: rhs.ry.x, z: rhs.rz.x };
        let cy = Vec3 { x: rhs.rx.y, y: rhs.ry.y, z: rhs.rz.y };
        let cz = Vec3 { x: rhs.rx.z, y: rhs.ry.z, z: rhs.rz.z };
        proof {
            crate::vec3::lemma_dot_fits(self.rx, cx, DOTB as int, DOTB as int);
            crate::vec3::lemma_dot_fits(self.rx, cy, DOTB as int, DOTB as int);
            crate::vec3::lemma_dot_fits(self.rx, cz, DOTB as int, DOTB as int);
            crate::vec3::lemma_dot_fits(self.ry, cx, DOTB as int, DOTB as int);
            crate::vec3::lemma_dot_fits(self.ry, cy, DOTB as int, DOTB as int);
            crate::vec3::lemma_dot_fits(self.ry, cz, DOTB as int, DOTB as int);
            crate::vec3::lemma_dot_fits(self.rz, cx, DOTB as int, DOTB as int);
            crate::vec3::lemma_dot_fits(self.rz, cy, DOTB as int, DOTB as int);
            crate::vec3::lemma_dot_fits(self.rz, cz, DOTB as int, DOTB as int);
        }
        Matrix3 {
            rx: Vec3 { x: self.rx.dot(cx), y: self.rx.dot(cy), z: self.rx.dot(cz) },
            ry: Vec3 { x: self.ry.dot(cx), y: self.ry.dot(cy), z: self.ry.dot(cz) },
            rz: Vec3 { x: self.rz.dot(cx), y: self.rz.dot(cy), z: self.rz.dot(cz) },
        }
    }

    /// Application to a column vector. The rows are expected at unit scale
    /// (projection-like matrices); the vector may be as long as a shadow ray.
    pub fn mul_vec(&self, v: Vec3) -> (r: Vec3)
        requires
            mbnd3(*self, 2 * SCALE as int),
            vbnd(v, 0x200_0000_0000_0000),
        ensures
            r == mul_vec3_s(*self, v),
            vbnd(r, 0x1000_0000_0000_0000),
    {
        proof {
            crate::vec3::lemma_dot_fits(self.rx, v, 2 * SCALE as int, 0x200_0000_0000_0000);
            crate::vec3::lemma_dot_fits(self.ry, v, 2 * SCALE as int, 0x200_0000_0000_0000);
            crate::vec3::lemma_dot_fits(self.rz, v, 2 * SCALE as int, 0x200_0000_0000_0000);
        }
        Vec3 { x: self.rx.dot(v), y: self.ry.dot(v), z: self.rz.dot(v) }
    }
}

impl Vec3 {
    /// The outer product `self * rhs^T`.
    pub fn by_transpost(&self, rhs: Vec3) -> (r: Matrix3)
        requires
            vbnd(*self, DOTB as int),
            vbnd(rhs, DOTB as int),
        ensures
            r == outer_s(*self, rhs),
    {
        proof {
            lemma_outer_fits(*self, rhs, DOTB as int);
        }
        Matrix3 {
            rx: Vec3 {
                x: crate::fx::fmul_x(self.x, rhs.x),
                y: crate::fx::fmul_x(self.x, rhs.y),
                z: crate::fx::fmul_x(self.x, rhs.z),
            },
            ry: Vec3 {
                x: crate::fx::fmul_x(self.y, rhs.x),
                y: crate::fx::fmul_x(self.y, rhs.y),
                z: crate::fx::fmul_x(self.y, rhs.z),
            },
            rz: Vec3 {
                x: crate::fx::fmul_x(self.z, rhs.x),
                y: crate::fx::fmul_x(self.z, rhs.y),
                z: crate::fx::fmul_x(self.z, rhs.z),
            },
        }
    }

    /// The projection matrix onto the line spanned by `self`: `v * v^T`.
    pub fn projection_matrix(&self) -> (r: Matrix3)
        requires
            vbnd(*self, DOTB as int),
        ensures
            r == outer_s(*self, *self),
    {
        self.by_transpost(*self)
    }

    /// The projection matrix onto the plane orthogonal to `self`:
    /// `I - v * v^T`, meaningful for unit `self`.
    pub fn orth_projection_matrix(&self) -> (r: Matrix3)
        requires
            vbnd(*self, SCALE as int),
        ensures
            r == minus_mat3_s(identity3_s(), outer_s(*self, *self)),
            mbnd3(r, 2 * SCALE as int),
    {
        let q = self.projection_matrix();
        proof {
            lemma_outer_fits(*self, *self, SCALE as int);
        }
        Matrix3::identity().minus(q)
    }
}

/// Entry-wise sum.
pub open spec fn plus_mat3_s(a: Matrix3, b: Matrix3) -> Matrix3 {
    Matrix3 {
        rx: crate::vec3::plus_s(a.rx, b.rx),
        ry: crate::vec3::plus_s(a.ry, b.ry),
        rz: crate::vec3::plus_s(a.rz, b.rz),
    }
}

/// Entry-wise negation.
pub open spec fn neg_mat3_s(a: Matrix3) -> Matrix3 {
    Matrix3 {
        rx: crate::vec3::neg_s(a.rx),
        ry: crate::vec3::neg_s(a.ry),
        rz: crate::vec3::neg_s(a.rz),
    }
}

pub open spec fn col3_x(m: Matrix3) -> Vec3 {
    Vec3 { x: m.rx.x, y: m.ry.x, z: m.rz.x }
}

pub open spec fn col3_y(m: Matrix3) -> Vec3 {
    Vec3 { x: m.rx.y, y: m.ry.y, z: m.rz.y }
}

pub open spec fn col3_z(m: Matrix3) -> Vec3 {
    Vec3 { x: m.rx.z, y: m.ry.z, z: m.rz.z }
}

/// Matrix product, one rounding per entry.
pub open spec fn mat3_mul_s(a: Matrix3, b: Matrix3) -> Matrix3 {
    Matrix3 {
        rx: Vec3 {
            x: dot_s(a.rx, col3_x(b)) as i64,
            y: dot_s(a.rx, col3_y(b)) as i64,
            z: dot_s(a.rx, col3_z(b)) as i64,
        },
        ry: Vec3 {
            x: dot_s(a.ry, col3_x(b)) as i64,
            y: dot_s(a.ry, col3_y(b)) as i64,
            z: dot_s(a.ry, col3_z(b)) as i64,
        },
        rz: Vec3 {
            x: dot_s(a.rz, col3_x(b)) as i64,
            y: dot_s(a.rz, col3_y(b)) as i64,
            z: dot_s(a.rz, col3_z(b)) as i64,
        },
    }
}

/// A matrix application is bounded by its inputs' bounds.
pub proof fn lemma_mul_vec_bound(m: Matrix3, v: Vec3, mb: int, vb: int)
    requires
        mbnd3(m, mb),
        vbnd(v, vb),
        mb >= 0,
        vb >= 0,
    ensures
        vbnd(mul_vec3_s(m, v), (3 * (mb * vb)) / (SCALE as int)),
{
    crate::vec3::lemma_dot_fits(m.rx, v, mb, vb);
    crate::vec3::lemma_dot_fits(m.ry, v, mb, vb);
    crate::vec3::lemma_dot_fits(m.rz, v, mb, vb);
}

/// Outer-product entries of `p`-bounded vectors are bounded by `p * p / SCALE`.
pub proof fn lemma_outer_fits(a: Vec3, b: Vec3, p: int)
    requires
        vbnd(a, p),
        vbnd(b, p),
        p >= 0,
    ensures
        bnd(fmul(a.x as int, b.x as int), p * p / SCALE as int),
        bnd(fmul(a.x as int, b.y as int), p * p / SCALE as int),
        bnd(fmul(a.x as int, b.z as int), p * p / SCALE as int),
        bnd(fmul(a.y as int, b.x as int), p * p / SCALE as int),
        bnd(fmul(a.y as int, b.y as int), p * p / SCALE as int),
        bnd(fmul(a.y as int, b.z as int), p * p / SCALE as int),
        bnd(fmul(a.z as int, b.x as int), p * p / SCALE as int),
        bnd(fmul(a.z as int, b.y as int), p * p / SCALE as int),
        bnd(fmul(a.z as int, b.z as int), p * p / SCALE as int),
{
    let m = p * p;
    crate::fx::lemma_mul_mag(a.x as int, b.x as int, p, p);
    crate::fx::lemma_mul_mag(a.x as int, b.y as int, p, p);
    crate::fx::lemma_mul_mag(a.x as int, b.z as int, p, p);
    crate::fx::lemma_mul_mag(a.y as int, b.x as int, p, p);
    crate::fx::lemma_mul_mag(a.y as int, b.y as int, p, p);
    crate::fx::lemma_mul_mag(a.y as int, b.z as int, p, p);
    crate::fx::lemma_mul_mag(a.z as int, b.x as int, p, p);
    crate::fx::lemma_mul_mag(a.z as int, b.y as int, p, p);
    crate::fx::lemma_mul_mag(a.z as int, b.z as int, p, p);
    crate::fx::lemma_qz_mag_le(a.x * b.x, m, SCALE as int);
    crate::fx::lemma_qz_mag_le(a.x * b.y, m, SCALE as int);
    crate::fx::lemma_qz_mag_le(a.x * b.z, m, SCALE as int);
    crate::fx::lemma_qz_mag_le(a.y * b.x, m, SCALE as int);
    crate::fx::lemma_qz_mag_le(a.y * b.y, m, SCALE as int);
    crate::fx::lemma_qz_mag_le(a.y * b.z, m, SCALE as int);
    crate::fx::lemma_qz_mag_le(a.z * b.x, m, SCALE as int);
    crate::fx::lemma_qz_mag_le(a.z * b.y, m, SCALE as int);
    crate::fx::lemma_qz_mag_le(a.z * b.z, m, SCALE as int);
}

} // verus!
