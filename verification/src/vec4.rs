//! 4D vectors over fixed-point scalars, used for homogeneous coordinates.

use vstd::prelude::*;
use crate::fx::{absi, bnd, fmul, qz, SCALE, lemma_mul_mag, lemma_qz_mag_le, wmul, divq, fmul_x};

verus! {

#[derive(Clone, Copy, PartialEq, Eq, Structural, Debug)]
pub struct Vec4 {
    pub x: i64,
    pub y: i64,
    pub z: i64,
    pub w: i64,
}

/// Every component of `v` has magnitude at most `b`.
pub open spec fn vbnd4(v: Vec4, b: int) -> bool {
    bnd(v.x as int, b) && bnd(v.y as int, b) && bnd(v.z as int, b) && bnd(v.w as int, b)
}

/// Unscaled scalar product, exact in the integers.
pub open spec fn dot4_raw(a: Vec4, b: Vec4) -> int {
    a.x * b.x + a.y * b.y + a.z * b.z + a.w * b.w
}

/// Fixed-point scalar product.
pub open spec fn dot4_s(a: Vec4, b: Vec4) -> int {
    qz(dot4_raw(a, b), SCALE as int)
}

/// Bound a raw 4D scalar product from bounds on the factors.
pub proof fn lemma_dot4_raw_bound(a: Vec4, b: Vec4, p: int, q: int)
    requires
        vbnd4(a, p),
        vbnd4(b, q),
        p >= 0,
        q >= 0,
    ensures
        absi(dot4_raw(a, b)) <= 4 * (p * q),
{
    lemma_mul_mag(a.x as int, b.x as int, p, q);
    lemma_mul_mag(a.y as int, b.y as int, p, q);
    lemma_mul_mag(a.z as int, b.z as int, p, q);
    lemma_mul_mag(a.w as int, b.w as int, p, q);
}

pub open spec fn neg4_s(a: Vec4) -> Vec4 {
    Vec4 { x: (-a.x) as i64, y: (-a.y) as i64, z: (-a.z) as i64, w: (-a.w) as i64 }
}

/// Scaling by a fixed-point scalar.
pub open spec fn scale4_s(v: Vec4, k: int) -> Vec4 {
    Vec4 {
        x: fmul(v.x as int, k) as i64,
        y: fmul(v.y as int, k) as i64,
        z: fmul(v.z as int, k) as i64,
        w: fmul(v.w as int, k) as i64,
    }
}

/// Component-wise fixed-point product.
pub open spec fn hadamard4_s(a: Vec4, b: Vec4) -> Vec4 {
    Vec4 {
        x: fmul(a.x as int, b.x as int) as i64,
        y: fmul(a.y as int, b.y as int) as i64,
        z: fmul(a.z as int, b.z as int) as i64,
        w: fmul(a.w as int, b.w as int) as i64,
    }
}

impl Vec4 {
    /// Constructor.
    pub fn new(x: i64, y: i64, z: i64, w: i64) -> (r: Vec4)
        ensures
            r == (Vec4 { x, y, z, w }),
    {
        Vec4 { x, y, z, w }
    }

    /// Component-wise sum.
    pub fn plus(self, rhs: Vec4) -> (r: Vec4)
        requires
            bnd(self.x + rhs.x, i64::MAX as int),
            bnd(self.y + rhs.y, i64::MAX as int),
            bnd(self.z + rhs.z, i64::MAX as int),
            bnd(self.w + rhs.w, i64::MAX as int),
        ensures
            r == crate::mat4::plus_v4(self, rhs),
    {
        Vec4 { x: self.x + rhs.x, y: self.y + rhs.y, z: self.z + rhs.z, w: self.w + rhs.w }
    }

    /// Component-wise difference.
    pub fn minus(self, rhs: Vec4) -> (r: Vec4)
        requires
            bnd(self.x - rhs.x, i64::MAX as int),
            bnd(self.y - rhs.y, i64::MAX as int),
            bnd(self.z - rhs.z, i64::MAX as int),
            bnd(self.w - rhs.w, i64::MAX as int),
        ensures
            r == crate::mat4::minus_v4(self, rhs),
    {
        Vec4 { x: self.x - rhs.x, y: self.y - rhs.y, z: self.z - rhs.z, w: self.w - rhs.w }
    }

    /// Component-wise negation.
    pub fn negated(self) -> (r: Vec4)
        requires
            self.x != i64::MIN,
            self.y != i64::MIN,
            self.z != i64::MIN,
            self.w != i64::MIN,
        ensures
            r == neg4_s(self),
    {
        Vec4 { x: -self.x, y: -self.y, z: -self.z, w: -self.w }
    }

    /// Scaling by a fixed-point scalar.
    pub fn scaled(self, k: i64) -> (r: Vec4)
        requires
            bnd(fmul(self.x as int, k as int), i64::MAX as int),
            bnd(fmul(self.y as int, k as int), i64::MAX as int),
            bnd(fmul(self.z as int, k as int), i64::MAX as int),
            bnd(fmul(self.w as int, k as int), i64::MAX as int),
        ensures
            r == scale4_s(self, k as int),
    {
        Vec4 {
            x: fmul_x(self.x, k),
            y: fmul_x(self.y, k),
            z: fmul_x(self.z, k),
            w: fmul_x(self.w, k),
        }
    }

    /// Component-wise fixed-point product. This is not a scalar product; it
    /// scales each component of `self` by the matching component of `rhs`.
    pub fn hadamard(self, rhs: Vec4) -> (r: Vec4)
        requires
            bnd(fmul(self.x as int, rhs.x as int), i64::MAX as int),
            bnd(fmul(self.y as int, rhs.y as int), i64::MAX as int),
            bnd(fmul(self.z as int, rhs.z as int), i64::MAX as int),
            bnd(fmul(self.w as int, rhs.w as int), i64::MAX as int),
        ensures
            r == hadamard4_s(self, rhs),
    {
        Vec4 {
            x: fmul_x(self.x, rhs.x),
            y: fmul_x(self.y, rhs.y),
            z: fmul_x(self.z, rhs.z),
            w: fmul_x(self.w, rhs.w),
        }
    }

    /// Fixed-point scalar product of two vectors.
    pub fn dot(&self, rhs: Vec4) -> (r: i64)
        requires
            vbnd4(*self, 0x1000_0000_0000_0000),
            vbnd4(rhs, 0x1000_0000_0000_0000),
            bnd(dot4_s(*self, rhs), i64::MAX as int),
        ensures
            r == dot4_s(*self, rhs),
    {
        proof {
            lemma_mul_mag(self.x as int, rhs.x as int, 0x1000_0000_0000_0000, 0x1000_0000_0000_0000);
            lemma_mul_mag(self.y as int, rhs.y as int, 0x1000_0000_0000_0000, 0x1000_0000_0000_0000);
            lemma_mul_mag(self.z as int, rhs.z as int, 0x1000_0000_0000_0000, 0x1000_0000_0000_0000);
            lemma_mul_mag(self.w as int, rhs.w as int, 0x1000_0000_0000_0000, 0x1000_0000_0000_0000);
        }
        let p = wmul(self.x, rhs.x) + wmul(self.y, rhs.y) + wmul(self.z, rhs.z) + wmul(
            self.w,
            rhs.w,
        );
        divq(p, SCALE as i128) as i64
    }
}

} // verus!
