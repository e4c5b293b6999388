//! 3D vectors over fixed-point scalars.

use vstd::prelude::*;
use crate::fx::{
    absi, bnd, qz, fmul, fdiv, sqrt_floor, clamp_s, SCALE,
    lemma_mul_mag, lemma_qz_mag, lemma_qz_mag_le, lemma_qz_exact, lemma_sq_lt,
    lemma_sqrt_floor_bounds, wmul, divq, fmul_x, fdiv_x, isqrt, clamp_x,
};

verus! {

/// Magnitude limit on the components accepted by `length` and `normalize`.
pub const VLIM: i64 = 0x1000_0000_0000_0000;

/// Magnitude limit on the components accepted by `dot` and `cross`.
pub const DOTB: i64 = 0x40_0000_0000;

#[derive(Clone, Copy, PartialEq, Eq, Structural, Debug)]
pub struct Vec3 {
    pub x: i64,
    pub y: i64,
    pub z: i64,
}

/// Every component of `v` has magnitude at most `b`.
pub open spec fn vbnd(v: Vec3, b: int) -> bool {
    bnd(v.x as int, b) && bnd(v.y as int, b) && bnd(v.z as int, b)
}

/// Unscaled scalar product: exact in the integers, at twice the fixed scale.
pub open spec fn dot_raw(a: Vec3, b: Vec3) -> int {
    a.x * b.x + a.y * b.y + a.z * b.z
}

/// Unscaled cross-product components, exact in the integers.
pub open spec fn crx(a: Vec3, b: Vec3) -> int {
    a.y * b.z - a.z * b.y
}

pub open spec fn cry(a: Vec3, b: Vec3) -> int {
    a.z * b.x - a.x * b.z
}

pub open spec fn crz(a: Vec3, b: Vec3) -> int {
    a.x * b.y - a.y * b.x
}

/// Unscaled squared length.
pub open spec fn norm2(v: Vec3) -> int {
    dot_raw(v, v)
}

pub open spec fn plus_s(a: Vec3, b: Vec3) -> Vec3 {
    Vec3 { x: (a.x + b.x) as i64, y: (a.y + b.y) as i64, z: (a.z + b.z) as i64 }
}

pub open spec fn minus_s(a: Vec3, b: Vec3) -> Vec3 {
    Vec3 { x: (a.x - b.x) as i64, y: (a.y - b.y) as i64, z: (a.z - b.z) as i64 }
}

pub open spec fn neg_s(a: Vec3) -> Vec3 {
    Vec3 { x: (-a.x) as i64, y: (-a.y) as i64, z: (-a.z) as i64 }
}

/// Scaling by a fixed-point scalar.
pub open spec fn scale_s(v: Vec3, k: int) -> Vec3 {
    Vec3 {
        x: fmul(v.x as int, k) as i64,
        y: fmul(v.y as int, k) as i64,
        z: fmul(v.z as int, k) as i64,
    }
}

/// Component-wise fixed-point product.
pub open spec fn hadamard_s(a: Vec3, b: Vec3) -> Vec3 {
    Vec3 {
        x: fmul(a.x as int, b.x as int) as i64,
        y: fmul(a.y as int, b.y as int) as i64,
        z: fmul(a.z as int, b.z as int) as i64,
    }
}

/// Fixed-point scalar product.
pub open spec fn dot_s(a: Vec3, b: Vec3) -> int {
    qz(dot_raw(a, b), SCALE as int)
}

/// Fixed-point cross product.
pub open spec fn cross_s(a: Vec3, b: Vec3) -> Vec3 {
    Vec3 {
        x: qz(crx(a, b), SCALE as int) as i64,
        y: qz(cry(a, b), SCALE as int) as i64,
        z: qz(crz(a, b), SCALE as int) as i64,
    }
}

/// Fixed-point length: the floor of the real length at the fixed scale.
pub open spec fn length_s(v: Vec3) -> int {
    sqrt_floor(norm2(v) as nat) as int
}

/// Fixed-point normalization: each component divided by the length.
pub open spec fn normalize_s(v: Vec3) -> Vec3 {
    Vec3 {
        x: qz(v.x * (SCALE as int), length_s(v)) as i64,
        y: qz(v.y * (SCALE as int), length_s(v)) as i64,
        z: qz(v.z * (SCALE as int), length_s(v)) as i64,
    }
}

pub open spec fn clamp_vs(v: Vec3, lo: int, hi: int) -> Vec3 {
    Vec3 {
        x: clamp_s(v.x as int, lo, hi) as i64,
        y: clamp_s(v.y as int, lo, hi) as i64,
        z: clamp_s(v.z as int, lo, hi) as i64,
    }
}

/// A squared length is never negative.
pub proof fn lemma_norm2_nonneg(v: Vec3)
    by (nonlinear_arith)
    ensures
        norm2(v) >= 0,
        norm2(v) >= v.x * v.x,
        norm2(v) >= v.y * v.y,
        norm2(v) >= v.z * v.z,
{
}

/// Bound a raw scalar product from bounds on the factors.
pub proof fn lemma_dot_raw_bound(a: Vec3, b: Vec3, p: int, q: int)
    requires
        vbnd(a, p),
        vbnd(b, q),
        p >= 0,
        q >= 0,
    ensures
        absi(dot_raw(a, b)) <= 3 * (p * q),
{
    lemma_mul_mag(a.x as int, b.x as int, p, q);
    lemma_mul_mag(a.y as int, b.y as int, p, q);
    lemma_mul_mag(a.z as int, b.z as int, p, q);
}

/// Bound the raw cross-product components from bounds on the factors.
pub proof fn lemma_cross_raw_bound(a: Vec3, b: Vec3, p: int, q: int)
    requires
        vbnd(a, p),
        vbnd(b, q),
        p >= 0,
        q >= 0,
    ensures
        absi(crx(a, b)) <= 2 * (p * q),
        absi(cry(a, b)) <= 2 * (p * q),
        absi(crz(a, b)) <= 2 * (p * q),
{
    lemma_mul_mag(a.y as int, b.z as int, p, q);
    lemma_mul_mag(a.z as int, b.y as int, p, q);
    lemma_mul_mag(a.z as int, b.x as int, p, q);
    lemma_mul_mag(a.x as int, b.z as int, p, q);
    lemma_mul_mag(a.x as int, b.y as int, p, q);
    lemma_mul_mag(a.y as int, b.x as int, p, q);
}

impl Vec3 {
    /// Constructor.
    pub fn new(x: i64, y: i64, z: i64) -> (r: Vec3)
        ensures
            r == (Vec3 { x, y, z }),
    {
        Vec3 { x, y, z }
    }

    /// Constructor with every component equal.
    pub fn all(a: i64) -> (r: Vec3)
        ensures
            r == (Vec3 { x: a, y: a, z: a }),
    {
        Vec3 { x: a, y: a, z: a }
    }

    /// The zero vector.
    pub fn null() -> (r: Vec3)
        ensures
            r == (Vec3 { x: 0, y: 0, z: 0 }),
    {
        Vec3 { x: 0, y: 0, z: 0 }
    }

    /// Unit vector along the first world axis.
    pub fn x_axis() -> (r: Vec3)
        ensures
            r == (Vec3 { x: SCALE, y: 0, z: 0 }),
    {
        Vec3 { x: SCALE, y: 0, z: 0 }
    }

    /// Unit vector along the second world axis.
    pub fn y_axis() -> (r: Vec3)
        ensures
            r == (Vec3 { x: 0, y: SCALE, z: 0 }),
    {
        Vec3 { x: 0, y: SCALE, z: 0 }
    }

    /// Unit vector along the third world axis.
    pub fn z_axis() -> (r: Vec3)
        ensures
            r == (Vec3 { x: 0, y: 0, z: SCALE }),
    {
        Vec3 { x: 0, y: 0, z: SCALE }
    }

    /// Component-wise sum.
    pub fn plus(self, rhs: Vec3) -> (r: Vec3)
        requires
            bnd(self.x + rhs.x, i64::MAX as int),
            bnd(self.y + rhs.y, i64::MAX as int),
            bnd(self.z + rhs.z, i64::MAX as int),
        ensures
            r == plus_s(self, rhs),
    {
        Vec3 { x: self.x + rhs.x, y: self.y + rhs.y, z: self.z + rhs.z }
    }

    /// Component-wise difference.
    pub fn minus(self, rhs: Vec3) -> (r: Vec3)
        requires
            bnd(self.x - rhs.x, i64::MAX as int),
            bnd(self.y - rhs.y, i64::MAX as int),
            bnd(self.z - rhs.z, i64::MAX as int),
        ensures
            r == minus_s(self, rhs),
    {
        Vec3 { x: self.x - rhs.x, y: self.y - rhs.y, z: self.z - rhs.z }
    }

    /// Component-wise negation.
    pub fn negated(self) -> (r: Vec3)
        requires
            self.x != i64::MIN,
            self.y != i64::MIN,
            self.z != i64::MIN,
        ensures
            r == neg_s(self),
    {
        Vec3 { x: -self.x, y: -self.y, z: -self.z }
    }

    /// Scaling by a fixed-point scalar.
    pub fn scaled(self, k: i64) -> (r: Vec3)
        requires
            bnd(fmul(self.x as int, k as int), i64::MAX as int),
            bnd(fmul(self.y as int, k as int), i64::MAX as int),
            bnd(fmul(self.z as int, k as int), i64::MAX as int),
        ensures
            r == scale_s(self, k as int),
    {
        Vec3 { x: fmul_x(self.x, k), y: fmul_x(self.y, k), z: fmul_x(self.z, k) }
    }

    /// Division by a fixed-point scalar.
    pub fn divided(self, k: i64) -> (r: Vec3)
        requires
            k != 0,
            bnd(fdiv(self.x as int, k as int), i64::MAX as int),
            bnd(fdiv(self.y as int, k as int), i64::MAX as int),
            bnd(fdiv(self.z as int, k as int), i64::MAX as int),
        ensures
            r.x == fdiv(self.x as int, k as int),
            r.y == fdiv(self.y as int, k as int),
            r.z == fdiv(self.z as int, k as int),
    {
        Vec3 { x: fdiv_x(self.x, k), y: fdiv_x(self.y, k), z: fdiv_x(self.z, k) }
    }

    /// Component-wise fixed-point product. This is neither the scalar nor the
    /// cross product; it scales each component of `self` by the matching
    /// component of `rhs`.
    pub fn hadamard(self, rhs: Vec3) -> (r: Vec3)
        requires
            bnd(fmul(self.x as int, rhs.x as int), i64::MAX as int),
            bnd(fmul(self.y as int, rhs.y as int), i64::MAX as int),
            bnd(fmul(self.z as int, rhs.z as int), i64::MAX as int),
        ensures
            r == hadamard_s(self, rhs),
    {
        Vec3 { x: fmul_x(self.x, rhs.x), y: fmul_x(self.y, rhs.y), z: fmul_x(self.z, rhs.z) }
    }

    /// Fixed-point scalar product of two vectors.
    pub fn dot(&self, rhs: Vec3) -> (r: i64)
        requires
            vbnd(*self, VLIM as int),
            vbnd(rhs, VLIM as int),
            bnd(dot_s(*self, rhs), i64::MAX as int),
        ensures
            r == dot_s(*self, rhs),
    {
        proof {
            lemma_mul_mag(self.x as int, rhs.x as int, VLIM as int, VLIM as int);
            lemma_mul_mag(self.y as int, rhs.y as int, VLIM as int, VLIM as int);
            lemma_mul_mag(self.z as int, rhs.z as int, VLIM as int, VLIM as int);
        }
        let p = wmul(self.x, rhs.x) + wmul(self.y, rhs.y) + wmul(self.z, rhs.z);
        divq(p, SCALE as i128) as i64
    }

    /// Fixed-point cross product of two vectors.
    pub fn cross(&self, rhs: Vec3) -> (r: Vec3)
        requires
            vbnd(*self, VLIM as int),
            vbnd(rhs, VLIM as int),
            bnd(qz(crx(*self, rhs), SCALE as int), i64::MAX as int),
            bnd(qz(cry(*self, rhs), SCALE as int), i64::MAX as int),
            bnd(qz(crz(*self, rhs), SCALE as int), i64::MAX as int),
        ensures
            r == cross_s(*self, rhs),
    {
        proof {
            lemma_mul_mag(self.y as int, rhs.z as int, VLIM as int, VLIM as int);
            lemma_mul_mag(self.z as int, rhs.y as int, VLIM as int, VLIM as int);
            lemma_mul_mag(self.z as int, rhs.x as int, VLIM as int, VLIM as int);
            lemma_mul_mag(self.x as int, rhs.z as int, VLIM as int, VLIM as int);
            lemma_mul_mag(self.x as int, rhs.y as int, VLIM as int, VLIM as int);
            lemma_mul_mag(self.y as int, rhs.x as int, VLIM as int, VLIM as int);
        }
        let cx = wmul(self.y, rhs.z) - wmul(self.z, rhs.y);
        let cy = wmul(self.z, rhs.x) - wmul(self.x, rhs.z);
        let cz = wmul(self.x, rhs.y) - wmul(self.y, rhs.x);
        Vec3 {
            x: divq(cx, SCALE as i128) as i64,
            y: divq(cy, SCALE as i128) as i64,
            z: divq(cz, SCALE as i128) as i64,
        }
    }

    /// Fixed-point squared length.
    pub fn length_squared(&self) -> (r: i64)
        requires
            vbnd(*self, DOTB as int),
        ensures
            r == dot_s(*self, *self),
            r >= 0,
    {
        proof {
            lemma_norm2_nonneg(*self);
            lemma_dot_fits(*self, *self, DOTB as int, DOTB as int);
        }
        self.dot(*self)
    }

    /// Fixed-point length: the floor of the real length at the fixed scale.
    pub fn length(&self) -> (r: i64)
        requires
            vbnd(*self, VLIM as int),
        ensures
            r == length_s(*self),
            r >= 0,
            r * r <= norm2(*self),
            norm2(*self) < (r + 1) * (r + 1),
    {
        proof {
            lemma_norm2_nonneg(*self);
            lemma_mul_mag(self.x as int, self.x as int, VLIM as int, VLIM as int);
            lemma_mul_mag(self.y as int, self.y as int, VLIM as int, VLIM as int);
            lemma_mul_mag(self.z as int, self.z as int, VLIM as int, VLIM as int);
        }
        let n2i: i128 = wmul(self.x, self.x) + wmul(self.y, self.y) + wmul(self.z, self.z);
        proof {
            assert(n2i == norm2(*self));
            assert(0 <= n2i <= 3 * ((VLIM as int) * (VLIM as int)));
        }
        let n2: u128 = n2i as u128;
        let r = isqrt(n2);
        proof {
            assert(r <= 0x2000_0000_0000_0000u128) by (nonlinear_arith)
                requires
                    r * r <= n2,
                    n2 <= 3 * (0x1000_0000_0000_0000 * 0x1000_0000_0000_0000),
            ;
        }
        r as i64
    }

    /// Copy of the vector scaled to unit length (up to rounding): for an
    /// input at least one whole unit long the result's length lands within
    /// four fixed-point steps of one (see `near_unit`).
    pub fn normalize(self) -> (r: Vec3)
        requires
            vbnd(self, VLIM as int),
            length_s(self) > 0,
        ensures
            r == normalize_s(self),
            vbnd(r, SCALE as int),
            norm2(self) >= (SCALE as int) * (SCALE as int) ==> near_unit(r),
    {
        proof {
            if norm2(self) >= (SCALE as int) * (SCALE as int) {
                lemma_normalize_near_unit(self);
                reveal(near_unit);
            }
        }
        let len = self.length();
        proof {
            lemma_norm2_nonneg(self);
            lemma_component_le_length(self);
            lemma_qz_mag_le(self.x * (SCALE as int), (len as int) * (SCALE as int), len as int);
            lemma_qz_mag_le(self.y * (SCALE as int), (len as int) * (SCALE as int), len as int);
            lemma_qz_mag_le(self.z * (SCALE as int), (len as int) * (SCALE as int), len as int);
            assert(((len as int) * (SCALE as int)) / (len as int) == SCALE as int) by (nonlinear_arith)
                requires
                    len >= 1,
            ;
            lemma_mul_mag(self.x as int, SCALE as int, len as int, SCALE as int);
            lemma_mul_mag(self.y as int, SCALE as int, len as int, SCALE as int);
            lemma_mul_mag(self.z as int, SCALE as int, len as int, SCALE as int);
        }
        Vec3 {
            x: divq(wmul(self.x, SCALE), len as i128) as i64,
            y: divq(wmul(self.y, SCALE), len as i128) as i64,
            z: divq(wmul(self.z, SCALE), len as i128) as i64,
        }
    }

    /// Color helper: each component divided by 255, mapping `[0, 255]` whole
    /// units into `[0, 1]`.
    pub fn rgb_normal(&self) -> (r: Vec3)
        requires
            vbnd(*self, 0x40_0000_0000),
        ensures
            r.x == qz(self.x as int, 255),
            r.y == qz(self.y as int, 255),
            r.z == qz(self.z as int, 255),
    {
        proof {
            lemma_qz_mag(self.x as int, 255);
            lemma_qz_mag(self.y as int, 255);
            lemma_qz_mag(self.z as int, 255);
        }
        Vec3 {
            x: divq(self.x as i128, 255) as i64,
            y: divq(self.y as i128, 255) as i64,
            z: divq(self.z as i128, 255) as i64,
        }
    }

    /// Color helper: each component multiplied by 255, mapping `[0, 1]` into
    /// `[0, 255]` whole units.
    pub fn rgb_255(&self) -> (r: Vec3)
        requires
            vbnd(*self, 0x40_0000_0000),
        ensures
            r.x == 255 * self.x,
            r.y == 255 * self.y,
            r.z == 255 * self.z,
    {
        Vec3 { x: 255 * self.x, y: 255 * self.y, z: 255 * self.z }
    }

    /// Copy of the vector with each component clamped into `[lo, hi]`.
    pub fn clamp(&self, lo: i64, hi: i64) -> (r: Vec3)
        requires
            lo <= hi,
        ensures
            r == clamp_vs(*self, lo as int, hi as int),
    {
        Vec3 {
            x: clamp_x(self.x, lo, hi),
            y: clamp_x(self.y, lo, hi),
            z: clamp_x(self.z, lo, hi),
        }
    }
}

/// A fixed-point scalar product of bounded vectors is bounded.
pub proof fn lemma_dot_fits(a: Vec3, b: Vec3, p: int, q: int)
    requires
        vbnd(a, p),
        vbnd(b, q),
        p >= 0,
        q >= 0,
    ensures
        absi(dot_s(a, b)) <= (3 * (p * q)) / (SCALE as int),
{
    lemma_dot_raw_bound(a, b, p, q);
    lemma_qz_mag_le(dot_raw(a, b), 3 * (p * q), SCALE as int);
}

/// A fixed-point cross product of bounded vectors is bounded.
pub proof fn lemma_cross_fits(a: Vec3, b: Vec3, p: int, q: int)
    requires
        vbnd(a, p),
        vbnd(b, q),
        p >= 0,
        q >= 0,
    ensures
        absi(qz(crx(a, b), SCALE as int)) <= (2 * (p * q)) / (SCALE as int),
        absi(qz(cry(a, b), SCALE as int)) <= (2 * (p * q)) / (SCALE as int),
        absi(qz(crz(a, b), SCALE as int)) <= (2 * (p * q)) / (SCALE as int),
        vbnd(cross_s(a, b), (2 * (p * q)) / (SCALE as int)),
{
    lemma_cross_raw_bound(a, b, p, q);
    lemma_qz_mag_le(crx(a, b), 2 * (p * q), SCALE as int);
    lemma_qz_mag_le(cry(a, b), 2 * (p * q), SCALE as int);
    lemma_qz_mag_le(crz(a, b), 2 * (p * q), SCALE as int);
}

/// A surface normal oriented against a ray direction: flipped when it points
/// with the ray.
pub open spec fn orient_s(n: Vec3, d: Vec3) -> Vec3 {
    if dot_raw(n, d) > 0 {
        neg_s(n)
    } else {
        n
    }
}

/// Negating one factor negates a raw scalar product.
pub proof fn lemma_dot_raw_neg(n: Vec3, d: Vec3)
    by (nonlinear_arith)
    requires
        vbnd(n, VLIM as int),
    ensures
        dot_raw(neg_s(n), d) == -dot_raw(n, d),
{
}

impl Vec3 {
    /// Exact widened scalar product, at twice the fixed scale.
    pub fn dot_wide(&self, rhs: &Vec3) -> (r: i128)
        requires
            vbnd(*self, VLIM as int),
            vbnd(*rhs, VLIM as int),
        ensures
            r == dot_raw(*self, *rhs),
    {
        proof {
            lemma_mul_mag(self.x as int, rhs.x as int, VLIM as int, VLIM as int);
            lemma_mul_mag(self.y as int, rhs.y as int, VLIM as int, VLIM as int);
            lemma_mul_mag(self.z as int, rhs.z as int, VLIM as int, VLIM as int);
        }
        wmul(self.x, rhs.x) + wmul(self.y, rhs.y) + wmul(self.z, rhs.z)
    }
}

/// Flip a unit normal against the ray direction, so that it faces the
/// incoming ray.
pub fn orient_against(n: Vec3, d: Vec3) -> (r: Vec3)
    requires
        vbnd(n, SCALE as int),
        vbnd(d, crate::fx::RAYB as int),
    ensures
        r == orient_s(n, d),
        dot_raw(r, d) <= 0,
        dot_raw(n, d) != 0 ==> dot_raw(r, d) < 0,
        vbnd(r, SCALE as int),
{
    let t = n.dot_wide(&d);
    proof {
        lemma_dot_raw_neg(n, d);
    }
    if t > 0 {
        n.negated()
    } else {
        n
    }
}

/// Normalization is idempotent: a vector of exactly unit length is its own
/// normalization, so normalizing twice equals normalizing once whenever the
/// first normalization lands exactly on the unit sphere. (Rounding can leave
/// a normalized vector one step short of unit length; those inputs are
/// excluded by the hypothesis.)
pub proof fn lemma_normalize_idempotent(v: Vec3)
    requires
        length_s(normalize_s(v)) == SCALE as int,
    ensures
        normalize_s(normalize_s(v)) == normalize_s(v),
{
    lemma_unit_normalize_fixed(normalize_s(v));
}

/// A vector of exactly unit length is its own normalization.
pub proof fn lemma_unit_normalize_fixed(v: Vec3)
    requires
        length_s(v) == SCALE as int,
    ensures
        normalize_s(v) == v,
{
    lemma_qz_exact(v.x as int, SCALE as int);
    lemma_qz_exact(v.y as int, SCALE as int);
    lemma_qz_exact(v.z as int, SCALE as int);
}

/// The cross product is orthogonal to both factors: in exact integer
/// arithmetic, `(a x b) . a = 0` and `(a x b) . b = 0` hold of the raw
/// (unrescaled) components.
pub proof fn lemma_cross_orthogonal(a: Vec3, b: Vec3)
    ensures
        crx(a, b) * a.x + cry(a, b) * a.y + crz(a, b) * a.z == 0,
        crx(a, b) * b.x + cry(a, b) * b.y + crz(a, b) * b.z == 0,
{
    assert(crx(a, b) * a.x + cry(a, b) * a.y + crz(a, b) * a.z == 0) by (nonlinear_arith)
        requires
            crx(a, b) == a.y * b.z - a.z * b.y,
            cry(a, b) == a.z * b.x - a.x * b.z,
            crz(a, b) == a.x * b.y - a.y * b.x,
    ;
    assert(crx(a, b) * b.x + cry(a, b) * b.y + crz(a, b) * b.z == 0) by (nonlinear_arith)
        requires
            crx(a, b) == a.y * b.z - a.z * b.y,
            cry(a, b) == a.z * b.x - a.x * b.z,
            crz(a, b) == a.x * b.y - a.y * b.x,
    ;
}

/// A vector whose length lies within four fixed-point steps of one whole
/// unit. Kept opaque so that callers of `normalize` only unfold it where
/// they need the bound (`reveal(near_unit)`).
#[verifier::opaque]
pub open spec fn near_unit(v: Vec3) -> bool {
    SCALE - 4 <= length_s(v) <= SCALE
}

/// For a vector at least one whole unit long, normalization lands within a
/// few fixed-point steps of the unit sphere: the resulting length is between
/// `SCALE - 4` and `SCALE`.
#[verifier::rlimit(100)]
pub proof fn lemma_normalize_near_unit(v: Vec3)
    requires
        norm2(v) >= (SCALE as int) * (SCALE as int),
    ensures
        SCALE - 4 <= length_s(normalize_s(v)) <= SCALE,
{
    let s = SCALE as int;
    let len = length_s(v);
    lemma_norm2_nonneg(v);
    lemma_sqrt_floor_bounds(norm2(v) as nat);
    assert(len >= s) by {
        lemma_sq_lt(s - 1, len + 1);
    }
    lemma_normalize_box(v);
    lemma_component_le_length(v);
    let n = normalize_s(v);
    let nx = n.x as int;
    let ny = n.y as int;
    let nz = n.z as int;
    lemma_mul_mag(v.x as int, s, len, s);
    lemma_mul_mag(v.y as int, s, len, s);
    lemma_mul_mag(v.z as int, s, len, s);
    lemma_qz_mag_le(v.x * s, len * s, len);
    lemma_qz_mag_le(v.y * s, len * s, len);
    lemma_qz_mag_le(v.z * s, len * s, len);
    assert((len * s) / len == s) by (nonlinear_arith)
        requires
            len >= 1,
            s >= 0,
    ;
    assert(nx == qz(v.x * s, len) && ny == qz(v.y * s, len) && nz == qz(v.z * s, len));
    crate::fx::lemma_qz_times_den(v.x * s, len);
    crate::fx::lemma_qz_times_den(v.y * s, len);
    crate::fx::lemma_qz_times_den(v.z * s, len);
    assert(absi(v.x * s) == absi(v.x as int) * s && absi(v.y * s) == absi(v.y as int) * s && absi(
        v.z * s,
    ) == absi(v.z as int) * s) by (nonlinear_arith)
        requires
            s > 0,
    ;
    // squares of the per-component inequalities
    assert((nx * nx) * (len * len) <= ((v.x * v.x) * s) * s) by (nonlinear_arith)
        requires
            absi(nx) * len <= absi(v.x as int) * s,
            len > 0,
            s > 0,
    ;
    assert((ny * ny) * (len * len) <= ((v.y * v.y) * s) * s) by (nonlinear_arith)
        requires
            absi(ny) * len <= absi(v.y as int) * s,
            len > 0,
            s > 0,
    ;
    assert((nz * nz) * (len * len) <= ((v.z * v.z) * s) * s) by (nonlinear_arith)
        requires
            absi(nz) * len <= absi(v.z as int) * s,
            len > 0,
            s > 0,
    ;
    assert(norm2(n) * (len * len) == (nx * nx) * (len * len) + (ny * ny) * (len * len) + (nz * nz)
        * (len * len)) by (nonlinear_arith)
        requires
            norm2(n) == nx * nx + ny * ny + nz * nz,
    ;
    assert((norm2(v) * s) * s == ((v.x * v.x) * s) * s + ((v.y * v.y) * s) * s + ((v.z * v.z) * s)
        * s) by (nonlinear_arith)
        requires
            norm2(v) == v.x * v.x + v.y * v.y + v.z * v.z,
    ;
    assert((norm2(v) * s) * s < ((s + 1) * (s + 1)) * (len * len)) by (nonlinear_arith)
        requires
            norm2(v) < (len + 1) * (len + 1),
            s <= len,
            s > 0,
    ;
    assert(norm2(n) < (s + 1) * (s + 1)) by (nonlinear_arith)
        requires
            norm2(n) * (len * len) < ((s + 1) * (s + 1)) * (len * len),
            len > 0,
    ;
    lemma_sqrt_floor_bounds(norm2(n) as nat);
    lemma_norm2_nonneg(n);
    assert(length_s(n) * length_s(n) <= norm2(n)) by (nonlinear_arith)
        requires
            sqrt_floor(norm2(n) as nat) * sqrt_floor(norm2(n) as nat) <= norm2(n) as nat,
            norm2(n) >= 0,
            length_s(n) == sqrt_floor(norm2(n) as nat) as int,
    ;
    assert(length_s(n) <= s) by {
        if length_s(n) > s {
            assert((s + 1) * (s + 1) <= length_s(n) * length_s(n)) by (nonlinear_arith)
                requires
                    s + 1 <= length_s(n),
                    s >= 0,
            ;
            assert(false);
        }
    }
    // lower bound: squares of the strict per-component inequalities
    assert(((v.x * v.x) * s) * s < ((absi(nx) + 1) * (absi(nx) + 1)) * (len * len))
        by (nonlinear_arith)
        requires
            absi(v.x as int) * s < (absi(nx) + 1) * len,
            len > 0,
            s > 0,
    ;
    assert(((v.y * v.y) * s) * s < ((absi(ny) + 1) * (absi(ny) + 1)) * (len * len))
        by (nonlinear_arith)
        requires
            absi(v.y as int) * s < (absi(ny) + 1) * len,
            len > 0,
            s > 0,
    ;
    assert(((v.z * v.z) * s) * s < ((absi(nz) + 1) * (absi(nz) + 1)) * (len * len))
        by (nonlinear_arith)
        requires
            absi(v.z as int) * s < (absi(nz) + 1) * len,
            len > 0,
            s > 0,
    ;
    assert(((absi(nx) + 1) * (absi(nx) + 1)) + ((absi(ny) + 1) * (absi(ny) + 1)) + ((absi(nz) + 1)
        * (absi(nz) + 1)) <= norm2(n) + 6 * s + 3) by (nonlinear_arith)
        requires
            norm2(n) == nx * nx + ny * ny + nz * nz,
            absi(nx) <= s,
            absi(ny) <= s,
            absi(nz) <= s,
    ;
    assert((norm2(v) * s) * s < (norm2(n) + 6 * s + 3) * (len * len)) by (nonlinear_arith)
        requires
            (norm2(v) * s) * s == ((v.x * v.x) * s) * s + ((v.y * v.y) * s) * s + ((v.z * v.z) * s)
                * s,
            ((v.x * v.x) * s) * s < ((absi(nx) + 1) * (absi(nx) + 1)) * (len * len),
            ((v.y * v.y) * s) * s < ((absi(ny) + 1) * (absi(ny) + 1)) * (len * len),
            ((v.z * v.z) * s) * s < ((absi(nz) + 1) * (absi(nz) + 1)) * (len * len),
            ((absi(nx) + 1) * (absi(nx) + 1)) + ((absi(ny) + 1) * (absi(ny) + 1)) + ((absi(nz) + 1)
                * (absi(nz) + 1)) <= norm2(n) + 6 * s + 3,
            len * len >= 0,
    ;
    assert((s * s) * (len * len) <= (norm2(v) * s) * s) by (nonlinear_arith)
        requires
            len * len <= norm2(v),
            s > 0,
    ;
    assert(s * s < norm2(n) + 6 * s + 3) by (nonlinear_arith)
        requires
            (s * s) * (len * len) < (norm2(n) + 6 * s + 3) * (len * len),
            len > 0,
    ;
    assert(norm2(n) > (s - 4) * (s - 4)) by (nonlinear_arith)
        requires
            norm2(n) > s * s - 6 * s - 3,
            s == 65536,
    ;
    assert(length_s(n) >= s - 4) by {
        lemma_sq_lt(s - 4, length_s(n) + 1);
    }
}

/// Renormalizing one component of a nearly unit vector moves it by at most
/// six fixed-point steps.
proof fn lemma_renormalize_step(a: i64, l: int)
    requires
        absi(a as int) <= SCALE as int,
        SCALE - 4 <= l <= SCALE as int,
    ensures
        absi(qz(a * (SCALE as int), l) - a) <= 6,
{
    let s = SCALE as int;
    let m = qz(a * s, l);
    crate::fx::lemma_qz_times_den(a * s, l);
    assert(absi(a * s - m * l) < l);
    assert(absi(a * s - a * l) <= 4 * s) by (nonlinear_arith)
        requires
            absi(a as int) <= s,
            s - 4 <= l <= s,
    ;
    assert(absi(m * l - a * l) <= absi(m * l - a * s) + absi(a * s - a * l));
    assert(absi(m * l - a * s) == absi(a * s - m * l));
    assert(absi((m - a) * l) == absi(m * l - a * l)) by (nonlinear_arith);
    if absi(m - a) >= 7 {
        assert(absi((m - a) * l) >= 7 * l) by (nonlinear_arith)
            requires
                absi(m - a) >= 7,
                l > 0,
        ;
        assert(false);
    }
}

/// Normalization is idempotent up to rounding: for a vector at least one
/// whole unit long, normalizing its normalization moves every component by
/// at most six fixed-point steps (about one part in ten thousand).
pub proof fn lemma_normalize_idempotent_eps(v: Vec3)
    requires
        norm2(v) >= (SCALE as int) * (SCALE as int),
    ensures
        absi(normalize_s(normalize_s(v)).x - normalize_s(v).x) <= 6,
        absi(normalize_s(normalize_s(v)).y - normalize_s(v).y) <= 6,
        absi(normalize_s(normalize_s(v)).z - normalize_s(v).z) <= 6,
{
    let s = SCALE as int;
    let n = normalize_s(v);
    lemma_norm2_nonneg(v);
    crate::fx::lemma_sqrt_floor_pos(norm2(v) as nat);
    lemma_normalize_near_unit(v);
    lemma_normalize_box(v);
    let l = length_s(n);
    lemma_qz_mag(n.x * s, l);
    lemma_qz_mag(n.y * s, l);
    lemma_qz_mag(n.z * s, l);
    assert(absi(n.x * s) <= s * s && absi(n.y * s) <= s * s && absi(n.z * s) <= s * s)
        by (nonlinear_arith)
        requires
            absi(n.x as int) <= s,
            absi(n.y as int) <= s,
            absi(n.z as int) <= s,
            s > 0,
    ;
    assert(normalize_s(n).x == qz(n.x * s, l) && normalize_s(n).y == qz(n.y * s, l)
        && normalize_s(n).z == qz(n.z * s, l));
    lemma_renormalize_step(n.x, l);
    lemma_renormalize_step(n.y, l);
    lemma_renormalize_step(n.z, l);
}

/// A normalized vector has components inside `[-1, 1]`.
pub proof fn lemma_normalize_box(v: Vec3)
    requires
        length_s(v) > 0,
    ensures
        vbnd(normalize_s(v), SCALE as int),
{
    let len = length_s(v);
    lemma_component_le_length(v);
    lemma_qz_mag_le(v.x * (SCALE as int), len * (SCALE as int), len);
    lemma_qz_mag_le(v.y * (SCALE as int), len * (SCALE as int), len);
    lemma_qz_mag_le(v.z * (SCALE as int), len * (SCALE as int), len);
    assert((len * (SCALE as int)) / len == SCALE as int) by (nonlinear_arith)
        requires
            len >= 1,
    ;
}

/// No component of a vector is longer than the whole vector.
pub proof fn lemma_component_le_length(v: Vec3)
    ensures
        absi(v.x as int) <= length_s(v),
        absi(v.y as int) <= length_s(v),
        absi(v.z as int) <= length_s(v),
{
    lemma_norm2_nonneg(v);
    lemma_sqrt_floor_bounds(norm2(v) as nat);
    let len = length_s(v);
    assert(absi(v.x as int) * absi(v.x as int) == v.x * v.x) by (nonlinear_arith);
    assert(absi(v.y as int) * absi(v.y as int) == v.y * v.y) by (nonlinear_arith);
    assert(absi(v.z as int) * absi(v.z as int) == v.z * v.z) by (nonlinear_arith);
    lemma_sq_lt(absi(v.x as int), len + 1);
    lemma_sq_lt(absi(v.y as int), len + 1);
    lemma_sq_lt(absi(v.z as int), len + 1);
}

} // verus!
