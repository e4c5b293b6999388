//! The shared quadric solver: `a t^2 + b t + c = 0` over exact integer
//! coefficients.
//!
//! Coefficients arrive as exact `i128` products of fixed-point inputs. They
//! are first shrunk — all three divided by the same power of two until they
//! fit the discriminant computation — then the discriminant decides, and the
//! two roots come back in fixed-point, sorted, each clamped just outside the
//! accepted parameter range so that acceptance tests are unaffected.

use vstd::prelude::*;
use crate::fx::{absi, bnd, clamp_s, qz, sqrt_floor, SCALE, TMAX, lemma_qz_mag, lemma_sqrt_floor_bounds, lemma_sqrt_floor_unique, divq, isqrt, wmul2};

verus! {

/// Magnitude under which shrunk coefficients are safe to square.
pub const QLIM: i128 = 0x80_0000_0000_0000;

/// Magnitude limit on the coefficients the solver accepts.
pub const QIN: i128 = 0x4000_0000_0000_0000_0000_0000_0000_0000;

/// One shrinking step: every coefficient halved, rounded toward zero.
pub open spec fn half3(a: int, b: int, c: int) -> (int, int, int) {
    (qz(a, 2), qz(b, 2), qz(c, 2))
}

/// Coefficients halved together until all three fit under `QLIM`.
pub open spec fn shrink3_s(a: int, b: int, c: int) -> (int, int, int)
    decreases absi(a) + absi(b) + absi(c),
    via shrink3_s_dec
{
    if absi(a) <= QLIM as int && absi(b) <= QLIM as int && absi(c) <= QLIM as int {
        (a, b, c)
    } else {
        let (a2, b2, c2) = half3(a, b, c);
        shrink3_s(a2, b2, c2)
    }
}

/// Halving rounds the magnitude down to its exact half, rounded down.
proof fn lemma_qz_half(x: int)
    ensures
        absi(qz(x, 2)) == absi(x) / 2,
        absi(x) >= 1 ==> absi(qz(x, 2)) < absi(x),
{
    if absi(x) >= 1 {
        assert(absi(x) / 2 < absi(x)) by {
            vstd::arithmetic::div_mod::lemma_div_is_strictly_smaller(absi(x), 2);
        }
    } else {
        assert(absi(x) / 2 == 0) by {
            vstd::arithmetic::div_mod::lemma_basic_div(absi(x), 2);
        }
    }
}

#[via_fn]
proof fn shrink3_s_dec(a: int, b: int, c: int) {
    lemma_qz_half(a);
    lemma_qz_half(b);
    lemma_qz_half(c);
}

/// The shrunk coefficients fit under `QLIM`.
pub proof fn lemma_shrink3_bounds(a: int, b: int, c: int)
    ensures
        absi(shrink3_s(a, b, c).0) <= QLIM as int,
        absi(shrink3_s(a, b, c).1) <= QLIM as int,
        absi(shrink3_s(a, b, c).2) <= QLIM as int,
    decreases absi(a) + absi(b) + absi(c),
{
    if absi(a) <= QLIM as int && absi(b) <= QLIM as int && absi(c) <= QLIM as int {
    } else {
        lemma_qz_half(a);
        lemma_qz_half(b);
        lemma_qz_half(c);
        let (a2, b2, c2) = half3(a, b, c);
        lemma_shrink3_bounds(a2, b2, c2);
    }
}

/// Shrink the three coefficients together.
fn shrink3(a0: i128, b0: i128, c0: i128) -> (r: (i128, i128, i128))
    requires
        bnd(a0 as int, QIN as int),
        bnd(b0 as int, QIN as int),
        bnd(c0 as int, QIN as int),
    ensures
        (r.0 as int, r.1 as int, r.2 as int) == shrink3_s(a0 as int, b0 as int, c0 as int),
        absi(r.0 as int) <= QLIM as int,
        absi(r.1 as int) <= QLIM as int,
        absi(r.2 as int) <= QLIM as int,
{
    let mut a = a0;
    let mut b = b0;
    let mut c = c0;
    while !(-QLIM <= a && a <= QLIM && -QLIM <= b && b <= QLIM && -QLIM <= c && c <= QLIM)
        invariant
            bnd(a as int, QIN as int),
            bnd(b as int, QIN as int),
            bnd(c as int, QIN as int),
            shrink3_s(a as int, b as int, c as int) == shrink3_s(a0 as int, b0 as int, c0 as int),
        decreases absi(a as int) + absi(b as int) + absi(c as int),
    {
        proof {
            lemma_qz_half(a as int);
            lemma_qz_half(b as int);
            lemma_qz_half(c as int);
        }
        a = divq(a, 2);
        b = divq(b, 2);
        c = divq(c, 2);
    }
    proof {
        lemma_shrink3_bounds(a as int, b as int, c as int);
    }
    (a, b, c)
}

/// A root clamped just outside the accepted parameter range, so that the
/// tests `t >= 0`, `t > 0` and `t <= TMAX` give the same answers as on the
/// unclamped value.
pub open spec fn cap_t(t: int) -> int {
    clamp_s(t, -(TMAX as int) - 1, TMAX as int + 1)
}

/// The solver's result: `None` when the discriminant of the shrunk equation
/// is negative or the equation is not a proper quadratic; otherwise the two
/// roots `(-b +/- sqrt(delta)) / (2a)` in fixed-point, sorted ascending and
/// capped into the accepted range.
pub open spec fn quad_roots_s(a0: int, b0: int, c0: int) -> Option<(int, int)> {
    let abc = shrink3_s(a0, b0, c0);
    let a = abc.0;
    let b = abc.1;
    let c = abc.2;
    let delta = b * b - 4 * (a * c);
    if a == 0 || delta < 0 {
        None
    } else {
        let s = sqrt_floor(delta as nat) as int;
        let t1 = cap_t(qz((-b + s) * (SCALE as int), 2 * a));
        let t2 = cap_t(qz((-b - s) * (SCALE as int), 2 * a));
        if t1 <= t2 {
            Some((t1, t2))
        } else {
            Some((t2, t1))
        }
    }
}

/// Solve the shrunk quadratic.
pub fn quad_roots(a0: i128, b0: i128, c0: i128) -> (r: Option<(i64, i64)>)
    requires
        bnd(a0 as int, QIN as int),
        bnd(b0 as int, QIN as int),
        bnd(c0 as int, QIN as int),
    ensures
        r is Some <==> quad_roots_s(a0 as int, b0 as int, c0 as int) is Some,
        r is Some ==> {
            let (lo, hi) = quad_roots_s(a0 as int, b0 as int, c0 as int)->Some_0;
            r->Some_0.0 == lo && r->Some_0.1 == hi && lo <= hi && bnd(lo, TMAX as int + 1) && bnd(
                hi,
                TMAX as int + 1,
            )
        },
{
    let (a, b, c) = shrink3(a0, b0, c0);
    proof {
        crate::fx::lemma_mul_mag(b as int, b as int, QLIM as int, QLIM as int);
        crate::fx::lemma_mul_mag(a as int, c as int, QLIM as int, QLIM as int);
    }
    let bb = wmul2(b, b);
    let ac = wmul2(a, c);
    let delta = bb - 4 * ac;
    if a == 0 || delta < 0 {
        None
    } else {
        let s = isqrt(delta as u128);
        proof {
            assert(s <= 0x400_0000_0000_0000u128) by (nonlinear_arith)
                requires
                    s * s <= delta as u128,
                    0 <= delta <= 0x4_0000_0000_0000_0000_0000_0000_0000i128,
            ;
        }
        let si = s as i128;
        let t1 = cap_root(divq(wmul2(-b + si, SCALE as i128), 2 * a));
        let t2 = cap_root(divq(wmul2(-b - si, SCALE as i128), 2 * a));
        if t1 <= t2 {
            Some((t1, t2))
        } else {
            Some((t2, t1))
        }
    }
}

/// Clamp a fixed-point root just outside the accepted range.
pub fn cap_root(t: i128) -> (r: i64)
    ensures
        r == cap_t(t as int),
        bnd(r as int, TMAX as int + 1),
{
    if t < -(TMAX as i128) - 1 {
        -TMAX - 1
    } else if t > (TMAX as i128) + 1 {
        TMAX + 1
    } else {
        t as i64
    }
}

} // verus!
