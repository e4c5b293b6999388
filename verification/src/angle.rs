//! Fixed-point inverse trigonometry for texture coordinates.
//!
//! The arctangent is transcendental, so these functions compute a standard
//! rational approximation (`atan(t) ~ t * (pi/4 + 0.273 * (1 - t))` on the
//! unit interval, folded over the octants); the contracts pin the computed
//! value exactly and bound it by the angle ranges. The approximation stays
//! within about 0.005 radians of the real arctangent, enough for texel
//! lookup.

use vstd::prelude::*;
use crate::fx::{absi, bnd, fmul, qz, SCALE, sqrt_floor, lemma_fmul_unit_box, lemma_mul_mag,
    lemma_qz_mag, lemma_qz_mag_le, wmul, divq, fmul_x, isqrt};

verus! {

/// Half the circle constant, in fixed point.
pub const PI_FX: i64 = 205887;

/// A quarter turn, in fixed point.
pub const PI2_FX: i64 = 102944;

/// A full turn, in fixed point.
pub const TWO_PI_FX: i64 = 411775;

/// An eighth turn, in fixed point.
pub const PI4_FX: i64 = 51472;

/// The approximation coefficient 0.273, in fixed point.
pub const ATAN_C: i64 = 17891;

/// The arctangent approximation on the unit interval.
pub open spec fn atan_unit_s(t: int) -> int {
    fmul(t, PI4_FX as int + fmul(ATAN_C as int, SCALE as int - t))
}

/// The octant-folded arctangent of `y / x` over magnitudes: the base angle
/// in `[0, pi/2]` before quadrant signs are applied.
pub open spec fn atan2_base_s(ay: int, ax: int) -> int {
    if ay <= ax {
        atan_unit_s(qz(ay * (SCALE as int), ax))
    } else {
        PI2_FX as int - atan_unit_s(qz(ax * (SCALE as int), ay))
    }
}

/// The four-quadrant arctangent of `y / x`, zero at the origin.
pub open spec fn atan2_s(y: int, x: int) -> int {
    if y == 0 && x == 0 {
        0
    } else {
        let base = atan2_base_s(absi(y), absi(x));
        let r1 = if x >= 0 {
            base
        } else {
            PI_FX as int - base
        };
        if y >= 0 {
            r1
        } else {
            -r1
        }
    }
}

/// The arcsine of a unit-interval value, through the arctangent of
/// `y / sqrt(1 - y^2)`.
pub open spec fn asin_s(y: int) -> int {
    atan2_s(y, sqrt_floor(((SCALE as int) * (SCALE as int) - y * y) as nat) as int)
}

/// The arctangent approximation on the unit interval.
fn atan_unit(t: i64) -> (r: i64)
    requires
        0 <= t <= SCALE,
    ensures
        r == atan_unit_s(t as int),
        0 <= r <= PI2_FX,
{
    proof {
        lemma_fmul_unit_box(ATAN_C as int, SCALE as int - t, SCALE as int);
        assert(fmul(ATAN_C as int, SCALE as int - t) <= ATAN_C as int) by {
            lemma_mul_mag(ATAN_C as int, SCALE as int - t, ATAN_C as int, SCALE as int);
            lemma_qz_mag_le(
                ATAN_C * (SCALE as int - t),
                (ATAN_C as int) * (SCALE as int),
                SCALE as int,
            );
            assert(((ATAN_C as int) * (SCALE as int)) / (SCALE as int) == ATAN_C as int) by {
                vstd::arithmetic::div_mod::lemma_div_multiples_vanish(ATAN_C as int, SCALE as int);
            }
        }
        lemma_fmul_unit_box(t as int, PI4_FX as int + fmul(ATAN_C as int, SCALE as int - t), PI4_FX as int + ATAN_C as int);
    }
    fmul_x(t, PI4_FX + fmul_x(ATAN_C, SCALE - t))
}

/// The four-quadrant arctangent of `y / x` for unit-bounded arguments.
pub fn atan2_fx(y: i64, x: i64) -> (r: i64)
    requires
        bnd(y as int, SCALE as int),
        bnd(x as int, SCALE as int),
    ensures
        r == atan2_s(y as int, x as int),
        bnd(r as int, PI_FX as int),
{
    if y == 0 && x == 0 {
        return 0;
    }
    let ay = if y >= 0 {
        y
    } else {
        -y
    };
    let ax = if x >= 0 {
        x
    } else {
        -x
    };
    let base = if ay <= ax {
        proof {
            lemma_ratio_unit(ay as int, ax as int);
        }
        atan_unit(divq(wmul(ay, SCALE), ax as i128) as i64)
    } else {
        proof {
            lemma_ratio_unit(ax as int, ay as int);
        }
        PI2_FX - atan_unit(divq(wmul(ax, SCALE), ay as i128) as i64)
    };
    let r1 = if x >= 0 {
        base
    } else {
        PI_FX - base
    };
    if y >= 0 {
        r1
    } else {
        -r1
    }
}

/// The ratio of a smaller by a larger magnitude stays inside the unit
/// interval.
proof fn lemma_ratio_unit(sm: int, lg: int)
    requires
        0 <= sm <= lg,
        lg >= 1,
    ensures
        0 <= qz(sm * (SCALE as int), lg) <= SCALE as int,
{
    lemma_mul_mag(sm, SCALE as int, lg, SCALE as int);
    lemma_qz_mag_le(sm * (SCALE as int), lg * (SCALE as int), lg);
    assert((lg * (SCALE as int)) / lg == SCALE as int) by (nonlinear_arith)
        requires
            lg >= 1,
    ;
    assert(sm * (SCALE as int) >= 0) by (nonlinear_arith)
        requires
            sm >= 0,
    ;
    assert((sm * (SCALE as int)) / lg >= 0) by {
        vstd::arithmetic::div_mod::lemma_div_pos_is_pos(sm * (SCALE as int), lg);
    }
}

/// The arcsine of a unit-bounded value.
pub fn asin_fx(y: i64) -> (r: i64)
    requires
        bnd(y as int, SCALE as int),
    ensures
        r == asin_s(y as int),
        bnd(r as int, PI_FX as int),
{
    proof {
        lemma_mul_mag(y as int, y as int, SCALE as int, SCALE as int);
        assert(y * y >= 0) by (nonlinear_arith);
    }
    let rest: i128 = wmul(SCALE, SCALE) - wmul(y, y);
    let x = isqrt(rest as u128);
    proof {
        assert((rest as u128) as int == rest as int);
        assert((x as int) * (x as int) <= rest as int);
        assert(x as int <= SCALE as int) by (nonlinear_arith)
            requires
                (x as int) * (x as int) <= rest as int,
                rest as int <= 65536 * 65536,
                x as int >= 0,
        ;
    }
    atan2_fx(y, x as i64)
}

} // verus!
