//! 16.16 fixed-point scalars.
//!
//! A scalar stores `value * SCALE` in an `i64`. Products are taken exactly in
//! `i128` and rounded toward zero on the single division that rescales them,
//! so every operation has an exact integer meaning that the contracts state
//! through [`qz`], [`fmul`] and [`sqrt_floor`].

use vstd::prelude::*;

verus! {

/// One whole unit: a scalar `s` represents the real number `s / SCALE`.
pub const SCALE: i64 = 65536;

/// Bound on scene coordinates, radii and heights (4096 whole units).
pub const MAXC: i64 = 268435456;

/// Largest accepted ray parameter (16384 whole units).
pub const TMAX: i64 = 1073741824;

/// Bound on the components of any ray origin or direction the intersection
/// queries accept (with room for shadow rays).
pub const RAYB: i64 = 0x200_0000_0000;

/// Bound on the components of a primary-ray direction (16 whole units).
pub const DIRB: i64 = 0x10_0000;

/// Bound on the components of camera anchors and viewport steps.
pub const CAMB: i64 = 0x100_0000_0000;

/// Magnitude of a mathematical integer.
pub open spec fn absi(a: int) -> int {
    if a >= 0 {
        a
    } else {
        -a
    }
}

/// `|a| <= b`: the bound every coordinate-like quantity carries.
pub open spec fn bnd(a: int, b: int) -> bool {
    -b <= a <= b
}

/// Quotient of `n` by `d` rounded toward zero, the rounding Rust's integer
/// division performs.
pub open spec fn qz(n: int, d: int) -> int {
    if (n >= 0) == (d >= 0) {
        absi(n) / absi(d)
    } else {
        -(absi(n) / absi(d))
    }
}

/// Fixed-point product: `a * b` rescaled by `SCALE`, rounded toward zero.
pub open spec fn fmul(a: int, b: int) -> int {
    qz(a * b, SCALE as int)
}

/// Fixed-point quotient: `a / b` in fixed-point, rounded toward zero.
pub open spec fn fdiv(a: int, b: int) -> int {
    qz(a * (SCALE as int), b)
}

/// Floor of the square root of a natural number.
pub open spec fn sqrt_floor(n: nat) -> nat
    decreases n,
{
    if n == 0 {
        0
    } else {
        let r = sqrt_floor((n - 1) as nat);
        if (r + 1) * (r + 1) <= n {
            r + 1
        } else {
            r
        }
    }
}

pub proof fn lemma_sqrt_floor_bounds(n: nat)
    ensures
        sqrt_floor(n) * sqrt_floor(n) <= n,
        n < (sqrt_floor(n) + 1) * (sqrt_floor(n) + 1),
        sqrt_floor(n) <= n,
    decreases n,
{
    if n == 0 {
        assert(sqrt_floor(0) == 0);
        assert(sqrt_floor(n) * sqrt_floor(n) <= n);
        assert(n < (sqrt_floor(n) + 1) * (sqrt_floor(n) + 1)) by (nonlinear_arith)
            requires
                n == 0,
                sqrt_floor(n) == 0,
        ;
    } else {
        lemma_sqrt_floor_bounds((n - 1) as nat);
        let r = sqrt_floor((n - 1) as nat);
        if (r + 1) * (r + 1) <= n {
            assert(sqrt_floor(n) == r + 1);
            assert(n < (r + 2) * (r + 2)) by (nonlinear_arith)
                requires
                    n - 1 < (r + 1) * (r + 1),
                    r >= 0,
            ;
            assert(r + 1 <= n) by (nonlinear_arith)
                requires
                    (r + 1) * (r + 1) <= n,
                    r >= 0,
            ;
            assert(sqrt_floor(n) * sqrt_floor(n) <= n);
            assert(n < (sqrt_floor(n) + 1) * (sqrt_floor(n) + 1));
        } else {
            assert(sqrt_floor(n) == r);
            assert(sqrt_floor(n) * sqrt_floor(n) <= n);
            assert(n < (sqrt_floor(n) + 1) * (sqrt_floor(n) + 1));
        }
    }
}

/// A positive number has a positive root.
pub proof fn lemma_sqrt_floor_pos(n: nat)
    requires
        n >= 1,
    ensures
        sqrt_floor(n) >= 1,
{
    lemma_sqrt_floor_bounds(n);
    if sqrt_floor(n) == 0 {
        assert((sqrt_floor(n) + 1) * (sqrt_floor(n) + 1) == 1) by (nonlinear_arith)
            requires
                sqrt_floor(n) == 0,
        ;
    }
}

/// Squares of naturals are ordered as their arguments are.
pub proof fn lemma_sq_lt(a: int, b: int)
    by (nonlinear_arith)
    requires
        a >= 0,
        b >= 0,
        a * a < b * b,
    ensures
        a < b,
{
}

/// The two-sided square-root bound determines the root.
pub proof fn lemma_sqrt_floor_unique(n: nat, r: nat)
    requires
        r * r <= n,
        n < (r + 1) * (r + 1),
    ensures
        r == sqrt_floor(n),
{
    lemma_sqrt_floor_bounds(n);
    let s = sqrt_floor(n);
    if r < s {
        assert((r + 1) * (r + 1) <= s * s) by (nonlinear_arith)
            requires
                0 <= r,
                r + 1 <= s,
        ;
    }
    if s < r {
        assert((s + 1) * (s + 1) <= r * r) by (nonlinear_arith)
            requires
                0 <= s,
                s + 1 <= r,
        ;
    }
}

/// Magnitudes multiply: `|a| <= p` and `|b| <= q` bound `|a * b|` by `p * q`.
pub proof fn lemma_mul_mag(a: int, b: int, p: int, q: int)
    by (nonlinear_arith)
    requires
        absi(a) <= p,
        absi(b) <= q,
    ensures
        absi(a * b) <= p * q,
{
}

/// A quotient toward zero is no larger in magnitude than its numerator.
pub proof fn lemma_qz_mag(n: int, d: int)
    requires
        d != 0,
    ensures
        absi(qz(n, d)) <= absi(n),
        absi(n) < absi(d) ==> qz(n, d) == 0,
        n >= 0 && d > 0 ==> qz(n, d) == n / d,
{
    let nn = absi(n);
    let dd = absi(d);
    assert(nn / dd <= nn) by {
        vstd::arithmetic::div_mod::lemma_div_nonincreasing(nn, dd);
    }
    assert(nn / dd >= 0) by {
        vstd::arithmetic::div_mod::lemma_div_pos_is_pos(nn, dd);
    }
    if nn < dd {
        assert(nn / dd == 0) by {
            vstd::arithmetic::div_mod::lemma_basic_div(nn, dd);
        }
    }
}

/// Quotients toward zero grow with the numerator's magnitude.
pub proof fn lemma_qz_mag_le(n: int, m: int, d: int)
    requires
        d != 0,
        absi(n) <= m,
    ensures
        absi(qz(n, d)) <= m / absi(d),
    decreases 0int,
{
    let nn = absi(n);
    let dd = absi(d);
    assert(nn / dd <= m / dd) by {
        vstd::arithmetic::div_mod::lemma_div_is_ordered(nn, m, dd);
    }
    assert(nn / dd >= 0) by {
        vstd::arithmetic::div_mod::lemma_div_pos_is_pos(nn, dd);
    }
}

/// A quotient toward zero multiplied back by the denominator falls short of
/// the numerator by less than the denominator.
pub proof fn lemma_qz_times_den(a: int, d: int)
    requires
        d > 0,
    ensures
        absi(qz(a, d)) * d <= absi(a),
        absi(a) < (absi(qz(a, d)) + 1) * d,
        absi(a - qz(a, d) * d) < d,
{
    let q = absi(a) / d;
    vstd::arithmetic::div_mod::lemma_fundamental_div_mod(absi(a), d);
    assert(0 <= absi(a) % d < d);
    assert(q * d == d * q) by (nonlinear_arith);
    assert((q + 1) * d == d * q + d) by (nonlinear_arith);
    if a >= 0 {
        assert(qz(a, d) * d == q * d) by (nonlinear_arith)
            requires
                qz(a, d) == q,
        ;
    } else {
        assert(qz(a, d) * d == -(q * d)) by (nonlinear_arith)
            requires
                qz(a, d) == -q,
        ;
    }
}

/// Dividing an exact multiple undoes the multiplication.
pub proof fn lemma_qz_exact(a: int, d: int)
    requires
        d > 0,
    ensures
        qz(a * d, d) == a,
{
    if a >= 0 {
        assert(a * d >= 0) by (nonlinear_arith)
            requires
                a >= 0,
                d > 0,
        ;
        assert((a * d) / d == a) by {
            vstd::arithmetic::div_mod::lemma_div_by_multiple(a, d);
        }
    } else {
        assert(a * d < 0 && absi(a * d) == (-a) * d) by (nonlinear_arith)
            requires
                a < 0,
                d > 0,
        ;
        assert(((-a) * d) / d == -a) by {
            vstd::arithmetic::div_mod::lemma_div_by_multiple(-a, d);
        }
    }
}

/// A fixed-point sine/cosine pair: both in `[-1, 1]` with the Pythagorean
/// identity holding up to the rounding of the two squares.
pub open spec fn unit_pair(s: int, c: int) -> bool {
    &&& bnd(s, SCALE as int)
    &&& bnd(c, SCALE as int)
    &&& absi(fmul(s, s) + fmul(c, c) - SCALE as int) <= 4
}

/// A fixed-point product with one factor in `[0, 1]` stays inside the other
/// factor's box.
pub proof fn lemma_fmul_unit_box(a: int, b: int, cap: int)
    requires
        0 <= a <= SCALE as int,
        0 <= b <= cap,
    ensures
        0 <= fmul(a, b) <= cap,
{
    assert(0 <= a * b <= (SCALE as int) * cap) by (nonlinear_arith)
        requires
            0 <= a <= SCALE as int,
            0 <= b <= cap,
    ;
    assert((a * b) / (SCALE as int) <= ((SCALE as int) * cap) / (SCALE as int)) by {
        vstd::arithmetic::div_mod::lemma_div_is_ordered(a * b, (SCALE as int) * cap, SCALE as int);
    }
    assert(((SCALE as int) * cap) / (SCALE as int) == cap) by {
        vstd::arithmetic::div_mod::lemma_div_multiples_vanish(cap, SCALE as int);
    }
    assert((a * b) / (SCALE as int) >= 0) by {
        vstd::arithmetic::div_mod::lemma_div_pos_is_pos(a * b, SCALE as int);
    }
}

/// A fixed-point product of nonnegative bounded factors is bounded.
pub proof fn lemma_fmul_range(a: int, b: int, ab: int, bb: int)
    requires
        0 <= a <= ab,
        0 <= b <= bb,
    ensures
        0 <= fmul(a, b) <= (ab * bb) / (SCALE as int),
{
    assert(0 <= a * b <= ab * bb) by (nonlinear_arith)
        requires
            0 <= a <= ab,
            0 <= b <= bb,
    ;
    assert((a * b) / (SCALE as int) <= (ab * bb) / (SCALE as int)) by {
        vstd::arithmetic::div_mod::lemma_div_is_ordered(a * b, ab * bb, SCALE as int);
    }
    assert((a * b) / (SCALE as int) >= 0) by {
        vstd::arithmetic::div_mod::lemma_div_pos_is_pos(a * b, SCALE as int);
    }
}

/// Exact widening product of two `i64` values.
pub fn wmul(a: i64, b: i64) -> (r: i128)
    ensures
        r == a * b,
        bnd(r as int, 0x4000_0000_0000_0000_0000_0000_0000_0000),
{
    proof {
        assert(bnd(a * b, 0x4000_0000_0000_0000_0000_0000_0000_0000)) by (nonlinear_arith)
            requires
                i64::MIN <= a <= i64::MAX,
                i64::MIN <= b <= i64::MAX,
        ;
    }
    (a as i128) * (b as i128)
}

/// Exact product of two `i128` values that are small enough not to overflow.
pub fn wmul2(a: i128, b: i128) -> (r: i128)
    requires
        absi(a as int) <= 0x4000_0000_0000_0000,
        absi(b as int) <= 0x4000_0000_0000_0000,
    ensures
        r == a * b,
        bnd(r as int, 0x1000_0000_0000_0000_0000_0000_0000_0000),
{
    proof {
        assert(bnd(a * b, 0x1000_0000_0000_0000_0000_0000_0000_0000)) by (nonlinear_arith)
            requires
                absi(a as int) <= 0x4000_0000_0000_0000,
                absi(b as int) <= 0x4000_0000_0000_0000,
        ;
    }
    a * b
}

/// Exact product of a small and a medium `i128` value.
pub fn wmulq(a: i128, b: i128) -> (r: i128)
    requires
        absi(a as int) <= 0x1000_0000_0000,
        absi(b as int) <= 0x1_0000_0000_0000_0000_0000,
    ensures
        r == a * b,
        bnd(r as int, 0x4000_0000_0000_0000_0000_0000_0000_0000),
{
    proof {
        assert(bnd(a * b, 0x4000_0000_0000_0000_0000_0000_0000_0000)) by (nonlinear_arith)
            requires
                absi(a as int) <= 0x1000_0000_0000,
                absi(b as int) <= 0x1_0000_0000_0000_0000_0000,
        ;
    }
    a * b
}

/// Quotient of two `i128` values, rounded toward zero.
pub fn divq(n: i128, d: i128) -> (r: i128)
    requires
        d != 0,
        n != i128::MIN,
        d != i128::MIN,
    ensures
        r == qz(n as int, d as int),
{
    let nn: u128 = if n >= 0 {
        n as u128
    } else {
        (-n) as u128
    };
    let dd: u128 = if d >= 0 {
        d as u128
    } else {
        (-d) as u128
    };
    let quo: u128 = nn / dd;
    proof {
        assert(quo <= nn) by {
            vstd::arithmetic::div_mod::lemma_div_nonincreasing(nn as int, dd as int);
        }
    }
    if (n >= 0) == (d >= 0) {
        quo as i128
    } else {
        -(quo as i128)
    }
}

/// Fixed-point product of two scalars, rounded toward zero.
pub fn fmul_x(a: i64, b: i64) -> (r: i64)
    requires
        bnd(fmul(a as int, b as int), i64::MAX as int),
    ensures
        r == fmul(a as int, b as int),
{
    let p = wmul(a, b);
    let q = divq(p, SCALE as i128);
    q as i64
}

/// Fixed-point quotient of two scalars, rounded toward zero.
pub fn fdiv_x(a: i64, b: i64) -> (r: i64)
    requires
        b != 0,
        bnd(fdiv(a as int, b as int), i64::MAX as int),
    ensures
        r == fdiv(a as int, b as int),
{
    let p = wmul(a, SCALE);
    let q = divq(p, b as i128);
    q as i64
}

/// Floor of the square root, by binary search on the root.
pub fn isqrt(n: u128) -> (r: u128)
    ensures
        r == sqrt_floor(n as nat),
        r * r <= n,
        n < (r + 1) * (r + 1),
{
    let mut lo: u128 = 0;
    let mut hi: u128 = 0x1_0000_0000_0000_0000;
    proof {
        assert(n < hi * hi) by (nonlinear_arith)
            requires
                n <= u128::MAX,
                hi == 0x1_0000_0000_0000_0000u128,
        ;
    }
    while lo + 1 < hi
        invariant
            lo < hi <= 0x1_0000_0000_0000_0000,
            lo * lo <= n,
            n < hi * hi,
        decreases hi - lo,
    {
        let mid = lo + (hi - lo) / 2;
        proof {
            assert(mid * mid <= u128::MAX) by (nonlinear_arith)
                requires
                    mid < 0x1_0000_0000_0000_0000u128,
            ;
        }
        if mid * mid <= n {
            lo = mid;
        } else {
            hi = mid;
        }
    }
    proof {
        lemma_sqrt_floor_unique(n as nat, lo as nat);
    }
    lo
}

/// Clamp a scalar into `[lo, hi]`.
pub fn clamp_x(a: i64, lo: i64, hi: i64) -> (r: i64)
    requires
        lo <= hi,
    ensures
        r == clamp_s(a as int, lo as int, hi as int),
{
    if a < lo {
        lo
    } else if a > hi {
        hi
    } else {
        a
    }
}

/// Clamping in the mathematical model.
pub open spec fn clamp_s(a: int, lo: int, hi: int) -> int {
    if a < lo {
        lo
    } else if a > hi {
        hi
    } else {
        a
    }
}

} // verus!
