//! Fixed-point angle normalization and sine/cosine.
//!
//! An angle is a fixed-point value in radians (see `fx`). Normalization
//! brings any angle into `[-FX_PI, FX_PI]` through the truncating
//! remainder by a full turn, keeping the angle's sign. Sine and cosine are
//! degree-seven / degree-six polynomial approximations on the first
//! quadrant, folded onto the rest of the circle by symmetry and clamped to
//! one world unit, so their magnitude never exceeds `FX_ONE`.

use vstd::prelude::*;
use vstd::arithmetic::mul::lemma_mul_upper_bound;
use crate::fx::{FX_PI, FX_TWO_PI, FX_HALF_PI};

verus! {

/// Remainder of an angle by 2*Pi, truncated toward zero (the remainder
/// keeps the sign of the angle).
pub open spec fn tmod_two_pi(a: int) -> int {
    if a >= 0 {
        a % 411775
    } else {
        -((-a) % 411775)
    }
}

/// An arbitrary angle brought into `[-FX_PI, FX_PI]`.
pub open spec fn norm_angle(a: int) -> int {
    let r = tmod_two_pi(a);
    if r > 205887 {
        r - 411775
    } else if r < -205887 {
        r + 411775
    } else {
        r
    }
}

/// First-quadrant sine polynomial on `[0, FX_HALF_PI]`, clamped to
/// `[0, FX_ONE]`: x - x^3/3! + x^5/5! - x^7/7! in fixed point. Opaque so
/// that geometry built on rotation does not unfold into the polynomial.
#[verifier::opaque]
pub open spec fn sin_poly(x: int) -> int {
    let t3 = (x * x * x) / (6int * 65536 * 65536);
    let t5 = (x * x * x * x * x) / (120int * 65536 * 65536 * 65536 * 65536);
    let t7 = (x * x * x * x * x * x * x) / (5040int * 65536 * 65536 * 65536 * 65536 * 65536
        * 65536);
    let s = x - t3 + t5 - t7;
    if s < 0 {
        0
    } else if s > 65536 {
        65536
    } else {
        s
    }
}

/// First-quadrant cosine polynomial on `[0, FX_HALF_PI]`, clamped to
/// `[0, FX_ONE]`: 1 - x^2/2! + x^4/4! - x^6/6! in fixed point. Opaque for
/// the same reason as the sine polynomial.
#[verifier::opaque]
pub open spec fn cos_poly(x: int) -> int {
    let q2 = (x * x) / (2int * 65536);
    let q4 = (x * x * x * x) / (24int * 65536 * 65536 * 65536);
    let q6 = (x * x * x * x * x * x) / (720int * 65536 * 65536 * 65536 * 65536 * 65536);
    let c = 65536 - q2 + q4 - q6;
    if c < 0 {
        0
    } else if c > 65536 {
        65536
    } else {
        c
    }
}

/// Sine of a normalized angle: odd symmetry about zero, and the second
/// quadrant folded back onto the first.
pub open spec fn sin_norm(n: int) -> int {
    let x = if n >= 0 { n } else { -n };
    let f = if x > 102944 { 205887 - x } else { x };
    let s = sin_poly(f);
    if n >= 0 { s } else { -s }
}

/// Cosine of a normalized angle: even symmetry about zero, and negated on
/// the second quadrant.
pub open spec fn cos_norm(n: int) -> int {
    let x = if n >= 0 { n } else { -n };
    if x > 102944 { -cos_poly(205887 - x) } else { cos_poly(x) }
}

/// Brings any fixed-point angle into `[-FX_PI, FX_PI]`.
pub fn normalize_angle(angle: i64) -> (r: i64)
    ensures
        r == norm_angle(angle as int),
        -205887 <= r <= 205887,
{
    let mag: u64 = if angle >= 0 {
        angle as u64
    } else {
        (-(angle as i128)) as u64
    };
    let m: u64 = mag % 411775;
    let t: i64 = if angle >= 0 {
        m as i64
    } else {
        -(m as i64)
    };
    if t > FX_PI {
        t - FX_TWO_PI
    } else if t < -FX_PI {
        t + FX_TWO_PI
    } else {
        t
    }
}

/// First-quadrant sine polynomial, evaluated exactly as `sin_poly` states.
fn sin_poly_fx(x: u64) -> (r: i64)
    requires
        x <= 102944,
    ensures
        r == sin_poly(x as int),
        0 <= r <= 65536,
{
    proof {
        reveal(sin_poly);
    }
    let xi: u128 = x as u128;
    proof {
        lemma_mul_upper_bound(xi as int, 102944, xi as int, 102944);
    }
    let x2: u128 = xi * xi;
    proof {
        lemma_mul_upper_bound(x2 as int, 102944int * 102944, xi as int, 102944);
        lemma_mul_upper_bound(x2 as int, 102944int * 102944, x2 as int, 102944int * 102944);
    }
    let x3: u128 = x2 * xi;
    let x4: u128 = x2 * x2;
    proof {
        lemma_mul_upper_bound(x4 as int, 102944int * 102944 * 102944int * 102944, xi as int, 102944);
        lemma_mul_upper_bound(
            x4 as int,
            102944int * 102944 * 102944int * 102944,
            x3 as int,
            102944int * 102944 * 102944,
        );
    }
    let x5: u128 = x4 * xi;
    let x7: u128 = x4 * x3;
    proof {
        let n = xi as int;
        assert(x5 == n * n * n * n * n && x7 == n * n * n * n * n * n * n) by (nonlinear_arith)
            requires
                x2 == n * n,
                x3 == x2 * n,
                x4 == x2 * x2,
                x5 == x4 * n,
                x7 == x4 * x3,
        ;
    }
    let t3: i128 = (x3 / (6u128 * 65536 * 65536)) as i128;
    let t5: i128 = (x5 / (120u128 * 65536 * 65536 * 65536 * 65536)) as i128;
    let t7: i128 = (x7 / (5040u128 * 65536 * 65536 * 65536 * 65536 * 65536 * 65536)) as i128;
    let s: i128 = (x as i128) - t3 + t5 - t7;
    if s < 0 {
        0
    } else if s > 65536 {
        65536
    } else {
        s as i64
    }
}

/// First-quadrant cosine polynomial, evaluated exactly as `cos_poly` states.
fn cos_poly_fx(x: u64) -> (r: i64)
    requires
        x <= 102944,
    ensures
        r == cos_poly(x as int),
        0 <= r <= 65536,
{
    proof {
        reveal(cos_poly);
    }
    let xi: u128 = x as u128;
    proof {
        lemma_mul_upper_bound(xi as int, 102944, xi as int, 102944);
    }
    let x2: u128 = xi * xi;
    proof {
        lemma_mul_upper_bound(x2 as int, 102944int * 102944, x2 as int, 102944int * 102944);
    }
    let x4: u128 = x2 * x2;
    proof {
        lemma_mul_upper_bound(
            x4 as int,
            102944int * 102944 * 102944int * 102944,
            x2 as int,
            102944int * 102944,
        );
    }
    let x6: u128 = x4 * x2;
    proof {
        let n = xi as int;
        assert(x4 == n * n * n * n && x6 == n * n * n * n * n * n) by (nonlinear_arith)
            requires
                x2 == n * n,
                x4 == x2 * x2,
                x6 == x4 * x2,
        ;
    }
    let q2: i128 = (x2 / (2u128 * 65536)) as i128;
    let q4: i128 = (x4 / (24u128 * 65536 * 65536 * 65536)) as i128;
    let q6: i128 = (x6 / (720u128 * 65536 * 65536 * 65536 * 65536 * 65536)) as i128;
    let c: i128 = 65536 - q2 + q4 - q6;
    if c < 0 {
        0
    } else if c > 65536 {
        65536
    } else {
        c as i64
    }
}

/// Sine of a normalized angle, in `[-FX_ONE, FX_ONE]`.
pub fn sin_fx(n: i64) -> (r: i64)
    requires
        -205887 <= n <= 205887,
    ensures
        r == sin_norm(n as int),
        -65536 <= r <= 65536,
{
    let x: u64 = if n >= 0 { n as u64 } else { (-n) as u64 };
    let f: u64 = if x > FX_HALF_PI as u64 { FX_PI as u64 - x } else { x };
    let s = sin_poly_fx(f);
    if n >= 0 { s } else { -s }
}

/// Cosine of a normalized angle, in `[-FX_ONE, FX_ONE]`.
pub fn cos_fx(n: i64) -> (r: i64)
    requires
        -205887 <= n <= 205887,
    ensures
        r == cos_norm(n as int),
        -65536 <= r <= 65536,
{
    let x: u64 = if n >= 0 { n as u64 } else { (-n) as u64 };
    let f: u64 = if x > FX_HALF_PI as u64 { FX_PI as u64 - x } else { x };
    let c = cos_poly_fx(f);
    if x > FX_HALF_PI as u64 { -c } else { c }
}

/// Sine and cosine of a normalized angle never exceed one world unit in
/// magnitude, thanks to the clamp in the quadrant polynomials.
pub proof fn lemma_trig_bounds(n: int)
    ensures
        -65536 <= sin_norm(n) <= 65536,
        -65536 <= cos_norm(n) <= 65536,
{
    reveal(sin_poly);
    reveal(cos_poly);
}

/// A zero angle has sine zero and cosine one: together with the exactness
/// of multiplying by `FX_ONE`, rotation by a normalized zero angle is the
/// identity.
pub proof fn lemma_trig_of_zero()
    ensures
        norm_angle(0) == 0,
        sin_norm(0) == 0,
        cos_norm(0) == 65536,
{
    reveal(sin_poly);
    reveal(cos_poly);
    vstd::arithmetic::div_mod::lemma_div_of0(6int * 65536 * 65536);
    vstd::arithmetic::div_mod::lemma_div_of0(120int * 65536 * 65536 * 65536 * 65536);
    vstd::arithmetic::div_mod::lemma_div_of0(5040int * 65536 * 65536 * 65536 * 65536 * 65536
        * 65536);
    vstd::arithmetic::div_mod::lemma_div_of0(2int * 65536);
    vstd::arithmetic::div_mod::lemma_div_of0(24int * 65536 * 65536 * 65536);
    vstd::arithmetic::div_mod::lemma_div_of0(720int * 65536 * 65536 * 65536 * 65536 * 65536);
}

/// One full turn normalizes to the zero angle.
pub proof fn lemma_norm_full_turn()
    ensures
        norm_angle(411775) == 0,
        norm_angle(-411775) == 0,
{
    vstd::arithmetic::div_mod::lemma_mod_self_0(411775int);
}

/// One direction of the periodicity of normalization.
proof fn lemma_norm_plus_turn(a: int)
    ensures
        norm_angle(a + 411775) == norm_angle(a),
{
    let t = 411775int;
    if a >= 0 {
        vstd::arithmetic::div_mod::lemma_mod_add_multiples_vanish(a, t);
    } else if a + t < 0 {
        vstd::arithmetic::div_mod::lemma_mod_add_multiples_vanish(-a - t, t);
    } else {
        if -a < t {
            vstd::arithmetic::div_mod::lemma_small_mod((-a) as nat, t as nat);
            vstd::arithmetic::div_mod::lemma_small_mod((a + t) as nat, t as nat);
        } else {
            vstd::arithmetic::div_mod::lemma_mod_self_0(t);
            vstd::arithmetic::div_mod::lemma_small_mod(0nat, t as nat);
        }
    }
}

/// Normalization is periodic in a full turn: shifting any angle by 2*Pi in
/// either direction leaves the normalized angle unchanged.
pub proof fn lemma_norm_angle_periodic(a: int)
    ensures
        norm_angle(a + 411775) == norm_angle(a),
        norm_angle(a - 411775) == norm_angle(a),
{
    lemma_norm_plus_turn(a);
    lemma_norm_plus_turn(a - 411775);
}

} // verus!
