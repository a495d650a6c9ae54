//! Fixed-point scalar arithmetic. World coordinates, sizes and angles are
//! carried as signed 64-bit values scaled by `FX_ONE`, so one world unit is
//! `FX_ONE` and the fractional resolution is 1/65536 of a unit.

use vstd::prelude::*;
use vstd::arithmetic::div_mod::{lemma_div_is_ordered, lemma_div_multiples_vanish};
use vstd::arithmetic::mul::lemma_mul_unary_negation;

verus! {

/// One world unit in fixed-point form (scale factor 2^16).
pub const FX_ONE: i64 = 65536;

/// Pi in fixed-point radians (rounded to the nearest scaled unit).
pub const FX_PI: i64 = 205887;

/// Pi/2 in fixed-point radians.
pub const FX_HALF_PI: i64 = 102944;

/// 2*Pi in fixed-point radians.
pub const FX_TWO_PI: i64 = 411775;

/// Rotations smaller than this (about 0.05 rad, three degrees) are treated
/// as no rotation by the oriented-rectangle fast path.
pub const FX_SMALL_ANGLE: i64 = 3277;

/// Safety margin added to a rotated bounding box, as a fixed-point fraction
/// of the entity's size (about 2%), against rounding at rotated edges.
pub const FX_BB_MARGIN: i64 = 1311;

/// Smallest size used as a divisor when mapping a point into texture
/// space (about 0.001 world units); smaller sizes are clamped up to it.
pub const FX_MIN_SIZE: i64 = 66;

/// Largest normalized texture-space coordinate (about 0.999), so a point on
/// an entity's far edge still maps inside the texture.
pub const FX_MAX_NORM: i64 = 65470;

/// Truncating (toward zero) fixed-point product: `a * b / FX_ONE` with the
/// remainder discarded toward zero, as the hardware division would do it.
pub open spec fn fmul(a: int, b: int) -> int {
    let p = a * b;
    if p >= 0 {
        p / 65536
    } else {
        -((-p) / 65536)
    }
}

/// Fixed-point multiply. The requirement only rules out results that do not
/// fit the 64-bit representation; callers discharge it by bounding one factor.
pub fn fx_mul(a: i64, b: i64) -> (r: i64)
    requires
        i64::MIN <= fmul(a as int, b as int) <= i64::MAX,
    ensures
        r == fmul(a as int, b as int),
{
    let neg: bool = (a < 0) != (b < 0);
    let aa: u64 = if a >= 0 {
        a as u64
    } else {
        (-(a as i128)) as u64
    };
    let bb: u64 = if b >= 0 {
        b as u64
    } else {
        (-(b as i128)) as u64
    };
    proof {
        assert(aa as int * bb as int <= 0x8000000000000000 * 0x8000000000000000)
            by (nonlinear_arith)
            requires
                0 <= aa as int <= 0x8000000000000000,
                0 <= bb as int <= 0x8000000000000000,
        ;
    }
    let p: u128 = (aa as u128) * (bb as u128);
    let q: u128 = p / 65536;
    proof {
        if a < 0 && b >= 0 {
            lemma_mul_unary_negation(aa as int, bb as int);
            assert(a as int * b as int == -(p as int));
        } else if a >= 0 && b < 0 {
            lemma_mul_unary_negation(aa as int, bb as int);
            assert(a as int * b as int == a as int * -(bb as int));
            assert(a as int * -(bb as int) == -(aa as int * bb as int)) by (nonlinear_arith)
                requires
                    a as int == aa as int,
            ;
        } else if a < 0 && b < 0 {
            assert((-(aa as int)) * (-(bb as int)) == aa as int * bb as int) by (nonlinear_arith);
            assert(a as int * b as int == p as int);
        }
    }
    if neg {
        proof {
            if p > 0 {
                assert(a as int * b as int == -(p as int));
                assert(fmul(a as int, b as int) == -(q as int));
            } else {
                assert(p == 0);
                assert(a as int * b as int == 0);
            }
        }
        (-(q as i128)) as i64
    } else {
        proof {
            assert(a as int * b as int == p as int);
        }
        q as i64
    }
}

/// A fixed-point product against a factor no larger than one world unit in
/// magnitude never grows past the other factor's bound.
pub proof fn lemma_fmul_unit_bound(a: int, b: int, m: int)
    requires
        0 <= m,
        -m <= a <= m,
        -65536 <= b <= 65536,
    ensures
        -m <= fmul(a, b) <= m,
{
    assert(-(m * 65536) <= a * b <= m * 65536) by (nonlinear_arith)
        requires
            0 <= m,
            -m <= a <= m,
            -65536 <= b <= 65536,
    ;
    lemma_div_multiples_vanish(m, 65536);
    assert(m * 65536 == 65536 * m) by (nonlinear_arith);
    if a * b >= 0 {
        lemma_div_is_ordered(a * b, m * 65536, 65536);
    } else {
        lemma_div_is_ordered(-(a * b), m * 65536, 65536);
    }
}

/// Multiplying by `FX_ONE` is exact: the scale cancels without loss.
pub proof fn lemma_fmul_one(a: int)
    ensures
        fmul(a, 65536) == a,
{
    lemma_div_multiples_vanish(a, 65536);
    assert(a * 65536 == 65536 * a) by (nonlinear_arith);
    if a * 65536 < 0 {
        lemma_div_multiples_vanish(-a, 65536);
        assert(-(a * 65536) == 65536 * -a) by (nonlinear_arith);
    }
}

/// A product of two values bounded in magnitude is bounded by the product
/// of the bounds.
pub proof fn lemma_mul_abs_bound(a: int, b: int, aa: int, bb: int)
    requires
        0 <= aa,
        0 <= bb,
        -aa <= a <= aa,
        -bb <= b <= bb,
    ensures
        -(aa * bb) <= a * b <= aa * bb,
{
    assert(-(aa * bb) <= a * b <= aa * bb) by (nonlinear_arith)
        requires
            0 <= aa,
            0 <= bb,
            -aa <= a <= aa,
            -bb <= b <= bb,
    ;
}

/// Multiplying by zero is exactly zero.
pub proof fn lemma_fmul_zero(a: int)
    ensures
        fmul(a, 0) == 0,
{
    assert(a * 0 == 0) by (nonlinear_arith);
}

} // verus!
