//! Fixed-point arithmetic over the complex plane.
//!
//! A plane quantity is an `i64` counting steps of `1 / FP_SCALE` plane units.
//! Products are computed exactly in 128 bits and truncated toward zero back
//! to scale, which is the rounding the executable code performs; the spec
//! functions here state that rounding exactly.

use vstd::arithmetic::div_mod::lemma_div_is_ordered;
use vstd::arithmetic::div_mod::lemma_div_pos_is_pos;
use vstd::arithmetic::div_mod::lemma_fundamental_div_mod;
use vstd::arithmetic::div_mod::lemma_mod_division_less_than_divisor;
use vstd::prelude::*;

verus! {

/// Fixed-point steps per complex-plane unit: six decimal places.
pub const FP_SCALE: i64 = 1_000_000;

/// The escape bound 4.0 of the quadratic recurrence, in fixed-point steps.
pub const FP_FOUR: i64 = 4_000_000;

/// Largest magnitude accepted for the recurrence constant and for the
/// viewport width: 64 plane units.
pub const FP_PARAM_MAX: i64 = 64_000_000;

/// Bound on every coordinate the renderer ever feeds to the recurrence:
/// large enough for any mapped pixel of a viewport within `FP_PARAM_MAX`
/// and for any iterate produced before escape.
pub const FP_COORD_MAX: i64 = 2_200_000_000_000;

/// Division truncated toward zero, the rounding of Rust's `/` on integers.
pub open spec fn tdiv(a: int, d: int) -> int {
    if a >= 0 {
        a / d
    } else {
        -((-a) / d)
    }
}

/// Fixed-point product: exact integer product, truncated back to scale.
pub open spec fn fp_mul(a: int, b: int) -> int {
    tdiv(a * b, FP_SCALE as int)
}

/// Truncating division keeps the sign of the numerator and never grows
/// a nonnegative numerator.
pub proof fn lemma_tdiv_sign(a: int, d: int)
    requires
        d > 0,
    ensures
        a >= 0 ==> 0 <= tdiv(a, d) <= a,
        a <= 0 ==> a <= tdiv(a, d) <= 0,
{
    if a >= 0 {
        lemma_div_pos_is_pos(a, d);
        lemma_fundamental_div_mod(a, d);
        lemma_mod_division_less_than_divisor(a, d);
        assert(a / d <= a) by (nonlinear_arith)
            requires
                d > 0,
                a >= 0,
                a == d * (a / d) + a % d,
                a % d >= 0,
                a / d >= 0,
        ;
    } else {
        lemma_div_pos_is_pos(-a, d);
        lemma_fundamental_div_mod(-a, d);
        lemma_mod_division_less_than_divisor(-a, d);
        assert((-a) / d <= -a) by (nonlinear_arith)
            requires
                d > 0,
                -a >= 0,
                -a == d * ((-a) / d) + (-a) % d,
                (-a) % d >= 0,
                (-a) / d >= 0,
        ;
    }
}

/// The magnitude of a truncating quotient is the floor quotient of the
/// magnitude, so any bound on `|a|` bounds `|tdiv(a, d)|`.
pub proof fn lemma_tdiv_mag_le(a: int, m: int, d: int)
    requires
        d > 0,
        -m <= a <= m,
        0 <= m,
    ensures
        -(m / d) <= tdiv(a, d) <= m / d,
{
    lemma_div_pos_is_pos(m, d);
    if a >= 0 {
        lemma_div_is_ordered(a, m, d);
        lemma_div_pos_is_pos(a, d);
    } else {
        lemma_div_is_ordered(-a, m, d);
        lemma_div_pos_is_pos(-a, d);
    }
}

/// Undoing a truncating division: the numerator lies within one divisor
/// of the scaled-back quotient.
pub proof fn lemma_tdiv_reverse(a: int, d: int)
    requires
        d > 0,
    ensures
        d * tdiv(a, d) - d < a < d * tdiv(a, d) + d,
{
    if a >= 0 {
        lemma_fundamental_div_mod(a, d);
        lemma_mod_division_less_than_divisor(a, d);
    } else {
        lemma_fundamental_div_mod(-a, d);
        lemma_mod_division_less_than_divisor(-a, d);
        assert(d * tdiv(a, d) == -(d * ((-a) / d))) by (nonlinear_arith)
            requires
                tdiv(a, d) == -((-a) / d),
        ;
    }
}

/// A square is nonnegative, so its fixed-point version is too.
pub proof fn lemma_fp_square_nonneg(a: int)
    ensures
        a * a >= 0,
        fp_mul(a, a) >= 0,
{
    assert(a * a >= 0) by (nonlinear_arith);
    lemma_tdiv_sign(a * a, FP_SCALE as int);
}

/// Truncating signed division with a positive divisor.
pub fn tdiv_i64(a: i64, d: i64) -> (q: i64)
    requires
        1 <= d,
        i64::MIN < a,
    ensures
        q == tdiv(a as int, d as int),
        a >= 0 ==> 0 <= q <= a,
        a <= 0 ==> a <= q <= 0,
{
    proof {
        lemma_tdiv_sign(a as int, d as int);
    }
    if a >= 0 {
        ((a as u64) / (d as u64)) as i64
    } else {
        let m: u64 = (-(a as i128)) as u64;
        let q0: u64 = m / (d as u64);
        -((q0 as i128) as i64)
    }
}

/// Fixed-point product of two exec values.
pub fn fp_mul_exec(a: i64, b: i64) -> (r: i64)
    requires
        -FP_COORD_MAX <= a <= FP_COORD_MAX,
        -FP_COORD_MAX <= b <= FP_COORD_MAX,
    ensures
        r == fp_mul(a as int, b as int),
        -4_840_000_000_000_000_000 <= r <= 4_840_000_000_000_000_000,
{
    let ma: u128 = if a < 0 {
        (-(a as i128)) as u128
    } else {
        a as u128
    };
    let mb: u128 = if b < 0 {
        (-(b as i128)) as u128
    } else {
        b as u128
    };
    proof {
        assert(ma == if a < 0 { -(a as int) } else { a as int });
        assert(mb == if b < 0 { -(b as int) } else { b as int });
        assert(ma * mb <= 4_840_000_000_000_000_000_000_000 && ma * mb == (if a * b >= 0 {
            a * b
        } else {
            -(a * b)
        })) by (nonlinear_arith)
            requires
                ma == (if a < 0 { -(a as int) } else { a as int }),
                mb == (if b < 0 { -(b as int) } else { b as int }),
                -FP_COORD_MAX <= a <= FP_COORD_MAX,
                -FP_COORD_MAX <= b <= FP_COORD_MAX,
                FP_COORD_MAX == 2_200_000_000_000,
        ;
    }
    let p: u128 = ma * mb;
    let q: u128 = p / (FP_SCALE as u128);
    proof {
        let mag: int = if a * b >= 0 {
            a * b
        } else {
            -(a * b)
        };
        lemma_div_is_ordered(mag, 4_840_000_000_000_000_000_000_000, FP_SCALE as int);
        lemma_div_pos_is_pos(mag, FP_SCALE as int);
        assert(q == mag / (FP_SCALE as int));
        assert(q <= 4_840_000_000_000_000_000);
        if (a < 0) == (b < 0) {
            assert(a * b >= 0) by (nonlinear_arith)
                requires
                    (a < 0) == (b < 0),
            ;
        } else {
            assert(a * b <= 0) by (nonlinear_arith)
                requires
                    (a < 0) != (b < 0),
            ;
        }
    }
    if (a < 0) != (b < 0) && q > 0 {
        -((q as i128) as i64)
    } else {
        (q as i128) as i64
    }
}

} // verus!
