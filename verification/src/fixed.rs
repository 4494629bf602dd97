//! Fixed-point arithmetic base for the whole library.
//!
//! Every geographic coordinate, height and angle in this crate is a signed
//! 64-bit integer holding the quantity scaled by `SCALE` (millionths of a
//! metre, of a radian, or of a degree). Division in executable code truncates
//! toward zero, as Rust's `/` does; the spec functions `tdiv` and `tmod`
//! state exactly that rounding so contracts can pin results down bit for bit.

use vstd::prelude::*;

verus! {

/// Units per whole metre / radian / degree.
pub const SCALE: i64 = 1_000_000;

/// Pi in fixed-point units.
pub const PI_FX: i64 = 3_141_592;

/// A full turn in fixed-point units; exactly twice `PI_FX`, so that half of a
/// full turn is representable without rounding.
pub const TAU_FX: i64 = 2 * PI_FX;

/// Truncated (round-toward-zero) division, the semantics of Rust's `/` on
/// signed integers, for a positive divisor.
pub open spec fn tdiv(a: int, b: int) -> int {
    if a >= 0 {
        a / b
    } else {
        -((-a) / b)
    }
}

/// Remainder matching `tdiv`: same sign as the dividend, the semantics of
/// Rust's `%` on signed integers, for a positive divisor.
pub open spec fn tmod(a: int, b: int) -> int {
    if a >= 0 {
        a % b
    } else {
        -((-a) % b)
    }
}

/// `tdiv` and `tmod` satisfy the usual division identity, and the remainder
/// is smaller than the divisor in magnitude, with the dividend's sign.
pub proof fn lemma_tdiv_tmod(a: int, b: int)
    requires
        0 < b,
    ensures
        a == b * tdiv(a, b) + tmod(a, b),
        -b < tmod(a, b) < b,
        a >= 0 ==> 0 <= tmod(a, b),
        a < 0 ==> tmod(a, b) <= 0,
        a < 0 ==> a <= tdiv(a, b) <= 0,
        a >= 0 ==> 0 <= tdiv(a, b) <= a,
{
    if a >= 0 {
        vstd::arithmetic::div_mod::lemma_fundamental_div_mod(a, b);
        vstd::arithmetic::div_mod::lemma_mod_bound(a, b);
        vstd::arithmetic::div_mod::lemma_div_is_ordered_by_denominator(a, 1, b);
        vstd::arithmetic::div_mod::lemma_div_basics(a);
        vstd::arithmetic::div_mod::lemma_div_pos_is_pos(a, b);
    } else {
        let q = (-a) / b;
        let r = (-a) % b;
        vstd::arithmetic::div_mod::lemma_fundamental_div_mod(-a, b);
        vstd::arithmetic::div_mod::lemma_mod_bound(-a, b);
        vstd::arithmetic::div_mod::lemma_div_is_ordered_by_denominator(-a, 1, b);
        vstd::arithmetic::div_mod::lemma_div_basics(-a);
        vstd::arithmetic::div_mod::lemma_div_pos_is_pos(-a, b);
        assert(tdiv(a, b) == -q);
        assert(tmod(a, b) == -r);
        assert(b * -q == -(b * q)) by (nonlinear_arith);
    }
}

/// Truncated division never grows in magnitude: the quotient scaled back by
/// the divisor stays between zero and the dividend.
pub proof fn lemma_tdiv_mag(a: int, b: int)
    requires
        0 < b,
    ensures
        a >= 0 ==> 0 <= b * tdiv(a, b) <= a,
        a < 0 ==> a <= b * tdiv(a, b) <= 0,
{
    lemma_tdiv_tmod(a, b);
    let q = tdiv(a, b);
    if a >= 0 {
        assert(b * q >= 0) by (nonlinear_arith)
            requires
                b > 0 && q >= 0,
        ;
    } else {
        assert(b * q <= 0) by (nonlinear_arith)
            requires
                b > 0 && q <= 0,
        ;
    }
}

/// `tdiv` stays between any bounds whose product with the divisor brackets
/// the dividend: the workhorse for bounding every fixed-point rescaling.
pub proof fn lemma_tdiv_range(a: int, b: int, lo: int, hi: int)
    requires
        0 < b,
        b * lo <= a,
        a <= b * hi,
    ensures
        lo <= tdiv(a, b) <= hi,
{
    if a >= 0 {
        if lo >= 0 {
            vstd::arithmetic::div_mod::lemma_div_multiples_vanish(lo, b);
            vstd::arithmetic::div_mod::lemma_div_is_ordered(b * lo, a, b);
        } else {
            vstd::arithmetic::div_mod::lemma_div_pos_is_pos(a, b);
        }
        vstd::arithmetic::div_mod::lemma_div_multiples_vanish(hi, b);
        vstd::arithmetic::div_mod::lemma_div_is_ordered(a, b * hi, b);
    } else {
        // tdiv(a, b) == -((-a) / b); bracket -a by -hi and -lo.
        assert(b * (-hi) <= -a <= b * (-lo)) by (nonlinear_arith)
            requires
                b * lo <= a <= b * hi,
        ;
        if hi <= 0 {
            vstd::arithmetic::div_mod::lemma_div_multiples_vanish(-hi, b);
            vstd::arithmetic::div_mod::lemma_div_is_ordered(b * (-hi), -a, b);
        } else {
            vstd::arithmetic::div_mod::lemma_div_pos_is_pos(-a, b);
        }
        vstd::arithmetic::div_mod::lemma_div_multiples_vanish(-lo, b);
        vstd::arithmetic::div_mod::lemma_div_is_ordered(-a, b * (-lo), b);
    }
}

/// Floor division by a positive divisor: the Euclidean quotient, which spec
/// `/` denotes. Used to turn a coordinate into a tile index.
pub fn floor_div(a: i64, b: i64) -> (q: i64)
    requires
        0 < b,
        i64::MIN < a,
    ensures
        q == a as int / b as int,
{
    let q0 = a / b;
    let r0 = a % b;
    proof {
        lemma_tdiv_tmod(a as int, b as int);
        assert(q0 == tdiv(a as int, b as int));
        assert(r0 == tmod(a as int, b as int));
        assert(q0 * b == b * q0) by (nonlinear_arith);
    }
    if r0 < 0 {
        proof {
            assert((q0 - 1) * b + (r0 + b) == q0 * b + r0) by (nonlinear_arith);
            vstd::arithmetic::div_mod::lemma_fundamental_div_mod_converse(
                a as int,
                b as int,
                q0 - 1,
                r0 + b,
            );
        }
        q0 - 1
    } else {
        proof {
            if a < 0 {
                vstd::arithmetic::div_mod::lemma_fundamental_div_mod_converse(
                    a as int,
                    b as int,
                    q0 as int,
                    r0 as int,
                );
            }
        }
        q0
    }
}

} // verus!
