//! Angle arithmetic in fixed-point radians.
//!
//! Angles are i64 values scaled by `crate::fixed::SCALE`. `normalize_angle`
//! folds any angle into `[0, normalizer)` and `difference_between_angles`
//! yields the shortest, wrap-aware distance between two angles, the quantity
//! the Igor shading method weights aspect by.

use vstd::prelude::*;
use crate::fixed::{tdiv, tmod, lemma_tdiv_tmod, PI_FX, TAU_FX};

verus! {

/// An angle folded into `[0, normalizer)`: the Euclidean remainder.
pub open spec fn spec_normalize(angle: int, normalizer: int) -> int {
    angle % normalizer
}

/// Shortest wrap-aware distance between two angles modulo `normalizer`.
pub open spec fn spec_difference(angle1: int, angle2: int, normalizer: int) -> int {
    let d = vstd::math::abs(
        spec_normalize(angle1, normalizer) - spec_normalize(angle2, normalizer),
    ) as int;
    if d > normalizer / 2 {
        normalizer - d
    } else {
        d
    }
}

/// Fold `angle` into `[0, normalizer)`, keeping its position on the circle.
pub fn normalize_angle(angle: i64, normalizer: i64) -> (r: i64)
    requires
        0 < normalizer,
    ensures
        r == spec_normalize(angle as int, normalizer as int),
        0 <= r < normalizer,
{
    let m = angle % normalizer;
    proof {
        lemma_tdiv_tmod(angle as int, normalizer as int);
        assert(m == tmod(angle as int, normalizer as int));
        let q = tdiv(angle as int, normalizer as int);
        assert(q * (normalizer as int) == (normalizer as int) * q) by (nonlinear_arith);
        if m < 0 {
            assert((q - 1) * (normalizer as int) + (m + normalizer) == q * (normalizer as int)
                + m) by (nonlinear_arith);
            vstd::arithmetic::div_mod::lemma_fundamental_div_mod_converse(
                angle as int,
                normalizer as int,
                q - 1,
                m + normalizer,
            );
        } else {
            vstd::arithmetic::div_mod::lemma_fundamental_div_mod_converse(
                angle as int,
                normalizer as int,
                q as int,
                m as int,
            );
        }
    }
    if m < 0 {
        normalizer + m
    } else {
        m
    }
}

/// Shortest distance between two angles on a circle of circumference
/// `normalizer`: normalize both, take the absolute difference, and go the
/// short way around when that exceeds half a turn.
pub fn difference_between_angles(angle1: i64, angle2: i64, normalizer: i64) -> (r: i64)
    requires
        0 < normalizer,
    ensures
        r == spec_difference(angle1 as int, angle2 as int, normalizer as int),
        0 <= r <= normalizer / 2,
{
    let n1 = normalize_angle(angle1, normalizer);
    let n2 = normalize_angle(angle2, normalizer);
    let d0 = n1 - n2;
    let diff: i64 = if d0 < 0 {
        -d0
    } else {
        d0
    };
    if diff > normalizer / 2 {
        normalizer - diff
    } else {
        diff
    }
}

/// The angular difference is symmetric in its two angles and, on the full
/// circle the Igor method uses, bounded by a half turn: it always lies in
/// `[0, PI_FX]`.
pub proof fn lemma_difference_symmetric_bounded(angle1: int, angle2: int)
    ensures
        spec_difference(angle1, angle2, TAU_FX as int) == spec_difference(
            angle2,
            angle1,
            TAU_FX as int,
        ),
        0 <= spec_difference(angle1, angle2, TAU_FX as int) <= PI_FX as int,
{
    vstd::arithmetic::div_mod::lemma_mod_bound(angle1, TAU_FX as int);
    vstd::arithmetic::div_mod::lemma_mod_bound(angle2, TAU_FX as int);
}

} // verus!
