//! The shading compositor: per-definition illumination values, packed-color
//! byte access, and the alpha-aware blend of several illumination layers
//! into one RGB pixel.
//!
//! All quantities are fixed-point (see `crate::fixed`): illumination values,
//! contrast and brightness are scaled by `SCALE`; the per-definition
//! modulation terms are kept as exact products at scale `255 * SCALE`
//! (`MOD_SCALE`), so that a definition's weight byte enters the blend
//! linearly with no early rounding. Trigonometric factors that the Oblique
//! and Slope methods need (cosines and sines of zenith and slope angles) are
//! taken as fixed-point arguments supplied by the rendering stage; the Igor
//! method is free of trigonometry and is computed here in full.

use vstd::prelude::*;
use crate::fixed::{tdiv, lemma_tdiv_range, lemma_tdiv_mag, SCALE, PI_FX, TAU_FX};
use crate::angles::{spec_difference, difference_between_angles};

verus! {

/// One illumination layer: a method with its light parameters, and a packed
/// color `[R:bits24-31][G:bits16-23][B:bits8-15][weight:bits0-7]`.
///
/// The Igor azimuth is in fixed-point degrees, while the Oblique and Slope
/// parameters are fixed-point radians: the asymmetry is observed behavior of
/// the configuration format and is preserved deliberately.
#[derive(Clone, Copy, Debug, PartialEq, Eq, Structural)]
pub enum ShadingMethod {
    Igor { azimuth: i64 },
    Oblique { azimuth: i64, altitude: i64 },
    Slope { altitude: i64 },
}

/// A shading definition: method plus packed color-and-weight.
#[derive(Clone, Copy, Debug, PartialEq, Eq, Structural)]
pub struct Shading {
    pub method: ShadingMethod,
    pub color: u32,
}

/// One output pixel.
#[derive(Clone, Copy, Debug, PartialEq, Eq, Structural)]
pub struct Rgb {
    pub r: u8,
    pub g: u8,
    pub b: u8,
}

/// Largest Igor azimuth magnitude accepted, in fixed-point degrees.
pub const AZIMUTH_LIMIT: i64 = 1_000_000_000_000;

/// Largest contrast magnitude the compositor accepts, fixed-point: a
/// machine bound that only keeps the 128-bit intermediates of the blend in
/// range, three orders of magnitude past any plausible configuration.
pub const CONTRAST_LIMIT: i64 = 1024 * SCALE;

/// Largest brightness magnitude the compositor accepts, fixed-point; the
/// same machine bound as `CONTRAST_LIMIT`.
pub const BRIGHTNESS_LIMIT: i64 = 1024 * SCALE;

/// Scale of the per-definition modulation terms: weight byte times `SCALE`.
pub const MOD_SCALE: i64 = 255 * SCALE;

/// The most layers one blend accepts: a machine bound. A layer's `1 - mod`
/// factor can reach -4 on the admitted illumination values, so the running
/// transparency product can grow fourfold per layer; 32 layers is what the
/// 128-bit intermediate accommodates with room to spare.
pub const MAX_SHADINGS: usize = 32;

/// Largest magnitude the running transparency product can reach:
/// `MOD_SCALE` times four to the power `MAX_SHADINGS`.
pub const KEEP_BOUND: i128 = 255_000_000 * 0x1_0000_0000_0000_0000;

/// The weight byte of a packed color: its low byte, read as an unsigned
/// fraction of 255.
pub open spec fn spec_weight(color: u32) -> int {
    (color & 0xFF) as int
}

/// The color byte of a packed color at a byte offset (24, 16, 8 for R, G, B).
pub open spec fn spec_channel_byte(color: u32, shift: u32) -> int {
    ((color >> shift) & 0xFF) as int
}

/// Every byte pulled out of a packed color is in `[0, 255]`.
pub proof fn lemma_packed_bytes_bounded(color: u32, shift: u32)
    requires
        shift < 32,
    ensures
        0 <= spec_weight(color) <= 255,
        0 <= spec_channel_byte(color, shift) <= 255,
{
    assert((color & 0xFF) <= 255) by (bit_vector);
    assert(((color >> shift) & 0xFF) <= 255) by (bit_vector);
}

/// The weight byte is independent of the RGB bytes: two packed colors that
/// agree above the low byte have identical R, G and B channels, whatever
/// their weights.
pub proof fn lemma_weight_independent_of_rgb(c1: u32, c2: u32)
    requires
        c1 >> 8 == c2 >> 8,
    ensures
        spec_channel_byte(c1, 8) == spec_channel_byte(c2, 8),
        spec_channel_byte(c1, 16) == spec_channel_byte(c2, 16),
        spec_channel_byte(c1, 24) == spec_channel_byte(c2, 24),
{
    assert((c1 >> 8 == c2 >> 8) ==> ((c1 >> 8) & 0xFF == (c2 >> 8) & 0xFF && (c1 >> 16) & 0xFF == (
    c2 >> 16) & 0xFF && (c1 >> 24) & 0xFF == (c2 >> 24) & 0xFF)) by (bit_vector);
}

/// The modulation a definition contributes at an illumination value, kept at
/// scale `MOD_SCALE`: the weight byte times `1 - value`, never rounded.
pub open spec fn spec_mod_num(color: u32, value: int) -> int {
    spec_weight(color) * (SCALE - value)
}

/// The Igor illumination value: how far the cell's aspect points away from
/// the light direction, weighted by slope. The azimuth is converted from
/// fixed-point degrees to radians first.
pub open spec fn spec_igor_value(aspect: int, slope: int, azimuth: int) -> int {
    let az_rad = tdiv(azimuth * PI_FX, 180 * SCALE);
    let diff = spec_difference(aspect, 3 * PI_FX / 2 - az_rad, TAU_FX as int);
    let strength = SCALE - tdiv(diff * SCALE, PI_FX as int);
    SCALE - tdiv(slope * 2 * strength, SCALE as int)
}

/// The Oblique illumination value from the trigonometric factors of the
/// zenith and slope angles and of the azimuth-aspect difference:
/// `cos(zenith)*cos(slope) + sin(zenith)*sin(slope)*cos(azimuth - aspect)`.
pub open spec fn spec_oblique_value(cz: int, sz: int, cs: int, ss: int, ca: int) -> int {
    tdiv(cz * cs, SCALE as int) + tdiv(tdiv(sz * ss, SCALE as int) * ca, SCALE as int)
}

/// The Slope (ambient) illumination value: the Oblique formula with the
/// azimuth term dropped, so it is direction-independent.
pub open spec fn spec_slope_value(cz: int, sz: int, cs: int, ss: int) -> int {
    tdiv(cz * cs, SCALE as int) + tdiv(sz * ss, SCALE as int)
}

/// Igor method: aspect and slope in fixed-point radians, azimuth in
/// fixed-point degrees. Pure integer arithmetic; no trigonometry.
pub fn igor_value(aspect: i64, slope: i64, azimuth: i64) -> (r: i64)
    requires
        -AZIMUTH_LIMIT <= azimuth <= AZIMUTH_LIMIT,
        0 <= slope <= PI_FX / 2,
    ensures
        r == spec_igor_value(aspect as int, slope as int, azimuth as int),
        SCALE - PI_FX <= r <= SCALE,
{
    let az_rad = (azimuth * PI_FX) / (180 * SCALE);
    let target = 3 * PI_FX / 2 - az_rad;
    let diff = difference_between_angles(aspect, target, TAU_FX);
    proof {
        vstd::arithmetic::mul::lemma_mul_inequality(diff as int, PI_FX as int, SCALE as int);
        vstd::arithmetic::mul::lemma_mul_nonnegative(diff as int, SCALE as int);
        lemma_tdiv_range(diff as int * SCALE as int, PI_FX as int, 0, SCALE as int);
    }
    let strength = SCALE - (diff * SCALE) / PI_FX;
    proof {
        assert(0 <= slope * 2 * strength <= PI_FX as int * SCALE as int) by (nonlinear_arith)
            requires
                0 <= slope <= PI_FX as int / 2 && 0 <= strength <= SCALE as int,
        ;
        lemma_tdiv_range(slope as int * 2 * strength as int, SCALE as int, 0, PI_FX as int);
    }
    let shaded = (slope * 2 * strength) / SCALE;
    SCALE - shaded
}

/// Two squares dominate twice the product: `-(x*x + y*y) <= 2*x*y <= x*x + y*y`.
proof fn lemma_am_gm(x: int, y: int)
    ensures
        2 * (x * y) <= x * x + y * y,
        -(x * x + y * y) <= 2 * (x * y),
        0 <= x * x,
        0 <= y * y,
{
    assert(2 * (x * y) <= x * x + y * y && -(x * x + y * y) <= 2 * (x * y) && 0 <= x * x && 0 <= y
        * y) by (nonlinear_arith);
}

/// A point on or inside a circle of radius `s` has both coordinates within
/// `s`.
proof fn lemma_sq_bound(x: int, y: int, s: int)
    requires
        0 < s,
        x * x + y * y <= s * s,
    ensures
        -s <= x <= s,
        -s <= y <= s,
{
    assert(-s <= x <= s && -s <= y <= s) by (nonlinear_arith)
        requires
            0 < s && x * x + y * y <= s * s,
    ;
}

/// Oblique method, from fixed-point cosine/sine factors. The zenith and
/// slope factor pairs must each lie on or inside the unit circle, which any
/// sine/cosine pair converted with rounding toward zero satisfies; the
/// result then stays within one, so it feeds `shade` directly.
pub fn oblique_value(cz: i64, sz: i64, cs: i64, ss: i64, ca: i64) -> (r: i64)
    requires
        cz * cz + sz * sz <= SCALE * SCALE,
        cs * cs + ss * ss <= SCALE * SCALE,
        -SCALE <= ca <= SCALE,
    ensures
        r == spec_oblique_value(cz as int, sz as int, cs as int, ss as int, ca as int),
        -SCALE <= r <= SCALE,
{
    proof {
        lemma_sq_bound(cz as int, sz as int, SCALE as int);
        lemma_sq_bound(cs as int, ss as int, SCALE as int);
        lemma_am_gm(cz as int, cs as int);
        lemma_am_gm(sz as int, ss as int);
        lemma_tdiv_mag(cz as int * cs as int, SCALE as int);
        lemma_tdiv_mag(sz as int * ss as int, SCALE as int);
    }
    let t1 = (cz * cs) / SCALE;
    let inner = (sz * ss) / SCALE;
    proof {
        let c = inner as int * ca as int;
        assert((inner >= 0 ==> -(SCALE as int * inner as int) <= c <= SCALE as int * inner as int)
            && (inner < 0 ==> SCALE as int * inner as int <= c <= -(SCALE as int * inner as int)))
            by (nonlinear_arith)
            requires
                c == inner as int * ca as int && -SCALE <= ca <= SCALE,
        ;
        lemma_tdiv_mag(c, SCALE as int);
    }
    let t2 = (inner * ca) / SCALE;
    t1 + t2
}

/// Slope (ambient) method, from fixed-point cosine/sine factors on or
/// inside the unit circle; the result stays within one.
pub fn slope_value(cz: i64, sz: i64, cs: i64, ss: i64) -> (r: i64)
    requires
        cz * cz + sz * sz <= SCALE * SCALE,
        cs * cs + ss * ss <= SCALE * SCALE,
    ensures
        r == spec_slope_value(cz as int, sz as int, cs as int, ss as int),
        -SCALE <= r <= SCALE,
{
    proof {
        lemma_sq_bound(cz as int, sz as int, SCALE as int);
        lemma_sq_bound(cs as int, ss as int, SCALE as int);
        lemma_am_gm(cz as int, cs as int);
        lemma_am_gm(sz as int, ss as int);
        lemma_tdiv_mag(cz as int * cs as int, SCALE as int);
        lemma_tdiv_mag(sz as int * ss as int, SCALE as int);
    }
    let t1 = (cz * cs) / SCALE;
    let t2 = (sz * ss) / SCALE;
    t1 + t2
}

/// Running total of the modulation terms of the first `n` definitions.
pub open spec fn spec_mods_sum(sh: Seq<Shading>, vals: Seq<i64>, n: int) -> int
    decreases n,
{
    if n <= 0 {
        0
    } else {
        spec_mods_sum(sh, vals, n - 1) + spec_mod_num(sh[n - 1].color, vals[n - 1] as int)
    }
}

/// Combined transparency of the first `n` layers, at scale `MOD_SCALE`:
/// the running product of `1 - mod`; the blend's alpha is its complement.
pub open spec fn spec_keep(sh: Seq<Shading>, vals: Seq<i64>, n: int) -> int
    decreases n,
{
    if n <= 0 {
        MOD_SCALE as int
    } else {
        tdiv(
            spec_keep(sh, vals, n - 1) * (MOD_SCALE - spec_mod_num(sh[n - 1].color, vals[n - 1] as int)),
            MOD_SCALE as int,
        )
    }
}

/// Modulation-weighted sum of one color channel over the first `n`
/// definitions, at scale `MOD_SCALE * 255`.
pub open spec fn spec_channel_sum(sh: Seq<Shading>, vals: Seq<i64>, shift: u32, n: int) -> int
    decreases n,
{
    if n <= 0 {
        0
    } else {
        spec_channel_sum(sh, vals, shift, n - 1) + spec_mod_num(sh[n - 1].color, vals[n - 1] as int)
            * spec_channel_byte(sh[n - 1].color, shift)
    }
}

/// One output channel of the blend: normalise the weighted channel sum,
/// apply contrast and brightness, lighten toward white by the combined
/// transparency, and clamp to a byte.
pub open spec fn spec_shade_channel(
    sh: Seq<Shading>,
    vals: Seq<i64>,
    contrast: int,
    brightness: int,
    shift: u32,
) -> int {
    let n = sh.len() as int;
    let norm = 1 + spec_mods_sum(sh, vals, n);
    let keep = spec_keep(sh, vals, n);
    let cs = spec_channel_sum(sh, vals, shift, n);
    let q = tdiv(cs * SCALE, 255 * norm);
    let t = tdiv(contrast * (q - SCALE / 2), SCALE as int) + SCALE / 2 + brightness;
    let t2 = t + tdiv((SCALE - t) * tdiv(keep, 255), SCALE as int);
    let byte = tdiv(t2 * 255, SCALE as int);
    if byte < 0 {
        0
    } else if byte > 255 {
        255
    } else {
        byte
    }
}

/// Every illumination value handed to the blend lies in `[-4, 1]`: one is
/// the ceiling every illumination formula respects (so modulations stay
/// nonnegative and the normalisation term stays positive), and minus four
/// covers the steepest Igor value, `1 - pi`, with room to spare.
pub open spec fn values_in_range(vals: Seq<i64>) -> bool {
    forall|i: int| 0 <= i < vals.len() ==> -4 * SCALE <= #[trigger] vals[i] <= SCALE
}

/// One channel of the blend, from the precomputed modulation terms.
#[verifier::rlimit(60)]
fn channel_value(
    values: &Vec<i64>,
    shadings: &Vec<Shading>,
    mods: &Vec<i64>,
    norm: i64,
    keep: i128,
    contrast: i64,
    brightness: i64,
    shift: u32,
) -> (r: u8)
    requires
        shift == 8 || shift == 16 || shift == 24,
        values@.len() == shadings@.len(),
        mods@.len() == shadings@.len(),
        shadings@.len() <= MAX_SHADINGS,
        forall|m: int|
            0 <= m < mods@.len() ==> #[trigger] mods@[m] == spec_mod_num(
                shadings@[m].color,
                values@[m] as int,
            ),
        forall|m: int| 0 <= m < mods@.len() ==> 0 <= #[trigger] mods@[m] <= 5 * MOD_SCALE,
        norm == 1 + spec_mods_sum(shadings@, values@, shadings@.len() as int),
        1 <= norm,
        keep == spec_keep(shadings@, values@, shadings@.len() as int),
        -KEEP_BOUND <= keep <= KEEP_BOUND,
        -CONTRAST_LIMIT <= contrast <= CONTRAST_LIMIT,
        -BRIGHTNESS_LIMIT <= brightness <= BRIGHTNESS_LIMIT,
    ensures
        r == spec_shade_channel(
            shadings@,
            values@,
            contrast as int,
            brightness as int,
            shift,
        ),
{
    let n = shadings.len();
    let mut cs: i64 = 0;
    let mut ps: i64 = 0;
    let mut i: usize = 0;
    while i < n
        invariant
            n == shadings@.len(),
            values@.len() == n,
            mods@.len() == n,
            n <= MAX_SHADINGS,
            shift < 32,
            forall|m: int|
                0 <= m < n ==> #[trigger] mods@[m] == spec_mod_num(
                    shadings@[m].color,
                    values@[m] as int,
                ),
            forall|m: int| 0 <= m < n ==> 0 <= #[trigger] mods@[m] <= 5 * MOD_SCALE,
            i <= n,
            ps == spec_mods_sum(shadings@, values@, i as int),
            0 <= ps <= 5 * MOD_SCALE * i,
            cs == spec_channel_sum(shadings@, values@, shift, i as int),
            0 <= cs <= 255 * ps,
        decreases n - i,
    {
        let c = shadings[i].color;
        let cb = ((c >> shift) & 0xFF) as i64;
        proof {
            assert(((c >> shift) & 0xFF) <= 255) by (bit_vector);
            assert(0 <= mods@[i as int] * cb <= 255 * mods@[i as int]) by (nonlinear_arith)
                requires
                    0 <= cb <= 255 && 0 <= mods@[i as int],
            ;
            assert(5 * MOD_SCALE * (i + 1) == 5 * MOD_SCALE * i + 5 * MOD_SCALE)
                by (nonlinear_arith);
            assert(5 * MOD_SCALE * i <= 5 * MOD_SCALE * 32) by (nonlinear_arith)
                requires
                    0 <= i <= 32,
            ;
        }
        let term = mods[i] * cb;
        cs = cs + term;
        ps = ps + mods[i];
        i = i + 1;
    }
    proof {
        vstd::arithmetic::mul::lemma_mul_inequality(cs as int, 255 * norm, SCALE as int);
        vstd::arithmetic::mul::lemma_mul_nonnegative(cs as int, SCALE as int);
        vstd::arithmetic::mul::lemma_mul_strictly_positive(255, norm as int);
        lemma_tdiv_range(cs as int * SCALE as int, 255 * norm as int, 0, SCALE as int);
    }
    let q = (((cs as i128) * (SCALE as i128)) / (255 * (norm as i128))) as i64;
    proof {
        assert(-(CONTRAST_LIMIT as int * SCALE as int) <= contrast * (q - SCALE / 2)
            <= CONTRAST_LIMIT as int * SCALE as int) by (nonlinear_arith)
            requires
                -CONTRAST_LIMIT <= contrast <= CONTRAST_LIMIT && -SCALE <= q - SCALE / 2 <= SCALE,
        ;
        lemma_tdiv_range(
            contrast as int * (q - SCALE / 2) as int,
            SCALE as int,
            -CONTRAST_LIMIT as int,
            CONTRAST_LIMIT as int,
        );
    }
    let ct = (((contrast as i128) * ((q - SCALE / 2) as i128)) / (SCALE as i128)) as i64;
    let t = ct + SCALE / 2 + brightness;
    proof {
        lemma_tdiv_range(keep as int, 255, -KEEP_BOUND as int, KEEP_BOUND as int);
    }
    let keep_s = keep / 255;
    proof {
        assert(-(2050 * SCALE as int * KEEP_BOUND as int) <= (SCALE - t) * keep_s <= 2050
            * SCALE as int * KEEP_BOUND as int) by (nonlinear_arith)
            requires
                -2050 * SCALE <= SCALE - t <= 2050 * SCALE && -KEEP_BOUND <= keep_s <= KEEP_BOUND,
        ;
        assert(SCALE as int * (2050 * KEEP_BOUND as int) == 2050 * SCALE as int * KEEP_BOUND as int
            && SCALE as int * (-(2050 * KEEP_BOUND as int)) == -(2050 * SCALE as int
            * KEEP_BOUND as int)) by (nonlinear_arith);
        lemma_tdiv_range(
            (SCALE - t) as int * keep_s as int,
            SCALE as int,
            -(2050 * KEEP_BOUND as int),
            2050 * KEEP_BOUND as int,
        );
    }
    let sc = (((SCALE - t) as i128) * keep_s) / (SCALE as i128);
    let t2 = (t as i128) + sc;
    proof {
        assert(-(SCALE as int * (2051 * KEEP_BOUND as int)) <= t2 * 255 <= SCALE as int * (2051
            * KEEP_BOUND as int)) by (nonlinear_arith)
            requires
                -(2051 * KEEP_BOUND as int) <= t2 <= 2051 * KEEP_BOUND as int && SCALE == 1_000_000
                    && KEEP_BOUND > 0,
        ;
        lemma_tdiv_range(
            t2 as int * 255,
            SCALE as int,
            -(2051 * KEEP_BOUND as int),
            2051 * KEEP_BOUND as int,
        );
    }
    let byte = (t2 * 255) / (SCALE as i128);
    if byte < 0 {
        0
    } else if byte > 255 {
        255
    } else {
        byte as u8
    }
}

/// Blend one cell's illumination values, one per definition, into an RGB
/// pixel: per-definition modulations from the weight bytes, a normalised,
/// contrast- and brightness-adjusted weighted color, then a lighten toward
/// white by the combined transparency of all layers, clamped to bytes.
pub fn shade(values: &Vec<i64>, shadings: &Vec<Shading>, contrast: i64, brightness: i64) -> (pixel:
    Rgb)
    requires
        values@.len() == shadings@.len(),
        shadings@.len() <= MAX_SHADINGS,
        values_in_range(values@),
        -CONTRAST_LIMIT <= contrast <= CONTRAST_LIMIT,
        -BRIGHTNESS_LIMIT <= brightness <= BRIGHTNESS_LIMIT,
    ensures
        pixel.r == spec_shade_channel(shadings@, values@, contrast as int, brightness as int, 24),
        pixel.g == spec_shade_channel(shadings@, values@, contrast as int, brightness as int, 16),
        pixel.b == spec_shade_channel(shadings@, values@, contrast as int, brightness as int, 8),
{
    let n = shadings.len();
    let mut mods: Vec<i64> = Vec::new();
    let mut summ: i64 = 0;
    let mut i: usize = 0;
    while i < n
        invariant
            n == shadings@.len(),
            values@.len() == n,
            n <= MAX_SHADINGS,
            values_in_range(values@),
            i <= n,
            mods@.len() == i,
            forall|m: int|
                0 <= m < i ==> #[trigger] mods@[m] == spec_mod_num(
                    shadings@[m].color,
                    values@[m] as int,
                ),
            forall|m: int| 0 <= m < i ==> 0 <= #[trigger] mods@[m] <= 5 * MOD_SCALE,
            summ == spec_mods_sum(shadings@, values@, i as int),
            0 <= summ <= 5 * MOD_SCALE * i,
        decreases n - i,
    {
        let c = shadings[i].color;
        proof {
            assert((c & 0xFF) <= 255) by (bit_vector);
        }
        let w = (c & 0xFF) as i64;
        proof {
            assert(0 <= w * (SCALE - values@[i as int]) <= 5 * MOD_SCALE) by (nonlinear_arith)
                requires
                    0 <= w <= 255 && -4 * SCALE <= values@[i as int] <= SCALE && MOD_SCALE == 255
                        * SCALE,
            ;
            assert(5 * MOD_SCALE * (i + 1) == 5 * MOD_SCALE * i + 5 * MOD_SCALE)
                by (nonlinear_arith);
            assert(5 * MOD_SCALE * i <= 5 * MOD_SCALE * 32) by (nonlinear_arith)
                requires
                    0 <= i <= 32,
            ;
        }
        let m = w * (SCALE - values[i]);
        mods.push(m);
        summ = summ + m;
        i = i + 1;
    }
    proof {
        assert(5 * MOD_SCALE * n <= 5 * MOD_SCALE * 32) by (nonlinear_arith)
            requires
                0 <= n <= 32,
        ;
    }
    let norm = 1 + summ;
    proof {
        vstd::arithmetic::power2::lemma2_to64();
        vstd::arithmetic::power2::lemma_pow2(2);
        vstd::arithmetic::power2::lemma_pow2(64);
        vstd::arithmetic::power::lemma_pow_multiplies(2, 2, 32);
        vstd::arithmetic::power::lemma_pow0(4);
        assert(vstd::arithmetic::power::pow(4, 32) == 0x1_0000_0000_0000_0000);
    }
    let mut keep: i128 = MOD_SCALE as i128;
    i = 0;
    while i < n
        invariant
            n == shadings@.len(),
            values@.len() == n,
            mods@.len() == n,
            n <= MAX_SHADINGS,
            forall|m: int|
                0 <= m < n ==> #[trigger] mods@[m] == spec_mod_num(
                    shadings@[m].color,
                    values@[m] as int,
                ),
            forall|m: int| 0 <= m < n ==> 0 <= #[trigger] mods@[m] <= 5 * MOD_SCALE,
            i <= n,
            keep == spec_keep(shadings@, values@, i as int),
            -(MOD_SCALE as int * vstd::arithmetic::power::pow(4, i as nat)) <= keep,
            keep <= MOD_SCALE as int * vstd::arithmetic::power::pow(4, i as nat),
            vstd::arithmetic::power::pow(4, 32) == 0x1_0000_0000_0000_0000,
        decreases n - i,
    {
        let f = MOD_SCALE - mods[i];
        proof {
            let p4 = vstd::arithmetic::power::pow(4, i as nat);
            vstd::arithmetic::power::lemma_pow_positive(4, i as nat);
            vstd::arithmetic::power::lemma_pow_increases(4, i as nat, 32);
            assert(-(MOD_SCALE * (4 * MOD_SCALE * p4)) <= keep * f && keep * f <= MOD_SCALE * (4
                * MOD_SCALE * p4) && MOD_SCALE * (4 * MOD_SCALE * p4) <= MOD_SCALE * (4 * MOD_SCALE
                * 0x1_0000_0000_0000_0000)) by (nonlinear_arith)
                requires
                    -(MOD_SCALE * p4) <= keep <= MOD_SCALE * p4 && -(4 * MOD_SCALE) <= f <= 4
                        * MOD_SCALE && 1 <= p4 <= 0x1_0000_0000_0000_0000 && MOD_SCALE == 255
                        * SCALE && SCALE == 1_000_000,
            ;
            lemma_tdiv_range(
                keep as int * f as int,
                MOD_SCALE as int,
                -(4 * MOD_SCALE * p4),
                4 * MOD_SCALE * p4,
            );
            vstd::arithmetic::power::lemma_pow_adds(4, i as nat, 1);
            vstd::arithmetic::power::lemma_pow1(4);
            assert(MOD_SCALE * (p4 * 4) == 4 * MOD_SCALE * p4) by (nonlinear_arith);
        }
        keep = (keep * (f as i128)) / (MOD_SCALE as i128);
        i = i + 1;
    }
    proof {
        vstd::arithmetic::power::lemma_pow_positive(4, n as nat);
        vstd::arithmetic::power::lemma_pow_increases(4, n as nat, 32);
        assert(MOD_SCALE as int * vstd::arithmetic::power::pow(4, n as nat) <= MOD_SCALE as int
            * vstd::arithmetic::power::pow(4, 32)) by (nonlinear_arith)
            requires
                0 < MOD_SCALE && vstd::arithmetic::power::pow(4, n as nat)
                    <= vstd::arithmetic::power::pow(4, 32),
        ;
    }
    let r = channel_value(values, shadings, &mods, norm, keep, contrast, brightness, 24);
    let g = channel_value(values, shadings, &mods, norm, keep, contrast, brightness, 16);
    let b = channel_value(values, shadings, &mods, norm, keep, contrast, brightness, 8);
    Rgb { r, g, b }
}

/// Modulations are linear in the weight byte: splitting a definition's
/// weight over two copies with the same RGB bytes and the same illumination
/// value preserves the total modulation mass, the normalisation term, and
/// every color channel's weighted sum exactly.
pub proof fn lemma_mods_linear_in_weight(d1: Shading, d2: Shading, d: Shading, v: i64, shift: u32)
    requires
        spec_weight(d1.color) + spec_weight(d2.color) == spec_weight(d.color),
        d1.color >> 8 == d.color >> 8,
        d2.color >> 8 == d.color >> 8,
        shift == 8 || shift == 16 || shift == 24,
    ensures
        spec_mod_num(d1.color, v as int) + spec_mod_num(d2.color, v as int) == spec_mod_num(
            d.color,
            v as int,
        ),
        spec_mods_sum(seq![d1, d2], seq![v, v], 2) == spec_mods_sum(seq![d], seq![v], 1),
        spec_channel_sum(seq![d1, d2], seq![v, v], shift, 2) == spec_channel_sum(
            seq![d],
            seq![v],
            shift,
            1,
        ),
{
    let w1 = spec_weight(d1.color);
    let w2 = spec_weight(d2.color);
    let w = spec_weight(d.color);
    assert(w1 * (SCALE - v) + w2 * (SCALE - v) == w * (SCALE - v)) by (nonlinear_arith)
        requires
            w1 + w2 == w,
    ;
    lemma_weight_independent_of_rgb(d1.color, d.color);
    lemma_weight_independent_of_rgb(d2.color, d.color);
    let cb = spec_channel_byte(d.color, shift);
    assert(w1 * (SCALE - v) * cb + w2 * (SCALE - v) * cb == w * (SCALE - v) * cb)
        by (nonlinear_arith)
        requires
            w1 * (SCALE - v) + w2 * (SCALE - v) == w * (SCALE - v),
    ;
    reveal_with_fuel(spec_mods_sum, 3);
    reveal_with_fuel(spec_channel_sum, 3);
    let two: Seq<Shading> = seq![d1, d2];
    let twov: Seq<i64> = seq![v, v];
    let one: Seq<Shading> = seq![d];
    let onev: Seq<i64> = seq![v];
    assert(two[0] == d1 && two[1] == d2 && twov[0] == v && twov[1] == v && one[0] == d && onev[0]
        == v);
    assert(spec_mods_sum(two, twov, 2) == spec_mods_sum(two, twov, 1) + spec_mod_num(
        d2.color,
        v as int,
    ));
    assert(spec_mods_sum(two, twov, 1) == spec_mod_num(d1.color, v as int));
    assert(spec_mods_sum(one, onev, 1) == spec_mod_num(d.color, v as int));
    assert(spec_channel_sum(two, twov, shift, 2) == spec_channel_sum(two, twov, shift, 1)
        + spec_mod_num(d2.color, v as int) * spec_channel_byte(d2.color, shift));
    assert(spec_channel_sum(two, twov, shift, 1) == spec_mod_num(d1.color, v as int)
        * spec_channel_byte(d1.color, shift));
    assert(spec_channel_sum(one, onev, shift, 1) == spec_mod_num(d.color, v as int)
        * spec_channel_byte(d.color, shift));
}

} // verus!
