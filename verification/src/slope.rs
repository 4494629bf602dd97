//! The finite-difference terrain kernel: for an interior cell of a row-major
//! elevation grid, the two directional derivatives that slope and aspect are
//! later derived from.
//!
//! Heights and the vertical exaggeration factor are fixed-point values
//! (see `crate::fixed`). The kernel weights the eight neighbours exactly as
//! the standard method does: the raw derivative is the weighted sum divided
//! by eight, and the exaggeration factor is applied afterwards (the
//! fixed-point rescale is folded into that second step). Turning the
//! derivative pair into slope and aspect angles takes arc tangents, which the
//! rendering stage supplies; on a flat grid both derivatives are exactly
//! zero, so that stage starts from an exact zero rather than a rounded one.

use vstd::prelude::*;
use crate::fixed::{tdiv, lemma_tdiv_range, SCALE};

verus! {

/// Largest height magnitude the kernel accepts, in fixed-point units.
pub const HEIGHT_LIMIT: i64 = 0x10_0000_0000;

/// Largest exaggeration-factor magnitude the kernel accepts, fixed-point.
pub const ZFACTOR_LIMIT: i64 = 0x400_0000;

/// West-east derivative of the cell `(x, y)`: the weighted neighbour sum
/// divided by eight, then scaled by the exaggeration factor.
pub open spec fn spec_dz_dx(e: Seq<i64>, z: int, cols: int, x: int, y: int) -> int {
    let off = y * cols;
    tdiv(
        tdiv(
            -e[off - cols + x - 1] + e[off - cols + x + 1] - 2 * e[off + x - 1] + 2 * e[off + x
                + 1] - e[off + cols + x - 1] + e[off + cols + x + 1],
            8,
        ) * z,
        SCALE as int,
    )
}

/// South-north derivative of the cell `(x, y)`, same scheme as `spec_dz_dx`.
pub open spec fn spec_dz_dy(e: Seq<i64>, z: int, cols: int, x: int, y: int) -> int {
    let off = y * cols;
    tdiv(
        tdiv(
            -e[off - cols + x - 1] - 2 * e[off - cols + x] - e[off - cols + x + 1] + e[off + cols
                + x - 1] + 2 * e[off + cols + x] + e[off + cols + x + 1],
            8,
        ) * z,
        SCALE as int,
    )
}

/// All heights the kernel may read stay within `HEIGHT_LIMIT`.
pub open spec fn heights_bounded(e: Seq<i64>) -> bool {
    forall|i: int| 0 <= i < e.len() ==> -HEIGHT_LIMIT <= #[trigger] e[i] <= HEIGHT_LIMIT
}

/// Compute both derivatives of one interior cell from its 3x3 neighbourhood.
pub fn compute_derivatives(elevation: &Vec<i64>, z_factor: i64, cols: usize, x: usize, y: usize) -> (r: (
    i64,
    i64,
))
    requires
        3 <= cols,
        1 <= x && x + 1 < cols,
        1 <= y,
        (y + 2) * cols <= elevation@.len(),
        heights_bounded(elevation@),
        -ZFACTOR_LIMIT <= z_factor <= ZFACTOR_LIMIT,
    ensures
        r.0 == spec_dz_dx(elevation@, z_factor as int, cols as int, x as int, y as int),
        r.1 == spec_dz_dy(elevation@, z_factor as int, cols as int, x as int, y as int),
{
    let n = elevation.len();
    proof {
        vstd::arithmetic::mul::lemma_mul_inequality(y as int, y as int + 2, cols as int);
        vstd::arithmetic::mul::lemma_mul_inequality(y as int + 1, y as int + 2, cols as int);
        vstd::arithmetic::mul::lemma_mul_inequality(1, y as int, cols as int);
        vstd::arithmetic::mul::lemma_mul_nonnegative(y as int, cols as int);
        assert((y + 1) * cols == y * cols + cols && (y + 2) * cols == y * cols + 2 * cols
            && 1 * cols == cols) by (nonlinear_arith);
    }
    let off = y * cols;
    let z1 = elevation[off - cols + x - 1];
    let z2 = elevation[off - cols + x];
    let z3 = elevation[off - cols + x + 1];
    let z4 = elevation[off + x - 1];
    let z6 = elevation[off + x + 1];
    let z7 = elevation[off + cols + x - 1];
    let z8 = elevation[off + cols + x];
    let z9 = elevation[off + cols + x + 1];
    let sum_x = -z1 + z3 - 2 * z4 + 2 * z6 - z7 + z9;
    let sum_y = -z1 - 2 * z2 - z3 + z7 + 2 * z8 + z9;
    proof {
        lemma_tdiv_range(sum_x as int, 8, -HEIGHT_LIMIT as int, HEIGHT_LIMIT as int);
        lemma_tdiv_range(sum_y as int, 8, -HEIGHT_LIMIT as int, HEIGHT_LIMIT as int);
    }
    let dx0 = sum_x / 8;
    let dy0 = sum_y / 8;
    proof {
        assert(-0x4000_0000_0000_0000 <= dx0 * z_factor <= 0x4000_0000_0000_0000
            && -0x4000_0000_0000_0000 <= dy0 * z_factor <= 0x4000_0000_0000_0000)
            by (nonlinear_arith)
            requires
                -HEIGHT_LIMIT <= dx0 <= HEIGHT_LIMIT && -HEIGHT_LIMIT <= dy0 <= HEIGHT_LIMIT
                    && -ZFACTOR_LIMIT <= z_factor <= ZFACTOR_LIMIT,
        ;
    }
    let dx = (dx0 * z_factor) / SCALE;
    let dy = (dy0 * z_factor) / SCALE;
    (dx, dy)
}

/// A perfectly flat grid has zero derivatives at every interior cell: the
/// neighbour weights cancel, so the later slope angle is an exact zero and
/// the aspect angle is forced to the neutral zero rather than left undefined.
pub proof fn lemma_flat_grid_zero_derivatives(
    e: Seq<i64>,
    z: int,
    cols: int,
    x: int,
    y: int,
    h: i64,
)
    requires
        3 <= cols,
        1 <= x && x + 1 < cols,
        1 <= y,
        (y + 2) * cols <= e.len(),
        forall|i: int| 0 <= i < e.len() ==> #[trigger] e[i] == h,
    ensures
        spec_dz_dx(e, z, cols, x, y) == 0,
        spec_dz_dy(e, z, cols, x, y) == 0,
{
    vstd::arithmetic::mul::lemma_mul_inequality(y + 1, y + 2, cols);
    vstd::arithmetic::mul::lemma_mul_inequality(1, y, cols);
    vstd::arithmetic::mul::lemma_mul_nonnegative(y, cols);
    assert((y + 1) * cols == y * cols + cols && (y + 2) * cols == y * cols + 2 * cols
        && 1 * cols == cols) by (nonlinear_arith);
    let off = y * cols;
    assert(e[off - cols + x - 1] == h);
    assert(e[off - cols + x] == h);
    assert(e[off - cols + x + 1] == h);
    assert(e[off + x - 1] == h);
    assert(e[off + x + 1] == h);
    assert(e[off + cols + x - 1] == h);
    assert(e[off + cols + x] == h);
    assert(e[off + cols + x + 1] == h);
    assert(tdiv(0, 8) == 0);
    assert(tdiv(0 * z, SCALE as int) == 0);
}

/// Derivatives for every interior cell of a `rows x cols` grid, in row-major
/// order over the interior; the one-cell border has no full neighbourhood
/// and is skipped. A grid with fewer than three rows or columns has no
/// interior cell at all and yields the empty sequence, so the surrounding
/// renderer degrades to an untouched (all-black) image.
pub fn compute_derivative_grid(elevation: &Vec<i64>, z_factor: i64, rows: usize, cols: usize) -> (r:
    Vec<(i64, i64)>)
    requires
        1 <= cols,
        1 <= rows,
        rows * cols == elevation@.len(),
        heights_bounded(elevation@),
        -ZFACTOR_LIMIT <= z_factor <= ZFACTOR_LIMIT,
    ensures
        3 <= rows && 3 <= cols ==> r@.len() == (rows - 2) * (cols - 2),
        !(3 <= rows && 3 <= cols) ==> r@.len() == 0,
        forall|k: int|
            0 <= k < r@.len() ==> {
                let x = 1 + k % (cols - 2);
                let y = 1 + k / (cols - 2);
                &&& (#[trigger] r@[k]).0 == spec_dz_dx(
                    elevation@,
                    z_factor as int,
                    cols as int,
                    x,
                    y,
                )
                &&& r@[k].1 == spec_dz_dy(elevation@, z_factor as int, cols as int, x, y)
            },
{
    if rows < 3 || cols < 3 {
        return Vec::new();
    }
    let n = elevation.len();
    let icols = cols - 2;
    let irows = rows - 2;
    proof {
        vstd::arithmetic::mul::lemma_mul_upper_bound(
            irows as int,
            rows as int,
            icols as int,
            cols as int,
        );
    }
    let total = irows * icols;
    let mut r: Vec<(i64, i64)> = Vec::new();
    let mut k: usize = 0;
    while k < total
        invariant
            3 <= cols,
            3 <= rows,
            icols == cols - 2,
            irows == rows - 2,
            total == irows * icols,
            rows * cols == elevation@.len(),
            heights_bounded(elevation@),
            -ZFACTOR_LIMIT <= z_factor <= ZFACTOR_LIMIT,
            k <= total,
            r@.len() == k,
            forall|m: int|
                0 <= m < k ==> {
                    let x = 1 + m % (icols as int);
                    let y = 1 + m / (icols as int);
                    &&& (#[trigger] r@[m]).0 == spec_dz_dx(
                        elevation@,
                        z_factor as int,
                        cols as int,
                        x,
                        y,
                    )
                    &&& r@[m].1 == spec_dz_dy(elevation@, z_factor as int, cols as int, x, y)
                },
        decreases total - k,
    {
        let x = 1 + k % icols;
        let y = 1 + k / icols;
        proof {
            assert((icols as int) * (irows as int - 1) + (icols as int - 1) == (irows as int) * (
            icols as int) - 1) by (nonlinear_arith);
            vstd::arithmetic::div_mod::lemma_fundamental_div_mod_converse(
                total as int - 1,
                icols as int,
                irows as int - 1,
                icols as int - 1,
            );
            vstd::arithmetic::div_mod::lemma_div_is_ordered(k as int, total as int - 1, icols as int);
            vstd::arithmetic::div_mod::lemma_mod_bound(k as int, icols as int);
            vstd::arithmetic::mul::lemma_mul_inequality(y as int + 2, rows as int, cols as int);
        }
        let d = compute_derivatives(elevation, z_factor, cols, x, y);
        r.push(d);
        k = k + 1;
    }
    r
}

} // verus!
