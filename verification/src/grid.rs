//! The tile grid builder: partition a requested working-system extent into a
//! regular grid of tiles at a coarsened zoom, each carrying a buffered
//! bounding box and an initially empty point buffer.
//!
//! A tile `(tx, ty)` at the effective zoom natively covers the square
//! `[tx*span, (tx+1)*span] x [ty*span, (ty+1)*span]` of working units, where
//! `span` is the supertile's pixel width divided by the pixels-per-meter
//! scale. Its stored box is that square grown on all sides by the buffer
//! distance `buffer_pixels / pixels_per_meter`, so neighbouring tiles overlap
//! and later interpolation has context across tile borders.

use vstd::prelude::*;
use vstd::arithmetic::power2::pow2;
use crate::bbox::BBox;
use crate::fixed::{floor_div, SCALE};
use crate::ingest::PointWithHeight;

verus! {

/// A grid cell key at a fixed zoom level; purely a coordinate, no behavior.
#[derive(Clone, Copy, Debug, PartialEq, Eq, Structural)]
pub struct TileId {
    pub x: i64,
    pub y: i64,
    pub zoom: u8,
}

/// One covered tile: its key, its buffered bounding box in the working
/// system, and the point buffer that ingestion appends to.
#[derive(Debug)]
pub struct TileMeta {
    pub id: TileId,
    pub bbox: BBox,
    pub points: Vec<PointWithHeight>,
}

/// Everything the grid builder is configured with. Pixel scale is a
/// fixed-point value (pixels per metre, scaled by `SCALE`).
#[derive(Clone, Copy, Debug, PartialEq, Eq, Structural)]
pub struct GridParams {
    pub zoom_level: u8,
    pub supertile_zoom_offset: u8,
    pub tile_size: u32,
    pub buffer: u32,
    pub pixels_per_meter: i64,
}

/// A pixel count turned into working units (millionths of a metre):
/// `px / pixels_per_meter` metres, rounded down to a whole unit.
pub open spec fn spec_px_to_units(px: int, ppm: int) -> int {
    px * SCALE * SCALE / ppm
}

/// Fixed-point conversion of a pixel count to working units.
fn px_to_units(px: u64, ppm: i64) -> (r: i64)
    requires
        0 < ppm,
        px <= 0x1_0000_0000_0000,
        spec_px_to_units(px as int, ppm as int) <= i64::MAX,
    ensures
        r == spec_px_to_units(px as int, ppm as int),
        0 <= r,
{
    proof {
        assert((px as int) * (SCALE as int) <= 0x1_0000_0000_0000 * (SCALE as int))
            by (nonlinear_arith)
            requires
                px <= 0x1_0000_0000_0000,
        ;
        vstd::arithmetic::mul::lemma_mul_inequality(
            (px as int) * (SCALE as int),
            0x1_0000_0000_0000 * (SCALE as int),
            SCALE as int,
        );
        vstd::arithmetic::mul::lemma_mul_nonnegative(px as int, SCALE as int);
        vstd::arithmetic::mul::lemma_mul_nonnegative((px as int) * (SCALE as int), SCALE as int);
        vstd::arithmetic::div_mod::lemma_div_pos_is_pos(
            (px as int) * (SCALE as int) * (SCALE as int),
            ppm as int,
        );
    }
    let wide: i128 = (px as i128) * (SCALE as i128) * (SCALE as i128);
    let q: i128 = wide / (ppm as i128);
    q as i64
}

impl GridParams {
    /// Well-formed configuration: the coarsening offset does not exceed the
    /// zoom, shifts and pixel sizes stay in machine range, and the pixel
    /// scale is positive.
    pub open spec fn wf(self) -> bool {
        &&& self.supertile_zoom_offset <= self.zoom_level
        &&& self.supertile_zoom_offset <= 16
        &&& 0 < self.tile_size <= 65536
        &&& 0 < self.pixels_per_meter
    }

    /// The coarsened zoom the grid is built at.
    pub open spec fn spec_effective_zoom(self) -> int {
        self.zoom_level - self.supertile_zoom_offset
    }

    /// Width in pixels of one supertile: the tile size scaled up by the
    /// coarsening offset.
    pub open spec fn spec_supertile_px(self) -> int {
        self.tile_size * pow2(self.supertile_zoom_offset as nat)
    }

    /// Width of one tile in working units.
    pub open spec fn spec_tile_span(self) -> int {
        spec_px_to_units(self.spec_supertile_px(), self.pixels_per_meter as int)
    }

    /// The buffer distance in working units.
    pub open spec fn spec_buffer_units(self) -> int {
        spec_px_to_units(self.buffer as int, self.pixels_per_meter as int)
    }

    /// Supertile pixel width, by shifting the tile size.
    pub fn supertile_px(&self) -> (r: u64)
        requires
            self.wf(),
        ensures
            r == self.spec_supertile_px(),
            0 < r <= 0x1_0000_0000u64,
    {
        proof {
            vstd::arithmetic::power2::lemma2_to64();
            if self.supertile_zoom_offset < 16 {
                vstd::arithmetic::power2::lemma_pow2_strictly_increases(
                    self.supertile_zoom_offset as nat,
                    16nat,
                );
            }
            vstd::arithmetic::mul::lemma_mul_upper_bound(
                self.tile_size as int,
                65536,
                pow2(self.supertile_zoom_offset as nat) as int,
                65536,
            );
            vstd::arithmetic::power2::lemma_pow2_pos(self.supertile_zoom_offset as nat);
            vstd::arithmetic::mul::lemma_mul_strictly_positive(
                self.tile_size as int,
                pow2(self.supertile_zoom_offset as nat) as int,
            );
            vstd::bits::lemma_u64_shl_is_mul(
                self.tile_size as u64,
                self.supertile_zoom_offset as u64,
            );
        }
        (self.tile_size as u64) << (self.supertile_zoom_offset as u64)
    }

    /// Width of one tile in working units.
    pub fn tile_span(&self) -> (r: i64)
        requires
            self.wf(),
            self.spec_tile_span() <= i64::MAX,
        ensures
            r == self.spec_tile_span(),
            0 <= r,
    {
        let px = self.supertile_px();
        px_to_units(px, self.pixels_per_meter)
    }

    /// The buffer distance in working units.
    pub fn buffer_units(&self) -> (r: i64)
        requires
            self.wf(),
            self.spec_buffer_units() <= i64::MAX,
        ensures
            r == self.spec_buffer_units(),
            0 <= r,
    {
        px_to_units(self.buffer as u64, self.pixels_per_meter)
    }
}

/// The buffered bounding box of tile `(tx, ty)` for a given tile span and
/// buffer distance, all in working units.
pub open spec fn spec_tile_bbox(tx: int, ty: int, span: int, buf: int) -> BBox {
    BBox {
        min_x: (tx * span - buf) as i64,
        min_y: (ty * span - buf) as i64,
        max_x: ((tx + 1) * span + buf) as i64,
        max_y: ((ty + 1) * span + buf) as i64,
    }
}

/// Number of tile columns the extent covers at a given span.
pub open spec fn spec_cols(extent: BBox, span: int) -> int {
    extent.max_x as int / span - extent.min_x as int / span + 1
}

/// Number of tile rows the extent covers at a given span.
pub open spec fn spec_rows(extent: BBox, span: int) -> int {
    extent.max_y as int / span - extent.min_y as int / span + 1
}

/// Build the ordered sequence of covered tiles for an extent: row-major over
/// the tile indices whose native square meets the extent, each tile carrying
/// its buffered box and an empty point buffer. Deterministic and pure.
pub fn build_tile_metas(extent: &BBox, params: &GridParams) -> (r: Vec<TileMeta>)
    requires
        extent.wf(),
        params.wf(),
        1 <= params.spec_tile_span(),
        params.spec_tile_span() <= i64::MAX,
        params.spec_buffer_units() <= i64::MAX,
        i64::MIN < extent.min_x,
        i64::MIN < extent.min_y,
        i64::MIN <= extent.min_x - params.spec_tile_span() - params.spec_buffer_units(),
        i64::MIN <= extent.min_y - params.spec_tile_span() - params.spec_buffer_units(),
        extent.max_x + params.spec_tile_span() + params.spec_buffer_units() <= i64::MAX,
        extent.max_y + params.spec_tile_span() + params.spec_buffer_units() <= i64::MAX,
        spec_cols(*extent, params.spec_tile_span()) * spec_rows(*extent, params.spec_tile_span())
            <= 0x1000_0000,
    ensures
        r@.len() == spec_cols(*extent, params.spec_tile_span()) * spec_rows(
            *extent,
            params.spec_tile_span(),
        ),
        forall|k: int|
            0 <= k < r@.len() ==> {
                let span = params.spec_tile_span();
                let buf = params.spec_buffer_units();
                let cols = spec_cols(*extent, span);
                let tx = extent.min_x as int / span + k % cols;
                let ty = extent.min_y as int / span + k / cols;
                &&& (#[trigger] r@[k]).id.x == tx
                &&& r@[k].id.y == ty
                &&& r@[k].id.zoom == params.spec_effective_zoom()
                &&& r@[k].bbox == spec_tile_bbox(tx, ty, span, buf)
                &&& r@[k].points@ == Seq::<PointWithHeight>::empty()
            },
{
    let span = params.tile_span();
    let buf = params.buffer_units();
    let tx0 = floor_div(extent.min_x, span);
    let tx1 = floor_div(extent.max_x, span);
    let ty0 = floor_div(extent.min_y, span);
    let ty1 = floor_div(extent.max_y, span);
    proof {
        vstd::arithmetic::div_mod::lemma_div_is_ordered(
            extent.min_x as int,
            extent.max_x as int,
            span as int,
        );
        vstd::arithmetic::div_mod::lemma_div_is_ordered(
            extent.min_y as int,
            extent.max_y as int,
            span as int,
        );
    }
    proof {
        // The requested cover is small, so each axis' index range is too.
        let c = tx1 as int - tx0 as int + 1;
        let w = ty1 as int - ty0 as int + 1;
        assert(c <= c * w && w <= c * w) by (nonlinear_arith)
            requires
                c >= 1 && w >= 1,
        ;
    }
    let ncols = tx1 - tx0 + 1;
    let nrows = ty1 - ty0 + 1;
    proof {
        // Corner tiles' native edges lie within one span of the extent.
        vstd::arithmetic::div_mod::lemma_fundamental_div_mod(extent.min_x as int, span as int);
        vstd::arithmetic::div_mod::lemma_mod_bound(extent.min_x as int, span as int);
        vstd::arithmetic::div_mod::lemma_fundamental_div_mod(extent.max_x as int, span as int);
        vstd::arithmetic::div_mod::lemma_mod_bound(extent.max_x as int, span as int);
        vstd::arithmetic::div_mod::lemma_fundamental_div_mod(extent.min_y as int, span as int);
        vstd::arithmetic::div_mod::lemma_mod_bound(extent.min_y as int, span as int);
        vstd::arithmetic::div_mod::lemma_fundamental_div_mod(extent.max_y as int, span as int);
        vstd::arithmetic::div_mod::lemma_mod_bound(extent.max_y as int, span as int);
        assert(tx0 * span == span * tx0 && (tx1 + 1) * span == span * tx1 + span && ty0 * span
            == span * ty0 && (ty1 + 1) * span == span * ty1 + span) by (nonlinear_arith);
        assert(ncols * nrows >= ncols && ncols * nrows >= nrows) by (nonlinear_arith)
            requires
                ncols >= 1 && nrows >= 1,
        ;
    }
    let total: i64 = ncols * nrows;
    let total_us: usize = total as usize;
    let zoom: u8 = params.zoom_level - params.supertile_zoom_offset;
    let mut r: Vec<TileMeta> = Vec::new();
    let mut k: usize = 0;
    while k < total_us
        invariant
            params.wf(),
            extent.wf(),
            span == params.spec_tile_span(),
            buf == params.spec_buffer_units(),
            1 <= span,
            0 <= buf,
            tx0 == extent.min_x as int / span as int,
            tx1 == extent.max_x as int / span as int,
            ty0 == extent.min_y as int / span as int,
            ty1 == extent.max_y as int / span as int,
            tx0 <= tx1,
            ty0 <= ty1,
            ncols == tx1 - tx0 + 1,
            nrows == ty1 - ty0 + 1,
            total == ncols * nrows,
            total <= 0x1000_0000,
            total_us == total,
            zoom == params.spec_effective_zoom(),
            tx0 * span > extent.min_x - span,
            (tx1 + 1) * span <= extent.max_x + span,
            ty0 * span > extent.min_y - span,
            (ty1 + 1) * span <= extent.max_y + span,
            i64::MIN <= extent.min_x - span - buf,
            i64::MIN <= extent.min_y - span - buf,
            extent.max_x + span + buf <= i64::MAX,
            extent.max_y + span + buf <= i64::MAX,
            k <= total_us,
            r@.len() == k,
            forall|m: int|
                0 <= m < k ==> {
                    let tx = tx0 + m % (ncols as int);
                    let ty = ty0 + m / (ncols as int);
                    &&& (#[trigger] r@[m]).id.x == tx
                    &&& r@[m].id.y == ty
                    &&& r@[m].id.zoom == params.spec_effective_zoom()
                    &&& r@[m].bbox == spec_tile_bbox(tx, ty, span as int, buf as int)
                    &&& r@[m].points@ == Seq::<PointWithHeight>::empty()
                },
        decreases total_us - k,
    {
        let kk = k as i64;
        let col = kk % ncols;
        let row = kk / ncols;
        proof {
            // row stays below nrows: the last index total - 1 has row nrows - 1.
            assert(ncols * (nrows - 1) + (ncols - 1) == ncols * nrows - 1) by (nonlinear_arith);
            vstd::arithmetic::div_mod::lemma_fundamental_div_mod_converse(
                total as int - 1,
                ncols as int,
                nrows as int - 1,
                ncols as int - 1,
            );
            vstd::arithmetic::div_mod::lemma_div_is_ordered(kk as int, total as int - 1, ncols as int);
            vstd::arithmetic::div_mod::lemma_div_pos_is_pos(kk as int, ncols as int);
            vstd::arithmetic::div_mod::lemma_mod_bound(kk as int, ncols as int);
        }
        let tx = tx0 + col;
        let ty = ty0 + row;
        proof {
            // The tile's native square sits within one span of the extent,
            // so the buffered corners stay in machine range.
            vstd::arithmetic::mul::lemma_mul_inequality(tx0 as int, tx as int, span as int);
            vstd::arithmetic::mul::lemma_mul_inequality(tx as int + 1, tx1 as int + 1, span as int);
            vstd::arithmetic::mul::lemma_mul_inequality(ty0 as int, ty as int, span as int);
            vstd::arithmetic::mul::lemma_mul_inequality(ty as int + 1, ty1 as int + 1, span as int);
            assert((tx + 1) * span == tx * span + span && (ty + 1) * span == ty * span + span)
                by (nonlinear_arith);
        }
        let min_x = tx * span - buf;
        let min_y = ty * span - buf;
        let max_x = (tx + 1) * span + buf;
        let max_y = (ty + 1) * span + buf;
        r.push(
            TileMeta {
                id: TileId { x: tx, y: ty, zoom },
                bbox: BBox { min_x, min_y, max_x, max_y },
                points: Vec::new(),
            },
        );
        k = k + 1;
    }
    r
}

} // verus!
