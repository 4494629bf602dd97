use laz2dem::angles::{difference_between_angles, normalize_angle};
use laz2dem::bbox::BBox;
use laz2dem::fixed::{floor_div, PI_FX, SCALE, TAU_FX};
use laz2dem::grid::{build_tile_metas, GridParams};
use laz2dem::ingest::{accept_point, place_point, Classification, PointWithHeight};
use laz2dem::shading::{igor_value, oblique_value, shade, slope_value, Rgb, Shading, ShadingMethod};
use laz2dem::slope::{compute_derivative_grid, compute_derivatives};

#[test]
fn bbox_buffering_accepts_overlap_point() {
    // A box buffered by 2 grows to {-2,-2,12,12}; a point at (11,11) is
    // accepted by the buffered box but rejected by the native extent.
    let native = BBox::new(0, 0, 10, 10);
    let buffered = native.to_extended(2);
    assert_eq!(buffered, BBox::new(-2, -2, 12, 12));
    assert!(buffered.contains(11, 11));
    assert!(!native.contains(11, 11));
}

#[test]
fn bbox_overlap_test() {
    let archive = BBox::new(5, 5, 15, 15);
    assert!(archive.overlaps(&BBox::new(0, 0, 10, 10)));
    assert!(!archive.overlaps(&BBox::new(20, 20, 30, 30)));
}

#[test]
fn floor_div_rounds_toward_negative_infinity() {
    assert_eq!(floor_div(7, 2), 3);
    assert_eq!(floor_div(-7, 2), -4);
    assert_eq!(floor_div(-8, 2), -4);
}

#[test]
fn normalize_angle_stays_in_turn() {
    assert_eq!(normalize_angle(-1_000_000, TAU_FX), TAU_FX - 1_000_000);
    assert_eq!(normalize_angle(TAU_FX + 5, TAU_FX), 5);
    let r = normalize_angle(-987_654_321, TAU_FX);
    assert!(0 <= r && r < TAU_FX);
}

#[test]
fn angle_difference_symmetric_and_bounded() {
    // Wrap-aware shortest distance, symmetric, never more than a half turn.
    assert_eq!(difference_between_angles(0, PI_FX, TAU_FX), PI_FX);
    assert_eq!(difference_between_angles(0, TAU_FX - 100, TAU_FX), 100);
    let a = 1_234_567;
    let b = -7_654_321;
    let d1 = difference_between_angles(a, b, TAU_FX);
    let d2 = difference_between_angles(b, a, TAU_FX);
    assert_eq!(d1, d2);
    assert!(0 <= d1 && d1 <= PI_FX);
}

#[test]
fn grid_covers_extent_with_buffered_tiles() {
    // One pixel per metre, 256-pixel tiles: a 300m x 1m extent covers two
    // tile columns in one row, each box buffered by 2m on every side.
    let params = GridParams {
        zoom_level: 1,
        supertile_zoom_offset: 0,
        tile_size: 256,
        buffer: 2,
        pixels_per_meter: SCALE,
    };
    let extent = BBox::new(0, 0, 300 * SCALE, SCALE);
    let tiles = build_tile_metas(&extent, &params);
    let span = 256 * SCALE;
    let buf = 2 * SCALE;
    assert_eq!(tiles.len(), 2);
    assert_eq!(tiles[0].id.x, 0);
    assert_eq!(tiles[0].id.y, 0);
    assert_eq!(tiles[1].id.x, 1);
    assert_eq!(tiles[0].bbox, BBox::new(-buf, -buf, span + buf, span + buf));
    assert_eq!(tiles[1].bbox, BBox::new(span - buf, -buf, 2 * span + buf, span + buf));
    assert!(tiles.iter().all(|t| t.points.is_empty()));
}

#[test]
fn accept_point_filters_classification_and_box() {
    let query = BBox::new(0, 0, 100, 100);
    assert!(accept_point(Classification::Ground, 50, 50, &query));
    assert!(!accept_point(Classification::Other, 50, 50, &query));
    assert!(!accept_point(Classification::Ground, 150, 50, &query));
}

#[test]
fn overlap_point_lands_in_both_tiles() {
    let params = GridParams {
        zoom_level: 1,
        supertile_zoom_offset: 0,
        tile_size: 256,
        buffer: 2,
        pixels_per_meter: SCALE,
    };
    let extent = BBox::new(0, 0, 300 * SCALE, SCALE);
    let mut tiles = build_tile_metas(&extent, &params);
    let working = extent;
    // A point in the buffered overlap strip around x = 256m lies in both
    // tiles' buffered boxes and must be appended to both buffers.
    let p = PointWithHeight { x: 256 * SCALE, y: 0, height: 7 };
    assert!(tiles[0].bbox.contains(p.x, p.y));
    assert!(tiles[1].bbox.contains(p.x, p.y));
    place_point(&mut tiles, &working, p);
    assert_eq!(tiles[0].points.len(), 1);
    assert_eq!(tiles[1].points.len(), 1);
    assert_eq!(tiles[0].points[0], p);
    assert_eq!(tiles[1].points[0], p);
    // A point outside the working extent is dropped everywhere.
    let outside = PointWithHeight { x: -SCALE, y: 0, height: 7 };
    place_point(&mut tiles, &working, outside);
    assert_eq!(tiles[0].points.len(), 1);
    assert_eq!(tiles[1].points.len(), 1);
    // Every buffered point lies inside its tile's buffered box.
    for t in tiles.iter() {
        for q in t.points.iter() {
            assert!(t.bbox.contains(q.x, q.y));
        }
    }
}

#[test]
fn degenerate_grids_yield_no_interior_cells() {
    // Grids with fewer than three rows or columns have no full 3x3
    // neighbourhood anywhere: the derivative field is empty and the
    // renderer degrades to an untouched image.
    let two_rows = vec![SCALE; 6];
    assert!(compute_derivative_grid(&two_rows, SCALE, 2, 3).is_empty());
    let two_cols = vec![SCALE; 6];
    assert!(compute_derivative_grid(&two_cols, SCALE, 3, 2).is_empty());
    let single = vec![SCALE; 1];
    assert!(compute_derivative_grid(&single, SCALE, 1, 1).is_empty());
}

#[test]
fn flat_grid_has_zero_derivatives() {
    // 3x3 grid of constant elevation 10.0 with z-factor 1: the interior
    // cell's derivatives are exactly zero, so slope and aspect are zero.
    let elevation = vec![10 * SCALE; 9];
    let (dx, dy) = compute_derivatives(&elevation, SCALE, 3, 1, 1);
    assert_eq!(dx, 0);
    assert_eq!(dy, 0);
    let grid = compute_derivative_grid(&elevation, SCALE, 3, 3);
    assert_eq!(grid.len(), 1);
    assert_eq!(grid[0], (0, 0));
}

#[test]
fn tilted_grid_has_expected_derivative() {
    // Heights rise by 8 units per column: dz/dx = (8*8)/8 = 8 per cell.
    let mut elevation = Vec::new();
    for y in 0..3i64 {
        let _ = y;
        for x in 0..3i64 {
            elevation.push(8 * x);
        }
    }
    let (dx, dy) = compute_derivatives(&elevation, SCALE, 3, 1, 1);
    assert_eq!(dx, 8);
    assert_eq!(dy, 0);
}

#[test]
fn igor_value_flat_is_full_light() {
    // Zero slope: aspect strength is irrelevant and the value is exactly 1.
    assert_eq!(igor_value(0, 0, 0), SCALE);
    assert_eq!(igor_value(123_456, 0, 90 * SCALE), SCALE);
}

#[test]
fn igor_value_steep_facing_away() {
    // Aspect pointing exactly at the light: strength 1 at diff 0 side.
    let v = igor_value(0, PI_FX / 2, 270 * SCALE);
    assert!(v < SCALE);
}

#[test]
fn directional_values_flat_sun_overhead() {
    // altitude pi/2 means zenith 0: cos(zenith)=1, sin(zenith)=0; flat cell
    // has cos(slope)=1, sin(slope)=0, so both methods give exactly 1.
    assert_eq!(slope_value(SCALE, 0, SCALE, 0), SCALE);
    assert_eq!(oblique_value(SCALE, 0, SCALE, 0, SCALE), SCALE);
}

#[test]
fn shade_flat_fully_lit_pixel_is_white() {
    // A single Slope layer with the sun straight up on a flat cell gives
    // illumination 1, so its modulation is zero: the layer is fully
    // transparent and the screen-lighten step saturates the pixel to white.
    let def = Shading { method: ShadingMethod::Slope { altitude: PI_FX / 2 }, color: 0xC83264FF };
    let values = vec![SCALE];
    let pixel = shade(&values, &vec![def], SCALE, 0);
    assert_eq!(pixel, Rgb { r: 255, g: 255, b: 255 });
}

#[test]
fn shade_split_weight_matches_at_zero_modulation() {
    // Splitting one definition's weight across two copies with the same RGB
    // bytes changes nothing when the modulation is zero.
    let one = vec![Shading { method: ShadingMethod::Slope { altitude: 0 }, color: 0xC83264FF }];
    let two = vec![
        Shading { method: ShadingMethod::Slope { altitude: 0 }, color: 0xC832647F },
        Shading { method: ShadingMethod::Slope { altitude: 0 }, color: 0xC8326480 },
    ];
    let p1 = shade(&vec![SCALE], &one, SCALE, 0);
    let p2 = shade(&vec![SCALE, SCALE], &two, SCALE, 0);
    assert_eq!(p1, p2);
}

#[test]
fn shade_accepts_steepest_igor_value() {
    // The steepest Igor value, 1 - pi, feeds the compositor directly: an
    // aspect facing the light on a maximal slope darkens a black layer all
    // the way down, and the clamped channel stays at zero.
    let v = igor_value(0, PI_FX / 2, 270 * SCALE);
    assert_eq!(v, SCALE - PI_FX);
    let def = Shading { method: ShadingMethod::Igor { azimuth: 270 * SCALE }, color: 0x000000FF };
    let pixel = shade(&vec![v], &vec![def], SCALE, 0);
    assert_eq!(pixel, Rgb { r: 0, g: 0, b: 0 });
}

#[test]
fn shade_opaque_dark_layer() {
    // Illumination -1 with weight 255 gives modulation 2 (fully opaque with
    // the screen step cancelled): the channel value is driven to the
    // normalised color scaled around the midpoint.
    let def = Shading { method: ShadingMethod::Igor { azimuth: 0 }, color: 0x000000FF };
    let pixel = shade(&vec![-SCALE], &vec![def], SCALE, 0);
    // channel sum is 0 for black, so contrast pulls the value to -0.5+0.5=0
    // and the opaque layer (alpha 1 up to rounding) keeps it black.
    assert_eq!(pixel.r, 0);
    assert_eq!(pixel.g, 0);
    assert_eq!(pixel.b, 0);
}
