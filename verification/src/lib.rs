//! Tile-based terrain pipeline core: a grid builder that covers a requested
//! extent with buffered tiles, point-ingestion filtering and placement, and
//! a terrain-shading engine (finite-difference derivatives, angle handling,
//! and an alpha-aware multi-layer shading compositor).
//!
//! All geometry and photometry is fixed-point integer arithmetic (see
//! `fixed`); the surrounding pipeline converts at its edges, performs file
//! and database I/O, reprojects coordinates, and evaluates the arc tangents
//! and trigonometric factors that connect the derivative and shading stages.

pub mod angles;
pub mod bbox;
pub mod fixed;
pub mod grid;
pub mod ingest;
pub mod shading;
pub mod slope;
