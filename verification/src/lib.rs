//! Discrete Voronoi partitions of a pixel grid.
//!
//! Given a set of seed points, every pixel of a `width x height` grid is
//! colored after whichever seed is nearest under a selectable distance
//! metric; a small square marker is then drawn over each seed. A session
//! type holds the current parameters and recomputes the buffer in response
//! to interactive commands.

use vstd::prelude::*;

pub mod engine;
pub mod metric;
pub mod palette;
pub mod seeds;
pub mod session;

verus! {

/// Side, in pixels, of the square marker drawn at each seed, and the
/// margin kept from every edge of the grid when seeds are placed.
pub const MARKER_RADIUS: usize = 5;

/// Color of the marker squares (packed RGB black).
pub const MARKER_COLOR: u32 = 0;

/// Largest accepted grid dimension. Keeping both coordinates below this
/// bound keeps every squared-Euclidean distance within `isize` even on a
/// 32-bit machine, and every buffer index within `usize`.
pub const MAX_DIM: usize = 32768;

/// Smallest allowed seed count.
pub const MIN_SEEDS: usize = 1;

/// Largest allowed seed count.
pub const MAX_SEEDS: usize = 100;

} // verus!
