//! Shared index and size types for the simulation grid.

use vstd::prelude::*;

verus! {

/// Number of cells along each axis: `[width, height]`.
pub type GridSize = [usize; 2];

/// A cell position `(x, y)`; `(0, 0)` is the upper-left corner, so "north"
/// means decreasing `y`.
pub type GridIndex = (usize, usize);

/// A velocity `[u, v]`, each component the bit pattern of a binary64 value.
pub type Velocity = [u64; 2];

/// The physical extent `[width, height]` of one cell, each component the
/// bit pattern of a binary64 value.
pub type CellPhysicalSize = [u64; 2];

/// The position of a boundary cell. Kept distinct from `GridIndex` so the
/// canonical ordering of the boundary list has a type of its own.
#[derive(Debug, Clone, Copy, PartialEq, Eq)]
pub struct BoundaryIndex(pub usize, pub usize);

} // verus!
