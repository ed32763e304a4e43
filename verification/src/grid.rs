//! The simulation grid: cell-type storage, the boundary-cell classifier and
//! the boundary-condition appliers.
//!
//! The grid stores one scalar per cell in flat row-major vectors (`x` major,
//! `y` minor), so the cell at `(x, y)` lives at index `x * height + y`.  The
//! boundary list is derived state: it is rebuilt whenever the cell types
//! change and holds, in increasing flat order, every boundary cell together
//! with its edge classification.

pub mod presets;

use vstd::prelude::*;

use crate::cell::BoundaryCell;
use crate::cell::Cell;
use crate::flat_index;
use crate::scalar::TWO_BITS;
use crate::scalar::ZERO_BITS;
use crate::scalar::add_bits;
use crate::scalar::div_bits;
use crate::scalar::neg_bits;
use crate::scalar::real_add;
use crate::scalar::real_div;
use crate::scalar::real_neg;
use crate::types::BoundaryIndex;
use crate::types::GridIndex;
use crate::types::GridSize;

verus! {

/// Which of a boundary cell's orthogonal neighbors are fluid, with the grid
/// position of each fluid neighbor.  "North" is decreasing `y` (the
/// upper-left corner is `(0, 0)`).
#[derive(Debug, Clone, Copy, PartialEq)]
pub enum EdgeType {
    North { north_neighbor: GridIndex },
    NorthEast { north_neighbor: GridIndex, east_neighbor: GridIndex },
    East { east_neighbor: GridIndex },
    SouthEast { south_neighbor: GridIndex, east_neighbor: GridIndex },
    South { south_neighbor: GridIndex },
    SouthWest { south_neighbor: GridIndex, west_neighbor: GridIndex },
    West { west_neighbor: GridIndex },
    NorthWest { north_neighbor: GridIndex, west_neighbor: GridIndex },
}

/// The ways building or using a grid can fail.  Each variant carries the
/// offending cell's type and coordinates.
#[derive(Debug, Clone, Copy, PartialEq)]
pub enum SimulationGridError {
    /// A boundary-classified index's cell type unexpectedly is not a
    /// boundary cell: an internal-consistency fault.
    BoundaryListIncorrectError(Cell, GridIndex),
    /// A boundary cell has fluid neighbors on opposite sides of an axis.
    BoundaryTooThinError(Cell, GridIndex),
}

/// The derived boundary classification of a grid.
#[derive(Debug)]
pub struct BoundaryList {
    /// The positions of all boundary cells, in increasing flat order.
    pub boundaries: Vec<BoundaryIndex>,
    /// Every boundary cell with its edge classification, in increasing flat
    /// order.
    pub sorted_boundary_list: Vec<(GridIndex, Option<EdgeType>)>,
    /// How many cells of the grid are fluid.
    pub fluid_cells: usize,
    /// Scratch storage: the velocity values to re-impose after the
    /// unconstrained velocity correction, rebuilt on every call of
    /// `set_boundary_u_and_v`.
    pub u_v_restore: Vec<(GridIndex, Option<u64>, Option<u64>)>,
}

/// A grid as it arrives from outside, before the boundary list exists.
/// Kept distinct from `SimulationGrid` so a grid can never be used with a
/// stale or missing boundary list.
#[derive(Debug)]
pub struct UnfinalizedSimulationGrid {
    pub size: GridSize,
    pub pressure: Vec<u64>,
    pub u: Vec<u64>,
    pub v: Vec<u64>,
    pub cell_type: Vec<Cell>,
}

/// The simulation grid: sizes, the per-cell scalar fields, the cell types
/// and the derived boundary list.
#[derive(Debug)]
pub struct SimulationGrid {
    pub size: GridSize,
    pub pressure: Vec<u64>,
    pub u: Vec<u64>,
    pub v: Vec<u64>,
    pub cell_type: Vec<Cell>,
    pub boundaries: BoundaryList,
}

/// Width of a grid of the given size.
pub open spec fn grid_w(size: GridSize) -> int {
    size[0] as int
}

/// Height of a grid of the given size.
pub open spec fn grid_h(size: GridSize) -> int {
    size[1] as int
}

/// Number of cells of a grid of the given size.
pub open spec fn grid_area(size: GridSize) -> int {
    grid_w(size) * grid_h(size)
}

/// Whether `(x, y)` lies inside the grid.
pub open spec fn in_grid(size: GridSize, x: int, y: int) -> bool {
    0 <= x < grid_w(size) && 0 <= y < grid_h(size)
}

/// The cell type stored at `(x, y)`.
pub open spec fn cell_at(cells: Seq<Cell>, size: GridSize, x: int, y: int) -> Cell {
    cells[flat_index(size, x, y)]
}

/// Whether `(x, y)` is inside the grid and fluid.
pub open spec fn fluid_at(cells: Seq<Cell>, size: GridSize, x: int, y: int) -> bool {
    in_grid(size, x, y) && cell_at(cells, size, x, y) is Fluid
}

/// Whether `(x, y)` is inside the grid and a boundary cell.
pub open spec fn boundary_at(cells: Seq<Cell>, size: GridSize, x: int, y: int) -> bool {
    in_grid(size, x, y) && cell_at(cells, size, x, y) is Boundary
}

/// A boundary cell is too thin when fluid touches it on both sides of
/// either axis.
pub open spec fn too_thin(cells: Seq<Cell>, size: GridSize, x: int, y: int) -> bool {
    (fluid_at(cells, size, x - 1, y) && fluid_at(cells, size, x + 1, y)) || (fluid_at(
        cells,
        size,
        x,
        y - 1,
    ) && fluid_at(cells, size, x, y + 1))
}

/// The edge classification of the cell at `(x, y)`: which of its orthogonal
/// neighbors are fluid, by the fixed eight-way table.  Meaningful only when
/// the cell is not too thin.
pub open spec fn edge_spec(cells: Seq<Cell>, size: GridSize, x: int, y: int) -> Option<EdgeType> {
    let l = fluid_at(cells, size, x - 1, y);
    let r = fluid_at(cells, size, x + 1, y);
    let up = fluid_at(cells, size, x, y - 1);
    let dn = fluid_at(cells, size, x, y + 1);
    let west = (((x - 1) as usize), (y as usize));
    let east = (((x + 1) as usize), (y as usize));
    let north = ((x as usize), ((y - 1) as usize));
    let south = ((x as usize), ((y + 1) as usize));
    if l && !r && !up && !dn {
        Some(EdgeType::West { west_neighbor: west })
    } else if l && !r && up && !dn {
        Some(EdgeType::NorthWest { north_neighbor: north, west_neighbor: west })
    } else if !l && !r && up && !dn {
        Some(EdgeType::North { north_neighbor: north })
    } else if !l && r && up && !dn {
        Some(EdgeType::NorthEast { north_neighbor: north, east_neighbor: east })
    } else if !l && r && !up && !dn {
        Some(EdgeType::East { east_neighbor: east })
    } else if !l && r && !up && dn {
        Some(EdgeType::SouthEast { south_neighbor: south, east_neighbor: east })
    } else if !l && !r && !up && dn {
        Some(EdgeType::South { south_neighbor: south })
    } else if l && !r && !up && dn {
        Some(EdgeType::SouthWest { south_neighbor: south, west_neighbor: west })
    } else {
        None
    }
}

/// The boundary-list entry of the cell at `(x, y)`.
pub open spec fn entry_at(cells: Seq<Cell>, size: GridSize, x: int, y: int) -> (
    GridIndex,
    Option<EdgeType>,
) {
    (((x as usize), (y as usize)), edge_spec(cells, size, x, y))
}

/// The boundary-list entries of the cells `(x, 0)` through `(x, n - 1)`.
pub open spec fn row_entries(cells: Seq<Cell>, size: GridSize, x: int, n: int) -> Seq<
    (GridIndex, Option<EdgeType>),
>
    decreases n,
{
    if n <= 0 {
        Seq::empty()
    } else {
        let rest = row_entries(cells, size, x, n - 1);
        if boundary_at(cells, size, x, n - 1) {
            rest.push(entry_at(cells, size, x, n - 1))
        } else {
            rest
        }
    }
}

/// The boundary-list entries of the first `n` columns.
pub open spec fn entries_upto(cells: Seq<Cell>, size: GridSize, n: int) -> Seq<
    (GridIndex, Option<EdgeType>),
>
    decreases n,
{
    if n <= 0 {
        Seq::empty()
    } else {
        entries_upto(cells, size, n - 1) + row_entries(cells, size, n - 1, grid_h(size))
    }
}

/// The canonical boundary list of a grid: every boundary cell with its edge
/// classification, in increasing flat order.
pub open spec fn boundary_entries(cells: Seq<Cell>, size: GridSize) -> Seq<
    (GridIndex, Option<EdgeType>),
> {
    entries_upto(cells, size, grid_w(size))
}

/// The boundary positions of the cells `(x, 0)` through `(x, n - 1)`.
pub open spec fn row_bidx(cells: Seq<Cell>, size: GridSize, x: int, n: int) -> Seq<BoundaryIndex>
    decreases n,
{
    if n <= 0 {
        Seq::empty()
    } else {
        let rest = row_bidx(cells, size, x, n - 1);
        if boundary_at(cells, size, x, n - 1) {
            rest.push(BoundaryIndex(x as usize, (n - 1) as usize))
        } else {
            rest
        }
    }
}

/// The boundary positions of the first `n` columns.
pub open spec fn bidx_upto(cells: Seq<Cell>, size: GridSize, n: int) -> Seq<BoundaryIndex>
    decreases n,
{
    if n <= 0 {
        Seq::empty()
    } else {
        bidx_upto(cells, size, n - 1) + row_bidx(cells, size, n - 1, grid_h(size))
    }
}

/// The number of fluid cells among `(x, 0)` through `(x, n - 1)`.
pub open spec fn row_fluid(cells: Seq<Cell>, size: GridSize, x: int, n: int) -> int
    decreases n,
{
    if n <= 0 {
        0
    } else {
        row_fluid(cells, size, x, n - 1) + if fluid_at(cells, size, x, n - 1) {
            1int
        } else {
            0int
        }
    }
}

/// The number of fluid cells in the first `n` columns.
pub open spec fn fluid_upto(cells: Seq<Cell>, size: GridSize, n: int) -> int
    decreases n,
{
    if n <= 0 {
        0
    } else {
        fluid_upto(cells, size, n - 1) + row_fluid(cells, size, n - 1, grid_h(size))
    }
}

/// The number of fluid cells of the whole grid.
pub open spec fn fluid_count(cells: Seq<Cell>, size: GridSize) -> int {
    fluid_upto(cells, size, grid_w(size))
}

/// Whether no boundary cell of the grid is too thin: the condition under
/// which classification succeeds.
pub open spec fn no_too_thin(cells: Seq<Cell>, size: GridSize) -> bool {
    forall|x: int, y: int| #![auto]
        boundary_at(cells, size, x, y) ==> !too_thin(cells, size, x, y)
}

impl BoundaryList {
    /// The derived fields describe exactly the given cell types.
    pub open spec fn wf_for(self, cells: Seq<Cell>, size: GridSize) -> bool {
        &&& self.sorted_boundary_list@ == boundary_entries(cells, size)
        &&& self.boundaries@ == bidx_upto(cells, size, grid_w(size))
        &&& self.fluid_cells as int == fluid_count(cells, size)
    }
}

impl UnfinalizedSimulationGrid {
    /// The raw fields are mutually consistent: both extents are at least
    /// one and every per-cell vector holds one value per cell.
    pub open spec fn wf(self) -> bool {
        &&& grid_w(self.size) >= 1
        &&& grid_h(self.size) >= 1
        &&& self.pressure@.len() == grid_area(self.size)
        &&& self.u@.len() == grid_area(self.size)
        &&& self.v@.len() == grid_area(self.size)
        &&& self.cell_type@.len() == grid_area(self.size)
    }
}

impl SimulationGrid {
    /// The raw fields are mutually consistent, independent of the derived
    /// boundary list.
    pub open spec fn arrays_wf(self) -> bool {
        &&& grid_w(self.size) >= 1
        &&& grid_h(self.size) >= 1
        &&& self.pressure@.len() == grid_area(self.size)
        &&& self.u@.len() == grid_area(self.size)
        &&& self.v@.len() == grid_area(self.size)
        &&& self.cell_type@.len() == grid_area(self.size)
    }

    /// The grid is well formed: raw fields consistent and the boundary list
    /// derived from the current cell types.
    pub open spec fn wf(self) -> bool {
        &&& self.arrays_wf()
        &&& self.boundaries.wf_for(self.cell_type@, self.size)
    }
}

/// A flat index stays inside a grid's cell vectors.
pub proof fn lemma_flat_bounds(size: GridSize, x: int, y: int)
    requires
        in_grid(size, x, y),
    ensures
        0 <= flat_index(size, x, y) < grid_area(size),
    decreases 0int,
{
    assert(0 <= x * grid_h(size) + y < grid_w(size) * grid_h(size)) by (nonlinear_arith)
        requires
            0 <= x < grid_w(size),
            0 <= y < grid_h(size),
    ;
}

/// Distinct positions have distinct flat indices.
pub proof fn lemma_flat_injective(size: GridSize, x1: int, y1: int, x2: int, y2: int)
    requires
        in_grid(size, x1, y1),
        in_grid(size, x2, y2),
        !(x1 == x2 && y1 == y2),
    ensures
        flat_index(size, x1, y1) != flat_index(size, x2, y2),
{
    assert(x1 * grid_h(size) + y1 != x2 * grid_h(size) + y2) by (nonlinear_arith)
        requires
            0 <= x1 < grid_w(size),
            0 <= y1 < grid_h(size),
            0 <= x2 < grid_w(size),
            0 <= y2 < grid_h(size),
            !(x1 == x2 && y1 == y2),
    ;
}

impl SimulationGrid {
    /// The four orthogonal neighbors of `idx`, each with its position and
    /// cell type, in the order north, south, east, west; a neighbor outside
    /// the grid is absent.
    fn neighbors(&self, idx: GridIndex) -> (r: [Option<(GridIndex, Cell)>; 4])
        requires
            self.arrays_wf(),
            in_grid(self.size, idx.0 as int, idx.1 as int),
        ensures
            r@[0] == if idx.1 > 0 {
                Some(
                    ((idx.0, (idx.1 - 1) as usize), cell_at(
                        self.cell_type@,
                        self.size,
                        idx.0 as int,
                        idx.1 - 1,
                    )),
                )
            } else {
                None::<(GridIndex, Cell)>
            },
            r@[1] == if idx.1 + 1 < grid_h(self.size) {
                Some(
                    ((idx.0, (idx.1 + 1) as usize), cell_at(
                        self.cell_type@,
                        self.size,
                        idx.0 as int,
                        idx.1 + 1,
                    )),
                )
            } else {
                None::<(GridIndex, Cell)>
            },
            r@[2] == if idx.0 + 1 < grid_w(self.size) {
                Some(
                    (((idx.0 + 1) as usize, idx.1), cell_at(
                        self.cell_type@,
                        self.size,
                        idx.0 + 1,
                        idx.1 as int,
                    )),
                )
            } else {
                None::<(GridIndex, Cell)>
            },
            r@[3] == if idx.0 > 0 {
                Some(
                    (((idx.0 - 1) as usize, idx.1), cell_at(
                        self.cell_type@,
                        self.size,
                        idx.0 - 1,
                        idx.1 as int,
                    )),
                )
            } else {
                None::<(GridIndex, Cell)>
            },
    {
        let h = self.size[1];
        let n_cells = self.cell_type.len();
        proof {
            assert(grid_area(self.size) == n_cells as int);
        }
        let north: Option<(GridIndex, Cell)> = if idx.1 > 0 {
            let test_index = (idx.0, idx.1 - 1);
            proof {
                lemma_flat_bounds(self.size, idx.0 as int, idx.1 - 1);
            }
            Some((test_index, self.cell_type[idx.0 * h + (idx.1 - 1)]))
        } else {
            None
        };

        let south: Option<(GridIndex, Cell)> = if idx.1 < self.size[1] - 1 {
            let test_index = (idx.0, idx.1 + 1);
            proof {
                lemma_flat_bounds(self.size, idx.0 as int, idx.1 + 1);
            }
            Some((test_index, self.cell_type[idx.0 * h + (idx.1 + 1)]))
        } else {
            None
        };

        let east: Option<(GridIndex, Cell)> = if idx.0 < self.size[0] - 1 {
            let test_index = (idx.0 + 1, idx.1);
            proof {
                lemma_flat_bounds(self.size, idx.0 + 1, idx.1 as int);
            }
            Some((test_index, self.cell_type[(idx.0 + 1) * h + idx.1]))
        } else {
            None
        };

        let west: Option<(GridIndex, Cell)> = if idx.0 > 0 {
            let test_index = (idx.0 - 1, idx.1);
            proof {
                lemma_flat_bounds(self.size, idx.0 - 1, idx.1 as int);
            }
            Some((test_index, self.cell_type[(idx.0 - 1) * h + idx.1]))
        } else {
            None
        };

        [north, south, east, west]
    }

    /// Classify the cell at `cell_idx`: which of its orthogonal neighbors
    /// are fluid, by the fixed table, or `BoundaryTooThinError` when fluid
    /// touches it on both sides of an axis.
    fn calculate_edges(&self, cell_idx: GridIndex) -> (r: Result<
        Option<EdgeType>,
        SimulationGridError,
    >)
        requires
            self.arrays_wf(),
            in_grid(self.size, cell_idx.0 as int, cell_idx.1 as int),
        ensures
            !too_thin(self.cell_type@, self.size, cell_idx.0 as int, cell_idx.1 as int) ==> r
                == Ok::<_, SimulationGridError>(
                edge_spec(self.cell_type@, self.size, cell_idx.0 as int, cell_idx.1 as int),
            ),
            too_thin(self.cell_type@, self.size, cell_idx.0 as int, cell_idx.1 as int) ==> r
                == Err::<Option<EdgeType>, _>(
                SimulationGridError::BoundaryTooThinError(
                    cell_at(self.cell_type@, self.size, cell_idx.0 as int, cell_idx.1 as int),
                    cell_idx,
                ),
            ),
    {
        let ns = self.neighbors(cell_idx);
        let north_neighbor = ns[0];
        let south_neighbor = ns[1];
        let east_neighbor = ns[2];
        let west_neighbor = ns[3];

        let left: Option<GridIndex> = match west_neighbor {
            Some((idx, Cell::Fluid)) => Some(idx),
            _ => None,
        };

        let right: Option<GridIndex> = match east_neighbor {
            Some((idx, Cell::Fluid)) => Some(idx),
            _ => None,
        };

        let up: Option<GridIndex> = match north_neighbor {
            Some((idx, Cell::Fluid)) => Some(idx),
            _ => None,
        };

        let down: Option<GridIndex> = match south_neighbor {
            Some((idx, Cell::Fluid)) => Some(idx),
            _ => None,
        };

        match (left, right, up, down) {
            (None, None, None, None) => Ok(None),
            (Some(left), None, None, None) => Ok(Some(EdgeType::West { west_neighbor: left })),
            (Some(left), None, Some(up), None) => Ok(
                Some(EdgeType::NorthWest { north_neighbor: up, west_neighbor: left }),
            ),
            (None, None, Some(up), None) => Ok(Some(EdgeType::North { north_neighbor: up })),
            (None, Some(right), Some(up), None) => Ok(
                Some(EdgeType::NorthEast { north_neighbor: up, east_neighbor: right }),
            ),
            (None, Some(right), None, None) => Ok(Some(EdgeType::East { east_neighbor: right })),
            (None, Some(right), None, Some(down)) => Ok(
                Some(EdgeType::SouthEast { south_neighbor: down, east_neighbor: right }),
            ),
            (None, None, None, Some(down)) => Ok(Some(EdgeType::South { south_neighbor: down })),
            (Some(left), None, None, Some(down)) => Ok(
                Some(EdgeType::SouthWest { south_neighbor: down, west_neighbor: left }),
            ),
            _ => {
                let n_cells = self.cell_type.len();
                proof {
                    assert(grid_area(self.size) == n_cells as int);
                    lemma_flat_bounds(self.size, cell_idx.0 as int, cell_idx.1 as int);
                }
                Err(
                    SimulationGridError::BoundaryTooThinError(
                        self.cell_type[cell_idx.0 * self.size[1] + cell_idx.1],
                        cell_idx,
                    ),
                )
            },
        }
    }

    /// Rebuild the derived boundary list from the current cell types.
    ///
    /// On success the grid is well formed again and the restore scratch is
    /// cleared; on failure the grid is left exactly as it was and the error
    /// names a too-thin boundary cell.
    #[verifier::loop_isolation(false)]
    pub fn rebuild_boundary_list(&mut self) -> (r: Result<(), SimulationGridError>)
        requires
            old(self).arrays_wf(),
        ensures
            final(self).size == old(self).size,
            final(self).pressure == old(self).pressure,
            final(self).u == old(self).u,
            final(self).v == old(self).v,
            final(self).cell_type == old(self).cell_type,
            r is Ok <==> no_too_thin(old(self).cell_type@, old(self).size),
            r is Ok ==> final(self).wf() && final(self).boundaries.u_v_restore@.len() == 0,
            r is Err ==> *final(self) == *old(self),
            r matches Err(e) ==> ({
                &&& e matches SimulationGridError::BoundaryTooThinError(c, i)
                &&& boundary_at(old(self).cell_type@, old(self).size, i.0 as int, i.1 as int)
                &&& too_thin(old(self).cell_type@, old(self).size, i.0 as int, i.1 as int)
                &&& c == cell_at(old(self).cell_type@, old(self).size, i.0 as int, i.1 as int)
            }),
    {
        let w = self.size[0];
        let h = self.size[1];
        let n_cells = self.cell_type.len();
        proof {
            assert(grid_area(self.size) == n_cells as int);
        }
        let ghost cells = self.cell_type@;
        let ghost size = self.size;

        let mut boundaries: Vec<BoundaryIndex> = Vec::new();
        let mut entries: Vec<(GridIndex, Option<EdgeType>)> = Vec::new();
        let mut fluid_cells: usize = 0;

        let mut x: usize = 0;
        while x < w
            invariant
                0 <= x <= w,
                entries@ == entries_upto(cells, size, x as int),
                boundaries@ == bidx_upto(cells, size, x as int),
                fluid_cells as int == fluid_upto(cells, size, x as int),
                forall|x0: int, y0: int| #![auto]
                    0 <= x0 < x && 0 <= y0 < grid_h(size) && boundary_at(cells, size, x0, y0)
                        ==> !too_thin(cells, size, x0, y0),
            decreases w - x,
        {
            let mut y: usize = 0;
            proof {
                assert(entries_upto(cells, size, x as int) + row_entries(cells, size, x as int, 0)
                    =~= entries_upto(cells, size, x as int));
                assert(bidx_upto(cells, size, x as int) + row_bidx(cells, size, x as int, 0)
                    =~= bidx_upto(cells, size, x as int));
            }
            while y < h
                invariant
                    0 <= y <= h,
                    x < w,
                    entries@ == entries_upto(cells, size, x as int) + row_entries(
                        cells,
                        size,
                        x as int,
                        y as int,
                    ),
                    boundaries@ == bidx_upto(cells, size, x as int) + row_bidx(
                        cells,
                        size,
                        x as int,
                        y as int,
                    ),
                    fluid_cells as int == fluid_upto(cells, size, x as int) + row_fluid(
                        cells,
                        size,
                        x as int,
                        y as int,
                    ),
                    forall|x0: int, y0: int| #![auto]
                        0 <= x0 < x && 0 <= y0 < grid_h(size) && boundary_at(cells, size, x0, y0)
                            ==> !too_thin(cells, size, x0, y0),
                    forall|y0: int| #![auto]
                        0 <= y0 < y && boundary_at(cells, size, x as int, y0) ==> !too_thin(
                            cells,
                            size,
                            x as int,
                            y0,
                        ),
                decreases h - y,
            {
                proof {
                    lemma_flat_bounds(size, x as int, y as int);
                    assert(fluid_upto(cells, size, x as int) + row_fluid(
                        cells,
                        size,
                        x as int,
                        y as int,
                    ) <= grid_area(size)) by {
                        lemma_counts_bounded(cells, size, x as int, y as int);
                    }
                    assert(fluid_upto(cells, size, x as int) + row_fluid(
                        cells,
                        size,
                        x as int,
                        y + 1,
                    ) <= grid_area(size)) by {
                        lemma_counts_bounded(cells, size, x as int, y + 1);
                    }
                }
                match self.cell_type[x * h + y] {
                    Cell::Fluid => {
                        fluid_cells = fluid_cells + 1;
                    },
                    Cell::Boundary(_) => {
                        let edge = match self.calculate_edges((x, y)) {
                            Ok(edge) => edge,
                            Err(e) => {
                                return Err(e);
                            },
                        };
                        boundaries.push(BoundaryIndex(x, y));
                        entries.push(((x, y), edge));
                    },
                }
                y = y + 1;
                proof {
                    assert(entries@ == entries_upto(cells, size, x as int) + row_entries(
                        cells,
                        size,
                        x as int,
                        y as int,
                    )) by {
                        assert((entries_upto(cells, size, x as int) + row_entries(
                            cells,
                            size,
                            x as int,
                            y - 1,
                        )).push(entry_at(cells, size, x as int, y - 1)) =~= entries_upto(
                            cells,
                            size,
                            x as int,
                        ) + row_entries(cells, size, x as int, y - 1).push(
                            entry_at(cells, size, x as int, y - 1),
                        ));
                    }
                    assert(boundaries@ == bidx_upto(cells, size, x as int) + row_bidx(
                        cells,
                        size,
                        x as int,
                        y as int,
                    )) by {
                        assert((bidx_upto(cells, size, x as int) + row_bidx(
                            cells,
                            size,
                            x as int,
                            y - 1,
                        )).push(BoundaryIndex(x, (y - 1) as usize)) =~= bidx_upto(
                            cells,
                            size,
                            x as int,
                        ) + row_bidx(cells, size, x as int, y - 1).push(
                            BoundaryIndex(x, (y - 1) as usize),
                        ));
                    }
                }
            }
            x = x + 1;
        }

        self.boundaries.boundaries = boundaries;
        self.boundaries.sorted_boundary_list = entries;
        self.boundaries.fluid_cells = fluid_cells;
        self.boundaries.u_v_restore = Vec::new();
        Ok(())
    }

    /// Build a well-formed grid from raw data, or fail with
    /// `BoundaryTooThinError` exactly when some boundary cell has fluid
    /// neighbors on opposite sides of an axis; on failure nothing of the
    /// input is kept.
    pub fn try_from(item: UnfinalizedSimulationGrid) -> (r: Result<
        SimulationGrid,
        SimulationGridError,
    >)
        requires
            item.wf(),
        ensures
            r is Ok <==> no_too_thin(item.cell_type@, item.size),
            r matches Ok(g) ==> {
                &&& g.wf()
                &&& g.size == item.size
                &&& g.pressure == item.pressure
                &&& g.u == item.u
                &&& g.v == item.v
                &&& g.cell_type == item.cell_type
                &&& g.boundaries.u_v_restore@.len() == 0
            },
            r matches Err(e) ==> ({
                &&& e matches SimulationGridError::BoundaryTooThinError(c, i)
                &&& boundary_at(item.cell_type@, item.size, i.0 as int, i.1 as int)
                &&& too_thin(item.cell_type@, item.size, i.0 as int, i.1 as int)
                &&& c == cell_at(item.cell_type@, item.size, i.0 as int, i.1 as int)
            }),
    {
        let mut grid = SimulationGrid {
            size: item.size,
            pressure: item.pressure,
            u: item.u,
            v: item.v,
            cell_type: item.cell_type,
            boundaries: BoundaryList {
                boundaries: Vec::new(),
                sorted_boundary_list: Vec::new(),
                fluid_cells: 0,
                u_v_restore: Vec::new(),
            },
        };
        match grid.rebuild_boundary_list() {
            Ok(()) => Ok(grid),
            Err(e) => Err(e),
        }
    }
}

/// What one row contributes to the boundary list: entries of that row only,
/// boundary cells only, strictly ordered, classified by `edge_spec`, and
/// complete.
proof fn lemma_row_entries_props(cells: Seq<Cell>, size: GridSize, x: int, n: int)
    requires
        n >= 0,
    ensures
        forall|k: int| 0 <= k < row_entries(cells, size, x, n).len() ==> {
            let e = #[trigger] row_entries(cells, size, x, n)[k];
            &&& e.0.0 as int == x
            &&& 0 <= (e.0.1 as int) < n
            &&& boundary_at(cells, size, x, e.0.1 as int)
            &&& e == entry_at(cells, size, x, e.0.1 as int)
        },
        forall|k1: int, k2: int|
            0 <= k1 < k2 < row_entries(cells, size, x, n).len() ==> (#[trigger] row_entries(
                cells,
                size,
                x,
                n,
            )[k1]).0.1 < (#[trigger] row_entries(cells, size, x, n)[k2]).0.1,
        forall|y0: int| #![auto]
            0 <= y0 < n && boundary_at(cells, size, x, y0) ==> exists|k: int|
                0 <= k < row_entries(cells, size, x, n).len() && row_entries(cells, size, x, n)[k]
                    == entry_at(cells, size, x, y0),
    decreases n,
{
    if n > 0 {
        lemma_row_entries_props(cells, size, x, n - 1);
        let prev = row_entries(cells, size, x, n - 1);
        let cur = row_entries(cells, size, x, n);
        if boundary_at(cells, size, x, n - 1) {
            assert(cur == prev.push(entry_at(cells, size, x, n - 1)));
            assert forall|k: int| 0 <= k < cur.len() implies {
                let e = #[trigger] cur[k];
                &&& e.0.0 as int == x
                &&& 0 <= (e.0.1 as int) < n
                &&& boundary_at(cells, size, x, e.0.1 as int)
                &&& e == entry_at(cells, size, x, e.0.1 as int)
            } by {
                if k < prev.len() {
                    assert(cur[k] == prev[k]);
                } else {
                    assert(cur[k] == entry_at(cells, size, x, n - 1));
                }
            }
            assert forall|k1: int, k2: int| 0 <= k1 < k2 < cur.len() implies (#[trigger] cur[k1]).0.1
                < (#[trigger] cur[k2]).0.1 by {
                if k2 < prev.len() {
                    assert(cur[k1] == prev[k1] && cur[k2] == prev[k2]);
                } else {
                    assert(cur[k2] == entry_at(cells, size, x, n - 1));
                    assert(cur[k1] == prev[k1]);
                    assert((prev[k1].0.1 as int) < n - 1);
                }
            }
            assert forall|y0: int|
                0 <= y0 < n && boundary_at(cells, size, x, y0) implies exists|k: int|
                0 <= k < row_entries(cells, size, x, n).len() && row_entries(cells, size, x, n)[k]
                    == entry_at(cells, size, x, y0) by {
                if y0 == n - 1 {
                    assert(row_entries(cells, size, x, n)[prev.len() as int] == entry_at(
                        cells,
                        size,
                        x,
                        y0,
                    ));
                } else {
                    let k = choose|k: int|
                        0 <= k < prev.len() && prev[k] == entry_at(cells, size, x, y0);
                    assert(row_entries(cells, size, x, n)[k] == entry_at(cells, size, x, y0));
                }
            }
        } else {
            assert(cur == prev);
        }
    }
}

/// What the first `n` columns contribute to the boundary list: boundary
/// cells of those columns only, strictly ordered lexicographically,
/// classified by `edge_spec`, and complete.
proof fn lemma_entries_upto_props(cells: Seq<Cell>, size: GridSize, n: int)
    requires
        n >= 0,
    ensures
        forall|k: int| 0 <= k < entries_upto(cells, size, n).len() ==> {
            let e = #[trigger] entries_upto(cells, size, n)[k];
            &&& 0 <= (e.0.0 as int) < n
            &&& 0 <= (e.0.1 as int) < grid_h(size)
            &&& boundary_at(cells, size, e.0.0 as int, e.0.1 as int)
            &&& e == entry_at(cells, size, e.0.0 as int, e.0.1 as int)
        },
        forall|k1: int, k2: int|
            0 <= k1 < k2 < entries_upto(cells, size, n).len() ==> {
                let e1 = #[trigger] entries_upto(cells, size, n)[k1];
                let e2 = #[trigger] entries_upto(cells, size, n)[k2];
                e1.0.0 < e2.0.0 || (e1.0.0 == e2.0.0 && e1.0.1 < e2.0.1)
            },
        forall|x0: int, y0: int| #![auto]
            0 <= x0 < n && 0 <= y0 < grid_h(size) && boundary_at(cells, size, x0, y0) ==> exists|
                k: int,
            |
                0 <= k < entries_upto(cells, size, n).len() && entries_upto(cells, size, n)[k]
                    == entry_at(cells, size, x0, y0),
    decreases n,
{
    if n > 0 {
        lemma_entries_upto_props(cells, size, n - 1);
        lemma_row_entries_props(cells, size, n - 1, grid_h(size));
        let prev = entries_upto(cells, size, n - 1);
        let row = row_entries(cells, size, n - 1, grid_h(size));
        assert forall|x0: int, y0: int|
            0 <= x0 < n && 0 <= y0 < grid_h(size) && boundary_at(
                cells,
                size,
                x0,
                y0,
            ) implies exists|k: int|
            0 <= k < entries_upto(cells, size, n).len() && entries_upto(cells, size, n)[k]
                == entry_at(cells, size, x0, y0) by {
            if x0 == n - 1 {
                let k = choose|k: int| 0 <= k < row.len() && row[k] == entry_at(cells, size, x0, y0);
                assert(entries_upto(cells, size, n)[prev.len() + k] == entry_at(
                    cells,
                    size,
                    x0,
                    y0,
                ));
            } else {
                let k = choose|k: int|
                    0 <= k < prev.len() && prev[k] == entry_at(cells, size, x0, y0);
                assert(entries_upto(cells, size, n)[k] == entry_at(cells, size, x0, y0));
            }
        }
    }
}

/// The canonical boundary list holds exactly the boundary cells: no fluid
/// cell has an entry, every boundary cell has exactly one (the list is
/// strictly ordered, so entries are distinct), and each entry carries the
/// cell's edge classification.
pub proof fn lemma_boundary_entries_exact(cells: Seq<Cell>, size: GridSize)
    ensures
        forall|k: int| 0 <= k < boundary_entries(cells, size).len() ==> {
            let e = #[trigger] boundary_entries(cells, size)[k];
            &&& in_grid(size, e.0.0 as int, e.0.1 as int)
            &&& boundary_at(cells, size, e.0.0 as int, e.0.1 as int)
            &&& e == entry_at(cells, size, e.0.0 as int, e.0.1 as int)
        },
        forall|k1: int, k2: int|
            0 <= k1 < k2 < boundary_entries(cells, size).len() ==> {
                let e1 = #[trigger] boundary_entries(cells, size)[k1];
                let e2 = #[trigger] boundary_entries(cells, size)[k2];
                e1.0.0 < e2.0.0 || (e1.0.0 == e2.0.0 && e1.0.1 < e2.0.1)
            },
        forall|x0: int, y0: int| #![auto]
            boundary_at(cells, size, x0, y0) ==> exists|k: int|
                0 <= k < boundary_entries(cells, size).len() && boundary_entries(cells, size)[k]
                    == entry_at(cells, size, x0, y0),
{
    lemma_entries_upto_props(cells, size, grid_w(size));
    let all = entries_upto(cells, size, grid_w(size));
    assert(boundary_entries(cells, size) == all);
    assert forall|x0: int, y0: int| boundary_at(cells, size, x0, y0) implies exists|k: int|
        0 <= k < boundary_entries(cells, size).len() && boundary_entries(cells, size)[k]
            == entry_at(cells, size, x0, y0) by {
        let k = choose|k: int| 0 <= k < all.len() && all[k] == entry_at(cells, size, x0, y0);
        assert(0 <= k < boundary_entries(cells, size).len() && boundary_entries(cells, size)[k]
            == entry_at(cells, size, x0, y0));
    }
}

/// Whether one of the first `k` boundary-list entries is for `(x, y)`.
pub open spec fn listed_before(
    entries: Seq<(GridIndex, Option<EdgeType>)>,
    k: int,
    x: int,
    y: int,
) -> bool {
    exists|j: int| 0 <= j < k && (#[trigger] entries[j]).0 == ((x as usize), (y as usize))
}

/// The pressure of the cell at `(x, y)` after the pressure boundary
/// conditions are applied to the field `p`: a boundary cell with a single
/// fluid neighbor takes that neighbor's pressure, one with two takes their
/// average, and every other cell keeps its value.
pub open spec fn pressure_after_bc(
    cells: Seq<Cell>,
    size: GridSize,
    p: Seq<u64>,
    x: int,
    y: int,
) -> u64 {
    if boundary_at(cells, size, x, y) {
        match edge_spec(cells, size, x, y) {
            Some(EdgeType::North { north_neighbor }) => p[flat_index(
                size,
                north_neighbor.0 as int,
                north_neighbor.1 as int,
            )],
            Some(EdgeType::NorthEast { north_neighbor, east_neighbor }) => div_bits(
                add_bits(
                    p[flat_index(size, north_neighbor.0 as int, north_neighbor.1 as int)],
                    p[flat_index(size, east_neighbor.0 as int, east_neighbor.1 as int)],
                ),
                TWO_BITS,
            ),
            Some(EdgeType::East { east_neighbor }) => p[flat_index(
                size,
                east_neighbor.0 as int,
                east_neighbor.1 as int,
            )],
            Some(EdgeType::SouthEast { south_neighbor, east_neighbor }) => div_bits(
                add_bits(
                    p[flat_index(size, south_neighbor.0 as int, south_neighbor.1 as int)],
                    p[flat_index(size, east_neighbor.0 as int, east_neighbor.1 as int)],
                ),
                TWO_BITS,
            ),
            Some(EdgeType::South { south_neighbor }) => p[flat_index(
                size,
                south_neighbor.0 as int,
                south_neighbor.1 as int,
            )],
            Some(EdgeType::SouthWest { south_neighbor, west_neighbor }) => div_bits(
                add_bits(
                    p[flat_index(size, south_neighbor.0 as int, south_neighbor.1 as int)],
                    p[flat_index(size, west_neighbor.0 as int, west_neighbor.1 as int)],
                ),
                TWO_BITS,
            ),
            Some(EdgeType::West { west_neighbor }) => p[flat_index(
                size,
                west_neighbor.0 as int,
                west_neighbor.1 as int,
            )],
            Some(EdgeType::NorthWest { north_neighbor, west_neighbor }) => div_bits(
                add_bits(
                    p[flat_index(size, north_neighbor.0 as int, north_neighbor.1 as int)],
                    p[flat_index(size, west_neighbor.0 as int, west_neighbor.1 as int)],
                ),
                TWO_BITS,
            ),
            None => p[flat_index(size, x, y)],
        }
    } else {
        p[flat_index(size, x, y)]
    }
}

impl SimulationGrid {
    /// Propagate pressure onto boundary cells: every boundary cell with an
    /// edge takes its fluid neighbor's pressure, or the average of its two
    /// fluid neighbors' pressures on a diagonal edge; all other cells keep
    /// their pressure.  On a well-formed grid this never fails.
    #[verifier::loop_isolation(false)]
    pub fn copy_pressure_to_boundaries(&mut self) -> (r: Result<(), SimulationGridError>)
        requires
            old(self).wf(),
        ensures
            r is Ok,
            final(self).size == old(self).size,
            final(self).u == old(self).u,
            final(self).v == old(self).v,
            final(self).cell_type == old(self).cell_type,
            final(self).boundaries == old(self).boundaries,
            final(self).pressure@.len() == old(self).pressure@.len(),
            forall|x: int, y: int|
                in_grid(old(self).size, x, y) ==> final(self).pressure@[#[trigger] flat_index(
                    old(self).size,
                    x,
                    y,
                )] == pressure_after_bc(
                    old(self).cell_type@,
                    old(self).size,
                    old(self).pressure@,
                    x,
                    y,
                ),
            final(self).wf(),
    {
        let ghost cells = self.cell_type@;
        let ghost size = self.size;
        let ghost p0 = self.pressure@;
        let ghost entries = self.boundaries.sorted_boundary_list@;
        proof {
            lemma_boundary_entries_exact(cells, size);
        }
        let n = self.boundaries.sorted_boundary_list.len();
        let h = self.size[1];
        let n_cells = self.pressure.len();
        proof {
            assert(grid_area(size) == n_cells as int);
        }

        let mut k: usize = 0;
        while k < n
            invariant
                0 <= k <= n,
                self.size == old(self).size,
                self.u == old(self).u,
                self.v == old(self).v,
                self.cell_type == old(self).cell_type,
                self.boundaries == old(self).boundaries,
                self.pressure@.len() == p0.len(),
                forall|x: int, y: int|
                    in_grid(size, x, y) ==> self.pressure@[#[trigger] flat_index(size, x, y)] == (
                    if listed_before(entries, k as int, x, y) {
                        pressure_after_bc(cells, size, p0, x, y)
                    } else {
                        p0[flat_index(size, x, y)]
                    }),
            decreases n - k,
        {
            let (bidx, maybe_edge) = self.boundaries.sorted_boundary_list[k];
            let ghost bx = bidx.0 as int;
            let ghost by = bidx.1 as int;
            proof {
                assert(entries[k as int] == boundary_entries(cells, size)[k as int]);
                assert(boundary_at(cells, size, bx, by));
                assert(maybe_edge == edge_spec(cells, size, bx, by));
                lemma_flat_bounds(size, bx, by);
                assert(!listed_before(entries, k as int, bx, by)) by {
                    assert forall|j: int| 0 <= j < k implies entries[j].0 != (
                        (bx as usize),
                        (by as usize),
                    ) by {
                        let e1 = boundary_entries(cells, size)[j];
                        let e2 = boundary_entries(cells, size)[k as int];
                        assert(e1.0.0 < e2.0.0 || (e1.0.0 == e2.0.0 && e1.0.1 < e2.0.1));
                    }
                }
            }
            let fl = bidx.0 * h + bidx.1;
            match maybe_edge {
                None => {},
                Some(edge) => {
                    match self.cell_type[fl] {
                        Cell::Boundary(_) => {
                            proof {
                                lemma_neighbors_not_listed(cells, size, entries, k as int, bx, by);
                            }
                            let val = match edge {
                                EdgeType::North { north_neighbor } => {
                                    proof {
                                        lemma_flat_bounds(
                                            size,
                                            north_neighbor.0 as int,
                                            north_neighbor.1 as int,
                                        );
                                    }
                                    self.pressure[north_neighbor.0 * h + north_neighbor.1]
                                },
                                EdgeType::NorthEast { north_neighbor, east_neighbor } => {
                                    proof {
                                        lemma_flat_bounds(
                                            size,
                                            north_neighbor.0 as int,
                                            north_neighbor.1 as int,
                                        );
                                        lemma_flat_bounds(
                                            size,
                                            east_neighbor.0 as int,
                                            east_neighbor.1 as int,
                                        );
                                    }
                                    real_div(
                                        real_add(
                                            self.pressure[north_neighbor.0 * h + north_neighbor.1],
                                            self.pressure[east_neighbor.0 * h + east_neighbor.1],
                                        ),
                                        TWO_BITS,
                                    )
                                },
                                EdgeType::East { east_neighbor } => {
                                    proof {
                                        lemma_flat_bounds(
                                            size,
                                            east_neighbor.0 as int,
                                            east_neighbor.1 as int,
                                        );
                                    }
                                    self.pressure[east_neighbor.0 * h + east_neighbor.1]
                                },
                                EdgeType::SouthEast { south_neighbor, east_neighbor } => {
                                    proof {
                                        lemma_flat_bounds(
                                            size,
                                            south_neighbor.0 as int,
                                            south_neighbor.1 as int,
                                        );
                                        lemma_flat_bounds(
                                            size,
                                            east_neighbor.0 as int,
                                            east_neighbor.1 as int,
                                        );
                                    }
                                    real_div(
                                        real_add(
                                            self.pressure[south_neighbor.0 * h + south_neighbor.1],
                                            self.pressure[east_neighbor.0 * h + east_neighbor.1],
                                        ),
                                        TWO_BITS,
                                    )
                                },
                                EdgeType::South { south_neighbor } => {
                                    proof {
                                        lemma_flat_bounds(
                                            size,
                                            south_neighbor.0 as int,
                                            south_neighbor.1 as int,
                                        );
                                    }
                                    self.pressure[south_neighbor.0 * h + south_neighbor.1]
                                },
                                EdgeType::SouthWest { south_neighbor, west_neighbor } => {
                                    proof {
                                        lemma_flat_bounds(
                                            size,
                                            south_neighbor.0 as int,
                                            south_neighbor.1 as int,
                                        );
                                        lemma_flat_bounds(
                                            size,
                                            west_neighbor.0 as int,
                                            west_neighbor.1 as int,
                                        );
                                    }
                                    real_div(
                                        real_add(
                                            self.pressure[south_neighbor.0 * h + south_neighbor.1],
                                            self.pressure[west_neighbor.0 * h + west_neighbor.1],
                                        ),
                                        TWO_BITS,
                                    )
                                },
                                EdgeType::West { west_neighbor } => {
                                    proof {
                                        lemma_flat_bounds(
                                            size,
                                            west_neighbor.0 as int,
                                            west_neighbor.1 as int,
                                        );
                                    }
                                    self.pressure[west_neighbor.0 * h + west_neighbor.1]
                                },
                                EdgeType::NorthWest { north_neighbor, west_neighbor } => {
                                    proof {
                                        lemma_flat_bounds(
                                            size,
                                            north_neighbor.0 as int,
                                            north_neighbor.1 as int,
                                        );
                                        lemma_flat_bounds(
                                            size,
                                            west_neighbor.0 as int,
                                            west_neighbor.1 as int,
                                        );
                                    }
                                    real_div(
                                        real_add(
                                            self.pressure[north_neighbor.0 * h + north_neighbor.1],
                                            self.pressure[west_neighbor.0 * h + west_neighbor.1],
                                        ),
                                        TWO_BITS,
                                    )
                                },
                            };
                            self.pressure.set(fl, val);
                        },
                        other => {
                            return Err(
                                SimulationGridError::BoundaryListIncorrectError(other, bidx),
                            );
                        },
                    }
                },
            }
            k = k + 1;
            proof {
                assert forall|x0: int, y0: int| in_grid(size, x0, y0) implies self.pressure@[
                    #[trigger] flat_index(size, x0, y0)] == (if listed_before(
                    entries,
                    k as int,
                    x0,
                    y0,
                ) {
                    pressure_after_bc(cells, size, p0, x0, y0)
                } else {
                    p0[flat_index(size, x0, y0)]
                }) by {
                    lemma_flat_bounds(size, x0, y0);
                    if x0 == bx && y0 == by {
                        assert(listed_before(entries, k as int, x0, y0)) by {
                            assert(entries[k - 1].0 == ((x0 as usize), (y0 as usize)));
                        }
                    } else {
                        lemma_flat_injective(size, x0, y0, bx, by);
                        assert(listed_before(entries, k as int, x0, y0) == listed_before(
                            entries,
                            k - 1,
                            x0,
                            y0,
                        )) by {
                            if listed_before(entries, k as int, x0, y0) {
                                let j = choose|j: int|
                                    0 <= j < k && (#[trigger] entries[j]).0 == (
                                    (x0 as usize),
                                    (y0 as usize),
                                    );
                                assert(j < k - 1 || j == k - 1);
                                assert(entries[k - 1].0 == ((bx as usize), (by as usize)));
                                assert(j < k - 1);
                            }
                        }
                    }
                }
            }
        }
        Ok(())
    }
}

/// No fluid neighbor that an edge classification names is itself in the
/// boundary list: the list holds boundary cells only.
proof fn lemma_neighbors_not_listed(
    cells: Seq<Cell>,
    size: GridSize,
    entries: Seq<(GridIndex, Option<EdgeType>)>,
    k: int,
    bx: int,
    by: int,
)
    requires
        entries == boundary_entries(cells, size),
        0 <= k <= entries.len(),
        in_grid(size, bx, by),
    ensures
        fluid_at(cells, size, bx - 1, by) ==> !listed_before(entries, k, bx - 1, by),
        fluid_at(cells, size, bx + 1, by) ==> !listed_before(entries, k, bx + 1, by),
        fluid_at(cells, size, bx, by - 1) ==> !listed_before(entries, k, bx, by - 1),
        fluid_at(cells, size, bx, by + 1) ==> !listed_before(entries, k, bx, by + 1),
{
    lemma_boundary_entries_exact(cells, size);
    assert forall|x: int, y: int|
        fluid_at(cells, size, x, y) implies !listed_before(entries, k, x, y) by {
        if listed_before(entries, k, x, y) {
            let j = choose|j: int|
                0 <= j < k && (#[trigger] entries[j]).0 == ((x as usize), (y as usize));
            assert(boundary_at(cells, size, entries[j].0.0 as int, entries[j].0.1 as int));
        }
    }
}

/// The state that the velocity boundary-condition sweep carries: both
/// velocity fields and the restore buffer being filled.
pub struct VelocityState {
    pub u: Seq<u64>,
    pub v: Seq<u64>,
    pub restore: Seq<(GridIndex, Option<u64>, Option<u64>)>,
}

/// Whether every neighbor position an edge value names lies in the grid.
pub open spec fn edge_fields_in_grid(size: GridSize, edge: EdgeType) -> bool {
    match edge {
        EdgeType::North { north_neighbor } => in_grid(
            size,
            north_neighbor.0 as int,
            north_neighbor.1 as int,
        ),
        EdgeType::NorthEast { north_neighbor, east_neighbor } => in_grid(
            size,
            north_neighbor.0 as int,
            north_neighbor.1 as int,
        ) && in_grid(size, east_neighbor.0 as int, east_neighbor.1 as int),
        EdgeType::East { east_neighbor } => in_grid(
            size,
            east_neighbor.0 as int,
            east_neighbor.1 as int,
        ),
        EdgeType::SouthEast { south_neighbor, east_neighbor } => in_grid(
            size,
            south_neighbor.0 as int,
            south_neighbor.1 as int,
        ) && in_grid(size, east_neighbor.0 as int, east_neighbor.1 as int),
        EdgeType::South { south_neighbor } => in_grid(
            size,
            south_neighbor.0 as int,
            south_neighbor.1 as int,
        ),
        EdgeType::SouthWest { south_neighbor, west_neighbor } => in_grid(
            size,
            south_neighbor.0 as int,
            south_neighbor.1 as int,
        ) && in_grid(size, west_neighbor.0 as int, west_neighbor.1 as int),
        EdgeType::West { west_neighbor } => in_grid(
            size,
            west_neighbor.0 as int,
            west_neighbor.1 as int,
        ),
        EdgeType::NorthWest { north_neighbor, west_neighbor } => in_grid(
            size,
            north_neighbor.0 as int,
            north_neighbor.1 as int,
        ) && in_grid(size, west_neighbor.0 as int, west_neighbor.1 as int),
    }
}

/// An edge value produced by `edge_spec` names only in-grid neighbors.
pub proof fn lemma_edge_spec_fields_in_grid(cells: Seq<Cell>, size: GridSize, x: int, y: int)
    ensures
        edge_spec(cells, size, x, y) matches Some(edge) ==> edge_fields_in_grid(size, edge),
{
}

/// The ghost velocity values a wall-like boundary cell (no-slip or inflow)
/// writes: the normal component is set to `bu`/`bv` on the owning cell and
/// on the shared north/west face one cell away, the tangential component is
/// mirrored with a sign flip from the fluid neighbor.  The writes happen in
/// the fixed statement order, so a mirrored read sees any earlier write of
/// the same sweep step.
pub open spec fn wall_updates(
    u: Seq<u64>,
    v: Seq<u64>,
    size: GridSize,
    b: GridIndex,
    edge: EdgeType,
    bu: u64,
    bv: u64,
) -> (Seq<u64>, Seq<u64>) {
    let flb = flat_index(size, b.0 as int, b.1 as int);
    match edge {
        EdgeType::North { north_neighbor } => {
            let fln = flat_index(size, north_neighbor.0 as int, north_neighbor.1 as int);
            (u.update(flb, neg_bits(u[fln])), v.update(fln, bv))
        },
        EdgeType::NorthEast { north_neighbor, east_neighbor } => {
            let fln = flat_index(size, north_neighbor.0 as int, north_neighbor.1 as int);
            let fle = flat_index(size, east_neighbor.0 as int, east_neighbor.1 as int);
            let v1 = v.update(fln, bv);
            (u.update(flb, bu), v1.update(flb, neg_bits(v1[fle])))
        },
        EdgeType::East { east_neighbor } => {
            let fle = flat_index(size, east_neighbor.0 as int, east_neighbor.1 as int);
            (u.update(flb, bu), v.update(flb, neg_bits(v[fle])))
        },
        EdgeType::SouthEast { south_neighbor: _, east_neighbor: _ } => {
            (u.update(flb, bu), v.update(flb, bv))
        },
        EdgeType::South { south_neighbor } => {
            let fls = flat_index(size, south_neighbor.0 as int, south_neighbor.1 as int);
            (u.update(flb, neg_bits(u[fls])), v.update(flb, bv))
        },
        EdgeType::SouthWest { south_neighbor, west_neighbor } => {
            let fls = flat_index(size, south_neighbor.0 as int, south_neighbor.1 as int);
            let flw = flat_index(size, west_neighbor.0 as int, west_neighbor.1 as int);
            let u1 = u.update(flw, bu);
            (u1.update(flb, neg_bits(u1[fls])), v.update(flb, bv))
        },
        EdgeType::West { west_neighbor } => {
            let flw = flat_index(size, west_neighbor.0 as int, west_neighbor.1 as int);
            (u.update(flw, bu), v.update(flb, neg_bits(v[flw])))
        },
        EdgeType::NorthWest { north_neighbor, west_neighbor } => {
            let fln = flat_index(size, north_neighbor.0 as int, north_neighbor.1 as int);
            let flw = flat_index(size, west_neighbor.0 as int, west_neighbor.1 as int);
            let u1 = u.update(flw, bu);
            let v1 = v.update(fln, bv);
            (u1.update(flb, neg_bits(u1[fln])), v1.update(flb, neg_bits(v1[flw])))
        },
    }
}

/// The ghost velocity values an outflow boundary cell writes: both
/// components copied directly from the fluid neighbors (zero gradient).
pub open spec fn outflow_updates(
    u: Seq<u64>,
    v: Seq<u64>,
    size: GridSize,
    b: GridIndex,
    edge: EdgeType,
) -> (Seq<u64>, Seq<u64>) {
    let flb = flat_index(size, b.0 as int, b.1 as int);
    match edge {
        EdgeType::North { north_neighbor } => {
            let fln = flat_index(size, north_neighbor.0 as int, north_neighbor.1 as int);
            (u.update(flb, u[fln]), v.update(flb, v[fln]))
        },
        EdgeType::NorthEast { north_neighbor, east_neighbor } => {
            let fln = flat_index(size, north_neighbor.0 as int, north_neighbor.1 as int);
            let fle = flat_index(size, east_neighbor.0 as int, east_neighbor.1 as int);
            (u.update(flb, u[fln]), v.update(flb, v[fle]))
        },
        EdgeType::East { east_neighbor } => {
            let fle = flat_index(size, east_neighbor.0 as int, east_neighbor.1 as int);
            (u.update(flb, u[fle]), v.update(flb, v[fle]))
        },
        EdgeType::SouthEast { south_neighbor, east_neighbor } => {
            let fls = flat_index(size, south_neighbor.0 as int, south_neighbor.1 as int);
            let fle = flat_index(size, east_neighbor.0 as int, east_neighbor.1 as int);
            (u.update(flb, u[fle]), v.update(flb, v[fls]))
        },
        EdgeType::South { south_neighbor } => {
            let fls = flat_index(size, south_neighbor.0 as int, south_neighbor.1 as int);
            (u.update(flb, u[fls]), v.update(flb, v[fls]))
        },
        EdgeType::SouthWest { south_neighbor, west_neighbor } => {
            let fls = flat_index(size, south_neighbor.0 as int, south_neighbor.1 as int);
            let flw = flat_index(size, west_neighbor.0 as int, west_neighbor.1 as int);
            (u.update(flb, u[flw]), v.update(flb, v[fls]))
        },
        EdgeType::West { west_neighbor } => {
            let flw = flat_index(size, west_neighbor.0 as int, west_neighbor.1 as int);
            (u.update(flb, u[flw]), v.update(flb, v[flw]))
        },
        EdgeType::NorthWest { north_neighbor, west_neighbor } => {
            let fln = flat_index(size, north_neighbor.0 as int, north_neighbor.1 as int);
            let flw = flat_index(size, west_neighbor.0 as int, west_neighbor.1 as int);
            (u.update(flb, u[fln]), v.update(flb, v[flw]))
        },
    }
}

/// What one boundary-list entry does to the velocity sweep state: synthesize
/// the ghost velocities for its kind of boundary cell, then stash the cell's
/// final velocities, and for a north/west edge also the shared-face value,
/// into the restore buffer.
pub open spec fn velocity_step(
    cells: Seq<Cell>,
    size: GridSize,
    s: VelocityState,
    e: (GridIndex, Option<EdgeType>),
) -> VelocityState {
    let b = e.0;
    let flb = flat_index(size, b.0 as int, b.1 as int);
    match e.1 {
        None => VelocityState {
            u: s.u,
            v: s.v,
            restore: s.restore.push((b, Some(s.u[flb]), Some(s.v[flb]))),
        },
        Some(edge) => {
            let uv = match cell_at(cells, size, b.0 as int, b.1 as int) {
                Cell::Boundary(BoundaryCell::NoSlip) => wall_updates(
                    s.u,
                    s.v,
                    size,
                    b,
                    edge,
                    ZERO_BITS,
                    ZERO_BITS,
                ),
                Cell::Boundary(BoundaryCell::Inflow { velocity }) => wall_updates(
                    s.u,
                    s.v,
                    size,
                    b,
                    edge,
                    velocity[0],
                    velocity[1],
                ),
                Cell::Boundary(BoundaryCell::Outflow) => outflow_updates(s.u, s.v, size, b, edge),
                Cell::Fluid => (s.u, s.v),
            };
            let u2 = uv.0;
            let v2 = uv.1;
            let r1 = s.restore.push((b, Some(u2[flb]), Some(v2[flb])));
            let r2 = match edge {
                EdgeType::North { north_neighbor } => r1.push(
                    (
                        b,
                        None,
                        Some(v2[flat_index(size, north_neighbor.0 as int, north_neighbor.1 as int)]),
                    ),
                ),
                EdgeType::NorthEast { north_neighbor, east_neighbor: _ } => r1.push(
                    (
                        b,
                        None,
                        Some(v2[flat_index(size, north_neighbor.0 as int, north_neighbor.1 as int)]),
                    ),
                ),
                EdgeType::SouthWest { south_neighbor: _, west_neighbor } => r1.push(
                    (
                        b,
                        Some(u2[flat_index(size, west_neighbor.0 as int, west_neighbor.1 as int)]),
                        None,
                    ),
                ),
                EdgeType::West { west_neighbor } => r1.push(
                    (
                        b,
                        Some(u2[flat_index(size, west_neighbor.0 as int, west_neighbor.1 as int)]),
                        None,
                    ),
                ),
                EdgeType::NorthWest { north_neighbor, west_neighbor } => r1.push(
                    (
                        b,
                        Some(u2[flat_index(size, west_neighbor.0 as int, west_neighbor.1 as int)]),
                        Some(v2[flat_index(size, north_neighbor.0 as int, north_neighbor.1 as int)]),
                    ),
                ),
                _ => r1,
            };
            VelocityState { u: u2, v: v2, restore: r2 }
        },
    }
}

/// The velocity sweep state after the first `k` boundary-list entries.
pub open spec fn velocity_sweep(
    cells: Seq<Cell>,
    size: GridSize,
    entries: Seq<(GridIndex, Option<EdgeType>)>,
    s0: VelocityState,
    k: int,
) -> VelocityState
    decreases k,
{
    if k <= 0 {
        s0
    } else {
        velocity_step(cells, size, velocity_sweep(cells, size, entries, s0, k - 1), entries[k - 1])
    }
}

impl SimulationGrid {
    /// Write the wall-like (no-slip or inflow) ghost velocities for one
    /// boundary cell, in the fixed statement order of the sweep.
    fn apply_wall_velocity(&mut self, bidx: GridIndex, edge: EdgeType, bu: u64, bv: u64)
        requires
            old(self).arrays_wf(),
            in_grid(old(self).size, bidx.0 as int, bidx.1 as int),
            edge_fields_in_grid(old(self).size, edge),
        ensures
            final(self).u@ == wall_updates(
                old(self).u@,
                old(self).v@,
                old(self).size,
                bidx,
                edge,
                bu,
                bv,
            ).0,
            final(self).v@ == wall_updates(
                old(self).u@,
                old(self).v@,
                old(self).size,
                bidx,
                edge,
                bu,
                bv,
            ).1,
            final(self).size == old(self).size,
            final(self).pressure == old(self).pressure,
            final(self).cell_type == old(self).cell_type,
            final(self).boundaries == old(self).boundaries,
            final(self).u@.len() == old(self).u@.len(),
            final(self).v@.len() == old(self).v@.len(),
    {
        let h = self.size[1];
        let n_cells = self.u.len();
        let m_cells = self.v.len();
        proof {
            assert(grid_area(self.size) == n_cells as int);
            assert(grid_area(self.size) == m_cells as int);
            lemma_flat_bounds(self.size, bidx.0 as int, bidx.1 as int);
        }
        let flb = bidx.0 * h + bidx.1;
        match edge {
            EdgeType::North { north_neighbor } => {
                proof {
                    lemma_flat_bounds(self.size, north_neighbor.0 as int, north_neighbor.1 as int);
                }
                let fln = north_neighbor.0 * h + north_neighbor.1;
                let mirrored = real_neg(self.u[fln]);
                self.u.set(flb, mirrored);
                self.v.set(fln, bv);
            },
            EdgeType::NorthEast { north_neighbor, east_neighbor } => {
                proof {
                    lemma_flat_bounds(self.size, north_neighbor.0 as int, north_neighbor.1 as int);
                    lemma_flat_bounds(self.size, east_neighbor.0 as int, east_neighbor.1 as int);
                }
                let fln = north_neighbor.0 * h + north_neighbor.1;
                let fle = east_neighbor.0 * h + east_neighbor.1;
                self.u.set(flb, bu);
                self.v.set(fln, bv);
                let mirrored = real_neg(self.v[fle]);
                self.v.set(flb, mirrored);
            },
            EdgeType::East { east_neighbor } => {
                proof {
                    lemma_flat_bounds(self.size, east_neighbor.0 as int, east_neighbor.1 as int);
                }
                let fle = east_neighbor.0 * h + east_neighbor.1;
                self.u.set(flb, bu);
                let mirrored = real_neg(self.v[fle]);
                self.v.set(flb, mirrored);
            },
            EdgeType::SouthEast { south_neighbor: _, east_neighbor: _ } => {
                self.u.set(flb, bu);
                self.v.set(flb, bv);
            },
            EdgeType::South { south_neighbor } => {
                proof {
                    lemma_flat_bounds(self.size, south_neighbor.0 as int, south_neighbor.1 as int);
                }
                let fls = south_neighbor.0 * h + south_neighbor.1;
                let mirrored = real_neg(self.u[fls]);
                self.u.set(flb, mirrored);
                self.v.set(flb, bv);
            },
            EdgeType::SouthWest { south_neighbor, west_neighbor } => {
                proof {
                    lemma_flat_bounds(self.size, south_neighbor.0 as int, south_neighbor.1 as int);
                    lemma_flat_bounds(self.size, west_neighbor.0 as int, west_neighbor.1 as int);
                }
                let fls = south_neighbor.0 * h + south_neighbor.1;
                let flw = west_neighbor.0 * h + west_neighbor.1;
                self.u.set(flw, bu);
                let mirrored = real_neg(self.u[fls]);
                self.u.set(flb, mirrored);
                self.v.set(flb, bv);
            },
            EdgeType::West { west_neighbor } => {
                proof {
                    lemma_flat_bounds(self.size, west_neighbor.0 as int, west_neighbor.1 as int);
                }
                let flw = west_neighbor.0 * h + west_neighbor.1;
                self.u.set(flw, bu);
                let mirrored = real_neg(self.v[flw]);
                self.v.set(flb, mirrored);
            },
            EdgeType::NorthWest { north_neighbor, west_neighbor } => {
                proof {
                    lemma_flat_bounds(self.size, north_neighbor.0 as int, north_neighbor.1 as int);
                    lemma_flat_bounds(self.size, west_neighbor.0 as int, west_neighbor.1 as int);
                }
                let fln = north_neighbor.0 * h + north_neighbor.1;
                let flw = west_neighbor.0 * h + west_neighbor.1;
                self.u.set(flw, bu);
                let mirrored_u = real_neg(self.u[fln]);
                self.u.set(flb, mirrored_u);
                self.v.set(fln, bv);
                let mirrored_v = real_neg(self.v[flw]);
                self.v.set(flb, mirrored_v);
            },
        }
    }

    /// Write the outflow ghost velocities for one boundary cell: both
    /// components copied from the fluid neighbors.
    fn apply_outflow_velocity(&mut self, bidx: GridIndex, edge: EdgeType)
        requires
            old(self).arrays_wf(),
            in_grid(old(self).size, bidx.0 as int, bidx.1 as int),
            edge_fields_in_grid(old(self).size, edge),
        ensures
            final(self).u@ == outflow_updates(
                old(self).u@,
                old(self).v@,
                old(self).size,
                bidx,
                edge,
            ).0,
            final(self).v@ == outflow_updates(
                old(self).u@,
                old(self).v@,
                old(self).size,
                bidx,
                edge,
            ).1,
            final(self).size == old(self).size,
            final(self).pressure == old(self).pressure,
            final(self).cell_type == old(self).cell_type,
            final(self).boundaries == old(self).boundaries,
            final(self).u@.len() == old(self).u@.len(),
            final(self).v@.len() == old(self).v@.len(),
    {
        let h = self.size[1];
        let n_cells = self.u.len();
        let m_cells = self.v.len();
        proof {
            assert(grid_area(self.size) == n_cells as int);
            assert(grid_area(self.size) == m_cells as int);
            lemma_flat_bounds(self.size, bidx.0 as int, bidx.1 as int);
        }
        let flb = bidx.0 * h + bidx.1;
        let (u_src, v_src): (GridIndex, GridIndex) = match edge {
            EdgeType::North { north_neighbor } => (north_neighbor, north_neighbor),
            EdgeType::NorthEast { north_neighbor, east_neighbor } => (
                north_neighbor,
                east_neighbor,
            ),
            EdgeType::East { east_neighbor } => (east_neighbor, east_neighbor),
            EdgeType::SouthEast { south_neighbor, east_neighbor } => (
                east_neighbor,
                south_neighbor,
            ),
            EdgeType::South { south_neighbor } => (south_neighbor, south_neighbor),
            EdgeType::SouthWest { south_neighbor, west_neighbor } => (
                west_neighbor,
                south_neighbor,
            ),
            EdgeType::West { west_neighbor } => (west_neighbor, west_neighbor),
            EdgeType::NorthWest { north_neighbor, west_neighbor } => (
                north_neighbor,
                west_neighbor,
            ),
        };
        proof {
            lemma_flat_bounds(self.size, u_src.0 as int, u_src.1 as int);
            lemma_flat_bounds(self.size, v_src.0 as int, v_src.1 as int);
        }
        let u_val = self.u[u_src.0 * h + u_src.1];
        self.u.set(flb, u_val);
        let v_val = self.v[v_src.0 * h + v_src.1];
        self.v.set(flb, v_val);
    }

    /// Synthesize the ghost velocities of every boundary cell from its kind
    /// and edge, in the canonical sweep order, and rebuild the restore
    /// buffer with each cell's final velocities (including the shared
    /// north/west face values).  On a well-formed grid this never fails.
    #[verifier::loop_isolation(false)]
    pub fn set_boundary_u_and_v(&mut self) -> (r: Result<(), SimulationGridError>)
        requires
            old(self).wf(),
        ensures
            r is Ok,
            final(self).size == old(self).size,
            final(self).pressure == old(self).pressure,
            final(self).cell_type == old(self).cell_type,
            final(self).boundaries.boundaries == old(self).boundaries.boundaries,
            final(self).boundaries.sorted_boundary_list == old(
                self,
            ).boundaries.sorted_boundary_list,
            final(self).boundaries.fluid_cells == old(self).boundaries.fluid_cells,
            final(self).u@.len() == old(self).u@.len(),
            final(self).v@.len() == old(self).v@.len(),
            ({
                let done = velocity_sweep(
                    old(self).cell_type@,
                    old(self).size,
                    old(self).boundaries.sorted_boundary_list@,
                    VelocityState { u: old(self).u@, v: old(self).v@, restore: Seq::empty() },
                    old(self).boundaries.sorted_boundary_list@.len() as int,
                );
                &&& final(self).u@ == done.u
                &&& final(self).v@ == done.v
                &&& final(self).boundaries.u_v_restore@ == done.restore
            }),
            restore_in_grid(final(self).boundaries.u_v_restore@, old(self).size),
            final(self).wf(),
    {
        let ghost cells = self.cell_type@;
        let ghost size = self.size;
        let ghost entries = self.boundaries.sorted_boundary_list@;
        let ghost s0 = VelocityState { u: self.u@, v: self.v@, restore: Seq::empty() };
        proof {
            lemma_boundary_entries_exact(cells, size);
        }

        self.boundaries.u_v_restore = Vec::new();

        let n = self.boundaries.sorted_boundary_list.len();
        let h = self.size[1];
        let n_cells = self.u.len();
        proof {
            assert(grid_area(size) == n_cells as int);
        }

        let mut k: usize = 0;
        while k < n
            invariant
                0 <= k <= n,
                self.size == old(self).size,
                self.pressure == old(self).pressure,
                self.cell_type == old(self).cell_type,
                self.boundaries.boundaries == old(self).boundaries.boundaries,
                self.boundaries.sorted_boundary_list == old(self).boundaries.sorted_boundary_list,
                self.boundaries.fluid_cells == old(self).boundaries.fluid_cells,
                self.u@.len() == s0.u.len(),
                self.v@.len() == s0.v.len(),
                ({
                    let cur = velocity_sweep(cells, size, entries, s0, k as int);
                    &&& self.u@ == cur.u
                    &&& self.v@ == cur.v
                    &&& self.boundaries.u_v_restore@ == cur.restore
                }),
            decreases n - k,
        {
            let ghost prev = velocity_sweep(cells, size, entries, s0, k as int);
            let (bidx, maybe_edge) = self.boundaries.sorted_boundary_list[k];
            proof {
                assert(entries[k as int] == boundary_entries(cells, size)[k as int]);
                assert(boundary_at(cells, size, bidx.0 as int, bidx.1 as int));
                assert(maybe_edge == edge_spec(cells, size, bidx.0 as int, bidx.1 as int));
                lemma_flat_bounds(size, bidx.0 as int, bidx.1 as int);
                lemma_edge_spec_fields_in_grid(cells, size, bidx.0 as int, bidx.1 as int);
            }
            let flb = bidx.0 * h + bidx.1;
            match maybe_edge {
                None => {
                    let stash_u = self.u[flb];
                    let stash_v = self.v[flb];
                    self.boundaries.u_v_restore.push((bidx, Some(stash_u), Some(stash_v)));
                },
                Some(edge) => {
                    match self.cell_type[flb] {
                        Cell::Boundary(BoundaryCell::NoSlip) => {
                            self.apply_wall_velocity(bidx, edge, ZERO_BITS, ZERO_BITS);
                        },
                        Cell::Boundary(BoundaryCell::Inflow { velocity }) => {
                            self.apply_wall_velocity(bidx, edge, velocity[0], velocity[1]);
                        },
                        Cell::Boundary(BoundaryCell::Outflow) => {
                            self.apply_outflow_velocity(bidx, edge);
                        },
                        other => {
                            return Err(
                                SimulationGridError::BoundaryListIncorrectError(other, bidx),
                            );
                        },
                    }
                    let stash_u = self.u[flb];
                    let stash_v = self.v[flb];
                    self.boundaries.u_v_restore.push((bidx, Some(stash_u), Some(stash_v)));
                    match edge {
                        EdgeType::North { north_neighbor } => {
                            proof {
                                lemma_flat_bounds(
                                    size,
                                    north_neighbor.0 as int,
                                    north_neighbor.1 as int,
                                );
                            }
                            let face_v = self.v[north_neighbor.0 * h + north_neighbor.1];
                            self.boundaries.u_v_restore.push((bidx, None, Some(face_v)));
                        },
                        EdgeType::NorthEast { north_neighbor, east_neighbor: _ } => {
                            proof {
                                lemma_flat_bounds(
                                    size,
                                    north_neighbor.0 as int,
                                    north_neighbor.1 as int,
                                );
                            }
                            let face_v = self.v[north_neighbor.0 * h + north_neighbor.1];
                            self.boundaries.u_v_restore.push((bidx, None, Some(face_v)));
                        },
                        EdgeType::SouthWest { south_neighbor: _, west_neighbor } => {
                            proof {
                                lemma_flat_bounds(
                                    size,
                                    west_neighbor.0 as int,
                                    west_neighbor.1 as int,
                                );
                            }
                            let face_u = self.u[west_neighbor.0 * h + west_neighbor.1];
                            self.boundaries.u_v_restore.push((bidx, Some(face_u), None));
                        },
                        EdgeType::West { west_neighbor } => {
                            proof {
                                lemma_flat_bounds(
                                    size,
                                    west_neighbor.0 as int,
                                    west_neighbor.1 as int,
                                );
                            }
                            let face_u = self.u[west_neighbor.0 * h + west_neighbor.1];
                            self.boundaries.u_v_restore.push((bidx, Some(face_u), None));
                        },
                        EdgeType::NorthWest { north_neighbor, west_neighbor } => {
                            proof {
                                lemma_flat_bounds(
                                    size,
                                    north_neighbor.0 as int,
                                    north_neighbor.1 as int,
                                );
                                lemma_flat_bounds(
                                    size,
                                    west_neighbor.0 as int,
                                    west_neighbor.1 as int,
                                );
                            }
                            let face_u = self.u[west_neighbor.0 * h + west_neighbor.1];
                            let face_v = self.v[north_neighbor.0 * h + north_neighbor.1];
                            self.boundaries.u_v_restore.push((bidx, Some(face_u), Some(face_v)));
                        },
                        _ => {},
                    }
                },
            }
            k = k + 1;
            proof {
                assert(velocity_sweep(cells, size, entries, s0, k as int) == velocity_step(
                    cells,
                    size,
                    prev,
                    entries[k - 1],
                ));
            }
        }
        proof {
            lemma_velocity_sweep_restore_in_grid(cells, size, entries, s0, entries.len() as int);
        }
        Ok(())
    }
}


/// Cells earlier in the row-major order have smaller flat indices.
pub proof fn lemma_flat_lex(size: GridSize, x0: int, y0: int, x1: int, y1: int)
    requires
        in_grid(size, x0, y0),
        in_grid(size, x1, y1),
        x0 < x1 || (x0 == x1 && y0 < y1),
    ensures
        flat_index(size, x0, y0) < flat_index(size, x1, y1),
{
    assert(x0 * grid_h(size) + y0 < x1 * grid_h(size) + y1) by (nonlinear_arith)
        requires
            0 <= x0 < grid_w(size),
            0 <= y0 < grid_h(size),
            0 <= x1 < grid_w(size),
            0 <= y1 < grid_h(size),
            x0 < x1 || (x0 == x1 && y0 < y1),
    ;
}

/// Whether every position the restore buffer names lies in the grid.
pub open spec fn restore_in_grid(
    restore: Seq<(GridIndex, Option<u64>, Option<u64>)>,
    size: GridSize,
) -> bool {
    forall|j: int|
        0 <= j < restore.len() ==> in_grid(
            size,
            (#[trigger] restore[j]).0.0 as int,
            restore[j].0.1 as int,
        )
}

/// The velocity sweep only ever stashes restore entries for boundary-list
/// positions, which lie in the grid.
proof fn lemma_velocity_sweep_restore_in_grid(
    cells: Seq<Cell>,
    size: GridSize,
    entries: Seq<(GridIndex, Option<EdgeType>)>,
    s0: VelocityState,
    k: int,
)
    requires
        entries == boundary_entries(cells, size),
        0 <= k <= entries.len(),
        restore_in_grid(s0.restore, size),
    ensures
        restore_in_grid(velocity_sweep(cells, size, entries, s0, k).restore, size),
    decreases k,
{
    if k > 0 {
        lemma_velocity_sweep_restore_in_grid(cells, size, entries, s0, k - 1);
        lemma_boundary_entries_exact(cells, size);
        let prev = velocity_sweep(cells, size, entries, s0, k - 1);
        let cur = velocity_sweep(cells, size, entries, s0, k);
        let e = entries[k - 1];
        assert(in_grid(size, e.0.0 as int, e.0.1 as int));
        assert(cur == velocity_step(cells, size, prev, e));
        assert forall|j: int| 0 <= j < cur.restore.len() implies in_grid(
            size,
            (#[trigger] cur.restore[j]).0.0 as int,
            cur.restore[j].0.1 as int,
        ) by {
            if j < prev.restore.len() {
                assert(cur.restore[j] == prev.restore[j]);
            } else {
                assert(cur.restore[j].0 == e.0);
            }
        }
    }
}

/// Counting fluid cells over a prefix of the grid never exceeds the number
/// of cells of the grid.
proof fn lemma_counts_bounded(cells: Seq<Cell>, size: GridSize, x: int, y: int)
    requires
        0 <= x < grid_w(size),
        0 <= y <= grid_h(size),
    ensures
        0 <= fluid_upto(cells, size, x) + row_fluid(cells, size, x, y) <= grid_area(size),
{
    lemma_row_fluid_bounded(cells, size, x, y);
    lemma_row_fluid_bounded(cells, size, x, grid_h(size));
    lemma_fluid_upto_bounded(cells, size, x);
    assert(fluid_upto(cells, size, x) + row_fluid(cells, size, x, y) <= x * grid_h(size) + grid_h(
        size,
    ));
    assert((x + 1) * grid_h(size) <= grid_w(size) * grid_h(size)) by (nonlinear_arith)
        requires
            0 <= x < grid_w(size),
            grid_h(size) >= 0,
    ;
    assert(x * grid_h(size) + grid_h(size) == (x + 1) * grid_h(size)) by (nonlinear_arith);
}

/// A row prefix holds at most `n` fluid cells.
proof fn lemma_row_fluid_bounded(cells: Seq<Cell>, size: GridSize, x: int, n: int)
    requires
        n >= 0,
    ensures
        0 <= row_fluid(cells, size, x, n) <= n,
    decreases n,
{
    if n > 0 {
        lemma_row_fluid_bounded(cells, size, x, n - 1);
    }
}

/// The first `n` columns hold at most `n * height` fluid cells.
proof fn lemma_fluid_upto_bounded(cells: Seq<Cell>, size: GridSize, n: int)
    requires
        n >= 0,
        grid_h(size) >= 0,
    ensures
        0 <= fluid_upto(cells, size, n) <= n * grid_h(size),
    decreases n,
{
    if n > 0 {
        lemma_fluid_upto_bounded(cells, size, n - 1);
        lemma_row_fluid_bounded(cells, size, n - 1, grid_h(size));
        assert((n - 1) * grid_h(size) + grid_h(size) == n * grid_h(size)) by (nonlinear_arith);
    }
}


impl SimulationGrid {
    /// A fresh all-fluid grid of the given size, with zero pressure and
    /// velocities.
    pub fn new(size: GridSize) -> (g: SimulationGrid)
        requires
            grid_w(size) >= 1,
            grid_h(size) >= 1,
            grid_area(size) <= usize::MAX,
        ensures
            g.wf(),
            g.size == size,
            forall|i: int| 0 <= i < grid_area(size) ==> #[trigger] g.cell_type@[i] == Cell::Fluid,
            forall|i: int|
                0 <= i < grid_area(size) ==> #[trigger] g.pressure@[i]
                    == crate::scalar::ZERO_BITS,
            forall|i: int| 0 <= i < grid_area(size) ==> #[trigger] g.u@[i] == crate::scalar::ZERO_BITS,
            forall|i: int| 0 <= i < grid_area(size) ==> #[trigger] g.v@[i] == crate::scalar::ZERO_BITS,
    {
        let fresh = presets::empty(size);
        proof {
            assert forall|i: int|
                0 <= i < grid_area(size) implies #[trigger] fresh.cell_type@[i] == Cell::Fluid
                && fresh.pressure@[i] == crate::scalar::ZERO_BITS && fresh.u@[i]
                == crate::scalar::ZERO_BITS && fresh.v@[i] == crate::scalar::ZERO_BITS by {
                assert(fresh.v@[i] == crate::scalar::ZERO_BITS);
            }
        }
        fresh
    }
}

impl From<SimulationGrid> for UnfinalizedSimulationGrid {
    /// Strip the derived boundary list, keeping the raw per-cell data.
    fn from(item: SimulationGrid) -> (r: Self) {
        UnfinalizedSimulationGrid {
            size: item.size,
            pressure: item.pressure,
            u: item.u,
            v: item.v,
            cell_type: item.cell_type,
        }
    }
}

impl vstd::std_specs::convert::FromSpecImpl<SimulationGrid> for UnfinalizedSimulationGrid {
    open spec fn obeys_from_spec() -> bool {
        true
    }

    open spec fn from_spec(t: SimulationGrid) -> Self {
        UnfinalizedSimulationGrid {
            size: t.size,
            pressure: t.pressure,
            u: t.u,
            v: t.v,
            cell_type: t.cell_type,
        }
    }
}


/// The derived boundary state is a function of the serialized fields
/// alone: two well-formed grids with the same size and cell types have the
/// same boundary list, boundary positions and fluid-cell count, so
/// rebuilding after a round trip through any faithful serialization
/// reproduces them exactly.
pub proof fn lemma_rebuild_deterministic(g1: SimulationGrid, g2: SimulationGrid)
    requires
        g1.wf(),
        g2.wf(),
        g1.size == g2.size,
        g1.cell_type@ == g2.cell_type@,
    ensures
        g1.boundaries.sorted_boundary_list@ == g2.boundaries.sorted_boundary_list@,
        g1.boundaries.boundaries@ == g2.boundaries.boundaries@,
        g1.boundaries.fluid_cells == g2.boundaries.fluid_cells,
{
}

/// Applying the pressure boundary conditions twice without an intervening
/// change produces the same field as applying them once: the applier reads
/// only fluid cells, which it never writes, so a second application
/// recomputes every boundary value from unchanged sources.
pub proof fn lemma_pressure_applier_idempotent(
    cells: Seq<Cell>,
    size: GridSize,
    p1: Seq<u64>,
    p2: Seq<u64>,
    x: int,
    y: int,
)
    requires
        p1.len() == grid_area(size),
        p2.len() == grid_area(size),
        forall|x0: int, y0: int|
            in_grid(size, x0, y0) ==> p2[#[trigger] flat_index(size, x0, y0)]
                == pressure_after_bc(cells, size, p1, x0, y0),
        in_grid(size, x, y),
    ensures
        pressure_after_bc(cells, size, p2, x, y) == p2[flat_index(size, x, y)],
{
    lemma_flat_bounds(size, x, y);
    assert forall|nx: int, ny: int|
        fluid_at(cells, size, nx, ny) implies p2[#[trigger] flat_index(size, nx, ny)]
        == p1[flat_index(size, nx, ny)] by {
        lemma_flat_bounds(size, nx, ny);
        assert(p2[flat_index(size, nx, ny)] == pressure_after_bc(cells, size, p1, nx, ny));
    }
    if boundary_at(cells, size, x, y) {
        lemma_edge_spec_fields_in_grid(cells, size, x, y);
        match edge_spec(cells, size, x, y) {
            Some(edge) => {
                match edge {
                    EdgeType::North { north_neighbor } => {
                        assert(fluid_at(cells, size, x, y - 1));
                    },
                    EdgeType::NorthEast { north_neighbor, east_neighbor } => {
                        assert(fluid_at(cells, size, x, y - 1));
                        assert(fluid_at(cells, size, x + 1, y));
                    },
                    EdgeType::East { east_neighbor } => {
                        assert(fluid_at(cells, size, x + 1, y));
                    },
                    EdgeType::SouthEast { south_neighbor, east_neighbor } => {
                        assert(fluid_at(cells, size, x, y + 1));
                        assert(fluid_at(cells, size, x + 1, y));
                    },
                    EdgeType::South { south_neighbor } => {
                        assert(fluid_at(cells, size, x, y + 1));
                    },
                    EdgeType::SouthWest { south_neighbor, west_neighbor } => {
                        assert(fluid_at(cells, size, x, y + 1));
                        assert(fluid_at(cells, size, x - 1, y));
                    },
                    EdgeType::West { west_neighbor } => {
                        assert(fluid_at(cells, size, x - 1, y));
                    },
                    EdgeType::NorthWest { north_neighbor, west_neighbor } => {
                        assert(fluid_at(cells, size, x, y - 1));
                        assert(fluid_at(cells, size, x - 1, y));
                    },
                }
            },
            None => {},
        }
    }
}


/// Applying one boundary cell's velocity rule twice, with the restore
/// buffer emptied in between, produces the same velocities and the same
/// restore entries as applying it once: every rule reads only locations it
/// does not write.
pub proof fn lemma_velocity_step_idempotent(
    cells: Seq<Cell>,
    size: GridSize,
    s: VelocityState,
    e: (GridIndex, Option<EdgeType>),
)
    requires
        s.u.len() == grid_area(size),
        s.v.len() == grid_area(size),
        s.restore == Seq::<(GridIndex, Option<u64>, Option<u64>)>::empty(),
        in_grid(size, e.0.0 as int, e.0.1 as int),
        e.1 == edge_spec(cells, size, e.0.0 as int, e.0.1 as int),
    ensures
        ({
            let once = velocity_step(cells, size, s, e);
            let again = velocity_step(
                cells,
                size,
                VelocityState {
                    u: once.u,
                    v: once.v,
                    restore: Seq::<(GridIndex, Option<u64>, Option<u64>)>::empty(),
                },
                e,
            );
            &&& again.u == once.u
            &&& again.v == once.v
            &&& again.restore == once.restore
        }),
{
    let bx = e.0.0 as int;
    let by = e.0.1 as int;
    lemma_flat_bounds(size, bx, by);
    lemma_edge_spec_fields_in_grid(cells, size, bx, by);
    match edge_spec(cells, size, bx, by) {
        Some(edge) => {
            match edge {
                EdgeType::North { north_neighbor } => {
                    lemma_flat_bounds(size, bx, by - 1);
                    lemma_flat_injective(size, bx, by, bx, by - 1);
                },
                EdgeType::NorthEast { north_neighbor, east_neighbor } => {
                    lemma_flat_bounds(size, bx, by - 1);
                    lemma_flat_bounds(size, bx + 1, by);
                    lemma_flat_injective(size, bx, by, bx, by - 1);
                    lemma_flat_injective(size, bx, by, bx + 1, by);
                    lemma_flat_injective(size, bx, by - 1, bx + 1, by);
                },
                EdgeType::East { east_neighbor } => {
                    lemma_flat_bounds(size, bx + 1, by);
                    lemma_flat_injective(size, bx, by, bx + 1, by);
                },
                EdgeType::SouthEast { south_neighbor, east_neighbor } => {
                    lemma_flat_bounds(size, bx, by + 1);
                    lemma_flat_bounds(size, bx + 1, by);
                    lemma_flat_injective(size, bx, by, bx, by + 1);
                    lemma_flat_injective(size, bx, by, bx + 1, by);
                },
                EdgeType::South { south_neighbor } => {
                    lemma_flat_bounds(size, bx, by + 1);
                    lemma_flat_injective(size, bx, by, bx, by + 1);
                },
                EdgeType::SouthWest { south_neighbor, west_neighbor } => {
                    lemma_flat_bounds(size, bx, by + 1);
                    lemma_flat_bounds(size, bx - 1, by);
                    lemma_flat_injective(size, bx, by, bx, by + 1);
                    lemma_flat_injective(size, bx, by, bx - 1, by);
                    lemma_flat_injective(size, bx, by + 1, bx - 1, by);
                },
                EdgeType::West { west_neighbor } => {
                    lemma_flat_bounds(size, bx - 1, by);
                    lemma_flat_injective(size, bx, by, bx - 1, by);
                },
                EdgeType::NorthWest { north_neighbor, west_neighbor } => {
                    lemma_flat_bounds(size, bx, by - 1);
                    lemma_flat_bounds(size, bx - 1, by);
                    lemma_flat_injective(size, bx, by, bx, by - 1);
                    lemma_flat_injective(size, bx, by, bx - 1, by);
                    lemma_flat_injective(size, bx, by - 1, bx - 1, by);
                },
            }
            let once = velocity_step(cells, size, s, e);
            let again = velocity_step(
                cells,
                size,
                VelocityState {
                    u: once.u,
                    v: once.v,
                    restore: Seq::<(GridIndex, Option<u64>, Option<u64>)>::empty(),
                },
                e,
            );
            assert(again.u =~= once.u);
            assert(again.v =~= once.v);
            assert(again.restore =~= once.restore);
        },
        None => {
        },
    }
}

} // verus!
