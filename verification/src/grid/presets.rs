//! Ready-made grids: an all-fluid box, a lid/channel inflow, and the
//! inflow channel with a circular obstacle.

use vstd::prelude::*;

use crate::cell::BoundaryCell;
use crate::cell::Cell;
use crate::flat_index;
use crate::grid::SimulationGrid;
use crate::grid::UnfinalizedSimulationGrid;
use crate::grid::boundary_at;
use crate::grid::cell_at;
use crate::grid::fluid_at;
use crate::grid::grid_area;
use crate::grid::grid_h;
use crate::grid::grid_w;
use crate::grid::in_grid;
use crate::grid::lemma_flat_bounds;
use crate::grid::no_too_thin;
use crate::scalar::ONE_BITS;
use crate::scalar::ZERO_BITS;
use crate::types::GridSize;

verus! {

/// The cell type of the simple inflow preset at `(x, y)`: no-slip walls on
/// the top and bottom rows, an outflow column on the right, an inflow
/// column on the left, fluid inside.
pub open spec fn inflow_cell(size: GridSize, x: int, y: int) -> Cell {
    if y == 0 || y == grid_h(size) - 1 {
        Cell::Boundary(BoundaryCell::NoSlip)
    } else if x == grid_w(size) - 1 {
        Cell::Boundary(BoundaryCell::Outflow)
    } else if x == 0 {
        Cell::Boundary(BoundaryCell::Inflow { velocity: [ONE_BITS, ZERO_BITS] })
    } else {
        Cell::Fluid
    }
}

/// Whether `(x, y)` lies strictly inside the circular obstacle.
pub open spec fn in_obstacle(size: GridSize, x: int, y: int) -> bool {
    let dx = x - 20;
    let dy = y - grid_h(size) / 2;
    dx * dx + dy * dy < 25
}

/// The cell type of the obstacle preset at `(x, y)`: the inflow channel
/// with a circular no-slip obstacle drawn over it.
pub open spec fn obstacle_cell(size: GridSize, x: int, y: int) -> Cell {
    if in_obstacle(size, x, y) {
        Cell::Boundary(BoundaryCell::NoSlip)
    } else {
        inflow_cell(size, x, y)
    }
}

/// A field of zero values, one per cell.
pub(crate) fn zero_field(n: usize) -> (v: Vec<u64>)
    ensures
        v@.len() == n,
        forall|i: int| 0 <= i < n ==> v@[i] == ZERO_BITS,
{
    let mut v: Vec<u64> = Vec::new();
    let mut i: usize = 0;
    while i < n
        invariant
            0 <= i <= n,
            v@.len() == i,
            forall|j: int| 0 <= j < i ==> v@[j] == ZERO_BITS,
        decreases n - i,
    {
        v.push(ZERO_BITS);
        i = i + 1;
    }
    v
}

/// The cells of the simple inflow preset, in flat row-major order.
#[verifier::loop_isolation(false)]
fn inflow_cells(size: GridSize) -> (v: Vec<Cell>)
    requires
        grid_w(size) >= 1,
        grid_h(size) >= 1,
        grid_area(size) <= usize::MAX,
    ensures
        v@.len() == grid_area(size),
        forall|x: int, y: int|
            in_grid(size, x, y) ==> v@[#[trigger] flat_index(size, x, y)] == inflow_cell(
                size,
                x,
                y,
            ),
{
    let w = size[0];
    let h = size[1];
    let mut v: Vec<Cell> = Vec::new();
    let mut x: usize = 0;
    while x < w
        invariant
            0 <= x <= w,
            v@.len() == x as int * grid_h(size),
            forall|x0: int, y0: int|
                in_grid(size, x0, y0) && x0 < x ==> v@[#[trigger] flat_index(size, x0, y0)]
                    == inflow_cell(size, x0, y0),
        decreases w - x,
    {
        let mut y: usize = 0;
        while y < h
            invariant
                x < w,
                0 <= y <= h,
                v@.len() == x as int * grid_h(size) + y as int,
                forall|x0: int, y0: int|
                    in_grid(size, x0, y0) && (x0 < x || (x0 == x && y0 < y)) ==> v@[
                        #[trigger] flat_index(size, x0, y0)] == inflow_cell(size, x0, y0),
            decreases h - y,
        {
            let cell = if y == 0 || y == h - 1 {
                Cell::Boundary(BoundaryCell::NoSlip)
            } else if x == w - 1 {
                Cell::Boundary(BoundaryCell::Outflow)
            } else if x == 0 {
                Cell::Boundary(BoundaryCell::Inflow { velocity: [ONE_BITS, ZERO_BITS] })
            } else {
                Cell::Fluid
            };
            v.push(cell);
            y = y + 1;
            proof {
                assert forall|x0: int, y0: int|
                    in_grid(size, x0, y0) && (x0 < x || (x0 == x && y0 < y)) implies v@[
                    #[trigger] flat_index(size, x0, y0)] == inflow_cell(size, x0, y0) by {
                    lemma_flat_bounds(size, x0, y0);
                    if x0 == x && y0 == y - 1 {
                        assert(flat_index(size, x0, y0) == v@.len() - 1);
                    } else {
                        crate::grid::lemma_flat_lex(size, x0, y0, x as int, y - 1);
                        assert(flat_index(size, x as int, y - 1) == v@.len() - 1);
                    }
                }
            }
        }
        x = x + 1;
        proof {
            assert((x as int) * grid_h(size) == (x - 1) * grid_h(size) + grid_h(size)) by (nonlinear_arith);
        }
    }
    proof {
        assert(v@.len() == grid_area(size));
    }
    v
}

/// An all-fluid grid cannot have a too-thin boundary.
proof fn lemma_fluid_cells_valid(cells: Seq<Cell>, size: GridSize)
    requires
        forall|x: int, y: int|
            in_grid(size, x, y) ==> cell_at(cells, size, x, y) == Cell::Fluid,
    ensures
        no_too_thin(cells, size),
{
}

/// The inflow preset's boundary cells all sit on the outer ring, whose
/// rings are boundary throughout, so none is too thin.
proof fn lemma_inflow_cells_valid(cells: Seq<Cell>, size: GridSize)
    requires
        forall|x: int, y: int|
            in_grid(size, x, y) ==> cell_at(cells, size, x, y) == inflow_cell(size, x, y),
    ensures
        no_too_thin(cells, size),
{
    assert forall|x: int, y: int|
        boundary_at(cells, size, x, y) implies !crate::grid::too_thin(cells, size, x, y) by {
        if crate::grid::too_thin(cells, size, x, y) {
            if fluid_at(cells, size, x - 1, y) && fluid_at(cells, size, x + 1, y) {
                assert(inflow_cell(size, x - 1, y) == Cell::Fluid);
                assert(inflow_cell(size, x + 1, y) == Cell::Fluid);
                assert(inflow_cell(size, x, y) == Cell::Fluid);
            } else {
                assert(inflow_cell(size, x, y - 1) == Cell::Fluid);
                assert(inflow_cell(size, x, y + 1) == Cell::Fluid);
                assert(inflow_cell(size, x, y) == Cell::Fluid);
            }
        }
    }
}

/// Generate an empty (all fluid, all zero) simulation grid.
pub fn empty(size: GridSize) -> (g: SimulationGrid)
    requires
        grid_w(size) >= 1,
        grid_h(size) >= 1,
        grid_area(size) <= usize::MAX,
    ensures
        g.wf(),
        g.size == size,
        forall|i: int| 0 <= i < grid_area(size) ==> #[trigger] g.cell_type@[i] == Cell::Fluid,
        forall|i: int| 0 <= i < grid_area(size) ==> #[trigger] g.pressure@[i] == ZERO_BITS,
        forall|i: int| 0 <= i < grid_area(size) ==> #[trigger] g.u@[i] == ZERO_BITS,
        forall|i: int| 0 <= i < grid_area(size) ==> #[trigger] g.v@[i] == ZERO_BITS,
{
    let w = size[0];
    let h = size[1];
    let n = w * h;
    let mut cells: Vec<Cell> = Vec::new();
    let mut i: usize = 0;
    while i < n
        invariant
            0 <= i <= n,
            cells@.len() == i,
            forall|j: int| 0 <= j < i ==> cells@[j] == Cell::Fluid,
        decreases n - i,
    {
        cells.push(Cell::Fluid);
        i = i + 1;
    }
    let unfinalized = UnfinalizedSimulationGrid {
        size,
        pressure: zero_field(n),
        u: zero_field(n),
        v: zero_field(n),
        cell_type: cells,
    };
    proof {
        assert forall|x: int, y: int| in_grid(size, x, y) implies cell_at(
            unfinalized.cell_type@,
            size,
            x,
            y,
        ) == Cell::Fluid by {
            lemma_flat_bounds(size, x, y);
        }
        lemma_fluid_cells_valid(unfinalized.cell_type@, size);
    }
    match SimulationGrid::try_from(unfinalized) {
        Ok(g) => g,
        Err(_) => vstd::pervasive::unreached(),
    }
}

/// Generate the simple inflow preset: no-slip top and bottom, inflow on
/// the left, outflow on the right.
pub fn simple_inflow(size: GridSize) -> (g: SimulationGrid)
    requires
        grid_w(size) >= 1,
        grid_h(size) >= 1,
        grid_area(size) <= usize::MAX,
    ensures
        g.wf(),
        g.size == size,
        forall|x: int, y: int|
            in_grid(size, x, y) ==> cell_at(g.cell_type@, size, x, y) == inflow_cell(size, x, y),
        forall|i: int| 0 <= i < grid_area(size) ==> #[trigger] g.pressure@[i] == ZERO_BITS,
        forall|i: int| 0 <= i < grid_area(size) ==> #[trigger] g.u@[i] == ZERO_BITS,
        forall|i: int| 0 <= i < grid_area(size) ==> #[trigger] g.v@[i] == ZERO_BITS,
{
    let w = size[0];
    let h = size[1];
    let n = w * h;
    let unfinalized = UnfinalizedSimulationGrid {
        size,
        pressure: zero_field(n),
        u: zero_field(n),
        v: zero_field(n),
        cell_type: inflow_cells(size),
    };
    proof {
        assert forall|x: int, y: int| in_grid(size, x, y) implies cell_at(
            unfinalized.cell_type@,
            size,
            x,
            y,
        ) == inflow_cell(size, x, y) by {
            lemma_flat_bounds(size, x, y);
        }
        lemma_inflow_cells_valid(unfinalized.cell_type@, size);
    }
    match SimulationGrid::try_from(unfinalized) {
        Ok(g) => g,
        Err(_) => vstd::pervasive::unreached(),
    }
}

/// Draw a filled circle of no-slip cells of the given radius around
/// `(x, y)`; cells whose center lies at distance `radius` or more, and
/// cells outside the grid, are untouched.
#[verifier::loop_isolation(false)]
fn draw_circle(cell_array: &mut Vec<Cell>, size: GridSize, x: usize, y: usize, radius: usize)
    requires
        grid_w(size) >= 1,
        grid_h(size) >= 1,
        old(cell_array)@.len() == grid_area(size),
        x + radius <= usize::MAX,
        y + radius <= usize::MAX,
        radius * radius * 2 <= usize::MAX,
    ensures
        final(cell_array)@.len() == old(cell_array)@.len(),
        forall|x0: int, y0: int|
            in_grid(size, x0, y0) ==> final(cell_array)@[#[trigger] flat_index(size, x0, y0)] == (
            if (x0 - x) * (x0 - x) + (y0 - y) * (y0 - y) < radius * radius {
                Cell::Boundary(BoundaryCell::NoSlip)
            } else {
                old(cell_array)@[flat_index(size, x0, y0)]
            }),
{
    let ghost c0 = old(cell_array)@;
    let w = size[0];
    let h = size[1];
    let n_cells = cell_array.len();
    proof {
        assert(grid_area(size) == n_cells as int);
    }
    let r2 = radius * radius;
    let x_lo = if x > radius {
        x - radius
    } else {
        0
    };
    let y_lo = if y > radius {
        y - radius
    } else {
        0
    };

    proof {
        assert forall|x0: int, y0: int|
            in_grid(size, x0, y0) && (x0 - x) * (x0 - x) + (y0 - y) * (y0 - y) < r2 implies x_lo
            <= x0 && x0 < x + radius && y_lo <= y0 && y0 < y + radius by {
            assert(x as int - radius <= x0 && x0 < x + radius && y as int - radius <= y0 && y0 < y
                + radius) by (nonlinear_arith)
                requires
                    (x0 - x) * (x0 - x) + (y0 - y) * (y0 - y) < r2,
                    r2 == radius * radius,
            ;
        }
    }
    let mut xi = x_lo;
    while xi < x + radius
        invariant
            x_lo <= xi <= x + radius,
            cell_array@.len() == c0.len(),
            forall|x0: int, y0: int|
                in_grid(size, x0, y0) ==> cell_array@[#[trigger] flat_index(size, x0, y0)] == (if (
                x0 - x) * (x0 - x) + (y0 - y) * (y0 - y) < r2 && x0 < xi {
                    Cell::Boundary(BoundaryCell::NoSlip)
                } else {
                    c0[flat_index(size, x0, y0)]
                }),
        decreases x + radius - xi,
    {
        if xi < w {
            let mut yi = y_lo;
            while yi < y + radius
                invariant
                    xi < w,
                    xi < x + radius,
                    y_lo <= yi <= y + radius,
                    cell_array@.len() == c0.len(),
                    forall|x0: int, y0: int|
                        in_grid(size, x0, y0) ==> cell_array@[#[trigger] flat_index(size, x0, y0)]
                            == (if (x0 - x) * (x0 - x) + (y0 - y) * (y0 - y) < r2 && (x0 < xi || (
                            x0 == xi && y0 < yi)) {
                            Cell::Boundary(BoundaryCell::NoSlip)
                        } else {
                            c0[flat_index(size, x0, y0)]
                        }),
                decreases y + radius - yi,
            {
                if yi < h {
                    let x_dist = if xi >= x {
                        xi - x
                    } else {
                        x - xi
                    };
                    let y_dist = if yi >= y {
                        yi - y
                    } else {
                        y - yi
                    };
                    proof {
                        assert((xi as int - x as int) * (xi as int - x as int) == x_dist as int
                            * x_dist as int) by (nonlinear_arith)
                            requires
                                x_dist as int == if xi >= x {
                                    xi as int - x as int
                                } else {
                                    x as int - xi as int
                                },
                        ;
                        assert((yi as int - y as int) * (yi as int - y as int) == y_dist as int
                            * y_dist as int) by (nonlinear_arith)
                            requires
                                y_dist as int == if yi >= y {
                                    yi as int - y as int
                                } else {
                                    y as int - yi as int
                                },
                        ;
                        assert(x_dist as int * x_dist as int <= r2 && y_dist as int * y_dist as int
                            <= r2) by (nonlinear_arith)
                            requires
                                r2 == radius * radius,
                                0 <= x_dist as int <= radius,
                                0 <= y_dist as int <= radius,
                        ;
                    }
                    let dist_sq = x_dist * x_dist + y_dist * y_dist;
                    if dist_sq < r2 {
                        proof {
                            lemma_flat_bounds(size, xi as int, yi as int);
                        }
                        cell_array.set(xi * h + yi, Cell::Boundary(BoundaryCell::NoSlip));
                    }
                }
                yi = yi + 1;
                proof {
                    assert forall|x0: int, y0: int| in_grid(size, x0, y0) implies cell_array@[
                        #[trigger] flat_index(size, x0, y0)] == (if (x0 - x) * (x0 - x) + (y0 - y)
                        * (y0 - y) < r2 && (x0 < xi || (x0 == xi && y0 < yi)) {
                        Cell::Boundary(BoundaryCell::NoSlip)
                    } else {
                        c0[flat_index(size, x0, y0)]
                    }) by {
                        lemma_flat_bounds(size, x0, y0);
                        if !(x0 == xi && y0 == yi - 1) && in_grid(size, xi as int, yi - 1) {
                            crate::grid::lemma_flat_injective(size, x0, y0, xi as int, yi - 1);
                        }
                    }
                }
            }
        }
        xi = xi + 1;
    }
}

/// Generate the obstacle preset: the inflow channel with a circular
/// no-slip obstacle.  The caller warrants that the resulting topology has
/// no too-thin boundary (it never has one when the grid is large enough to
/// hold the channel and the circle).
pub fn obstacle(size: GridSize) -> (g: SimulationGrid)
    requires
        grid_w(size) >= 1,
        grid_h(size) >= 1,
        grid_area(size) <= usize::MAX,
        no_too_thin(
            Seq::new(
                grid_area(size) as nat,
                |i: int| obstacle_cell(size, i / grid_h(size), i % grid_h(size)),
            ),
            size,
        ),
    ensures
        g.wf(),
        g.size == size,
        forall|x: int, y: int|
            in_grid(size, x, y) ==> cell_at(g.cell_type@, size, x, y) == obstacle_cell(size, x, y),
{
    let w = size[0];
    let h = size[1];
    let n = w * h;
    let mut cell_array = inflow_cells(size);
    draw_circle(&mut cell_array, size, 20, h / 2, 5);
    proof {
        assert forall|x: int, y: int| in_grid(size, x, y) implies cell_at(
            cell_array@,
            size,
            x,
            y,
        ) == obstacle_cell(size, x, y) by {
            lemma_flat_bounds(size, x, y);
            assert(grid_h(size) / 2 == (h / 2) as int);
        }
    }
    let unfinalized = UnfinalizedSimulationGrid {
        size,
        pressure: zero_field(n),
        u: zero_field(n),
        v: zero_field(n),
        cell_type: cell_array,
    };
    proof {
        let spec_cells = Seq::new(
            grid_area(size) as nat,
            |i: int| obstacle_cell(size, i / grid_h(size), i % grid_h(size)),
        );
        assert forall|x: int, y: int|
            boundary_at(unfinalized.cell_type@, size, x, y) implies !crate::grid::too_thin(
            unfinalized.cell_type@,
            size,
            x,
            y,
        ) by {
            assert forall|x1: int, y1: int| in_grid(size, x1, y1) implies cell_at(
                unfinalized.cell_type@,
                size,
                x1,
                y1,
            ) == cell_at(spec_cells, size, x1, y1) by {
                lemma_flat_bounds(size, x1, y1);
                crate::simulation::lemma_flat_unflatten(size, flat_index(size, x1, y1));
            }
            assert(boundary_at(spec_cells, size, x, y));
            assert(!crate::grid::too_thin(spec_cells, size, x, y));
        }
    }
    match SimulationGrid::try_from(unfinalized) {
        Ok(g) => g,
        Err(_) => vstd::pervasive::unreached(),
    }
}

} // verus!
