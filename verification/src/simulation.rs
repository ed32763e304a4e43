//! The simulation: physical parameters, the momentum predictor, the SOR
//! pressure solver, the velocity corrector and the per-tick orchestration.

use vstd::prelude::*;

use crate::cell::Cell;
use crate::flat_index;
use crate::grid::EdgeType;
use crate::grid::SimulationGrid;
use crate::grid::SimulationGridError;
use crate::grid::UnfinalizedSimulationGrid;
use crate::grid::boundary_at;
use crate::grid::cell_at;
use crate::grid::edge_spec;
use crate::grid::grid_area;
use crate::grid::grid_h;
use crate::grid::grid_w;
use crate::grid::in_grid;
use crate::grid::lemma_flat_bounds;
use crate::math::Neighborhood;
use crate::math::at;
use crate::math::du2dx;
use crate::math::du2dx_bits;
use crate::math::duvdx;
use crate::math::duvdx_bits;
use crate::math::duvdy;
use crate::math::duvdy_bits;
use crate::math::dv2dy;
use crate::math::dv2dy_bits;
use crate::math::laplacian;
use crate::math::laplacian_bits;
use crate::math::residual_bits;
use crate::scalar::add_bits;
use crate::scalar::div_bits;
use crate::scalar::mul_bits;
use crate::scalar::real_add;
use crate::scalar::real_lt;
use crate::scalar::real_div;
use crate::scalar::real_mul;
use crate::scalar::real_sub;
use crate::scalar::square_bits;
use crate::scalar::sub_bits;
use crate::types::CellPhysicalSize;
use crate::types::GridSize;

verus! {

/// The ways advancing or building a simulation can fail.
#[derive(Debug, Clone, Copy, PartialEq)]
pub enum SimulationError {
    /// The simulation grid reported a fault.
    GridError(SimulationGridError),
}

/// A simulation as it arrives from outside, before the derived arrays and
/// the boundary list exist.
#[derive(Debug)]
pub struct UnfinalizedSimulation {
    pub size: GridSize,
    pub cell_size: CellPhysicalSize,
    pub delt: u64,
    pub gamma: u64,
    pub reynolds: u64,
    pub initial_norm_squared: Option<u64>,
    pub sor_absolute_epsilon: u64,
    pub max_iterations: u32,
    pub iterations: u32,
    pub time: u64,
    pub omega: u64,
    pub grid: UnfinalizedSimulationGrid,
}

/// A running simulation: the grid, the physical and numerical parameters,
/// the derived momentum and right-hand-side arrays, and the counters.
#[derive(Debug)]
pub struct Simulation {
    pub size: GridSize,
    pub cell_size: CellPhysicalSize,
    pub delt: u64,
    pub gamma: u64,
    pub reynolds: u64,
    /// Tentative horizontal momentum, derived: recomputed, never loaded.
    pub f: Vec<u64>,
    /// Tentative vertical momentum, derived: recomputed, never loaded.
    pub g: Vec<u64>,
    /// Right-hand side of the pressure equation, derived.
    pub rhs: Vec<u64>,
    pub initial_norm_squared: Option<u64>,
    pub sor_absolute_epsilon: u64,
    pub max_iterations: u32,
    pub iterations: u32,
    pub time: u64,
    pub omega: u64,
    pub grid: SimulationGrid,
}

impl UnfinalizedSimulation {
    /// The raw fields are mutually consistent.
    pub open spec fn wf(self) -> bool {
        &&& self.grid.wf()
        &&& self.size == self.grid.size
    }
}

impl Simulation {
    /// The grid and the derived arrays are mutually consistent.
    pub open spec fn arrays_wf(self) -> bool {
        &&& self.grid.wf()
        &&& self.size == self.grid.size
        &&& self.f@.len() == grid_area(self.size)
        &&& self.g@.len() == grid_area(self.size)
        &&& self.rhs@.len() == grid_area(self.size)
    }

    /// The simulation is well formed: the grid is, the derived arrays hold
    /// one value per cell, and the convergence baseline is established.
    pub open spec fn wf(self) -> bool {
        &&& self.arrays_wf()
        &&& self.initial_norm_squared is Some
    }
}

/// Calculate F (the horizontal non-pressure part of the momentum equation)
/// from the 3x3 velocity neighborhoods of a cell.
#[verifier::opaque]
pub open spec fn calculate_f_bits(
    u_i_m1: u64,
    u_i: u64,
    u_i_p1: u64,
    u_j_m1: u64,
    u_j_p1: u64,
    v_j_m1: u64,
    v_j: u64,
    v_p1_j_m1: u64,
    v_p1_j: u64,
    delx: u64,
    dely: u64,
    delt: u64,
    gamma: u64,
    reynolds: u64,
) -> u64 {
    add_bits(
        u_i,
        mul_bits(
            delt,
            sub_bits(
                sub_bits(
                    div_bits(
                        laplacian_bits(u_i_m1, u_i, u_i_p1, u_j_m1, u_j_p1, delx, dely),
                        reynolds,
                    ),
                    du2dx_bits(u_i_m1, u_i, u_i_p1, delx, gamma),
                ),
                duvdy_bits(u_j_m1, u_i, u_j_p1, v_j_m1, v_j, v_p1_j_m1, v_p1_j, dely, gamma),
            ),
        ),
    )
}

/// Calculate G (the vertical non-pressure part of the momentum equation)
/// from the 3x3 velocity neighborhoods of a cell.
#[verifier::opaque]
pub open spec fn calculate_g_bits(
    u_m1_j: u64,
    u_m1_j_p1: u64,
    u_j: u64,
    u_j_p1: u64,
    v_i_m1: u64,
    v_i: u64,
    v_i_p1: u64,
    v_j_m1: u64,
    v_j_p1: u64,
    delx: u64,
    dely: u64,
    delt: u64,
    gamma: u64,
    reynolds: u64,
) -> u64 {
    add_bits(
        v_i,
        mul_bits(
            delt,
            sub_bits(
                sub_bits(
                    div_bits(
                        laplacian_bits(v_i_m1, v_i, v_i_p1, v_j_m1, v_j_p1, delx, dely),
                        reynolds,
                    ),
                    duvdx_bits(u_m1_j, u_m1_j_p1, u_j, u_j_p1, v_i_m1, v_i, v_i_p1, delx, gamma),
                ),
                dv2dy_bits(v_j_m1, v_i, v_j_p1, dely, gamma),
            ),
        ),
    )
}

/// Calculate F (the horizontal non-pressure part of the momentum equation):
/// the current velocity plus the time step times diffusion minus advection.
pub fn calculate_f(
    u_view: &Neighborhood,
    v_view: &Neighborhood,
    delx: u64,
    dely: u64,
    delt: u64,
    gamma: u64,
    reynolds: u64,
) -> (r: u64)
    ensures
        r == calculate_f_bits(
            at(*u_view, 0, 1),
            at(*u_view, 1, 1),
            at(*u_view, 2, 1),
            at(*u_view, 1, 0),
            at(*u_view, 1, 2),
            at(*v_view, 1, 0),
            at(*v_view, 1, 1),
            at(*v_view, 2, 0),
            at(*v_view, 2, 1),
            delx,
            dely,
            delt,
            gamma,
            reynolds,
        ),
{
    proof {
        reveal(calculate_f_bits);
    }
    let diffusion = real_div(laplacian(u_view, delx, dely), reynolds);
    let advection = du2dx(u_view, delx, gamma);
    let cross = duvdy(u_view, v_view, dely, gamma);
    real_add(
        u_view[1][1],
        real_mul(delt, real_sub(real_sub(diffusion, advection), cross)),
    )
}

/// Calculate G (the vertical non-pressure part of the momentum equation):
/// the current velocity plus the time step times diffusion minus advection.
pub fn calculate_g(
    u_view: &Neighborhood,
    v_view: &Neighborhood,
    delx: u64,
    dely: u64,
    delt: u64,
    gamma: u64,
    reynolds: u64,
) -> (r: u64)
    ensures
        r == calculate_g_bits(
            at(*u_view, 0, 1),
            at(*u_view, 0, 2),
            at(*u_view, 1, 1),
            at(*u_view, 1, 2),
            at(*v_view, 0, 1),
            at(*v_view, 1, 1),
            at(*v_view, 2, 1),
            at(*v_view, 1, 0),
            at(*v_view, 1, 2),
            delx,
            dely,
            delt,
            gamma,
            reynolds,
        ),
{
    proof {
        reveal(calculate_g_bits);
    }
    let diffusion = real_div(laplacian(v_view, delx, dely), reynolds);
    let cross = duvdx(u_view, v_view, delx, gamma);
    let advection = dv2dy(v_view, dely, gamma);
    real_add(
        v_view[1][1],
        real_mul(delt, real_sub(real_sub(diffusion, cross), advection)),
    )
}

/// Whether `(x, y)` has a full 3x3 neighborhood: it is not on the
/// outermost ring of the grid.
pub open spec fn interior(size: GridSize, x: int, y: int) -> bool {
    1 <= x && x + 1 < grid_w(size) && 1 <= y && y + 1 < grid_h(size)
}

/// Whether the momentum restore pass resets F at `(x, y)` to the current
/// velocity: the cell is a boundary cell, or the west fluid neighbor that a
/// west-facing boundary cell's shared face lies on.
pub open spec fn f_overwritten(cells: Seq<Cell>, size: GridSize, x: int, y: int) -> bool {
    boundary_at(cells, size, x, y) || (boundary_at(cells, size, x + 1, y) && ((edge_spec(
        cells,
        size,
        x + 1,
        y,
    ) matches Some(EdgeType::West { .. })) || (edge_spec(cells, size, x + 1, y) matches Some(
        EdgeType::SouthWest { .. },
    )) || (edge_spec(cells, size, x + 1, y) matches Some(EdgeType::NorthWest { .. }))))
}

/// Whether the momentum restore pass resets G at `(x, y)` to the current
/// velocity: the cell is a boundary cell, or the north fluid neighbor that
/// a north-facing boundary cell's shared face lies on.
pub open spec fn g_overwritten(cells: Seq<Cell>, size: GridSize, x: int, y: int) -> bool {
    boundary_at(cells, size, x, y) || (boundary_at(cells, size, x, y + 1) && ((edge_spec(
        cells,
        size,
        x,
        y + 1,
    ) matches Some(EdgeType::North { .. })) || (edge_spec(cells, size, x, y + 1) matches Some(
        EdgeType::NorthEast { .. },
    )) || (edge_spec(cells, size, x, y + 1) matches Some(EdgeType::NorthWest { .. }))))
}

/// The bulk predictor value of F at an interior cell.
pub open spec fn f_bulk_at(
    size: GridSize,
    u: Seq<u64>,
    v: Seq<u64>,
    delx: u64,
    dely: u64,
    delt: u64,
    gamma: u64,
    reynolds: u64,
    x: int,
    y: int,
) -> u64 {
    calculate_f_bits(
        u[flat_index(size, x - 1, y)],
        u[flat_index(size, x, y)],
        u[flat_index(size, x + 1, y)],
        u[flat_index(size, x, y - 1)],
        u[flat_index(size, x, y + 1)],
        v[flat_index(size, x, y - 1)],
        v[flat_index(size, x, y)],
        v[flat_index(size, x + 1, y - 1)],
        v[flat_index(size, x + 1, y)],
        delx,
        dely,
        delt,
        gamma,
        reynolds,
    )
}

/// The bulk predictor value of G at an interior cell.
pub open spec fn g_bulk_at(
    size: GridSize,
    u: Seq<u64>,
    v: Seq<u64>,
    delx: u64,
    dely: u64,
    delt: u64,
    gamma: u64,
    reynolds: u64,
    x: int,
    y: int,
) -> u64 {
    calculate_g_bits(
        u[flat_index(size, x - 1, y)],
        u[flat_index(size, x - 1, y + 1)],
        u[flat_index(size, x, y)],
        u[flat_index(size, x, y + 1)],
        v[flat_index(size, x - 1, y)],
        v[flat_index(size, x, y)],
        v[flat_index(size, x + 1, y)],
        v[flat_index(size, x, y - 1)],
        v[flat_index(size, x, y + 1)],
        delx,
        dely,
        delt,
        gamma,
        reynolds,
    )
}

/// F at `(x, y)` after the momentum predictor: the restore pass pins
/// boundary cells (and shared west faces) to the current velocity, interior
/// cells take the bulk kernel, and the outer ring keeps its old value.
pub open spec fn f_after(
    cells: Seq<Cell>,
    size: GridSize,
    u: Seq<u64>,
    v: Seq<u64>,
    f0: Seq<u64>,
    delx: u64,
    dely: u64,
    delt: u64,
    gamma: u64,
    reynolds: u64,
    x: int,
    y: int,
) -> u64 {
    if f_overwritten(cells, size, x, y) {
        u[flat_index(size, x, y)]
    } else if interior(size, x, y) {
        f_bulk_at(size, u, v, delx, dely, delt, gamma, reynolds, x, y)
    } else {
        f0[flat_index(size, x, y)]
    }
}

/// G at `(x, y)` after the momentum predictor.
pub open spec fn g_after(
    cells: Seq<Cell>,
    size: GridSize,
    u: Seq<u64>,
    v: Seq<u64>,
    g0: Seq<u64>,
    delx: u64,
    dely: u64,
    delt: u64,
    gamma: u64,
    reynolds: u64,
    x: int,
    y: int,
) -> u64 {
    if g_overwritten(cells, size, x, y) {
        v[flat_index(size, x, y)]
    } else if interior(size, x, y) {
        g_bulk_at(size, u, v, delx, dely, delt, gamma, reynolds, x, y)
    } else {
        g0[flat_index(size, x, y)]
    }
}

/// Whether one of the first `k` boundary-list entries makes the momentum
/// restore pass write F at `(x, y)`.
pub open spec fn f_touched_before(
    entries: Seq<(crate::types::GridIndex, Option<EdgeType>)>,
    k: int,
    x: int,
    y: int,
) -> bool {
    exists|j: int|
        0 <= j < k && {
            let e = #[trigger] entries[j];
            e.0 == ((x as usize), (y as usize)) || (match e.1 {
                Some(EdgeType::West { west_neighbor }) => west_neighbor == (
                    (x as usize),
                    (y as usize),
                ),
                Some(EdgeType::SouthWest { south_neighbor: _, west_neighbor }) => west_neighbor
                    == ((x as usize), (y as usize)),
                Some(EdgeType::NorthWest { north_neighbor: _, west_neighbor }) => west_neighbor
                    == ((x as usize), (y as usize)),
                _ => false,
            })
        }
}

/// Whether one of the first `k` boundary-list entries makes the momentum
/// restore pass write G at `(x, y)`.
pub open spec fn g_touched_before(
    entries: Seq<(crate::types::GridIndex, Option<EdgeType>)>,
    k: int,
    x: int,
    y: int,
) -> bool {
    exists|j: int|
        0 <= j < k && {
            let e = #[trigger] entries[j];
            e.0 == ((x as usize), (y as usize)) || (match e.1 {
                Some(EdgeType::North { north_neighbor }) => north_neighbor == (
                    (x as usize),
                    (y as usize),
                ),
                Some(EdgeType::NorthEast { north_neighbor, east_neighbor: _ }) => north_neighbor
                    == ((x as usize), (y as usize)),
                Some(EdgeType::NorthWest { north_neighbor, west_neighbor: _ }) => north_neighbor
                    == ((x as usize), (y as usize)),
                _ => false,
            })
        }
}

/// The right-hand side of the pressure equation at `(x, y)`: the discrete
/// divergence of the tentative momentum divided by the time step, for every
/// cell with a west and a south neighbor; other cells keep their old value.
pub open spec fn rhs_after(
    size: GridSize,
    f: Seq<u64>,
    g: Seq<u64>,
    rhs0: Seq<u64>,
    delx: u64,
    dely: u64,
    delt: u64,
    x: int,
    y: int,
) -> u64 {
    if 1 <= x < grid_w(size) && 1 <= y < grid_h(size) {
        div_bits(
            add_bits(
                div_bits(sub_bits(f[flat_index(size, x, y)], f[flat_index(size, x - 1, y)]), delx),
                div_bits(sub_bits(g[flat_index(size, x, y)], g[flat_index(size, x, y - 1)]), dely),
            ),
            delt,
        )
    } else {
        rhs0[flat_index(size, x, y)]
    }
}

/// The 3x3 neighborhood of `(x, y)` in a flat per-cell field.
fn window(field: &Vec<u64>, size: GridSize, x: usize, y: usize) -> (w: Neighborhood)
    requires
        field@.len() == grid_area(size),
        1 <= x as int && x as int + 1 < grid_w(size),
        1 <= y as int && y as int + 1 < grid_h(size),
    ensures
        forall|i: int, j: int|
            0 <= i < 3 && 0 <= j < 3 ==> #[trigger] at(w, i, j) == field@[flat_index(
                size,
                x - 1 + i,
                y - 1 + j,
            )],
{
    let h = size[1];
    let n_cells = field.len();
    proof {
        assert(grid_area(size) == n_cells as int);
        lemma_flat_bounds(size, x - 1, y - 1);
        lemma_flat_bounds(size, x - 1, y as int);
        lemma_flat_bounds(size, x - 1, y + 1);
        lemma_flat_bounds(size, x as int, y - 1);
        lemma_flat_bounds(size, x as int, y as int);
        lemma_flat_bounds(size, x as int, y + 1);
        lemma_flat_bounds(size, x + 1, y - 1);
        lemma_flat_bounds(size, x + 1, y as int);
        lemma_flat_bounds(size, x + 1, y + 1);
    }
    let w: Neighborhood = [
        [
            field[(x - 1) * h + (y - 1)],
            field[(x - 1) * h + y],
            field[(x - 1) * h + (y + 1)],
        ],
        [field[x * h + (y - 1)], field[x * h + y], field[x * h + (y + 1)]],
        [
            field[(x + 1) * h + (y - 1)],
            field[(x + 1) * h + y],
            field[(x + 1) * h + (y + 1)],
        ],
    ];
    proof {
        assert forall|i: int, j: int| 0 <= i < 3 && 0 <= j < 3 implies #[trigger] at(w, i, j)
            == field@[flat_index(size, x - 1 + i, y - 1 + j)] by {
            assert(at(w, 0, 0) == field@[flat_index(size, x - 1, y - 1)]);
            assert(at(w, 0, 1) == field@[flat_index(size, x - 1, y as int)]);
            assert(at(w, 0, 2) == field@[flat_index(size, x - 1, y + 1)]);
            assert(at(w, 1, 0) == field@[flat_index(size, x as int, y - 1)]);
            assert(at(w, 1, 1) == field@[flat_index(size, x as int, y as int)]);
            assert(at(w, 1, 2) == field@[flat_index(size, x as int, y + 1)]);
            assert(at(w, 2, 0) == field@[flat_index(size, x + 1, y - 1)]);
            assert(at(w, 2, 1) == field@[flat_index(size, x + 1, y as int)]);
            assert(at(w, 2, 2) == field@[flat_index(size, x + 1, y + 1)]);
        }
    }
    w
}

/// The restore pass of the momentum predictor writes F exactly at the
/// cells `f_overwritten` names, and G exactly at those `g_overwritten`
/// names.
proof fn lemma_touched_iff_overwritten(
    cells: Seq<Cell>,
    size: GridSize,
    entries: Seq<(crate::types::GridIndex, Option<EdgeType>)>,
    x: int,
    y: int,
)
    requires
        entries == crate::grid::boundary_entries(cells, size),
        in_grid(size, x, y),
    ensures
        f_touched_before(entries, entries.len() as int, x, y) <==> f_overwritten(
            cells,
            size,
            x,
            y,
        ),
        g_touched_before(entries, entries.len() as int, x, y) <==> g_overwritten(
            cells,
            size,
            x,
            y,
        ),
{
    crate::grid::lemma_boundary_entries_exact(cells, size);
    let n = entries.len() as int;
    if f_touched_before(entries, n, x, y) {
        let j = choose|j: int|
            0 <= j < n && {
                let e = #[trigger] entries[j];
                e.0 == ((x as usize), (y as usize)) || (match e.1 {
                    Some(EdgeType::West { west_neighbor }) => west_neighbor == (
                        (x as usize),
                        (y as usize),
                    ),
                    Some(EdgeType::SouthWest { south_neighbor: _, west_neighbor }) => west_neighbor
                        == ((x as usize), (y as usize)),
                    Some(EdgeType::NorthWest { north_neighbor: _, west_neighbor }) => west_neighbor
                        == ((x as usize), (y as usize)),
                    _ => false,
                })
            };
        let e = entries[j];
        assert(boundary_at(cells, size, e.0.0 as int, e.0.1 as int));
        assert(e.1 == edge_spec(cells, size, e.0.0 as int, e.0.1 as int));
        assert(f_overwritten(cells, size, x, y));
    }
    if f_overwritten(cells, size, x, y) && !boundary_at(cells, size, x, y) {
        let k = choose|k: int|
            0 <= k < n && entries[k] == crate::grid::entry_at(cells, size, x + 1, y);
        assert(f_touched_before(entries, n, x, y)) by {
            assert(entries[k].0 == (((x + 1) as usize), (y as usize)));
        }
    }
    if boundary_at(cells, size, x, y) {
        let k = choose|k: int| 0 <= k < n && entries[k] == crate::grid::entry_at(cells, size, x, y);
        assert(f_touched_before(entries, n, x, y)) by {
            assert(entries[k].0 == ((x as usize), (y as usize)));
        }
        assert(g_touched_before(entries, n, x, y)) by {
            assert(entries[k].0 == ((x as usize), (y as usize)));
        }
    }
    if g_touched_before(entries, n, x, y) {
        let j = choose|j: int|
            0 <= j < n && {
                let e = #[trigger] entries[j];
                e.0 == ((x as usize), (y as usize)) || (match e.1 {
                    Some(EdgeType::North { north_neighbor }) => north_neighbor == (
                        (x as usize),
                        (y as usize),
                    ),
                    Some(EdgeType::NorthEast { north_neighbor, east_neighbor: _ }) => north_neighbor
                        == ((x as usize), (y as usize)),
                    Some(EdgeType::NorthWest { north_neighbor, west_neighbor: _ }) => north_neighbor
                        == ((x as usize), (y as usize)),
                    _ => false,
                })
            };
        let e = entries[j];
        assert(boundary_at(cells, size, e.0.0 as int, e.0.1 as int));
        assert(e.1 == edge_spec(cells, size, e.0.0 as int, e.0.1 as int));
        assert(g_overwritten(cells, size, x, y));
    }
    if g_overwritten(cells, size, x, y) && !boundary_at(cells, size, x, y) {
        let k = choose|k: int|
            0 <= k < n && entries[k] == crate::grid::entry_at(cells, size, x, y + 1);
        assert(g_touched_before(entries, n, x, y)) by {
            assert(entries[k].0 == ((x as usize), ((y + 1) as usize)));
        }
    }
}

impl Simulation {
    /// The bulk pass of the momentum predictor: the F and G kernels over
    /// every interior cell; the outer ring is left untouched.
    #[verifier::spinoff_prover]
    #[verifier::rlimit(100)]
    fn predictor_bulk(&mut self)
        requires
            old(self).arrays_wf(),
        ensures
            *final(self) == (Simulation { f: final(self).f, g: final(self).g, ..*old(self) }),
            final(self).f@.len() == old(self).f@.len(),
            final(self).g@.len() == old(self).g@.len(),
            forall|x: int, y: int|
                in_grid(old(self).size, x, y) ==> final(self).f@[#[trigger] flat_index(
                    old(self).size,
                    x,
                    y,
                )] == (if interior(old(self).size, x, y) {
                    f_bulk_at(
                        old(self).size,
                        old(self).grid.u@,
                        old(self).grid.v@,
                        old(self).cell_size[0],
                        old(self).cell_size[1],
                        old(self).delt,
                        old(self).gamma,
                        old(self).reynolds,
                        x,
                        y,
                    )
                } else {
                    old(self).f@[flat_index(old(self).size, x, y)]
                }),
            forall|x: int, y: int|
                in_grid(old(self).size, x, y) ==> final(self).g@[#[trigger] flat_index(
                    old(self).size,
                    x,
                    y,
                )] == (if interior(old(self).size, x, y) {
                    g_bulk_at(
                        old(self).size,
                        old(self).grid.u@,
                        old(self).grid.v@,
                        old(self).cell_size[0],
                        old(self).cell_size[1],
                        old(self).delt,
                        old(self).gamma,
                        old(self).reynolds,
                        x,
                        y,
                    )
                } else {
                    old(self).g@[flat_index(old(self).size, x, y)]
                }),
    {
        let ghost size = self.size;
        let ghost u0 = self.grid.u@;
        let ghost v0 = self.grid.v@;
        let ghost f0 = self.f@;
        let ghost g0 = self.g@;
        let w = self.size[0];
        let h = self.size[1];
        let delx = self.cell_size[0];
        let dely = self.cell_size[1];
        let delt = self.delt;
        let gamma = self.gamma;
        let reynolds = self.reynolds;
        let n_cells = self.f.len();
        proof {
            assert(grid_area(size) == n_cells as int);
        }

        let mut x: usize = 1;
        while x + 1 < w
            invariant
                old(self).arrays_wf(),
                size == old(self).size,
                u0 == old(self).grid.u@,
                v0 == old(self).grid.v@,
                f0 == old(self).f@,
                g0 == old(self).g@,
                w as int == grid_w(size),
                h as int == grid_h(size),
                delx == old(self).cell_size[0],
                dely == old(self).cell_size[1],
                delt == old(self).delt,
                gamma == old(self).gamma,
                reynolds == old(self).reynolds,
                grid_area(size) == n_cells as int,
                1 <= x as int,
                x as int + 1 <= if grid_w(size) >= 2 {
                    grid_w(size)
                } else {
                    2
                },
                *self == (Simulation { f: self.f, g: self.g, ..*old(self) }),
                self.f@.len() == f0.len(),
                self.g@.len() == g0.len(),
                forall|x0: int, y0: int|
                    in_grid(size, x0, y0) ==> self.f@[#[trigger] flat_index(size, x0, y0)]
                        == (if interior(size, x0, y0) && x0 < x {
                        f_bulk_at(size, u0, v0, delx, dely, delt, gamma, reynolds, x0, y0)
                    } else {
                        f0[flat_index(size, x0, y0)]
                    }),
                forall|x0: int, y0: int|
                    in_grid(size, x0, y0) ==> self.g@[#[trigger] flat_index(size, x0, y0)]
                        == (if interior(size, x0, y0) && x0 < x {
                        g_bulk_at(size, u0, v0, delx, dely, delt, gamma, reynolds, x0, y0)
                    } else {
                        g0[flat_index(size, x0, y0)]
                    }),
            decreases w - x,
        {
            let mut y: usize = 1;
            while y + 1 < h
                invariant
                    old(self).arrays_wf(),
                    size == old(self).size,
                    u0 == old(self).grid.u@,
                    v0 == old(self).grid.v@,
                    f0 == old(self).f@,
                    g0 == old(self).g@,
                    w as int == grid_w(size),
                    h as int == grid_h(size),
                    delx == old(self).cell_size[0],
                    dely == old(self).cell_size[1],
                    delt == old(self).delt,
                    gamma == old(self).gamma,
                    reynolds == old(self).reynolds,
                    grid_area(size) == n_cells as int,
                    1 <= x as int && x as int + 1 < grid_w(size),
                    1 <= y as int,
                    y as int + 1 <= if grid_h(size) >= 2 {
                        grid_h(size)
                    } else {
                        2
                    },
                    *self == (Simulation { f: self.f, g: self.g, ..*old(self) }),
                    self.f@.len() == f0.len(),
                    self.g@.len() == g0.len(),
                    forall|x0: int, y0: int|
                        in_grid(size, x0, y0) ==> self.f@[#[trigger] flat_index(
                            size,
                            x0,
                            y0,
                        )] == (if interior(size, x0, y0) && (x0 < x || (x0 == x && y0 < y)) {
                            f_bulk_at(size, u0, v0, delx, dely, delt, gamma, reynolds, x0, y0)
                        } else {
                            f0[flat_index(size, x0, y0)]
                        }),
                    forall|x0: int, y0: int|
                        in_grid(size, x0, y0) ==> self.g@[#[trigger] flat_index(
                            size,
                            x0,
                            y0,
                        )] == (if interior(size, x0, y0) && (x0 < x || (x0 == x && y0 < y)) {
                            g_bulk_at(size, u0, v0, delx, dely, delt, gamma, reynolds, x0, y0)
                        } else {
                            g0[flat_index(size, x0, y0)]
                        }),
                decreases h - y,
            {
                proof {
                    lemma_flat_bounds(size, x as int, y as int);
                }
                let u_view = window(&self.grid.u, self.size, x, y);
                let v_view = window(&self.grid.v, self.size, x, y);
                let f_val = calculate_f(&u_view, &v_view, delx, dely, delt, gamma, reynolds);
                let g_val = calculate_g(&u_view, &v_view, delx, dely, delt, gamma, reynolds);
                proof {
                    assert(f_val == f_bulk_at(
                        size,
                        u0,
                        v0,
                        delx,
                        dely,
                        delt,
                        gamma,
                        reynolds,
                        x as int,
                        y as int,
                    ));
                    assert(g_val == g_bulk_at(
                        size,
                        u0,
                        v0,
                        delx,
                        dely,
                        delt,
                        gamma,
                        reynolds,
                        x as int,
                        y as int,
                    ));
                }
                let fl = x * h + y;
                self.f.set(fl, f_val);
                self.g.set(fl, g_val);
                y = y + 1;
                proof {
                    assert forall|x0: int, y0: int| in_grid(size, x0, y0) implies self.f@[
                        #[trigger] flat_index(size, x0, y0)] == (if interior(size, x0, y0) && (x0
                        < x || (x0 == x && y0 < y)) {
                        f_bulk_at(size, u0, v0, delx, dely, delt, gamma, reynolds, x0, y0)
                    } else {
                        f0[flat_index(size, x0, y0)]
                    }) && self.g@[flat_index(size, x0, y0)] == (if interior(size, x0, y0) && (x0
                        < x || (x0 == x && y0 < y)) {
                        g_bulk_at(size, u0, v0, delx, dely, delt, gamma, reynolds, x0, y0)
                    } else {
                        g0[flat_index(size, x0, y0)]
                    }) by {
                        lemma_flat_bounds(size, x0, y0);
                        if !(x0 == x && y0 == y - 1) {
                            crate::grid::lemma_flat_injective(size, x0, y0, x as int, y - 1);
                        }
                    }
                }
            }
            x = x + 1;
        }
    }

    /// The restore pass of the momentum predictor: F and G on every
    /// boundary cell, and on the shared north/west faces its edge owns, are
    /// reset to the current velocities.
    #[verifier::spinoff_prover]
    #[verifier::rlimit(100)]
    fn predictor_restore(&mut self)
        requires
            old(self).grid.wf(),
            old(self).size == old(self).grid.size,
            old(self).f@.len() == grid_area(old(self).size),
            old(self).g@.len() == grid_area(old(self).size),
        ensures
            *final(self) == (Simulation { f: final(self).f, g: final(self).g, ..*old(self) }),
            final(self).f@.len() == old(self).f@.len(),
            final(self).g@.len() == old(self).g@.len(),
            forall|x: int, y: int|
                in_grid(old(self).size, x, y) ==> final(self).f@[#[trigger] flat_index(
                    old(self).size,
                    x,
                    y,
                )] == (if f_overwritten(old(self).grid.cell_type@, old(self).size, x, y) {
                    old(self).grid.u@[flat_index(old(self).size, x, y)]
                } else {
                    old(self).f@[flat_index(old(self).size, x, y)]
                }),
            forall|x: int, y: int|
                in_grid(old(self).size, x, y) ==> final(self).g@[#[trigger] flat_index(
                    old(self).size,
                    x,
                    y,
                )] == (if g_overwritten(old(self).grid.cell_type@, old(self).size, x, y) {
                    old(self).grid.v@[flat_index(old(self).size, x, y)]
                } else {
                    old(self).g@[flat_index(old(self).size, x, y)]
                }),
    {
        let ghost cells = self.grid.cell_type@;
        let ghost size = self.size;
        let ghost u0 = self.grid.u@;
        let ghost v0 = self.grid.v@;
        let ghost f0 = self.f@;
        let ghost g0 = self.g@;
        let ghost entries = self.grid.boundaries.sorted_boundary_list@;
        proof {
            crate::grid::lemma_boundary_entries_exact(cells, size);
        }
        let h = self.size[1];
        let n_cells = self.f.len();
        proof {
            assert(grid_area(size) == n_cells as int);
        }

        let n = self.grid.boundaries.sorted_boundary_list.len();
        let mut k: usize = 0;
        while k < n
            invariant
                old(self).grid.wf(),
                old(self).size == old(self).grid.size,
                size == old(self).size,
                cells == old(self).grid.cell_type@,
                u0 == old(self).grid.u@,
                v0 == old(self).grid.v@,
                f0 == old(self).f@,
                g0 == old(self).g@,
                f0.len() == grid_area(size),
                g0.len() == grid_area(size),
                entries == old(self).grid.boundaries.sorted_boundary_list@,
                entries == crate::grid::boundary_entries(cells, size),
                n as int == entries.len(),
                h as int == grid_h(size),
                grid_area(size) == n_cells as int,
                0 <= k <= n,
                *self == (Simulation { f: self.f, g: self.g, ..*old(self) }),
                self.f@.len() == f0.len(),
                self.g@.len() == g0.len(),
                forall|x0: int, y0: int|
                    in_grid(size, x0, y0) ==> self.f@[#[trigger] flat_index(size, x0, y0)]
                        == (if f_touched_before(entries, k as int, x0, y0) {
                        u0[flat_index(size, x0, y0)]
                    } else {
                        f0[flat_index(size, x0, y0)]
                    }),
                forall|x0: int, y0: int|
                    in_grid(size, x0, y0) ==> self.g@[#[trigger] flat_index(size, x0, y0)]
                        == (if g_touched_before(entries, k as int, x0, y0) {
                        v0[flat_index(size, x0, y0)]
                    } else {
                        g0[flat_index(size, x0, y0)]
                    }),
            decreases n - k,
        {
            let (bidx, maybe_edge) = self.grid.boundaries.sorted_boundary_list[k];
            let ghost bx = bidx.0 as int;
            let ghost by = bidx.1 as int;
            proof {
                crate::grid::lemma_boundary_entries_exact(cells, size);
                assert(entries[k as int] == crate::grid::boundary_entries(cells, size)[k as int]);
                assert(boundary_at(cells, size, bx, by));
                assert(maybe_edge == edge_spec(cells, size, bx, by));
                lemma_flat_bounds(size, bx, by);
                crate::grid::lemma_edge_spec_fields_in_grid(cells, size, bx, by);
            }
            let flb = bidx.0 * h + bidx.1;
            let u_here = self.grid.u[flb];
            self.f.set(flb, u_here);
            let v_here = self.grid.v[flb];
            self.g.set(flb, v_here);
            match maybe_edge {
                Some(EdgeType::North { north_neighbor }) => {
                    proof {
                        lemma_flat_bounds(size, north_neighbor.0 as int, north_neighbor.1 as int);
                    }
                    let fln = north_neighbor.0 * h + north_neighbor.1;
                    let v_face = self.grid.v[fln];
                    self.g.set(fln, v_face);
                },
                Some(EdgeType::NorthWest { north_neighbor, west_neighbor }) => {
                    proof {
                        lemma_flat_bounds(size, north_neighbor.0 as int, north_neighbor.1 as int);
                        lemma_flat_bounds(size, west_neighbor.0 as int, west_neighbor.1 as int);
                    }
                    let flw = west_neighbor.0 * h + west_neighbor.1;
                    let u_face = self.grid.u[flw];
                    self.f.set(flw, u_face);
                    let fln = north_neighbor.0 * h + north_neighbor.1;
                    let v_face = self.grid.v[fln];
                    self.g.set(fln, v_face);
                },
                Some(EdgeType::West { west_neighbor }) => {
                    proof {
                        lemma_flat_bounds(size, west_neighbor.0 as int, west_neighbor.1 as int);
                    }
                    let flw = west_neighbor.0 * h + west_neighbor.1;
                    let u_face = self.grid.u[flw];
                    self.f.set(flw, u_face);
                },
                Some(EdgeType::SouthWest { south_neighbor: _, west_neighbor }) => {
                    proof {
                        lemma_flat_bounds(size, west_neighbor.0 as int, west_neighbor.1 as int);
                    }
                    let flw = west_neighbor.0 * h + west_neighbor.1;
                    let u_face = self.grid.u[flw];
                    self.f.set(flw, u_face);
                },
                Some(EdgeType::NorthEast { north_neighbor, east_neighbor: _ }) => {
                    proof {
                        lemma_flat_bounds(size, north_neighbor.0 as int, north_neighbor.1 as int);
                    }
                    let fln = north_neighbor.0 * h + north_neighbor.1;
                    let v_face = self.grid.v[fln];
                    self.g.set(fln, v_face);
                },
                _ => {},
            }
            k = k + 1;
            proof {
                assert forall|x0: int, y0: int| in_grid(size, x0, y0) implies self.f@[
                    #[trigger] flat_index(size, x0, y0)] == (if f_touched_before(
                    entries,
                    k as int,
                    x0,
                    y0,
                ) {
                    u0[flat_index(size, x0, y0)]
                } else {
                    f0[flat_index(size, x0, y0)]
                }) by {
                    lemma_flat_bounds(size, x0, y0);
                    if !(x0 == bx && y0 == by) {
                        crate::grid::lemma_flat_injective(size, x0, y0, bx, by);
                    }
                    if !(x0 == bx - 1 && y0 == by) && in_grid(size, bx - 1, by) {
                        crate::grid::lemma_flat_injective(size, x0, y0, bx - 1, by);
                    }
                    if !(x0 == bx && y0 == by - 1) && in_grid(size, bx, by - 1) {
                        crate::grid::lemma_flat_injective(size, x0, y0, bx, by - 1);
                    }
                    if f_touched_before(entries, k as int, x0, y0) && !f_touched_before(
                        entries,
                        k - 1,
                        x0,
                        y0,
                    ) {
                        assert(entries[k - 1].0 == ((x0 as usize), (y0 as usize)) || (
                        match entries[k - 1].1 {
                            Some(EdgeType::West { west_neighbor }) => west_neighbor == (
                                (x0 as usize),
                                (y0 as usize),
                            ),
                            Some(EdgeType::SouthWest { south_neighbor: _, west_neighbor }) =>
                                west_neighbor == ((x0 as usize), (y0 as usize)),
                            Some(EdgeType::NorthWest { north_neighbor: _, west_neighbor }) =>
                                west_neighbor == ((x0 as usize), (y0 as usize)),
                            _ => false,
                        }));
                    }
                }
                assert forall|x0: int, y0: int| in_grid(size, x0, y0) implies self.g@[
                    #[trigger] flat_index(size, x0, y0)] == (if g_touched_before(
                    entries,
                    k as int,
                    x0,
                    y0,
                ) {
                    v0[flat_index(size, x0, y0)]
                } else {
                    g0[flat_index(size, x0, y0)]
                }) by {
                    lemma_flat_bounds(size, x0, y0);
                    if !(x0 == bx && y0 == by) {
                        crate::grid::lemma_flat_injective(size, x0, y0, bx, by);
                    }
                    if !(x0 == bx - 1 && y0 == by) && in_grid(size, bx - 1, by) {
                        crate::grid::lemma_flat_injective(size, x0, y0, bx - 1, by);
                    }
                    if !(x0 == bx && y0 == by - 1) && in_grid(size, bx, by - 1) {
                        crate::grid::lemma_flat_injective(size, x0, y0, bx, by - 1);
                    }
                    if g_touched_before(entries, k as int, x0, y0) && !g_touched_before(
                        entries,
                        k - 1,
                        x0,
                        y0,
                    ) {
                        assert(entries[k - 1].0 == ((x0 as usize), (y0 as usize)) || (
                        match entries[k - 1].1 {
                            Some(EdgeType::North { north_neighbor }) => north_neighbor == (
                                (x0 as usize),
                                (y0 as usize),
                            ),
                            Some(EdgeType::NorthEast { north_neighbor, east_neighbor: _ }) =>
                                north_neighbor == ((x0 as usize), (y0 as usize)),
                            Some(EdgeType::NorthWest { north_neighbor, west_neighbor: _ }) =>
                                north_neighbor == ((x0 as usize), (y0 as usize)),
                            _ => false,
                        }));
                    }
                }
            }
        }
        proof {
            assert forall|x0: int, y0: int| in_grid(size, x0, y0) implies f_touched_before(
                entries,
                n as int,
                x0,
                y0,
            ) == f_overwritten(cells, size, x0, y0) && g_touched_before(entries, n as int, x0, y0)
                == g_overwritten(cells, size, x0, y0) by {
                lemma_touched_iff_overwritten(cells, size, entries, x0, y0);
            }
        }
    }

    /// Compute the tentative momentum F and G: the bulk kernel over every
    /// interior cell, after which F and G on boundary cells (and the shared
    /// north/west faces their edges own) are reset to the current
    /// velocities, so boundary-adjacent momentum is not perturbed.
    pub fn calculate_f_and_g(&mut self)
        requires
            old(self).arrays_wf(),
        ensures
            final(self).arrays_wf(),
            *final(self) == (Simulation { f: final(self).f, g: final(self).g, ..*old(self) }),
            final(self).f@.len() == old(self).f@.len(),
            final(self).g@.len() == old(self).g@.len(),
            forall|x: int, y: int|
                in_grid(old(self).size, x, y) ==> final(self).f@[#[trigger] flat_index(
                    old(self).size,
                    x,
                    y,
                )] == f_after(
                    old(self).grid.cell_type@,
                    old(self).size,
                    old(self).grid.u@,
                    old(self).grid.v@,
                    old(self).f@,
                    old(self).cell_size[0],
                    old(self).cell_size[1],
                    old(self).delt,
                    old(self).gamma,
                    old(self).reynolds,
                    x,
                    y,
                ),
            forall|x: int, y: int|
                in_grid(old(self).size, x, y) ==> final(self).g@[#[trigger] flat_index(
                    old(self).size,
                    x,
                    y,
                )] == g_after(
                    old(self).grid.cell_type@,
                    old(self).size,
                    old(self).grid.u@,
                    old(self).grid.v@,
                    old(self).g@,
                    old(self).cell_size[0],
                    old(self).cell_size[1],
                    old(self).delt,
                    old(self).gamma,
                    old(self).reynolds,
                    x,
                    y,
                ),
    {
        self.predictor_bulk();
        self.predictor_restore();
    }

    /// Compute the right-hand side of the pressure equation from the
    /// tentative momentum, for every cell with a defined west and south
    /// neighbor.
    #[verifier::loop_isolation(false)]
    pub fn calculate_rhs(&mut self)
        requires
            old(self).arrays_wf(),
        ensures
            final(self).arrays_wf(),
            *final(self) == (Simulation { rhs: final(self).rhs, ..*old(self) }),
            final(self).rhs@.len() == old(self).rhs@.len(),
            forall|x: int, y: int|
                in_grid(old(self).size, x, y) ==> final(self).rhs@[#[trigger] flat_index(
                    old(self).size,
                    x,
                    y,
                )] == rhs_after(
                    old(self).size,
                    old(self).f@,
                    old(self).g@,
                    old(self).rhs@,
                    old(self).cell_size[0],
                    old(self).cell_size[1],
                    old(self).delt,
                    x,
                    y,
                ),
    {
        let ghost size = self.size;
        let ghost f1 = self.f@;
        let ghost g1 = self.g@;
        let ghost rhs0 = self.rhs@;
        let w = self.size[0];
        let h = self.size[1];
        let delx = self.cell_size[0];
        let dely = self.cell_size[1];
        let delt = self.delt;
        let n_cells = self.rhs.len();
        proof {
            assert(grid_area(size) == n_cells as int);
        }

        let mut x: usize = 1;
        while x < w
            invariant
                1 <= x <= w,
                *self == (Simulation { rhs: self.rhs, ..*old(self) }),
                self.rhs@.len() == rhs0.len(),
                forall|x0: int, y0: int|
                    in_grid(size, x0, y0) ==> self.rhs@[#[trigger] flat_index(size, x0, y0)] == (
                    if 1 <= x0 < x && 1 <= y0 {
                        rhs_after(size, f1, g1, rhs0, delx, dely, delt, x0, y0)
                    } else {
                        rhs0[flat_index(size, x0, y0)]
                    }),
            decreases w - x,
        {
            let mut y: usize = 1;
            while y < h
                invariant
                    1 <= x < w,
                    1 <= y <= h,
                    *self == (Simulation { rhs: self.rhs, ..*old(self) }),
                    self.rhs@.len() == rhs0.len(),
                    forall|x0: int, y0: int|
                        in_grid(size, x0, y0) ==> self.rhs@[#[trigger] flat_index(size, x0, y0)]
                            == (if (1 <= x0 < x && 1 <= y0) || (x0 == x && 1 <= y0 < y) {
                            rhs_after(size, f1, g1, rhs0, delx, dely, delt, x0, y0)
                        } else {
                            rhs0[flat_index(size, x0, y0)]
                        }),
                decreases h - y,
            {
                proof {
                    lemma_flat_bounds(size, x as int, y as int);
                    lemma_flat_bounds(size, x - 1, y as int);
                    lemma_flat_bounds(size, x as int, y - 1);
                }
                let f_here = self.f[x * h + y];
                let f_west = self.f[(x - 1) * h + y];
                let g_here = self.g[x * h + y];
                let g_south = self.g[x * h + (y - 1)];
                let val = real_div(
                    real_add(
                        real_div(real_sub(f_here, f_west), delx),
                        real_div(real_sub(g_here, g_south), dely),
                    ),
                    delt,
                );
                self.rhs.set(x * h + y, val);
                proof {
                    assert(val == rhs_after(size, f1, g1, rhs0, delx, dely, delt, x as int, y as int));
                }
                y = y + 1;
                proof {
                    assert forall|x0: int, y0: int| in_grid(size, x0, y0) implies self.rhs@[
                        #[trigger] flat_index(size, x0, y0)] == (if (1 <= x0 < x && 1 <= y0) || (x0
                        == x && 1 <= y0 < y) {
                        rhs_after(size, f1, g1, rhs0, delx, dely, delt, x0, y0)
                    } else {
                        rhs0[flat_index(size, x0, y0)]
                    }) by {
                        lemma_flat_bounds(size, x0, y0);
                        if !(x0 == x && y0 == y - 1) {
                            crate::grid::lemma_flat_injective(size, x0, y0, x as int, y - 1);
                        }
                    }
                }
            }
            x = x + 1;
        }
    }
}

/// A per-cell field as a flat sequence, built from a function of the cell
/// position.
pub open spec fn cell_image<T>(size: GridSize, f: spec_fn(int, int) -> T) -> Seq<T> {
    Seq::new(grid_area(size) as nat, |i: int| f(i / grid_h(size), i % grid_h(size)))
}

/// Every flat index below the area belongs to an in-grid cell.
pub proof fn lemma_flat_unflatten(size: GridSize, i: int)
    requires
        grid_h(size) >= 1,
        0 <= i < grid_area(size),
    ensures
        in_grid(size, i / grid_h(size), i % grid_h(size)),
        flat_index(size, i / grid_h(size), i % grid_h(size)) == i,
{
    let h = grid_h(size);
    let w = grid_w(size);
    vstd::arithmetic::div_mod::lemma_fundamental_div_mod(i, h);
    vstd::arithmetic::div_mod::lemma_mod_bound(i, h);
    vstd::arithmetic::div_mod::lemma_div_pos_is_pos(i, h);
    assert(i / h < w) by (nonlinear_arith)
        requires
            h * (i / h) + i % h == i,
            0 <= i % h < h,
            i < w * h,
            i / h >= 0,
            h >= 1,
    ;
    assert((i / h) * h + i % h == i) by (nonlinear_arith)
        requires
            h * (i / h) + i % h == i,
    ;
}

/// A field that agrees with a cell function at every position is that
/// function's image.
pub proof fn lemma_pointwise_eq_image<T>(size: GridSize, q: Seq<T>, f: spec_fn(int, int) -> T)
    requires
        grid_h(size) >= 1,
        q.len() == grid_area(size),
        forall|x: int, y: int|
            in_grid(size, x, y) ==> q[#[trigger] flat_index(size, x, y)] == f(x, y),
    ensures
        q == cell_image(size, f),
{
    assert forall|i: int| 0 <= i < q.len() implies q[i] == cell_image(size, f)[i] by {
        lemma_flat_unflatten(size, i);
        assert(q[flat_index(size, i / grid_h(size), i % grid_h(size))] == f(
            i / grid_h(size),
            i % grid_h(size),
        ));
    }
    assert(q =~= cell_image(size, f));
}

/// Two per-cell fields that agree at every position are equal.
pub proof fn lemma_pointwise_eq<T>(size: GridSize, q1: Seq<T>, q2: Seq<T>)
    requires
        grid_h(size) >= 1,
        q1.len() == grid_area(size),
        q2.len() == grid_area(size),
        forall|x: int, y: int|
            in_grid(size, x, y) ==> q1[#[trigger] flat_index(size, x, y)] == q2[flat_index(
                size,
                x,
                y,
            )],
    ensures
        q1 == q2,
{
    assert forall|i: int| 0 <= i < q1.len() implies q1[i] == q2[i] by {
        lemma_flat_unflatten(size, i);
        assert(q1[flat_index(size, i / grid_h(size), i % grid_h(size))] == q2[flat_index(
            size,
            i / grid_h(size),
            i % grid_h(size),
        )]);
    }
    assert(q1 =~= q2);
}

/// The discrete Poisson residual at `(x, y)` of a pressure field against
/// the right-hand side.
pub open spec fn residual_at(
    p: Seq<u64>,
    rhs: Seq<u64>,
    size: GridSize,
    delx: u64,
    dely: u64,
    x: int,
    y: int,
) -> u64 {
    residual_bits(
        p[flat_index(size, x - 1, y)],
        p[flat_index(size, x, y)],
        p[flat_index(size, x + 1, y)],
        p[flat_index(size, x, y - 1)],
        p[flat_index(size, x, y + 1)],
        delx,
        dely,
        rhs[flat_index(size, x, y)],
    )
}

/// The running sum of squared residuals over the interior cells `(x, 1)`
/// through `(x, yn - 1)`, added onto `acc` in increasing order.
pub open spec fn norm_row(
    p: Seq<u64>,
    rhs: Seq<u64>,
    size: GridSize,
    delx: u64,
    dely: u64,
    x: int,
    yn: int,
    acc: u64,
) -> u64
    decreases yn,
{
    if yn <= 1 {
        acc
    } else {
        add_bits(
            norm_row(p, rhs, size, delx, dely, x, yn - 1, acc),
            square_bits(residual_at(p, rhs, size, delx, dely, x, yn - 1)),
        )
    }
}

/// The running sum of squared residuals over the interior cells of the
/// first `xn` columns, added onto `acc` in increasing order.
pub open spec fn norm_cols(
    p: Seq<u64>,
    rhs: Seq<u64>,
    size: GridSize,
    delx: u64,
    dely: u64,
    xn: int,
    acc: u64,
) -> u64
    decreases xn,
{
    if xn <= 1 {
        acc
    } else {
        norm_row(
            p,
            rhs,
            size,
            delx,
            dely,
            xn - 1,
            grid_h(size) - 1,
            norm_cols(p, rhs, size, delx, dely, xn - 1, acc),
        )
    }
}

/// The mean squared residual: the sum of squared residuals over all
/// interior cells, divided by the number of fluid cells.
pub open spec fn norm_squared_spec(
    p: Seq<u64>,
    rhs: Seq<u64>,
    size: GridSize,
    delx: u64,
    dely: u64,
    fluid_cells: u64,
) -> u64 {
    div_bits(
        norm_cols(p, rhs, size, delx, dely, grid_w(size) - 1, crate::scalar::ZERO_BITS),
        crate::scalar::of_int_bits(fluid_cells),
    )
}

/// One in-place SOR update of the pressure at a fluid cell: the weighted
/// average of the old value and the neighbor-coupled update.  Because the
/// sweep updates in place, the neighbor values are those of the partially
/// updated field.
pub open spec fn sor_cell_update(
    p: Seq<u64>,
    rhs: Seq<u64>,
    size: GridSize,
    one_minus_w: u64,
    middle: u64,
    delx2: u64,
    dely2: u64,
    x: int,
    y: int,
) -> u64 {
    add_bits(
        mul_bits(one_minus_w, p[flat_index(size, x, y)]),
        mul_bits(
            middle,
            sub_bits(
                add_bits(
                    div_bits(
                        add_bits(p[flat_index(size, x + 1, y)], p[flat_index(size, x - 1, y)]),
                        delx2,
                    ),
                    div_bits(
                        add_bits(p[flat_index(size, x, y + 1)], p[flat_index(size, x, y - 1)]),
                        dely2,
                    ),
                ),
                rhs[flat_index(size, x, y)],
            ),
        ),
    )
}

/// The pressure field after the SOR sweep has visited the fluid cells
/// `(x, 1)` through `(x, yn - 1)` of one column, in increasing order.
pub open spec fn sor_row(
    cells: Seq<Cell>,
    rhs: Seq<u64>,
    size: GridSize,
    one_minus_w: u64,
    middle: u64,
    delx2: u64,
    dely2: u64,
    p: Seq<u64>,
    x: int,
    yn: int,
) -> Seq<u64>
    decreases yn,
{
    if yn <= 1 {
        p
    } else {
        let q = sor_row(cells, rhs, size, one_minus_w, middle, delx2, dely2, p, x, yn - 1);
        if cell_at(cells, size, x, yn - 1) is Fluid {
            q.update(
                flat_index(size, x, yn - 1),
                sor_cell_update(q, rhs, size, one_minus_w, middle, delx2, dely2, x, yn - 1),
            )
        } else {
            q
        }
    }
}

/// The pressure field after the SOR sweep has visited the first `xn`
/// columns.
pub open spec fn sor_cols(
    cells: Seq<Cell>,
    rhs: Seq<u64>,
    size: GridSize,
    one_minus_w: u64,
    middle: u64,
    delx2: u64,
    dely2: u64,
    p: Seq<u64>,
    xn: int,
) -> Seq<u64>
    decreases xn,
{
    if xn <= 1 {
        p
    } else {
        sor_row(
            cells,
            rhs,
            size,
            one_minus_w,
            middle,
            delx2,
            dely2,
            sor_cols(cells, rhs, size, one_minus_w, middle, delx2, dely2, p, xn - 1),
            xn - 1,
            grid_h(size) - 1,
        )
    }
}

/// The pressure field after the pressure boundary conditions are applied.
pub open spec fn pressure_bc_image(cells: Seq<Cell>, size: GridSize, p: Seq<u64>) -> Seq<u64> {
    cell_image(size, |x: int, y: int| crate::grid::pressure_after_bc(cells, size, p, x, y))
}

/// One SOR iteration: re-apply the pressure boundary conditions, then
/// sweep every interior fluid cell in place in the canonical order.
pub open spec fn sor_iteration(
    cells: Seq<Cell>,
    rhs: Seq<u64>,
    size: GridSize,
    one_minus_w: u64,
    middle: u64,
    delx2: u64,
    dely2: u64,
    p: Seq<u64>,
) -> Seq<u64> {
    sor_cols(
        cells,
        rhs,
        size,
        one_minus_w,
        middle,
        delx2,
        dely2,
        pressure_bc_image(cells, size, p),
        grid_w(size) - 1,
    )
}

/// What the SOR solver returns and leaves behind when started in iteration
/// `i` with pressure `p` and last measured norm `last`: the iteration
/// count, the last mean squared residual, and the final pressure field.
/// The solver stops as soon as the residual falls strictly below the
/// initial norm or below the squared absolute epsilon; reaching the
/// iteration limit is a normal outcome, not an error.
pub open spec fn sor_from(
    cells: Seq<Cell>,
    rhs: Seq<u64>,
    size: GridSize,
    one_minus_w: u64,
    middle: u64,
    delx2: u64,
    dely2: u64,
    delx: u64,
    dely: u64,
    fluid_cells: u64,
    initial: u64,
    eps2: u64,
    max: int,
    p: Seq<u64>,
    last: u64,
    i: int,
) -> (int, u64, Seq<u64>)
    decreases max - i,
{
    if i >= max {
        (max, last, p)
    } else {
        let p1 = sor_iteration(cells, rhs, size, one_minus_w, middle, delx2, dely2, p);
        let n1 = norm_squared_spec(p1, rhs, size, delx, dely, fluid_cells);
        if crate::scalar::lt_bits(n1, initial) || crate::scalar::lt_bits(n1, eps2) {
            (i + 1, n1, p1)
        } else {
            sor_from(
                cells,
                rhs,
                size,
                one_minus_w,
                middle,
                delx2,
                dely2,
                delx,
                dely,
                fluid_cells,
                initial,
                eps2,
                max,
                p1,
                n1,
                i + 1,
            )
        }
    }
}

/// What the SOR solver computes for a simulation state: iteration count,
/// final mean squared residual, and final pressure field.
pub open spec fn solve_sor_spec(s: Simulation) -> (int, u64, Seq<u64>) {
    let delx = s.cell_size[0];
    let dely = s.cell_size[1];
    let delx2 = mul_bits(delx, delx);
    let dely2 = mul_bits(dely, dely);
    let one_minus_w = sub_bits(crate::scalar::ONE_BITS, s.omega);
    let middle = div_bits(
        s.omega,
        add_bits(
            div_bits(crate::scalar::TWO_BITS, delx2),
            div_bits(crate::scalar::TWO_BITS, dely2),
        ),
    );
    let eps2 = mul_bits(s.sor_absolute_epsilon, s.sor_absolute_epsilon);
    sor_from(
        s.grid.cell_type@,
        s.rhs@,
        s.size,
        one_minus_w,
        middle,
        delx2,
        dely2,
        delx,
        dely,
        s.grid.boundaries.fluid_cells as u64,
        s.initial_norm_squared.unwrap(),
        eps2,
        s.max_iterations as int,
        s.grid.pressure@,
        crate::scalar::ZERO_BITS,
        0,
    )
}

impl Simulation {
    /// The mean squared residual of the current pressure field against the
    /// current right-hand side, normalized by the fluid-cell count.
    #[verifier::loop_isolation(false)]
    pub fn calculate_norm_squared(&self) -> (r: u64)
        requires
            self.grid.wf(),
            self.size == self.grid.size,
            self.rhs@.len() == grid_area(self.size),
        ensures
            r == norm_squared_spec(
                self.grid.pressure@,
                self.rhs@,
                self.size,
                self.cell_size[0],
                self.cell_size[1],
                self.grid.boundaries.fluid_cells as u64,
            ),
    {
        let ghost size = self.size;
        let ghost p = self.grid.pressure@;
        let ghost rhs_seq = self.rhs@;
        let w = self.size[0];
        let h = self.size[1];
        let delx = self.cell_size[0];
        let dely = self.cell_size[1];
        let n_cells = self.rhs.len();
        proof {
            assert(grid_area(size) == n_cells as int);
        }

        let mut sums: u64 = crate::scalar::ZERO_BITS;
        let mut x: usize = 1;
        while x + 1 < w
            invariant
                1 <= x as int,
                x as int <= if grid_w(size) >= 2 {
                    grid_w(size) - 1
                } else {
                    1
                },
                sums == norm_cols(p, rhs_seq, size, delx, dely, x as int, crate::scalar::ZERO_BITS),
            decreases w - x,
        {
            let mut y: usize = 1;
            while y + 1 < h
                invariant
                    1 <= x as int && x as int + 1 < grid_w(size),
                    1 <= y as int,
                    y as int <= if grid_h(size) >= 2 {
                        grid_h(size) - 1
                    } else {
                        1
                    },
                    sums == norm_row(
                        p,
                        rhs_seq,
                        size,
                        delx,
                        dely,
                        x as int,
                        y as int,
                        norm_cols(p, rhs_seq, size, delx, dely, x as int, crate::scalar::ZERO_BITS),
                    ),
                decreases h - y,
            {
                proof {
                    lemma_flat_bounds(size, x as int, y as int);
                }
                let p_view = window(&self.grid.pressure, self.size, x, y);
                let rhs_here = self.rhs[x * h + y];
                let res = crate::math::residual(&p_view, delx, dely, rhs_here);
                let res_sq = real_mul(res, res);
                sums = real_add(sums, res_sq);
                y = y + 1;
            }
            x = x + 1;
            proof {
                if grid_h(size) >= 2 {
                    assert(sums == norm_cols(
                        p,
                        rhs_seq,
                        size,
                        delx,
                        dely,
                        x as int,
                        crate::scalar::ZERO_BITS,
                    ));
                }
            }
        }
        real_div(sums, crate::scalar::real_of_count(self.grid.boundaries.fluid_cells))
    }

    /// The convergence baseline: the stored initial mean squared residual,
    /// computed from the current state and stored on the first call, and
    /// kept for the simulation's whole lifetime afterwards.
    pub fn get_initial_norm_squared(&mut self) -> (r: u64)
        requires
            old(self).grid.wf(),
            old(self).size == old(self).grid.size,
            old(self).f@.len() == grid_area(old(self).size),
            old(self).g@.len() == grid_area(old(self).size),
            old(self).rhs@.len() == grid_area(old(self).size),
        ensures
            *final(self) == (Simulation {
                initial_norm_squared: final(self).initial_norm_squared,
                ..*old(self)
            }),
            old(self).initial_norm_squared matches Some(n) ==> r == n && final(self)
                .initial_norm_squared == old(self).initial_norm_squared,
            old(self).initial_norm_squared is None ==> r == norm_squared_spec(
                old(self).grid.pressure@,
                old(self).rhs@,
                old(self).size,
                old(self).cell_size[0],
                old(self).cell_size[1],
                old(self).grid.boundaries.fluid_cells as u64,
            ) && final(self).initial_norm_squared == Some(r),
    {
        match self.initial_norm_squared {
            Some(norm) => norm,
            None => {
                let norm = self.calculate_norm_squared();
                self.initial_norm_squared = Some(norm);
                norm
            },
        }
    }

    /// One in-place Gauss-Seidel sweep over the interior fluid cells, in
    /// the canonical order; later cells see already-updated neighbors.
    #[verifier::loop_isolation(false)]
    fn sor_sweep(&mut self, one_minus_w: u64, middle: u64, delx2: u64, dely2: u64)
        requires
            old(self).wf(),
        ensures
            final(self).wf(),
            *final(self) == (Simulation { grid: final(self).grid, ..*old(self) }),
            final(self).grid == (SimulationGrid {
                pressure: final(self).grid.pressure,
                ..old(self).grid
            }),
            final(self).grid.pressure@ == sor_cols(
                old(self).grid.cell_type@,
                old(self).rhs@,
                old(self).size,
                one_minus_w,
                middle,
                delx2,
                dely2,
                old(self).grid.pressure@,
                grid_w(old(self).size) - 1,
            ),
    {
        let ghost cells = self.grid.cell_type@;
        let ghost size = self.size;
        let ghost rhs_seq = self.rhs@;
        let ghost p_bc = self.grid.pressure@;
        let ghost s0 = *old(self);
        let w = self.size[0];
        let h = self.size[1];
        let n_cells = self.grid.pressure.len();
        proof {
            assert(grid_area(size) == n_cells as int);
        }

        let mut x: usize = 1;
        while x + 1 < w
            invariant
                1 <= x as int,
                x as int <= if grid_w(size) >= 2 {
                    grid_w(size) - 1
                } else {
                    1
                },
                self.wf(),
                *self == (Simulation { grid: self.grid, ..s0 }),
                self.grid == (SimulationGrid { pressure: self.grid.pressure, ..s0.grid }),
                self.grid.pressure@ == sor_cols(
                    cells,
                    rhs_seq,
                    size,
                    one_minus_w,
                    middle,
                    delx2,
                    dely2,
                    p_bc,
                    x as int,
                ),
            decreases w - x,
        {
            let mut y: usize = 1;
            while y + 1 < h
                invariant
                    1 <= x as int && x as int + 1 < grid_w(size),
                    1 <= y as int,
                    y as int <= if grid_h(size) >= 2 {
                        grid_h(size) - 1
                    } else {
                        1
                    },
                    self.wf(),
                    *self == (Simulation { grid: self.grid, ..s0 }),
                    self.grid == (SimulationGrid { pressure: self.grid.pressure, ..s0.grid }),
                    self.grid.pressure@ == sor_row(
                        cells,
                        rhs_seq,
                        size,
                        one_minus_w,
                        middle,
                        delx2,
                        dely2,
                        sor_cols(
                            cells,
                            rhs_seq,
                            size,
                            one_minus_w,
                            middle,
                            delx2,
                            dely2,
                            p_bc,
                            x as int,
                        ),
                        x as int,
                        y as int,
                    ),
                decreases h - y,
            {
                proof {
                    lemma_flat_bounds(size, x as int, y as int);
                    lemma_flat_bounds(size, x - 1, y as int);
                    lemma_flat_bounds(size, x + 1, y as int);
                    lemma_flat_bounds(size, x as int, y - 1);
                    lemma_flat_bounds(size, x as int, y + 1);
                }
                let fl = x * h + y;
                match self.grid.cell_type[fl] {
                    Cell::Fluid => {
                        let p_i_j = self.grid.pressure[fl];
                        let p_i_m1_j = self.grid.pressure[(x - 1) * h + y];
                        let p_i_p1_j = self.grid.pressure[(x + 1) * h + y];
                        let p_i_j_m1 = self.grid.pressure[x * h + (y - 1)];
                        let p_i_j_p1 = self.grid.pressure[x * h + (y + 1)];
                        let rhs_here = self.rhs[fl];

                        let updated = real_add(
                            real_mul(one_minus_w, p_i_j),
                            real_mul(
                                middle,
                                real_sub(
                                    real_add(
                                        real_div(real_add(p_i_p1_j, p_i_m1_j), delx2),
                                        real_div(real_add(p_i_j_p1, p_i_j_m1), dely2),
                                    ),
                                    rhs_here,
                                ),
                            ),
                        );
                        self.grid.pressure.set(fl, updated);
                    },
                    Cell::Boundary(_) => {},
                }
                y = y + 1;
            }
            x = x + 1;
            proof {
                if grid_h(size) >= 2 {
                    assert(self.grid.pressure@ == sor_cols(
                        cells,
                        rhs_seq,
                        size,
                        one_minus_w,
                        middle,
                        delx2,
                        dely2,
                        p_bc,
                        x as int,
                    ));
                }
            }
        }
    }

    /// Relax the pressure field toward the discrete continuity constraint:
    /// iterate boundary-condition application, an in-place Gauss-Seidel
    /// sweep over the fluid cells, and a residual measurement, until the
    /// mean squared residual falls below the initial norm or below the
    /// squared epsilon, or the iteration limit is reached (a normal
    /// outcome).  Returns the iteration count and the last residual.
    #[verifier::loop_isolation(false)]
    #[verifier::rlimit(60)]
    pub fn solve_sor(&mut self) -> (r: Result<(u32, u64), SimulationGridError>)
        requires
            old(self).wf(),
        ensures
            final(self).wf(),
            *final(self) == (Simulation {
                grid: final(self).grid,
                ..*old(self)
            }),
            final(self).grid == (SimulationGrid {
                pressure: final(self).grid.pressure,
                ..old(self).grid
            }),
            ({
                let (its, nrm, pfin) = solve_sor_spec(*old(self));
                &&& r == Ok::<(u32, u64), SimulationGridError>(((its as u32), nrm))
                &&& final(self).grid.pressure@ == pfin
            }),
    {
        let ghost s0 = *old(self);
        let ghost cells = self.grid.cell_type@;
        let ghost size = self.size;
        let ghost rhs_seq = self.rhs@;
        let w = self.size[0];
        let h = self.size[1];
        let delx = self.cell_size[0];
        let dely = self.cell_size[1];

        let delx2 = real_mul(delx, delx);
        let dely2 = real_mul(dely, dely);
        let one_minus_w = real_sub(crate::scalar::ONE_BITS, self.omega);
        let middle = real_div(
            self.omega,
            real_add(
                real_div(crate::scalar::TWO_BITS, delx2),
                real_div(crate::scalar::TWO_BITS, dely2),
            ),
        );
        let epsilon_squared = real_mul(self.sor_absolute_epsilon, self.sor_absolute_epsilon);

        let mut norm_squared: u64 = crate::scalar::ZERO_BITS;
        let max_iterations = self.max_iterations;
        let mut i: u32 = 0;
        while i < max_iterations
            invariant
                0 <= i <= max_iterations,
                self.wf(),
                *self == (Simulation { grid: self.grid, ..s0 }),
                self.grid == (SimulationGrid { pressure: self.grid.pressure, ..s0.grid }),
                sor_from(
                    cells,
                    rhs_seq,
                    size,
                    one_minus_w,
                    middle,
                    delx2,
                    dely2,
                    delx,
                    dely,
                    s0.grid.boundaries.fluid_cells as u64,
                    s0.initial_norm_squared.unwrap(),
                    epsilon_squared,
                    max_iterations as int,
                    self.grid.pressure@,
                    norm_squared,
                    i as int,
                ) == solve_sor_spec(s0),
            decreases max_iterations - i,
        {
            let ghost p_before = self.grid.pressure@;
            match self.grid.copy_pressure_to_boundaries() {
                Ok(()) => {},
                Err(e) => {
                    return Err(e);
                },
            }
            proof {
                lemma_pointwise_eq_image(
                    size,
                    self.grid.pressure@,
                    |x: int, y: int| crate::grid::pressure_after_bc(cells, size, p_before, x, y),
                );
                assert(self.grid.pressure@ == pressure_bc_image(cells, size, p_before));
            }
            self.sor_sweep(one_minus_w, middle, delx2, dely2);
            proof {
                assert(self.grid.pressure@ == sor_iteration(
                    cells,
                    rhs_seq,
                    size,
                    one_minus_w,
                    middle,
                    delx2,
                    dely2,
                    p_before,
                ));
            }

            let initial_norm_squared = self.get_initial_norm_squared();
            norm_squared = self.calculate_norm_squared();

            if real_lt(norm_squared, initial_norm_squared) || real_lt(
                norm_squared,
                epsilon_squared,
            ) {
                return Ok((i + 1, norm_squared));
            }
            i = i + 1;
        }
        Ok((max_iterations, norm_squared))
    }
}

/// The velocity component a restore entry among the first `k` imposes on
/// `(x, y)`, if any; a later entry wins over an earlier one.
pub open spec fn restore_u_upto(
    restore: Seq<(crate::types::GridIndex, Option<u64>, Option<u64>)>,
    k: int,
    x: int,
    y: int,
) -> Option<u64>
    decreases k,
{
    if k <= 0 {
        None
    } else {
        let e = restore[k - 1];
        if e.0 == ((x as usize), (y as usize)) && e.1 is Some {
            e.1
        } else {
            restore_u_upto(restore, k - 1, x, y)
        }
    }
}

/// As `restore_u_upto`, for the vertical component.
pub open spec fn restore_v_upto(
    restore: Seq<(crate::types::GridIndex, Option<u64>, Option<u64>)>,
    k: int,
    x: int,
    y: int,
) -> Option<u64>
    decreases k,
{
    if k <= 0 {
        None
    } else {
        let e = restore[k - 1];
        if e.0 == ((x as usize), (y as usize)) && e.2 is Some {
            e.2
        } else {
            restore_v_upto(restore, k - 1, x, y)
        }
    }
}

/// The unconstrained corrector value of u at `(x, y)`: the tentative
/// momentum minus the scaled pressure gradient toward the east.
pub open spec fn corrector_u_at(
    size: GridSize,
    f: Seq<u64>,
    p: Seq<u64>,
    delt: u64,
    delx: u64,
    x: int,
    y: int,
) -> u64 {
    sub_bits(
        f[flat_index(size, x, y)],
        mul_bits(
            div_bits(delt, delx),
            sub_bits(p[flat_index(size, x + 1, y)], p[flat_index(size, x, y)]),
        ),
    )
}

/// The unconstrained corrector value of v at `(x, y)`: the tentative
/// momentum minus the scaled pressure gradient toward the south.
pub open spec fn corrector_v_at(
    size: GridSize,
    g: Seq<u64>,
    p: Seq<u64>,
    delt: u64,
    dely: u64,
    x: int,
    y: int,
) -> u64 {
    sub_bits(
        g[flat_index(size, x, y)],
        mul_bits(
            div_bits(delt, dely),
            sub_bits(p[flat_index(size, x, y + 1)], p[flat_index(size, x, y)]),
        ),
    )
}

/// u at `(x, y)` after the velocity correction: a value stashed in the
/// restore buffer wins; otherwise every cell with an east and a south
/// neighbor takes the corrector value, and the rest keep their velocity.
pub open spec fn corrected_u_at(
    size: GridSize,
    f: Seq<u64>,
    p: Seq<u64>,
    u0: Seq<u64>,
    restore: Seq<(crate::types::GridIndex, Option<u64>, Option<u64>)>,
    delt: u64,
    delx: u64,
    x: int,
    y: int,
) -> u64 {
    match restore_u_upto(restore, restore.len() as int, x, y) {
        Some(v) => v,
        None => if x + 1 < grid_w(size) && y + 1 < grid_h(size) {
            corrector_u_at(size, f, p, delt, delx, x, y)
        } else {
            u0[flat_index(size, x, y)]
        },
    }
}

/// v at `(x, y)` after the velocity correction.
pub open spec fn corrected_v_at(
    size: GridSize,
    g: Seq<u64>,
    p: Seq<u64>,
    v0: Seq<u64>,
    restore: Seq<(crate::types::GridIndex, Option<u64>, Option<u64>)>,
    delt: u64,
    dely: u64,
    x: int,
    y: int,
) -> u64 {
    match restore_v_upto(restore, restore.len() as int, x, y) {
        Some(v) => v,
        None => if x + 1 < grid_w(size) && y + 1 < grid_h(size) {
            corrector_v_at(size, g, p, delt, dely, x, y)
        } else {
            v0[flat_index(size, x, y)]
        },
    }
}

impl Simulation {
    /// Project the velocities with the converged pressure gradient, then
    /// re-impose every velocity stashed in the restore buffer (only the
    /// component each entry records).
    #[verifier::loop_isolation(false)]
    #[verifier::rlimit(60)]
    pub fn set_u_and_v(&mut self)
        requires
            old(self).wf(),
            crate::grid::restore_in_grid(
                old(self).grid.boundaries.u_v_restore@,
                old(self).size,
            ),
        ensures
            final(self).wf(),
            *final(self) == (Simulation { grid: final(self).grid, ..*old(self) }),
            final(self).grid == (SimulationGrid {
                u: final(self).grid.u,
                v: final(self).grid.v,
                ..old(self).grid
            }),
            forall|x: int, y: int|
                in_grid(old(self).size, x, y) ==> final(self).grid.u@[#[trigger] flat_index(
                    old(self).size,
                    x,
                    y,
                )] == corrected_u_at(
                    old(self).size,
                    old(self).f@,
                    old(self).grid.pressure@,
                    old(self).grid.u@,
                    old(self).grid.boundaries.u_v_restore@,
                    old(self).delt,
                    old(self).cell_size[0],
                    x,
                    y,
                ),
            forall|x: int, y: int|
                in_grid(old(self).size, x, y) ==> final(self).grid.v@[#[trigger] flat_index(
                    old(self).size,
                    x,
                    y,
                )] == corrected_v_at(
                    old(self).size,
                    old(self).g@,
                    old(self).grid.pressure@,
                    old(self).grid.v@,
                    old(self).grid.boundaries.u_v_restore@,
                    old(self).delt,
                    old(self).cell_size[1],
                    x,
                    y,
                ),
    {
        let ghost size = self.size;
        let ghost f1 = self.f@;
        let ghost g1 = self.g@;
        let ghost p1 = self.grid.pressure@;
        let ghost u0 = self.grid.u@;
        let ghost v0 = self.grid.v@;
        let ghost restore = self.grid.boundaries.u_v_restore@;
        let ghost s0 = *old(self);
        let w = self.size[0];
        let h = self.size[1];
        let delt = self.delt;
        let delx = self.cell_size[0];
        let dely = self.cell_size[1];
        let n_cells = self.grid.u.len();
        proof {
            assert(grid_area(size) == n_cells as int);
        }

        let mut x: usize = 0;
        while x + 1 < w
            invariant
                0 <= x as int,
                x as int <= if grid_w(size) >= 1 {
                    grid_w(size) - 1
                } else {
                    0
                },
                self.wf(),
                *self == (Simulation { grid: self.grid, ..s0 }),
                self.grid == (SimulationGrid { u: self.grid.u, v: self.grid.v, ..s0.grid }),
                forall|x0: int, y0: int|
                    in_grid(size, x0, y0) ==> self.grid.u@[#[trigger] flat_index(size, x0, y0)]
                        == (if x0 < x && y0 + 1 < grid_h(size) {
                        corrector_u_at(size, f1, p1, delt, delx, x0, y0)
                    } else {
                        u0[flat_index(size, x0, y0)]
                    }),
                forall|x0: int, y0: int|
                    in_grid(size, x0, y0) ==> self.grid.v@[#[trigger] flat_index(size, x0, y0)]
                        == (if x0 < x && y0 + 1 < grid_h(size) {
                        corrector_v_at(size, g1, p1, delt, dely, x0, y0)
                    } else {
                        v0[flat_index(size, x0, y0)]
                    }),
            decreases w - x,
        {
            let mut y: usize = 0;
            while y + 1 < h
                invariant
                    0 <= x as int && x as int + 1 < grid_w(size),
                    0 <= y as int,
                    y as int <= if grid_h(size) >= 1 {
                        grid_h(size) - 1
                    } else {
                        0
                    },
                    self.wf(),
                    *self == (Simulation { grid: self.grid, ..s0 }),
                    self.grid == (SimulationGrid { u: self.grid.u, v: self.grid.v, ..s0.grid }),
                    forall|x0: int, y0: int|
                        in_grid(size, x0, y0) ==> self.grid.u@[#[trigger] flat_index(size, x0, y0)]
                            == (if (x0 < x && y0 + 1 < grid_h(size)) || (x0 == x && y0 < y) {
                            corrector_u_at(size, f1, p1, delt, delx, x0, y0)
                        } else {
                            u0[flat_index(size, x0, y0)]
                        }),
                    forall|x0: int, y0: int|
                        in_grid(size, x0, y0) ==> self.grid.v@[#[trigger] flat_index(size, x0, y0)]
                            == (if (x0 < x && y0 + 1 < grid_h(size)) || (x0 == x && y0 < y) {
                            corrector_v_at(size, g1, p1, delt, dely, x0, y0)
                        } else {
                            v0[flat_index(size, x0, y0)]
                        }),
                decreases h - y,
            {
                proof {
                    lemma_flat_bounds(size, x as int, y as int);
                    lemma_flat_bounds(size, x + 1, y as int);
                    lemma_flat_bounds(size, x as int, y + 1);
                }
                let fl = x * h + y;
                let p_i_j = self.grid.pressure[fl];
                let p_i_p1_j = self.grid.pressure[(x + 1) * h + y];
                let p_i_j_p1 = self.grid.pressure[x * h + (y + 1)];

                let f_here = self.f[fl];
                let u_val = real_sub(
                    f_here,
                    real_mul(real_div(delt, delx), real_sub(p_i_p1_j, p_i_j)),
                );
                self.grid.u.set(fl, u_val);

                let g_here = self.g[fl];
                let v_val = real_sub(
                    g_here,
                    real_mul(real_div(delt, dely), real_sub(p_i_j_p1, p_i_j)),
                );
                self.grid.v.set(fl, v_val);
                y = y + 1;
                proof {
                    assert forall|x0: int, y0: int| in_grid(size, x0, y0) implies self.grid.u@[
                        #[trigger] flat_index(size, x0, y0)] == (if (x0 < x && y0 + 1 < grid_h(
                        size,
                    )) || (x0 == x && y0 < y) {
                        corrector_u_at(size, f1, p1, delt, delx, x0, y0)
                    } else {
                        u0[flat_index(size, x0, y0)]
                    }) && self.grid.v@[flat_index(size, x0, y0)] == (if (x0 < x && y0 + 1
                        < grid_h(size)) || (x0 == x && y0 < y) {
                        corrector_v_at(size, g1, p1, delt, dely, x0, y0)
                    } else {
                        v0[flat_index(size, x0, y0)]
                    }) by {
                        lemma_flat_bounds(size, x0, y0);
                        if !(x0 == x && y0 == y - 1) {
                            crate::grid::lemma_flat_injective(size, x0, y0, x as int, y - 1);
                        }
                    }
                }
            }
            x = x + 1;
        }

        let ghost u_bulk = self.grid.u@;
        let ghost v_bulk = self.grid.v@;
        let n = self.grid.boundaries.u_v_restore.len();
        let mut k: usize = 0;
        while k < n
            invariant
                0 <= k <= n,
                self.wf(),
                *self == (Simulation { grid: self.grid, ..s0 }),
                self.grid == (SimulationGrid { u: self.grid.u, v: self.grid.v, ..s0.grid }),
                forall|x0: int, y0: int|
                    in_grid(size, x0, y0) ==> self.grid.u@[#[trigger] flat_index(size, x0, y0)]
                        == (match restore_u_upto(restore, k as int, x0, y0) {
                        Some(val) => val,
                        None => u_bulk[flat_index(size, x0, y0)],
                    }),
                forall|x0: int, y0: int|
                    in_grid(size, x0, y0) ==> self.grid.v@[#[trigger] flat_index(size, x0, y0)]
                        == (match restore_v_upto(restore, k as int, x0, y0) {
                        Some(val) => val,
                        None => v_bulk[flat_index(size, x0, y0)],
                    }),
            decreases n - k,
        {
            let (idx, maybe_u, maybe_v) = self.grid.boundaries.u_v_restore[k];
            proof {
                assert(restore[k as int].0 == idx);
                lemma_flat_bounds(size, idx.0 as int, idx.1 as int);
            }
            let fl = idx.0 * h + idx.1;
            if let Some(u_val) = maybe_u {
                self.grid.u.set(fl, u_val);
            }
            if let Some(v_val) = maybe_v {
                self.grid.v.set(fl, v_val);
            }
            k = k + 1;
            proof {
                assert forall|x0: int, y0: int| in_grid(size, x0, y0) implies self.grid.u@[
                    #[trigger] flat_index(size, x0, y0)] == (match restore_u_upto(
                    restore,
                    k as int,
                    x0,
                    y0,
                ) {
                    Some(val) => val,
                    None => u_bulk[flat_index(size, x0, y0)],
                }) && self.grid.v@[flat_index(size, x0, y0)] == (match restore_v_upto(
                    restore,
                    k as int,
                    x0,
                    y0,
                ) {
                    Some(val) => val,
                    None => v_bulk[flat_index(size, x0, y0)],
                }) by {
                    lemma_flat_bounds(size, x0, y0);
                    if !(x0 == idx.0 as int && y0 == idx.1 as int) {
                        crate::grid::lemma_flat_injective(
                            size,
                            x0,
                            y0,
                            idx.0 as int,
                            idx.1 as int,
                        );
                    }
                }
            }
        }
    }

    /// Advance the simulation by one tick: apply the velocity boundary
    /// conditions, recompute the tentative momentum and the right-hand
    /// side, relax the pressure with SOR, correct the velocities, and
    /// advance the time and iteration counters.  Returns the SOR iteration
    /// count and final residual.
    pub fn run_simulation_tick(&mut self) -> (r: Result<(u32, u64), SimulationError>)
        requires
            old(self).wf(),
            old(self).iterations < u32::MAX,
        ensures
            final(self).wf(),
            ({
                let s = *old(self);
                let cells = s.grid.cell_type@;
                let size = s.size;
                let delx = s.cell_size[0];
                let dely = s.cell_size[1];
                let vs = crate::grid::velocity_sweep(
                    cells,
                    size,
                    s.grid.boundaries.sorted_boundary_list@,
                    crate::grid::VelocityState {
                        u: s.grid.u@,
                        v: s.grid.v@,
                        restore: Seq::empty(),
                    },
                    s.grid.boundaries.sorted_boundary_list@.len() as int,
                );
                let f1 = cell_image(
                    size,
                    |x: int, y: int|
                        f_after(
                            cells,
                            size,
                            vs.u,
                            vs.v,
                            s.f@,
                            delx,
                            dely,
                            s.delt,
                            s.gamma,
                            s.reynolds,
                            x,
                            y,
                        ),
                );
                let g1 = cell_image(
                    size,
                    |x: int, y: int|
                        g_after(
                            cells,
                            size,
                            vs.u,
                            vs.v,
                            s.g@,
                            delx,
                            dely,
                            s.delt,
                            s.gamma,
                            s.reynolds,
                            x,
                            y,
                        ),
                );
                let rhs1 = cell_image(
                    size,
                    |x: int, y: int| rhs_after(size, f1, g1, s.rhs@, delx, dely, s.delt, x, y),
                );
                let sor = solve_sor_spec(
                    Simulation {
                        f: final(self).f,
                        g: final(self).g,
                        rhs: final(self).rhs,
                        grid: SimulationGrid { u: final(self).grid.u, v: final(self).grid.v, ..s.grid },
                        ..s
                    },
                );
                let p2 = sor.2;
                let u2 = cell_image(
                    size,
                    |x: int, y: int|
                        corrected_u_at(size, f1, p2, vs.u, vs.restore, s.delt, delx, x, y),
                );
                let v2 = cell_image(
                    size,
                    |x: int, y: int|
                        corrected_v_at(size, g1, p2, vs.v, vs.restore, s.delt, dely, x, y),
                );
                &&& final(self).f@ == f1
                &&& final(self).g@ == g1
                &&& final(self).rhs@ == rhs1
                &&& final(self).grid.pressure@ == p2
                &&& final(self).grid.u@ == u2
                &&& final(self).grid.v@ == v2
                &&& final(self).grid.boundaries.u_v_restore@ == vs.restore
                &&& final(self).grid.cell_type == s.grid.cell_type
                &&& final(self).grid.boundaries.sorted_boundary_list
                    == s.grid.boundaries.sorted_boundary_list
                &&& final(self).grid.boundaries.boundaries == s.grid.boundaries.boundaries
                &&& final(self).grid.boundaries.fluid_cells == s.grid.boundaries.fluid_cells
                &&& final(self).size == s.size
                &&& final(self).cell_size == s.cell_size
                &&& final(self).delt == s.delt
                &&& final(self).gamma == s.gamma
                &&& final(self).reynolds == s.reynolds
                &&& final(self).omega == s.omega
                &&& final(self).sor_absolute_epsilon == s.sor_absolute_epsilon
                &&& final(self).max_iterations == s.max_iterations
                &&& final(self).initial_norm_squared == s.initial_norm_squared
                &&& final(self).time == add_bits(s.time, s.delt)
                &&& final(self).iterations == s.iterations + 1
                &&& r == Ok::<(u32, u64), SimulationError>(((sor.0 as u32), sor.1))
            }),
    {
        let ghost s = *old(self);
        let ghost cells = self.grid.cell_type@;
        let ghost size = self.size;
        let ghost delx_g = self.cell_size[0];
        let ghost dely_g = self.cell_size[1];

        match self.grid.set_boundary_u_and_v() {
            Ok(()) => {},
            Err(e) => {
                return Err(SimulationError::GridError(e));
            },
        }
        let ghost vs = crate::grid::velocity_sweep(
            cells,
            size,
            s.grid.boundaries.sorted_boundary_list@,
            crate::grid::VelocityState { u: s.grid.u@, v: s.grid.v@, restore: Seq::empty() },
            s.grid.boundaries.sorted_boundary_list@.len() as int,
        );

        self.calculate_f_and_g();
        proof {
            lemma_pointwise_eq_image(
                size,
                self.f@,
                |x: int, y: int|
                    f_after(
                        cells,
                        size,
                        vs.u,
                        vs.v,
                        s.f@,
                        delx_g,
                        dely_g,
                        s.delt,
                        s.gamma,
                        s.reynolds,
                        x,
                        y,
                    ),
            );
            lemma_pointwise_eq_image(
                size,
                self.g@,
                |x: int, y: int|
                    g_after(
                        cells,
                        size,
                        vs.u,
                        vs.v,
                        s.g@,
                        delx_g,
                        dely_g,
                        s.delt,
                        s.gamma,
                        s.reynolds,
                        x,
                        y,
                    ),
            );
        }
        let ghost f1 = self.f@;
        let ghost g1 = self.g@;

        self.calculate_rhs();
        proof {
            lemma_pointwise_eq_image(
                size,
                self.rhs@,
                |x: int, y: int| rhs_after(size, f1, g1, s.rhs@, delx_g, dely_g, s.delt, x, y),
            );
        }

        let (sor_iterations, norm_squared) = match self.solve_sor() {
            Ok(pair) => pair,
            Err(e) => {
                return Err(SimulationError::GridError(e));
            },
        };
        let ghost p2 = self.grid.pressure@;

        self.set_u_and_v();
        proof {
            lemma_pointwise_eq_image(
                size,
                self.grid.u@,
                |x: int, y: int|
                    corrected_u_at(size, f1, p2, vs.u, vs.restore, s.delt, delx_g, x, y),
            );
            lemma_pointwise_eq_image(
                size,
                self.grid.v@,
                |x: int, y: int|
                    corrected_v_at(size, g1, p2, vs.v, vs.restore, s.delt, dely_g, x, y),
            );
        }

        self.time = real_add(self.time, self.delt);
        self.iterations = self.iterations + 1;
        Ok((sor_iterations, norm_squared))
    }
}


impl Simulation {
    /// Build a running simulation from raw data: construct the grid (which
    /// fails with `BoundaryTooThinError` exactly when some boundary cell
    /// has fluid on opposite sides of an axis), then compute the derived
    /// momentum and right-hand-side arrays and, unless one was loaded,
    /// establish the convergence baseline.
    pub fn try_from(item: UnfinalizedSimulation) -> (r: Result<Simulation, SimulationError>)
        requires
            item.wf(),
        ensures
            r is Ok <==> crate::grid::no_too_thin(item.grid.cell_type@, item.grid.size),
            r matches Err(e) ==> ({
                &&& e matches SimulationError::GridError(ge)
                &&& ge matches crate::grid::SimulationGridError::BoundaryTooThinError(c, i)
                &&& boundary_at(item.grid.cell_type@, item.grid.size, i.0 as int, i.1 as int)
                &&& crate::grid::too_thin(item.grid.cell_type@, item.grid.size, i.0 as int, i.1 as int)
            }),
            r matches Ok(s) ==> ({
                let size = item.size;
                let cells = item.grid.cell_type@;
                let delx = item.cell_size[0];
                let dely = item.cell_size[1];
                let zeros = cell_image(size, |x: int, y: int| crate::scalar::ZERO_BITS);
                let f1 = cell_image(
                    size,
                    |x: int, y: int|
                        f_after(
                            cells,
                            size,
                            item.grid.u@,
                            item.grid.v@,
                            zeros,
                            delx,
                            dely,
                            item.delt,
                            item.gamma,
                            item.reynolds,
                            x,
                            y,
                        ),
                );
                let g1 = cell_image(
                    size,
                    |x: int, y: int|
                        g_after(
                            cells,
                            size,
                            item.grid.u@,
                            item.grid.v@,
                            zeros,
                            delx,
                            dely,
                            item.delt,
                            item.gamma,
                            item.reynolds,
                            x,
                            y,
                        ),
                );
                let rhs1 = cell_image(
                    size,
                    |x: int, y: int| rhs_after(size, f1, g1, zeros, delx, dely, item.delt, x, y),
                );
                &&& s.wf()
                &&& s.size == item.size
                &&& s.cell_size == item.cell_size
                &&& s.delt == item.delt
                &&& s.gamma == item.gamma
                &&& s.reynolds == item.reynolds
                &&& s.sor_absolute_epsilon == item.sor_absolute_epsilon
                &&& s.max_iterations == item.max_iterations
                &&& s.iterations == item.iterations
                &&& s.time == item.time
                &&& s.omega == item.omega
                &&& s.grid.pressure == item.grid.pressure
                &&& s.grid.u == item.grid.u
                &&& s.grid.v == item.grid.v
                &&& s.grid.cell_type == item.grid.cell_type
                &&& s.f@ == f1
                &&& s.g@ == g1
                &&& s.rhs@ == rhs1
                &&& s.initial_norm_squared == (if item.initial_norm_squared is Some {
                    item.initial_norm_squared
                } else {
                    Some(
                        norm_squared_spec(
                            item.grid.pressure@,
                            rhs1,
                            size,
                            delx,
                            dely,
                            crate::grid::fluid_count(cells, size) as u64,
                        ),
                    )
                })
            }),
    {
        let ghost cells = item.grid.cell_type@;
        let ghost size = item.size;
        let ghost delx_g = item.cell_size[0];
        let ghost dely_g = item.cell_size[1];
        let ghost item0 = item;

        let n = item.grid.cell_type.len();
        let grid = match SimulationGrid::try_from(item.grid) {
            Ok(grid) => grid,
            Err(e) => {
                return Err(SimulationError::GridError(e));
            },
        };
        let mut sim = Simulation {
            size: item.size,
            cell_size: item.cell_size,
            delt: item.delt,
            gamma: item.gamma,
            reynolds: item.reynolds,
            f: crate::grid::presets::zero_field(n),
            g: crate::grid::presets::zero_field(n),
            rhs: crate::grid::presets::zero_field(n),
            initial_norm_squared: item.initial_norm_squared,
            sor_absolute_epsilon: item.sor_absolute_epsilon,
            max_iterations: item.max_iterations,
            iterations: item.iterations,
            time: item.time,
            omega: item.omega,
            grid,
        };
        proof {
            assert forall|x: int, y: int| in_grid(size, x, y) implies sim.f@[#[trigger] flat_index(
                size,
                x,
                y,
            )] == crate::scalar::ZERO_BITS && sim.g@[flat_index(size, x, y)]
                == crate::scalar::ZERO_BITS && sim.rhs@[flat_index(size, x, y)]
                == crate::scalar::ZERO_BITS by {
                lemma_flat_bounds(size, x, y);
            }
            lemma_pointwise_eq_image(
                size,
                sim.f@,
                |x: int, y: int| crate::scalar::ZERO_BITS,
            );
            lemma_pointwise_eq_image(
                size,
                sim.g@,
                |x: int, y: int| crate::scalar::ZERO_BITS,
            );
            lemma_pointwise_eq_image(
                size,
                sim.rhs@,
                |x: int, y: int| crate::scalar::ZERO_BITS,
            );
        }
        let ghost zeros = cell_image(size, |x: int, y: int| crate::scalar::ZERO_BITS);

        sim.calculate_f_and_g();
        proof {
            lemma_pointwise_eq_image(
                size,
                sim.f@,
                |x: int, y: int|
                    f_after(
                        cells,
                        size,
                        item0.grid.u@,
                        item0.grid.v@,
                        zeros,
                        delx_g,
                        dely_g,
                        item0.delt,
                        item0.gamma,
                        item0.reynolds,
                        x,
                        y,
                    ),
            );
            lemma_pointwise_eq_image(
                size,
                sim.g@,
                |x: int, y: int|
                    g_after(
                        cells,
                        size,
                        item0.grid.u@,
                        item0.grid.v@,
                        zeros,
                        delx_g,
                        dely_g,
                        item0.delt,
                        item0.gamma,
                        item0.reynolds,
                        x,
                        y,
                    ),
            );
        }
        let ghost f1 = sim.f@;
        let ghost g1 = sim.g@;
        sim.calculate_rhs();
        proof {
            lemma_pointwise_eq_image(
                size,
                sim.rhs@,
                |x: int, y: int| rhs_after(size, f1, g1, zeros, delx_g, dely_g, item0.delt, x, y),
            );
        }
        sim.get_initial_norm_squared();
        Ok(sim)
    }
}

} // verus!
