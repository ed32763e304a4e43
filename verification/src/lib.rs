//! A 2D incompressible Navier-Stokes solver on a staggered finite-difference
//! grid: boundary-cell classification, boundary-condition appliers,
//! discretization kernels, a momentum predictor, an SOR pressure solver and a
//! velocity corrector, with the per-tick orchestration that ties them together.
//!
//! Velocity, pressure and the physical parameters are IEEE 754 binary64
//! values, carried everywhere as their `u64` bit patterns; the `scalar`
//! module holds the arithmetic on them.

pub mod cell;
pub mod grid;
pub mod math;
pub mod scalar;
pub mod simulation;
pub mod types;
pub mod ui_state;
pub mod visualization;

use vstd::prelude::*;

verus! {

/// Flat index of the cell at `(x, y)` in a row-major grid of the given size.
pub open spec fn flat_index(size: crate::types::GridSize, x: int, y: int) -> int {
    x * size[1] + y
}

/// Whether the 2x2 stamp anchored at `(mx, my)` replaces the cell at
/// `(x, y)`: the position is under the stamp, strictly inside the grid
/// (the outer ring is never editable), and currently of a different type.
pub open spec fn stamp_applies(
    cells: Seq<crate::cell::Cell>,
    size: crate::types::GridSize,
    target: crate::cell::Cell,
    mx: int,
    my: int,
    x: int,
    y: int,
) -> bool {
    &&& (x == mx || x == mx + 1)
    &&& (y == my || y == my + 1)
    &&& 0 < x && x + 1 < crate::grid::grid_w(size)
    &&& 0 < y && y + 1 < crate::grid::grid_h(size)
    &&& crate::grid::cell_at(cells, size, x, y) != target
}

/// The cell type at `(x, y)` after the stamp.
pub open spec fn stamped_cell_at(
    cells: Seq<crate::cell::Cell>,
    size: crate::types::GridSize,
    target: crate::cell::Cell,
    mx: int,
    my: int,
    x: int,
    y: int,
) -> crate::cell::Cell {
    if stamp_applies(cells, size, target, mx, my, x, y) {
        target
    } else {
        crate::grid::cell_at(cells, size, x, y)
    }
}

/// A per-cell scalar after the stamp: stamped cells are zeroed, the rest
/// keep their value.
pub open spec fn stamped_scalar_at(
    cells: Seq<crate::cell::Cell>,
    size: crate::types::GridSize,
    target: crate::cell::Cell,
    mx: int,
    my: int,
    q: Seq<u64>,
    x: int,
    y: int,
) -> u64 {
    if stamp_applies(cells, size, target, mx, my, x, y) {
        crate::scalar::ZERO_BITS
    } else {
        q[flat_index(size, x, y)]
    }
}

/// Stamp a single cell: if it is strictly inside the grid and differs from
/// the target type, back up its values, zero its scalars and set its type.
fn stamp_cell(
    grid: &mut crate::grid::SimulationGrid,
    target: crate::cell::Cell,
    x: usize,
    y: usize,
    backup: &mut Vec<(crate::types::GridIndex, u64, u64, u64, crate::cell::Cell)>,
) -> (applied: bool)
    requires
        old(grid).arrays_wf(),
    ensures
        final(grid).size == old(grid).size,
        final(grid).boundaries == old(grid).boundaries,
        final(grid).arrays_wf(),
        applied == (0 < x as int && x as int + 1 < crate::grid::grid_w(old(grid).size) && 0
            < y as int && y as int + 1 < crate::grid::grid_h(old(grid).size)
            && crate::grid::cell_at(old(grid).cell_type@, old(grid).size, x as int, y as int)
            != target),
        applied ==> {
            let fl = flat_index(old(grid).size, x as int, y as int);
            &&& final(grid).cell_type@ == old(grid).cell_type@.update(fl, target)
            &&& final(grid).u@ == old(grid).u@.update(fl, crate::scalar::ZERO_BITS)
            &&& final(grid).v@ == old(grid).v@.update(fl, crate::scalar::ZERO_BITS)
            &&& final(grid).pressure@ == old(grid).pressure@.update(fl, crate::scalar::ZERO_BITS)
            &&& final(backup)@ == old(backup)@.push(
                (
                    (x, y),
                    old(grid).u@[fl],
                    old(grid).v@[fl],
                    old(grid).pressure@[fl],
                    crate::grid::cell_at(old(grid).cell_type@, old(grid).size, x as int, y as int),
                ),
            )
        },
        !applied ==> *final(grid) == *old(grid) && *final(backup) == *old(backup),
{
    let w = grid.size[0];
    let h = grid.size[1];
    let n_cells = grid.cell_type.len();
    proof {
        assert(crate::grid::grid_area(grid.size) == n_cells as int);
    }
    if x > 0 && x < w - 1 && y > 0 && y < h - 1 {
        proof {
            crate::grid::lemma_flat_bounds(grid.size, x as int, y as int);
        }
        let fl = x * h + y;
        let current = grid.cell_type[fl];
        if !crate::cell::cells_equal(&current, &target) {
            backup.push(((x, y), grid.u[fl], grid.v[fl], grid.pressure[fl], current));
            grid.u.set(fl, crate::scalar::ZERO_BITS);
            grid.v.set(fl, crate::scalar::ZERO_BITS);
            grid.pressure.set(fl, crate::scalar::ZERO_BITS);
            grid.cell_type.set(fl, target);
            return true;
        }
    }
    false
}

/// Restore every backed-up cell: positions that no backup entry names
/// must already hold their original values; afterwards the whole grid
/// does.
#[verifier::loop_isolation(false)]
fn restore_backup(
    grid: &mut crate::grid::SimulationGrid,
    backup: &Vec<(crate::types::GridIndex, u64, u64, u64, crate::cell::Cell)>,
    Ghost(cells0): Ghost<Seq<crate::cell::Cell>>,
    Ghost(u0): Ghost<Seq<u64>>,
    Ghost(v0): Ghost<Seq<u64>>,
    Ghost(p0): Ghost<Seq<u64>>,
)
    requires
        old(grid).arrays_wf(),
        cells0.len() == crate::grid::grid_area(old(grid).size),
        u0.len() == crate::grid::grid_area(old(grid).size),
        v0.len() == crate::grid::grid_area(old(grid).size),
        p0.len() == crate::grid::grid_area(old(grid).size),
        forall|j: int| 0 <= j < backup@.len() ==> {
            let e = #[trigger] backup@[j];
            &&& crate::grid::in_grid(old(grid).size, e.0.0 as int, e.0.1 as int)
            &&& e.1 == u0[flat_index(old(grid).size, e.0.0 as int, e.0.1 as int)]
            &&& e.2 == v0[flat_index(old(grid).size, e.0.0 as int, e.0.1 as int)]
            &&& e.3 == p0[flat_index(old(grid).size, e.0.0 as int, e.0.1 as int)]
            &&& e.4 == cells0[flat_index(old(grid).size, e.0.0 as int, e.0.1 as int)]
        },
        forall|x: int, y: int|
            crate::grid::in_grid(old(grid).size, x, y) && !covered_after(backup@, 0, x, y) ==> {
                let fl = #[trigger] flat_index(old(grid).size, x, y);
                &&& old(grid).cell_type@[fl] == cells0[fl]
                &&& old(grid).u@[fl] == u0[fl]
                &&& old(grid).v@[fl] == v0[fl]
                &&& old(grid).pressure@[fl] == p0[fl]
            },
    ensures
        final(grid).size == old(grid).size,
        final(grid).boundaries == old(grid).boundaries,
        final(grid).arrays_wf(),
        final(grid).cell_type@ == cells0,
        final(grid).u@ == u0,
        final(grid).v@ == v0,
        final(grid).pressure@ == p0,
{
    let ghost size = grid.size;
    let h = grid.size[1];
    let n_cells = grid.cell_type.len();
    proof {
        assert(crate::grid::grid_area(size) == n_cells as int);
    }
    let n = backup.len();
    let mut k: usize = 0;
    while k < n
        invariant
            0 <= k <= n,
            grid.size == size,
            grid.boundaries == old(grid).boundaries,
            grid.arrays_wf(),
            forall|x: int, y: int|
                crate::grid::in_grid(size, x, y) && !covered_after(backup@, k as int, x, y) ==> {
                    let fl = #[trigger] flat_index(size, x, y);
                    &&& grid.cell_type@[fl] == cells0[fl]
                    &&& grid.u@[fl] == u0[fl]
                    &&& grid.v@[fl] == v0[fl]
                    &&& grid.pressure@[fl] == p0[fl]
                },
        decreases n - k,
    {
        let (idx, bu, bv, bp, bc) = backup[k];
        proof {
            assert(backup@[k as int].0 == idx);
            crate::grid::lemma_flat_bounds(size, idx.0 as int, idx.1 as int);
        }
        let fl = idx.0 * h + idx.1;
        grid.u.set(fl, bu);
        grid.v.set(fl, bv);
        grid.pressure.set(fl, bp);
        grid.cell_type.set(fl, bc);
        k = k + 1;
        proof {
            assert forall|x: int, y: int|
                crate::grid::in_grid(size, x, y) && !covered_after(
                    backup@,
                    k as int,
                    x,
                    y,
                ) implies {
                let fl0 = #[trigger] flat_index(size, x, y);
                &&& grid.cell_type@[fl0] == cells0[fl0]
                &&& grid.u@[fl0] == u0[fl0]
                &&& grid.v@[fl0] == v0[fl0]
                &&& grid.pressure@[fl0] == p0[fl0]
            } by {
                crate::grid::lemma_flat_bounds(size, x, y);
                if x == idx.0 as int && y == idx.1 as int {
                } else {
                    crate::grid::lemma_flat_injective(size, x, y, idx.0 as int, idx.1 as int);
                    assert(!covered_after(backup@, k - 1, x, y)) by {
                        if covered_after(backup@, k - 1, x, y) {
                            let j = choose|j: int|
                                k - 1 <= j < backup@.len() && (#[trigger] backup@[j]).0 == (
                                (x as usize),
                                (y as usize),
                                );
                            assert(j != k - 1);
                        }
                    }
                }
            }
        }
    }
    proof {
        crate::simulation::lemma_pointwise_eq(size, grid.cell_type@, cells0);
        crate::simulation::lemma_pointwise_eq(size, grid.u@, u0);
        crate::simulation::lemma_pointwise_eq(size, grid.v@, v0);
        crate::simulation::lemma_pointwise_eq(size, grid.pressure@, p0);
    }
}

/// Draw a 2x2 square of the given cell type under the pointer (the
/// simulation rejects boundary cells with fluid on opposite sides, so a
/// single cell is never drawn).  Cells on the outer ring, and cells
/// already of the target type, are left alone.  The boundary list is
/// rebuilt; if the edit would make the topology invalid, every edited cell
/// is restored and the grid is left as it was.
#[verifier::rlimit(100)]
#[verifier::spinoff_prover]
pub fn draw_cells(
    grid: &mut crate::grid::SimulationGrid,
    cell_type: crate::cell::Cell,
    m_x: usize,
    m_y: usize,
)
    requires
        old(grid).wf(),
        m_x < usize::MAX,
        m_y < usize::MAX,
    ensures
        final(grid).size == old(grid).size,
        final(grid).wf(),
        ({
            let cells0 = old(grid).cell_type@;
            let size = old(grid).size;
            let mx = m_x as int;
            let my = m_y as int;
            let stamped = crate::simulation::cell_image(
                size,
                |x: int, y: int| stamped_cell_at(cells0, size, cell_type, mx, my, x, y),
            );
            if forall|x: int, y: int| !#[trigger] stamp_applies(cells0, size, cell_type, mx, my, x, y) {
                *final(grid) == *old(grid)
            } else if crate::grid::no_too_thin(stamped, size) {
                &&& final(grid).cell_type@ == stamped
                &&& final(grid).u@ == crate::simulation::cell_image(
                    size,
                    |x: int, y: int|
                        stamped_scalar_at(cells0, size, cell_type, mx, my, old(grid).u@, x, y),
                )
                &&& final(grid).v@ == crate::simulation::cell_image(
                    size,
                    |x: int, y: int|
                        stamped_scalar_at(cells0, size, cell_type, mx, my, old(grid).v@, x, y),
                )
                &&& final(grid).pressure@ == crate::simulation::cell_image(
                    size,
                    |x: int, y: int|
                        stamped_scalar_at(
                            cells0,
                            size,
                            cell_type,
                            mx,
                            my,
                            old(grid).pressure@,
                            x,
                            y,
                        ),
                )
                &&& final(grid).boundaries.u_v_restore@.len() == 0
            } else {
                &&& final(grid).cell_type@ == cells0
                &&& final(grid).u@ == old(grid).u@
                &&& final(grid).v@ == old(grid).v@
                &&& final(grid).pressure@ == old(grid).pressure@
                &&& final(grid).boundaries == old(grid).boundaries
            }
        }),
{
    let ghost cells0 = grid.cell_type@;
    let ghost u0 = grid.u@;
    let ghost v0 = grid.v@;
    let ghost p0 = grid.pressure@;
    let ghost size = grid.size;
    let ghost mx = m_x as int;
    let ghost my = m_y as int;

    let mut backup: Vec<(crate::types::GridIndex, u64, u64, u64, crate::cell::Cell)> = Vec::new();

    let a1 = stamp_cell(grid, cell_type, m_x, m_y, &mut backup);
    proof {
        if crate::grid::in_grid(size, mx + 1, my) {
            crate::grid::lemma_flat_bounds(size, mx + 1, my);
            assert(crate::grid::cell_at(grid.cell_type@, size, mx + 1, my)
                == crate::grid::cell_at(cells0, size, mx + 1, my)) by {
                if a1 {
                    assert(crate::grid::in_grid(size, mx, my));
                    assert(cells0.len() == crate::grid::grid_area(size));
                    crate::grid::lemma_flat_bounds(size, mx, my);
                    crate::grid::lemma_flat_injective(size, mx, my, mx + 1, my);
                    assert(flat_index(size, mx, my) != flat_index(size, mx + 1, my));
                    assert(grid.cell_type@ == cells0.update(
                        flat_index(size, mx, my),
                        cell_type,
                    ));
                    assert(cells0.update(flat_index(size, mx, my), cell_type)[flat_index(
                        size,
                        mx + 1,
                        my,
                    )] == cells0[flat_index(size, mx + 1, my)]);
                } else {
                    assert(grid.cell_type@ == cells0);
                }
            }
        }
    }
    let a2 = stamp_cell(grid, cell_type, m_x + 1, m_y, &mut backup);
    proof {
        if crate::grid::in_grid(size, mx, my + 1) {
            crate::grid::lemma_flat_bounds(size, mx, my + 1);
            assert(crate::grid::cell_at(grid.cell_type@, size, mx, my + 1)
                == crate::grid::cell_at(cells0, size, mx, my + 1)) by {
                if a1 {
                    crate::grid::lemma_flat_injective(size, mx, my, mx, my + 1);
                }
                if a2 {
                    crate::grid::lemma_flat_injective(size, mx + 1, my, mx, my + 1);
                }
            }
        }
    }
    let a3 = stamp_cell(grid, cell_type, m_x, m_y + 1, &mut backup);
    proof {
        if crate::grid::in_grid(size, mx + 1, my + 1) {
            crate::grid::lemma_flat_bounds(size, mx + 1, my + 1);
            assert(crate::grid::cell_at(grid.cell_type@, size, mx + 1, my + 1)
                == crate::grid::cell_at(cells0, size, mx + 1, my + 1)) by {
                if a1 {
                    crate::grid::lemma_flat_injective(size, mx, my, mx + 1, my + 1);
                }
                if a2 {
                    crate::grid::lemma_flat_injective(size, mx + 1, my, mx + 1, my + 1);
                }
                if a3 {
                    crate::grid::lemma_flat_injective(size, mx, my + 1, mx + 1, my + 1);
                }
            }
        }
    }
    let a4 = stamp_cell(grid, cell_type, m_x + 1, m_y + 1, &mut backup);
    let modified = a1 || a2 || a3 || a4;

    proof {
        if crate::grid::in_grid(size, mx, my) && crate::grid::in_grid(size, mx + 1, my) {
            crate::grid::lemma_flat_injective(size, mx, my, mx + 1, my);
        }
        if crate::grid::in_grid(size, mx, my) && crate::grid::in_grid(size, mx, my + 1) {
            crate::grid::lemma_flat_injective(size, mx, my, mx, my + 1);
        }
        if crate::grid::in_grid(size, mx, my) && crate::grid::in_grid(size, mx + 1, my + 1) {
            crate::grid::lemma_flat_injective(size, mx, my, mx + 1, my + 1);
        }
        if crate::grid::in_grid(size, mx + 1, my) && crate::grid::in_grid(size, mx, my + 1) {
            crate::grid::lemma_flat_injective(size, mx + 1, my, mx, my + 1);
        }
        if crate::grid::in_grid(size, mx + 1, my) && crate::grid::in_grid(size, mx + 1, my + 1) {
            crate::grid::lemma_flat_injective(size, mx + 1, my, mx + 1, my + 1);
        }
        if crate::grid::in_grid(size, mx, my + 1) && crate::grid::in_grid(size, mx + 1, my + 1) {
            crate::grid::lemma_flat_injective(size, mx, my + 1, mx + 1, my + 1);
        }
        assert(a1 == stamp_applies(cells0, size, cell_type, mx, my, mx, my));
        assert(a2 == stamp_applies(cells0, size, cell_type, mx, my, mx + 1, my)) by {
            if crate::grid::in_grid(size, mx + 1, my) {
                crate::grid::lemma_flat_bounds(size, mx + 1, my);
            }
        }
        assert(a3 == stamp_applies(cells0, size, cell_type, mx, my, mx, my + 1)) by {
            if crate::grid::in_grid(size, mx, my + 1) {
                crate::grid::lemma_flat_bounds(size, mx, my + 1);
            }
        }
        assert(a4 == stamp_applies(cells0, size, cell_type, mx, my, mx + 1, my + 1)) by {
            if crate::grid::in_grid(size, mx + 1, my + 1) {
                crate::grid::lemma_flat_bounds(size, mx + 1, my + 1);
            }
        }
        assert forall|x: int, y: int| crate::grid::in_grid(size, x, y) implies {
            &&& grid.cell_type@[#[trigger] flat_index(size, x, y)] == stamped_cell_at(
                cells0,
                size,
                cell_type,
                mx,
                my,
                x,
                y,
            )
            &&& grid.u@[flat_index(size, x, y)] == stamped_scalar_at(
                cells0,
                size,
                cell_type,
                mx,
                my,
                u0,
                x,
                y,
            )
            &&& grid.v@[flat_index(size, x, y)] == stamped_scalar_at(
                cells0,
                size,
                cell_type,
                mx,
                my,
                v0,
                x,
                y,
            )
            &&& grid.pressure@[flat_index(size, x, y)] == stamped_scalar_at(
                cells0,
                size,
                cell_type,
                mx,
                my,
                p0,
                x,
                y,
            )
        } by {
            crate::grid::lemma_flat_bounds(size, x, y);
            if crate::grid::in_grid(size, mx, my) {
                if !(x == mx && y == my) {
                    crate::grid::lemma_flat_injective(size, x, y, mx, my);
                }
            }
            if crate::grid::in_grid(size, mx + 1, my) {
                if !(x == mx + 1 && y == my) {
                    crate::grid::lemma_flat_injective(size, x, y, mx + 1, my);
                }
            }
            if crate::grid::in_grid(size, mx, my + 1) {
                if !(x == mx && y == my + 1) {
                    crate::grid::lemma_flat_injective(size, x, y, mx, my + 1);
                }
            }
            if crate::grid::in_grid(size, mx + 1, my + 1) {
                if !(x == mx + 1 && y == my + 1) {
                    crate::grid::lemma_flat_injective(size, x, y, mx + 1, my + 1);
                }
            }
        }
        assert(modified == !(forall|x: int, y: int|
            !#[trigger] stamp_applies(cells0, size, cell_type, mx, my, x, y))) by {
            if modified {
                if a1 {
                    assert(stamp_applies(cells0, size, cell_type, mx, my, mx, my));
                } else if a2 {
                    assert(stamp_applies(cells0, size, cell_type, mx, my, mx + 1, my));
                } else if a3 {
                    assert(stamp_applies(cells0, size, cell_type, mx, my, mx, my + 1));
                } else {
                    assert(stamp_applies(cells0, size, cell_type, mx, my, mx + 1, my + 1));
                }
            } else {
                assert forall|x: int, y: int|
                    !#[trigger] stamp_applies(cells0, size, cell_type, mx, my, x, y) by {}
            }
        }
    }

    proof {
        assert forall|j: int| 0 <= j < backup@.len() implies {
            let e = #[trigger] backup@[j];
            &&& stamp_applies(cells0, size, cell_type, mx, my, e.0.0 as int, e.0.1 as int)
            &&& e.1 == u0[flat_index(size, e.0.0 as int, e.0.1 as int)]
            &&& e.2 == v0[flat_index(size, e.0.0 as int, e.0.1 as int)]
            &&& e.3 == p0[flat_index(size, e.0.0 as int, e.0.1 as int)]
            &&& e.4 == crate::grid::cell_at(cells0, size, e.0.0 as int, e.0.1 as int)
        } by {}
        assert forall|j1: int, j2: int| 0 <= j1 < j2 < backup@.len() implies (#[trigger] backup@[
            j1]).0 != (#[trigger] backup@[j2]).0 by {}
        assert forall|x: int, y: int|
            stamp_applies(cells0, size, cell_type, mx, my, x, y) implies covered_after(
            backup@,
            0,
            x,
            y,
        ) by {
            if x == mx && y == my {
                assert(backup@[0].0 == ((x as usize), (y as usize)));
            } else if x == mx + 1 && y == my {
                assert(backup@[if a1 { 1int } else { 0int }].0 == ((x as usize), (y as usize)));
            } else if x == mx && y == my + 1 {
                let j: int = (if a1 { 1int } else { 0int }) + (if a2 { 1int } else { 0int });
                assert(backup@[j].0 == ((x as usize), (y as usize)));
            } else {
                let j: int = (if a1 { 1int } else { 0int }) + (if a2 { 1int } else { 0int }) + (
                if a3 { 1int } else { 0int });
                assert(backup@[j].0 == ((x as usize), (y as usize)));
            }
        }
    }

    if modified {
        proof {
            crate::simulation::lemma_pointwise_eq_image(
                size,
                grid.cell_type@,
                |x: int, y: int| stamped_cell_at(cells0, size, cell_type, mx, my, x, y),
            );
            crate::simulation::lemma_pointwise_eq_image(
                size,
                grid.u@,
                |x: int, y: int| stamped_scalar_at(cells0, size, cell_type, mx, my, u0, x, y),
            );
            crate::simulation::lemma_pointwise_eq_image(
                size,
                grid.v@,
                |x: int, y: int| stamped_scalar_at(cells0, size, cell_type, mx, my, v0, x, y),
            );
            crate::simulation::lemma_pointwise_eq_image(
                size,
                grid.pressure@,
                |x: int, y: int| stamped_scalar_at(cells0, size, cell_type, mx, my, p0, x, y),
            );
        }
        match grid.rebuild_boundary_list() {
            Ok(()) => {},
            Err(_) => {
                proof {
                    assert forall|x: int, y: int|
                        crate::grid::in_grid(size, x, y) && !covered_after(
                            backup@,
                            0,
                            x,
                            y,
                        ) implies {
                        let fl0 = #[trigger] flat_index(size, x, y);
                        &&& grid.cell_type@[fl0] == cells0[fl0]
                        &&& grid.u@[fl0] == u0[fl0]
                        &&& grid.v@[fl0] == v0[fl0]
                        &&& grid.pressure@[fl0] == p0[fl0]
                    } by {
                        crate::grid::lemma_flat_bounds(size, x, y);
                        assert(!stamp_applies(cells0, size, cell_type, mx, my, x, y));
                    }
                }
                restore_backup(grid, &backup, Ghost(cells0), Ghost(u0), Ghost(v0), Ghost(p0));
            },
        }
    }
}

/// Whether some backup entry at position `k` or later is for `(x, y)`.
pub open spec fn covered_after(
    backup: Seq<(crate::types::GridIndex, u64, u64, u64, crate::cell::Cell)>,
    k: int,
    x: int,
    y: int,
) -> bool {
    exists|j: int|
        k <= j < backup.len() && (#[trigger] backup[j]).0 == ((x as usize), (y as usize))
}

} // verus!
