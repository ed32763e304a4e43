//! Cell kinds of the simulation grid.

use vstd::prelude::*;

use crate::types::Velocity;

verus! {

/// How a boundary cell synthesizes its ghost values.
#[derive(Debug, Clone, Copy, PartialEq)]
pub enum BoundaryCell {
    /// Fluid enters with the prescribed velocity; the tangential component
    /// is mirrored with a sign flip.
    Inflow { velocity: Velocity },
    /// Zero-gradient outflow: values are copied from the fluid neighbor.
    Outflow,
    /// A solid wall: zero velocity at the wall by linear interpolation.
    NoSlip,
}

/// A grid cell: either fluid evolved by the equations, or a boundary cell
/// whose values are synthesized from its fluid neighbors.
#[derive(Debug, Clone, Copy, PartialEq)]
pub enum Cell {
    Fluid,
    Boundary(BoundaryCell),
}

/// Whether two cells are of exactly the same kind (and, for inflow cells,
/// prescribe the same velocity).
pub fn cells_equal(a: &Cell, b: &Cell) -> (r: bool)
    ensures
        r == (*a == *b),
{
    match (a, b) {
        (Cell::Fluid, Cell::Fluid) => true,
        (Cell::Boundary(BoundaryCell::NoSlip), Cell::Boundary(BoundaryCell::NoSlip)) => true,
        (Cell::Boundary(BoundaryCell::Outflow), Cell::Boundary(BoundaryCell::Outflow)) => true,
        (
            Cell::Boundary(BoundaryCell::Inflow { velocity: va }),
            Cell::Boundary(BoundaryCell::Inflow { velocity: vb }),
        ) => {
            let eq = va[0] == vb[0] && va[1] == vb[1];
            proof {
                if eq {
                    assert(va@ =~= vb@);
                    assert(*va == *vb);
                }
            }
            eq
        },
        _ => false,
    }
}

} // verus!
