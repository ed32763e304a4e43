//! The grid constructor, the boundary classifier and the
//! boundary-condition appliers.

use stroemung::cell::BoundaryCell;
use stroemung::cell::Cell;
use stroemung::grid::EdgeType;
use stroemung::grid::SimulationGrid;
use stroemung::grid::UnfinalizedSimulationGrid;
use stroemung::grid::presets;
use stroemung::types::BoundaryIndex;
use stroemung::types::GridIndex;
use stroemung::ui_state::MouseState;
use stroemung::ui_state::Preset;
use stroemung::ui_state::PresetError;
use stroemung::ui_state::initialize_state;
use stroemung::visualization::ColorType;

fn all_fluid(n: usize) -> Vec<Cell> {
    let mut v = Vec::new();
    for _ in 0..n {
        v.push(Cell::Fluid);
    }
    v
}

#[test]
fn grid_grid_size() {
    let size = [5, 7];
    let grid = SimulationGrid::new(size);
    assert_eq!(grid.size[0], 5);
    assert_eq!(grid.size[1], 7);
    assert_eq!(grid.pressure.len(), 5 * 7);
}

#[test]
fn mod_grid_size() {
    let size = [5, 7];
    let grid = presets::empty(size);
    assert_eq!(grid.size[0], 5);
    assert_eq!(grid.size[1], 7);
    assert_eq!(grid.pressure.len(), 5 * 7);
    assert_eq!(grid.u.len(), 5 * 7);
    assert_eq!(grid.v.len(), 5 * 7);
    assert_eq!(grid.cell_type.len(), 5 * 7);
}

#[test]
fn thin_boundary() {
    let size = [3, 3];

    let boundaries: Vec<Vec<GridIndex>> =
        vec![vec![(1, 0), (1, 1), (1, 2)], vec![(0, 1), (1, 1), (2, 1)]];
    for example in &boundaries {
        let mut cell_type = all_fluid(9);
        for idx in example {
            cell_type[idx.0 * 3 + idx.1] = Cell::Boundary(BoundaryCell::NoSlip);
        }
        let unfinalized = UnfinalizedSimulationGrid {
            size,
            pressure: vec![0u64; 9],
            u: vec![0u64; 9],
            v: vec![0u64; 9],
            cell_type,
        };
        let grid = SimulationGrid::try_from(unfinalized);
        assert!(grid.is_err());
        assert!(format!("{:?}", grid).contains("BoundaryTooThinError"));
    }
}

#[test]
fn rebuild_boundary_list() {
    let size = [3, 3];

    let examples = vec![
        (
            // Everything except for the middle cell is a boundary
            vec![
                (0, 0),
                (0, 1),
                (0, 2),
                (1, 0),
                (1, 2),
                (2, 0),
                (2, 1),
                (2, 2),
            ],
            vec![
                None,
                Some(EdgeType::East { east_neighbor: (1, 1) }),
                None,
                Some(EdgeType::South { south_neighbor: (1, 1) }),
                Some(EdgeType::North { north_neighbor: (1, 1) }),
                None,
                Some(EdgeType::West { west_neighbor: (1, 1) }),
                None,
            ],
        ),
        (
            // All corners are boundaries
            vec![(0, 0), (0, 2), (2, 0), (2, 2)],
            vec![
                Some(EdgeType::SouthEast { south_neighbor: (0, 1), east_neighbor: (1, 0) }),
                Some(EdgeType::NorthEast { north_neighbor: (0, 1), east_neighbor: (1, 2) }),
                Some(EdgeType::SouthWest { south_neighbor: (2, 1), west_neighbor: (1, 0) }),
                Some(EdgeType::NorthWest { north_neighbor: (2, 1), west_neighbor: (1, 2) }),
            ],
        ),
    ];

    for (expected_boundaries, expected_neighbors) in examples {
        let mut cell_type = all_fluid(9);
        for idx in &expected_boundaries {
            let (x, y): (usize, usize) = *idx;
            cell_type[x * 3 + y] = Cell::Boundary(BoundaryCell::NoSlip);
        }
        let unfinalized = UnfinalizedSimulationGrid {
            size,
            pressure: vec![0u64; 9],
            u: vec![0u64; 9],
            v: vec![0u64; 9],
            cell_type,
        };

        let expected_boundary_indices: Vec<BoundaryIndex> = expected_boundaries
            .iter()
            .map(|x: &(usize, usize)| BoundaryIndex(x.0, x.1))
            .collect();

        let expected_sorted_list: Vec<(GridIndex, Option<EdgeType>)> = expected_boundaries
            .iter()
            .zip(expected_neighbors)
            .map(|(x, y)| (*x, y))
            .collect();

        let grid = SimulationGrid::try_from(unfinalized).unwrap();

        assert_eq!(grid.boundaries.boundaries, expected_boundary_indices);
        assert_eq!(grid.boundaries.sorted_boundary_list, expected_sorted_list);
    }
}

#[test]
fn boundary_list_round_trip() {
    // Stripping a grid to its raw fields and rebuilding it reproduces the
    // derived boundary state exactly.
    let grid = presets::simple_inflow([6, 5]);
    let expected_boundaries = grid.boundaries.boundaries.clone();
    let expected_list = grid.boundaries.sorted_boundary_list.clone();
    let expected_fluid = grid.boundaries.fluid_cells;

    let raw = UnfinalizedSimulationGrid::from(grid);
    let rebuilt = SimulationGrid::try_from(raw).unwrap();
    assert_eq!(rebuilt.boundaries.boundaries, expected_boundaries);
    assert_eq!(rebuilt.boundaries.sorted_boundary_list, expected_list);
    assert_eq!(rebuilt.boundaries.fluid_cells, expected_fluid);
}

#[test]
fn boundary_appliers_idempotent() {
    // Applying the boundary-condition appliers twice in a row without an
    // intervening tick leaves the grid exactly as after the first
    // application.
    let mut grid = presets::simple_inflow([4, 3]);
    for (k, p) in grid.pressure.iter_mut().enumerate() {
        *p = (k as f64).to_bits();
    }
    for (k, u) in grid.u.iter_mut().enumerate() {
        *u = (0.25 * k as f64).to_bits();
    }
    for (k, v) in grid.v.iter_mut().enumerate() {
        *v = (0.125 * k as f64 - 1.0).to_bits();
    }

    grid.copy_pressure_to_boundaries().unwrap();
    let once = grid.pressure.clone();
    grid.copy_pressure_to_boundaries().unwrap();
    assert_eq!(grid.pressure, once);

    // The velocity applier overwrites shared faces, so its idempotence
    // holds of states where those faces already carry their boundary
    // values, such as a freshly built preset.
    let mut fresh = presets::simple_inflow([4, 3]);
    fresh.set_boundary_u_and_v().unwrap();
    let u_once = fresh.u.clone();
    let v_once = fresh.v.clone();
    let restore_once = fresh.boundaries.u_v_restore.clone();
    fresh.set_boundary_u_and_v().unwrap();
    assert_eq!(fresh.u, u_once);
    assert_eq!(fresh.v, v_once);
    assert_eq!(fresh.boundaries.u_v_restore, restore_once);
}

#[test]
fn boundary_list_incorrect_error() {
    // A boundary-classified index whose cell type is not a boundary cell is
    // reported as an internal-consistency fault.
    let mut grid = presets::simple_inflow([4, 3]);
    // Corrupt the stored type of a boundary cell that has an edge.
    grid.cell_type[1] = Cell::Fluid;
    let result = grid.copy_pressure_to_boundaries();
    assert!(result.is_err());
    assert!(format!("{:?}", result).contains("BoundaryListIncorrectError"));
}

#[test]
fn draw_cells_rolls_back() {
    // A 2x2 stamp in the strict interior is a valid edit.
    let mut grid = presets::empty([8, 5]);
    stroemung::draw_cells(&mut grid, Cell::Boundary(BoundaryCell::NoSlip), 3, 1);
    assert_eq!(grid.cell_type[3 * 5 + 1], Cell::Boundary(BoundaryCell::NoSlip));
    assert_eq!(grid.cell_type[4 * 5 + 2], Cell::Boundary(BoundaryCell::NoSlip));

    // Turning half of the wall back to fluid would leave boundary cells
    // with fluid on opposite sides, so the edit must roll back entirely.
    let cells_before = grid.cell_type.clone();
    let pressure_before = grid.pressure.clone();
    let u_before = grid.u.clone();
    let v_before = grid.v.clone();
    stroemung::draw_cells(&mut grid, Cell::Fluid, 4, 1);
    assert_eq!(grid.cell_type, cells_before);
    assert_eq!(grid.pressure, pressure_before);
    assert_eq!(grid.u, u_before);
    assert_eq!(grid.v, v_before);
}

#[test]
fn preset_index_error() {
    assert_eq!(Preset::try_from(0), Ok(Preset::Obstacle));
    assert_eq!(Preset::try_from(1), Ok(Preset::Inflow));
    assert_eq!(Preset::try_from(7), Err(PresetError::PresetParsingError(7)));
}

#[test]
fn initial_ui_state() {
    let state = initialize_state();
    assert!(state.keep_running);
    assert!(!state.run);
    assert!(!state.reset);
    assert_eq!(state.color_type, ColorType::Speed);
    assert_eq!(state.speed_multiplier, 20);
    assert_eq!(state.mouse_state, MouseState::Boundary);
    assert_eq!(state.preset, Preset::Obstacle);
    assert_eq!(ColorType::default(), ColorType::Pressure);
}

#[test]
fn empty_preset_has_no_boundaries() {
    let grid = presets::empty([6, 4]);
    assert!(grid.boundaries.boundaries.is_empty());
    assert!(grid.boundaries.sorted_boundary_list.is_empty());
    assert_eq!(grid.boundaries.fluid_cells, 24);
}

#[test]
fn obstacle_preset_cells() {
    let grid = presets::obstacle([30, 11]);
    // The circle of radius five around (20, 5) is solid wall...
    assert_eq!(grid.cell_type[20 * 11 + 5], Cell::Boundary(BoundaryCell::NoSlip));
    assert_eq!(grid.cell_type[17 * 11 + 3], Cell::Boundary(BoundaryCell::NoSlip));
    // ...cells at distance five or more are not part of it...
    assert_eq!(grid.cell_type[25 * 11 + 5], Cell::Fluid);
    assert_eq!(grid.cell_type[20 * 11 + 10], Cell::Boundary(BoundaryCell::NoSlip));
    assert_eq!(grid.cell_type[15 * 11 + 5], Cell::Fluid);
    // ...and the channel ring is still in place.
    assert_eq!(
        grid.cell_type[0 * 11 + 5],
        Cell::Boundary(BoundaryCell::Inflow { velocity: [1.0f64.to_bits(), 0.0f64.to_bits()] })
    );
    assert_eq!(grid.cell_type[29 * 11 + 5], Cell::Boundary(BoundaryCell::Outflow));
    assert_eq!(grid.cell_type[10 * 11 + 0], Cell::Boundary(BoundaryCell::NoSlip));
}
