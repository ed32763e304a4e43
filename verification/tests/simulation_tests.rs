//! The momentum predictor and the end-to-end tick behaviour.

use stroemung::grid::UnfinalizedSimulationGrid;
use stroemung::grid::presets;
use stroemung::math::Neighborhood;
use stroemung::simulation::Simulation;
use stroemung::simulation::UnfinalizedSimulation;
use stroemung::simulation::calculate_f;
use stroemung::simulation::calculate_g;

fn b(x: f64) -> u64 {
    x.to_bits()
}

fn nb(rows: [[f64; 3]; 3]) -> Neighborhood {
    let mut out = [[0u64; 3]; 3];
    for i in 0..3 {
        for j in 0..3 {
            out[i][j] = b(rows[i][j]);
        }
    }
    out
}

#[test]
fn test_calculate_f() {
    // These don't have any particular significance, just some random data.
    let test_cases = [
        (
            [[1., 2., 3.], [4., 5., 6.], [7., 8., 9.]],
            [[8., 9., 10.], [11., 12., 13.], [14., 15., 16.]],
            1.,
            1.,
            0.005,
            1.7,
            100.,
            4.802500,
        ),
        (
            [[1., 2., 3.], [4., 5., -6.], [-7., 8., 9.]],
            [[8., 9., 10.], [11., -12., 13.], [14., 15., -16.]],
            1.,
            1.,
            0.006,
            1.7,
            10.,
            5.052800,
        ),
        (
            [[1., 2., 3.], [4., 5., 6.], [7., 8., 9.]],
            [[8., 9., 10.], [11., 12., 13.], [14., 15., 16.]],
            1.6,
            1.,
            0.007,
            1.7,
            14.,
            4.782168750,
        ),
        (
            [[1., 2., 3.], [4., 5., 6.], [7., 8., 9.]],
            [[8., 9., 10.], [11., 12., 13.], [14., 15., 16.]],
            1.,
            1.6,
            0.003,
            1.5,
            400.,
            4.89790625,
        ),
    ];
    for (u, v, delx, dely, delt, gamma, reynolds, expected) in test_cases {
        assert_eq!(
            calculate_f(
                &nb(u),
                &nb(v),
                b(delx),
                b(dely),
                b(delt),
                b(gamma),
                b(reynolds),
            ),
            b(expected)
        );
    }
}

#[test]
fn test_calculate_g() {
    // These don't have any particular significance, just some random data.
    let test_cases = [
        (
            [[1., 2., 3.], [4., 5., 6.], [7., 8., 9.]],
            [[8., 9., 10.], [11., 12., 13.], [14., 15., 16.]],
            1.,
            1.,
            0.005,
            1.7,
            100.,
            11.6825,
        ),
        (
            [[1., 2., 3.], [4., 5., -6.], [-7., 8., 9.]],
            [[8., 9., 10.], [11., -12., 13.], [14., 15., -16.]],
            1.,
            1.,
            0.006,
            1.7,
            10.,
            -11.5014,
        ),
        (
            [[1., 2., 3.], [4., 5., 6.], [7., 8., 9.]],
            [[8., 9., 10.], [11., 12., 13.], [14., 15., 16.]],
            1.6,
            1.,
            0.007,
            1.7,
            14.,
            11.66141875,
        ),
        (
            [[1., 2., 3.], [4., 5., 6.], [7., 8., 9.]],
            [[8., 9., 10.], [11., 12., 13.], [14., 15., 16.]],
            1.,
            1.6,
            0.003,
            1.5,
            400.,
            11.83265625,
        ),
    ];
    for (u, v, delx, dely, delt, gamma, reynolds, expected) in test_cases {
        assert_eq!(
            calculate_g(
                &nb(u),
                &nb(v),
                b(delx),
                b(dely),
                b(delt),
                b(gamma),
                b(reynolds),
            ),
            b(expected)
        );
    }
}

#[test]
fn simulation_tick() {
    let size = [4, 3];
    let mut sim = Simulation::try_from(UnfinalizedSimulation {
        size,
        cell_size: [b(0.1), b(0.2)],
        delt: b(0.005),
        gamma: b(0.9),
        reynolds: b(100.0),
        sor_absolute_epsilon: b(0.001),
        max_iterations: 100,
        initial_norm_squared: None,
        iterations: 0,
        time: b(0.0),
        omega: b(1.7),
        grid: UnfinalizedSimulationGrid::from(presets::simple_inflow(size)),
    })
    .unwrap();

    // SOR is bad at converging on "unphysical" initial conditions, hence
    // the first few ticks are expected to stop after max_iterations.
    let (sor_iterations, norm_squared) = sim.run_simulation_tick().unwrap();
    assert_eq!(sor_iterations, 100);
    assert_eq!(norm_squared, b(562901.7447199143));

    let mut last_sor_iterations = 0;
    let mut last_norm_squared = b(0.0);
    for _ in 0..100 {
        (last_sor_iterations, last_norm_squared) = sim.run_simulation_tick().unwrap();
    }
    assert_eq!(last_sor_iterations, 1);
    assert_eq!(last_norm_squared, b(3.8344148218167323e-20));

    // The flow has settled: every further tick converges after a single
    // SOR iteration.
    for _ in 0..100 {
        let (sor_iterations_settled, _) = sim.run_simulation_tick().unwrap();
        assert_eq!(sor_iterations_settled, 1);
    }
    assert_eq!(sim.iterations, 201);
    let mut expected_time = 0.0f64;
    for _ in 0..201 {
        expected_time += 0.005;
    }
    assert_eq!(sim.time, b(expected_time));
}
