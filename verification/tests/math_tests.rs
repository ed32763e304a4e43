//! The discretization kernels against exact reference vectors.

use stroemung::math::Neighborhood;
use stroemung::math::du2dx;
use stroemung::math::duvdx;
use stroemung::math::duvdy;
use stroemung::math::dv2dy;

fn b(x: f64) -> u64 {
    x.to_bits()
}

fn nb(rows: [[f64; 3]; 3]) -> Neighborhood {
    let mut out = [[0u64; 3]; 3];
    for i in 0..3 {
        for j in 0..3 {
            out[i][j] = b(rows[i][j]);
        }
    }
    out
}

#[test]
fn test_du2dx() {
    // These don't have any particular significance, just some random data.
    let test_cases = [
        ([[0., 1., 0.], [0., 2., 0.], [0., 3., 0.]], 1., 1.7, 3.15),
        ([[0., -1., 0.], [0., 2., 0.], [0., 3., 0.]], 1., 1.7, 5.15),
        ([[0., 1., 0.], [0., 1., 0.], [0., 1., 0.]], 1., 1.7, 0.),
        ([[0., 1., 0.], [0., 2., 0.], [0., 3., 0.]], 1., 1.3, 3.35),
        ([[0., 1., 0.], [0., 2., 0.], [0., 3., 0.]], 1.5, 1.7, 2.1),
        ([[0., 10., 0.], [0., 20., 0.], [0., 30., 0.]], 1.5, 1.7, 210.),
    ];
    for (u, delx, gamma, expected) in test_cases {
        assert_eq!(du2dx(&nb(u), b(delx), b(gamma)), b(expected));
    }
}

#[test]
fn test_duvdx() {
    // These don't have any particular significance, just some random data.
    let test_cases = [
        (
            [[1., 2., 3.], [4., 5., 6.], [7., 8., 9.]],
            [[8., 9., 10.], [11., 12., 13.], [14., 15., 16.]],
            1.,
            1.7,
            40.35,
        ),
        (
            [[1., 2., 3.], [4., 5., -6.], [-7., 8., 9.]],
            [[8., 9., 10.], [11., -12., 13.], [14., 15., -16.]],
            1.,
            1.7,
            -53.1,
        ),
        (
            [[1., 2., 3.], [4., 5., 6.], [7., 8., 9.]],
            [[8., 9., 10.], [11., 12., 13.], [14., 15., 16.]],
            1.6,
            1.7,
            25.218750,
        ),
        (
            [[1., 2., 3.], [4., 5., 6.], [7., 8., 9.]],
            [[8., 9., 10.], [11., 12., 13.], [14., 15., 16.]],
            1.,
            1.5,
            41.25,
        ),
    ];
    for (u, v, delx, gamma, expected) in test_cases {
        assert_eq!(duvdx(&nb(u), &nb(v), b(delx), b(gamma)), b(expected));
    }
}

#[test]
fn test_duvdy() {
    // These don't have any particular significance, just some random data.
    let test_cases = [
        (
            [[1., 2., 3.], [4., 5., 6.], [7., 8., 9.]],
            [[8., 9., 10.], [11., 12., 13.], [14., 15., 16.]],
            1.,
            1.7,
            17.15,
        ),
        (
            [[1., 2., 3.], [4., 5., -6.], [-7., 8., 9.]],
            [[8., 9., 10.], [11., -12., 13.], [14., 15., -16.]],
            1.,
            1.7,
            -32.35,
        ),
        (
            [[1., 2., 3.], [4., 5., 6.], [7., 8., 9.]],
            [[8., 9., 10.], [11., 12., 13.], [14., 15., 16.]],
            1.6,
            1.7,
            10.718749999999998,
        ),
        (
            [[1., 2., 3.], [4., 5., 6.], [7., 8., 9.]],
            [[8., 9., 10.], [11., 12., 13.], [14., 15., 16.]],
            1.,
            1.5,
            17.25,
        ),
    ];
    for (u, v, dely, gamma, expected) in test_cases {
        assert_eq!(duvdy(&nb(u), &nb(v), b(dely), b(gamma)), b(expected));
    }
}

#[test]
fn test_dv2dy() {
    // These don't have any particular significance, just some random data.
    let test_cases = [
        ([[0., 0., 0.], [1., 2., 3.], [0., 0., 0.]], 1., 1.7, 3.15),
        ([[0., 0., 0.], [-1., 2., 3.], [0., 0., 0.]], 1., 1.7, 5.15),
        ([[0., 0., 0.], [1., 1., 1.], [0., 0., 0.]], 1., 1.7, 0.),
        ([[0., 0., 0.], [1., 2., 3.], [0., 0., 0.]], 1., 1.3, 3.35),
        ([[0., 0., 0.], [1., 2., 3.], [0., 0., 0.]], 1.5, 1.7, 2.1),
        ([[0., 0., 0.], [10., 20., 30.], [0., 0., 0.]], 1.5, 1.7, 210.),
    ];
    for (v, dely, gamma, expected) in test_cases {
        assert_eq!(dv2dy(&nb(v), b(dely), b(gamma)), b(expected));
    }
}
