//! Finite-difference discretization kernels.
//!
//! Each kernel takes a 3x3 neighborhood `view[i][j]` of binary64 bit
//! patterns, with the center at `view[1][1]`, the first index along x and
//! the second along y, together with the cell extent and, for the advection
//! kernels, the upwind blending parameter gamma.  The contracts restate the
//! kernels exactly, operation by operation, over the scalar bit-pattern
//! algebra, so the order of the roundings is pinned down.

use vstd::prelude::*;

use crate::scalar::FOUR_BITS;
use crate::scalar::abs_bits;
use crate::scalar::add_bits;
use crate::scalar::div_bits;
use crate::scalar::mul_bits;
use crate::scalar::real_abs;
use crate::scalar::real_add;
use crate::scalar::real_div;
use crate::scalar::real_mul;
use crate::scalar::real_sub;
use crate::scalar::square_bits;
use crate::scalar::sub_bits;

verus! {

/// A 3x3 neighborhood of binary64 bit patterns.
pub type Neighborhood = [[u64; 3]; 3];

/// The value at `(i, j)` of a 3x3 neighborhood.
pub open spec fn at(view: Neighborhood, i: int, j: int) -> u64 {
    view@[i]@[j]
}

/// The derivative of `u^2` over x: a central difference of the squared
/// face-averaged velocity blended with an upwind correction weighted by
/// gamma, divided by `4 * delx`.
#[verifier::opaque]
pub open spec fn du2dx_bits(u_i_m1: u64, u_i: u64, u_i_p1: u64, delx: u64, gamma: u64) -> u64 {
    let inner_left1 = square_bits(add_bits(u_i, u_i_p1));
    let inner_right1 = square_bits(add_bits(u_i_m1, u_i));
    let left_side = sub_bits(inner_left1, inner_right1);
    let inner_left2 = mul_bits(abs_bits(add_bits(u_i, u_i_p1)), sub_bits(u_i, u_i_p1));
    let inner_right2 = mul_bits(abs_bits(add_bits(u_i_m1, u_i)), sub_bits(u_i_m1, u_i));
    div_bits(
        add_bits(left_side, mul_bits(gamma, sub_bits(inner_left2, inner_right2))),
        mul_bits(FOUR_BITS, delx),
    )
}

/// Calculate du^2/dx (the derivative of u^2 over x).
///
/// Only the three values of the center column (`u[(i-1..=i+1, j)]`) are
/// used; the full 3x3 neighborhood is taken to combine easily with the
/// other kernels.
pub fn du2dx(u_view: &Neighborhood, delx: u64, gamma: u64) -> (r: u64)
    ensures
        r == du2dx_bits(at(*u_view, 0, 1), at(*u_view, 1, 1), at(*u_view, 2, 1), delx, gamma),
{
    proof {
        reveal(du2dx_bits);
    }
    let u_i_m1 = u_view[0][1];
    let u_i = u_view[1][1];
    let u_i_p1 = u_view[2][1];

    let inner_left1 = {
        let s = real_add(u_i, u_i_p1);
        real_mul(s, s)
    };
    let inner_right1 = {
        let s = real_add(u_i_m1, u_i);
        real_mul(s, s)
    };
    let left_side = real_sub(inner_left1, inner_right1);

    let inner_left2 = real_mul(real_abs(real_add(u_i, u_i_p1)), real_sub(u_i, u_i_p1));
    let inner_right2 = real_mul(real_abs(real_add(u_i_m1, u_i)), real_sub(u_i_m1, u_i));

    real_div(
        real_add(left_side, real_mul(gamma, real_sub(inner_left2, inner_right2))),
        real_mul(FOUR_BITS, delx),
    )
}

/// The derivative of `u * v` over x: the analogous central/upwind blend on
/// the product of the u and v averages on the relevant faces.
#[verifier::opaque]
pub open spec fn duvdx_bits(
    u_i_m1_j: u64,
    u_i_m1_j_p1: u64,
    u_i_j: u64,
    u_i_j_p1: u64,
    v_i_m1_j: u64,
    v_i_j: u64,
    v_i_p1_j: u64,
    delx: u64,
    gamma: u64,
) -> u64 {
    let inner_left1 = mul_bits(add_bits(u_i_j, u_i_j_p1), add_bits(v_i_j, v_i_p1_j));
    let inner_right1 = mul_bits(add_bits(u_i_m1_j, u_i_m1_j_p1), add_bits(v_i_m1_j, v_i_j));
    let left_side = sub_bits(inner_left1, inner_right1);
    let inner_left2 = mul_bits(abs_bits(add_bits(u_i_j, u_i_j_p1)), sub_bits(v_i_j, v_i_p1_j));
    let inner_right2 = mul_bits(
        abs_bits(add_bits(u_i_m1_j, u_i_m1_j_p1)),
        sub_bits(v_i_m1_j, v_i_j),
    );
    div_bits(
        add_bits(left_side, mul_bits(gamma, sub_bits(inner_left2, inner_right2))),
        mul_bits(FOUR_BITS, delx),
    )
}

/// Calculate duv/dx (the derivative of u*v over x).
pub fn duvdx(u_view: &Neighborhood, v_view: &Neighborhood, delx: u64, gamma: u64) -> (r: u64)
    ensures
        r == duvdx_bits(
            at(*u_view, 0, 1),
            at(*u_view, 0, 2),
            at(*u_view, 1, 1),
            at(*u_view, 1, 2),
            at(*v_view, 0, 1),
            at(*v_view, 1, 1),
            at(*v_view, 2, 1),
            delx,
            gamma,
        ),
{
    proof {
        reveal(duvdx_bits);
    }
    let u_i_j = u_view[1][1];
    let u_i_j_p1 = u_view[1][2];
    let u_i_m1_j = u_view[0][1];
    let u_i_m1_j_p1 = u_view[0][2];

    let v_i_j = v_view[1][1];
    let v_i_p1_j = v_view[2][1];
    let v_i_m1_j = v_view[0][1];

    let inner_left1 = real_mul(real_add(u_i_j, u_i_j_p1), real_add(v_i_j, v_i_p1_j));
    let inner_right1 = real_mul(real_add(u_i_m1_j, u_i_m1_j_p1), real_add(v_i_m1_j, v_i_j));
    let left_side = real_sub(inner_left1, inner_right1);

    let inner_left2 = real_mul(real_abs(real_add(u_i_j, u_i_j_p1)), real_sub(v_i_j, v_i_p1_j));
    let inner_right2 = real_mul(
        real_abs(real_add(u_i_m1_j, u_i_m1_j_p1)),
        real_sub(v_i_m1_j, v_i_j),
    );

    real_div(
        real_add(left_side, real_mul(gamma, real_sub(inner_left2, inner_right2))),
        real_mul(FOUR_BITS, delx),
    )
}

/// The derivative of `u * v` over y: the analogous central/upwind blend on
/// the product of the u and v averages on the relevant faces.
#[verifier::opaque]
pub open spec fn duvdy_bits(
    u_i_j_m1: u64,
    u_i_j: u64,
    u_i_j_p1: u64,
    v_i_j_m1: u64,
    v_i_j: u64,
    v_i_p1_j_m1: u64,
    v_i_p1_j: u64,
    dely: u64,
    gamma: u64,
) -> u64 {
    let inner_left1 = mul_bits(add_bits(v_i_j, v_i_p1_j), add_bits(u_i_j, u_i_j_p1));
    let inner_right1 = mul_bits(add_bits(v_i_j_m1, v_i_p1_j_m1), add_bits(u_i_j_m1, u_i_j));
    let left_side = sub_bits(inner_left1, inner_right1);
    let inner_left2 = mul_bits(abs_bits(add_bits(v_i_j, v_i_p1_j)), sub_bits(u_i_j, u_i_j_p1));
    let inner_right2 = mul_bits(
        abs_bits(add_bits(v_i_j_m1, v_i_p1_j_m1)),
        sub_bits(u_i_j_m1, u_i_j),
    );
    div_bits(
        add_bits(left_side, mul_bits(gamma, sub_bits(inner_left2, inner_right2))),
        mul_bits(FOUR_BITS, dely),
    )
}

/// Calculate duv/dy (the derivative of u*v over y).
pub fn duvdy(u_view: &Neighborhood, v_view: &Neighborhood, dely: u64, gamma: u64) -> (r: u64)
    ensures
        r == duvdy_bits(
            at(*u_view, 1, 0),
            at(*u_view, 1, 1),
            at(*u_view, 1, 2),
            at(*v_view, 1, 0),
            at(*v_view, 1, 1),
            at(*v_view, 2, 0),
            at(*v_view, 2, 1),
            dely,
            gamma,
        ),
{
    proof {
        reveal(duvdy_bits);
    }
    let u_i_j = u_view[1][1];
    let u_i_j_m1 = u_view[1][0];
    let u_i_j_p1 = u_view[1][2];

    let v_i_j = v_view[1][1];
    let v_i_j_m1 = v_view[1][0];
    let v_i_p1_j = v_view[2][1];
    let v_i_p1_j_m1 = v_view[2][0];

    let inner_left1 = real_mul(real_add(v_i_j, v_i_p1_j), real_add(u_i_j, u_i_j_p1));
    let inner_right1 = real_mul(real_add(v_i_j_m1, v_i_p1_j_m1), real_add(u_i_j_m1, u_i_j));
    let left_side = real_sub(inner_left1, inner_right1);

    let inner_left2 = real_mul(real_abs(real_add(v_i_j, v_i_p1_j)), real_sub(u_i_j, u_i_j_p1));
    let inner_right2 = real_mul(
        real_abs(real_add(v_i_j_m1, v_i_p1_j_m1)),
        real_sub(u_i_j_m1, u_i_j),
    );

    real_div(
        real_add(left_side, real_mul(gamma, real_sub(inner_left2, inner_right2))),
        real_mul(FOUR_BITS, dely),
    )
}

/// The derivative of `v^2` over y: a central difference of the squared
/// face-averaged velocity blended with an upwind correction weighted by
/// gamma, divided by `4 * dely`.
#[verifier::opaque]
pub open spec fn dv2dy_bits(v_i_j_m1: u64, v_i_j: u64, v_i_j_p1: u64, dely: u64, gamma: u64) -> u64 {
    let inner_left1 = square_bits(add_bits(v_i_j, v_i_j_p1));
    let inner_right1 = square_bits(add_bits(v_i_j_m1, v_i_j));
    let left_side = sub_bits(inner_left1, inner_right1);
    let inner_left2 = mul_bits(abs_bits(add_bits(v_i_j, v_i_j_p1)), sub_bits(v_i_j, v_i_j_p1));
    let inner_right2 = mul_bits(abs_bits(add_bits(v_i_j_m1, v_i_j)), sub_bits(v_i_j_m1, v_i_j));
    div_bits(
        add_bits(left_side, mul_bits(gamma, sub_bits(inner_left2, inner_right2))),
        mul_bits(FOUR_BITS, dely),
    )
}

/// Calculate dv^2/dy (the derivative of v^2 over y).
pub fn dv2dy(v_view: &Neighborhood, dely: u64, gamma: u64) -> (r: u64)
    ensures
        r == dv2dy_bits(at(*v_view, 1, 0), at(*v_view, 1, 1), at(*v_view, 1, 2), dely, gamma),
{
    proof {
        reveal(dv2dy_bits);
    }
    let v_i_j = v_view[1][1];
    let v_i_j_p1 = v_view[1][2];
    let v_i_j_m1 = v_view[1][0];

    let inner_left1 = {
        let s = real_add(v_i_j, v_i_j_p1);
        real_mul(s, s)
    };
    let inner_right1 = {
        let s = real_add(v_i_j_m1, v_i_j);
        real_mul(s, s)
    };
    let left_side = real_sub(inner_left1, inner_right1);

    let inner_left2 = real_mul(real_abs(real_add(v_i_j, v_i_j_p1)), real_sub(v_i_j, v_i_j_p1));
    let inner_right2 = real_mul(real_abs(real_add(v_i_j_m1, v_i_j)), real_sub(v_i_j_m1, v_i_j));

    real_div(
        real_add(left_side, real_mul(gamma, real_sub(inner_left2, inner_right2))),
        real_mul(FOUR_BITS, dely),
    )
}

/// The five-point Laplacian: the second difference along each axis, each
/// written as a sum of the two differences toward the center and divided by
/// the squared cell extent, then added.
#[verifier::opaque]
pub open spec fn laplacian_bits(
    a_i_m1: u64,
    a_i: u64,
    a_i_p1: u64,
    a_j_m1: u64,
    a_j_p1: u64,
    delx: u64,
    dely: u64,
) -> u64 {
    add_bits(
        div_bits(
            add_bits(sub_bits(a_i_p1, a_i), sub_bits(a_i_m1, a_i)),
            mul_bits(delx, delx),
        ),
        div_bits(
            add_bits(sub_bits(a_j_p1, a_i), sub_bits(a_j_m1, a_i)),
            mul_bits(dely, dely),
        ),
    )
}

/// Calculate the five-point Laplacian of the neighborhood's center.
pub fn laplacian(view: &Neighborhood, delx: u64, dely: u64) -> (r: u64)
    ensures
        r == laplacian_bits(
            at(*view, 0, 1),
            at(*view, 1, 1),
            at(*view, 2, 1),
            at(*view, 1, 0),
            at(*view, 1, 2),
            delx,
            dely,
        ),
{
    proof {
        reveal(laplacian_bits);
    }
    let a_i_m1 = view[0][1];
    let a_i = view[1][1];
    let a_i_p1 = view[2][1];
    let a_j_m1 = view[1][0];
    let a_j_p1 = view[1][2];

    real_add(
        real_div(
            real_add(real_sub(a_i_p1, a_i), real_sub(a_i_m1, a_i)),
            real_mul(delx, delx),
        ),
        real_div(
            real_add(real_sub(a_j_p1, a_i), real_sub(a_j_m1, a_i)),
            real_mul(dely, dely),
        ),
    )
}

/// The discrete Poisson residual: the Laplacian of the pressure
/// neighborhood minus the right-hand side.
#[verifier::opaque]
pub open spec fn residual_bits(
    p_i_m1: u64,
    p_i: u64,
    p_i_p1: u64,
    p_j_m1: u64,
    p_j_p1: u64,
    delx: u64,
    dely: u64,
    rhs: u64,
) -> u64 {
    sub_bits(laplacian_bits(p_i_m1, p_i, p_i_p1, p_j_m1, p_j_p1, delx, dely), rhs)
}

/// Calculate the discrete Poisson residual at the neighborhood's center,
/// used only for convergence measurement.
pub fn residual(p_view: &Neighborhood, delx: u64, dely: u64, rhs: u64) -> (r: u64)
    ensures
        r == residual_bits(
            at(*p_view, 0, 1),
            at(*p_view, 1, 1),
            at(*p_view, 2, 1),
            at(*p_view, 1, 0),
            at(*p_view, 1, 2),
            delx,
            dely,
            rhs,
        ),
{
    proof {
        reveal(residual_bits);
    }
    real_sub(laplacian(p_view, delx, dely), rhs)
}

} // verus!
