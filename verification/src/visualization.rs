//! What the core exposes toward a renderer.

use vstd::prelude::*;

verus! {

/// Which per-cell quantity a renderer maps to color.
#[derive(Debug, Clone, Copy, PartialEq, Eq)]
pub enum ColorType {
    Pressure,
    Speed,
}

impl Default for ColorType {
    /// Pressure is the default quantity to visualize.
    fn default() -> (r: Self)
        ensures
            r == ColorType::Pressure,
    {
        ColorType::Pressure
    }
}

} // verus!
