//! The state an interactive front end keeps between frames.

use vstd::prelude::*;

use crate::visualization::ColorType;

verus! {

/// What a pointer press does to the grid.
#[derive(Debug, Clone, Copy, PartialEq, Eq)]
pub enum MouseState {
    Inspection,
    Boundary,
    Fluid,
}

/// The ways choosing a preset can fail.  The payload is the index that
/// matched no preset.
#[derive(Debug, Clone, Copy, PartialEq, Eq)]
pub enum PresetError {
    PresetParsingError(usize),
}

/// The ready-made starting configurations a front end can offer.
#[derive(Debug, Clone, Copy, PartialEq, Eq)]
pub enum Preset {
    Obstacle,
    Inflow,
}

impl Preset {
    /// The preset at the given index, or `PresetParsingError` for an index
    /// that matches none.
    pub fn try_from(value: usize) -> (r: Result<Preset, PresetError>)
        ensures
            value == 0 ==> r == Ok::<Preset, PresetError>(Preset::Obstacle),
            value == 1 ==> r == Ok::<Preset, PresetError>(Preset::Inflow),
            value >= 2 ==> r == Err::<Preset, PresetError>(PresetError::PresetParsingError(value)),
    {
        match value {
            0 => Ok(Preset::Obstacle),
            1 => Ok(Preset::Inflow),
            _ => Err(PresetError::PresetParsingError(value)),
        }
    }
}

/// Everything an interactive front end tracks between frames.
#[derive(Debug)]
pub struct UiState {
    pub keep_running: bool,
    pub run: bool,
    pub reset: bool,
    pub color_type: ColorType,
    pub speed_multiplier: i32,
    pub mouse_state: MouseState,
    pub preset: Preset,
}

/// The front-end state at startup: running freely at twenty ticks per
/// frame, drawing boundaries, showing speed, on the obstacle preset.
pub fn initialize_state() -> (s: UiState)
    ensures
        s.keep_running == true,
        s.run == false,
        s.reset == false,
        s.color_type == ColorType::Speed,
        s.speed_multiplier == 20,
        s.mouse_state == MouseState::Boundary,
        s.preset == Preset::Obstacle,
{
    UiState {
        keep_running: true,
        run: false,
        reset: false,
        color_type: ColorType::Speed,
        speed_multiplier: 20,
        mouse_state: MouseState::Boundary,
        preset: Preset::Obstacle,
    }
}

} // verus!
