//! Screen and simulation states of the host application.
//!
//! The host's scheduler drives the simulation only while it is in
//! `SimulationState::Simulating`; the states themselves carry no data.

use vstd::prelude::*;

verus! {

/// Which screen the application is on.
#[derive(Clone, Debug, PartialEq, Eq, Hash, Default)]
pub enum GameState {
    /// The title screen.
    #[default]
    Title,
    /// The simulation screen.
    Game,
    /// The pattern menu.
    Menu,
}

/// Whether the scheduler is stepping the world on a timer.
#[derive(Clone, Debug, PartialEq, Eq, Hash, Default)]
pub enum SimulationState {
    /// Generations advance only on explicit request.
    #[default]
    Paused,
    /// Generations advance on every timer tick.
    Simulating,
}

} // verus!
