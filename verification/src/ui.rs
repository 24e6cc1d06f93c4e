//! Vocabulary shared with the host's user interface: what its buttons,
//! sliders and render layers mean. The host wires its widgets to these and
//! translates each action into a call on `world::World`.

use vstd::prelude::*;

verus! {

/// What a game-screen button asks of the simulation.
pub enum GameButtonAction {
    /// Begin stepping on the timer.
    Start,
    /// Stop stepping on the timer.
    Stop,
    /// Step one generation.
    Next,
    /// Restore the initial pattern.
    Reset,
    /// Empty the world.
    Clear,
    /// Shorten the timer interval.
    SpeedUp,
    /// Lengthen the timer interval.
    SpeedDown,
    /// Zoom the world camera in.
    ZoomUp,
    /// Zoom the world camera out.
    ZoomDown,
}

/// Which quantity a slider controls.
#[derive(Clone, Copy, PartialEq, Eq)]
pub enum SliderKind {
    /// The simulation tick interval.
    Speed,
    /// The world camera scale.
    Zoom,
}

/// Which camera a rendered entity belongs to.
#[derive(Clone, Copy)]
pub enum Layer {
    /// The side menu camera.
    SideMenu,
    /// The world (cell grid) camera.
    World,
}

} // verus!
