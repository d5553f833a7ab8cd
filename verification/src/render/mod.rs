//! Deltas and the sinks that take them.

use vstd::prelude::*;
use crate::lang::runtime::datatypes::coords::Coordinate;
use crate::lang::runtime::StateId;

pub mod render2d;

verus! {

/// The cells whose state changed in a tick, each with its new state.
pub type Delta = Vec<(Coordinate, StateId)>;

/// A sink for the deltas of a simulation, one per tick.
pub trait Output {
    /// Takes the delta of the tick that was just carried out.
    fn output_tick(&mut self, delta: Delta);
}

/// The sink that drops every delta.
pub struct NullOutput {}

impl Output for NullOutput {
    fn output_tick(&mut self, delta: Delta) {
    }
}

} // verus!
