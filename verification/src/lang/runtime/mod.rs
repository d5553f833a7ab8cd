//! The runtime of a program.

use vstd::prelude::*;
use crate::lang::runtime::datatypes::coords::Coordinate;
use crate::lang::runtime::datatypes::generation::Generation;
use crate::lang::runtime::naive::{is_delta, World};
use crate::render::Delta;

pub mod datatypes;
pub mod naive;
pub mod ops;

verus! {

/// The identifier of a state: its position in the order of declaration.
pub type StateId = usize;

/// A transition engine: it owns the current generation of an automaton
/// and advances it tick by tick.
pub trait Runtime {
    /// The automaton that the engine holds.
    spec fn world(&self) -> World;

    /// The invariant of the engine.
    spec fn valid(&self) -> bool;

    /// Advances the automaton by one tick and returns the delta. The tick
    /// must be one that can be carried out.
    fn run_tick(&mut self) -> (delta: Delta)
        requires
            old(self).valid(),
            old(self).world().tick_defined(),
        ensures
            final(self).valid(),
            final(self).world() == old(self).world().step(),
            is_delta(
                old(self).world().cells,
                final(self).world().cells,
                old(self).world().default,
                delta@,
            ),
    ;

    /// Advances the automaton by `ticks` ticks; every one of them must be
    /// one that can be carried out.
    fn run(&mut self, ticks: usize)
        requires
            old(self).valid(),
            old(self).world().after(ticks as nat) is Some,
        ensures
            final(self).valid(),
            Some(final(self).world()) == old(self).world().after(ticks as nat),
    ;

    /// Number of ticks completed.
    fn tick(&self) -> (r: usize)
        ensures
            r == self.world().ticks,
    ;

    /// A copy of the current generation.
    fn get_env(&self) -> (r: Generation)
        requires
            self.valid(),
        ensures
            r.wf(),
            r@ == self.world().cells,
    ;

    /// The state of the cell `coord`: the stored state, else the default
    /// state, else none.
    fn get_state(&self, coord: Coordinate) -> (r: Option<StateId>)
        requires
            self.valid(),
        ensures
            r == self.world().state_of(coord),
    ;

    /// Replaces the current generation. Every coordinate of `environment`
    /// must have as many axes as the bounds.
    fn set_env(&mut self, environment: Generation)
        requires
            old(self).valid(),
            environment.wf(),
            forall|c: Coordinate| #[trigger]
                environment@.contains_key(c) ==> c.dims() == old(self).world().bounds.dims(),
        ensures
            final(self).valid(),
            final(self).world() == (World { cells: environment@, ..old(self).world() }),
    ;

    /// Stores `state` for the cell `coord` and returns the state that was
    /// stored for it before, if one was. The coordinate must have as many
    /// axes as the bounds.
    fn set_cell(&mut self, coord: Coordinate, state: StateId) -> (r: Option<StateId>)
        requires
            old(self).valid(),
            coord.dims() == old(self).world().bounds.dims(),
        ensures
            final(self).valid(),
            final(self).world() == (World {
                cells: old(self).world().cells.insert(coord, state),
                ..old(self).world()
            }),
            r == (if old(self).world().cells.contains_key(coord) {
                Some(old(self).world().cells[coord])
            } else {
                None
            }),
    ;
}

} // verus!
