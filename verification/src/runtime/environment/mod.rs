//! Environments: the cells of an automaton and their neighbours.

use vstd::prelude::*;
use crate::datatypes::ident::Identifer;
use crate::datatypes::neighborhood::Neighborhood;
use crate::datatypes::state::State;
use crate::runtime::state::tallies;

pub mod naive;

verus! {

/// Whether `cells` hold each key of `map` once and nothing else.
pub open spec fn lists_keys<I, S>(cells: Seq<I>, map: Map<I, S>) -> bool {
    &&& forall|i: int| 0 <= i < cells.len() ==> map.contains_key(#[trigger] cells[i])
    &&& forall|c: I| map.contains_key(c) ==> #[trigger] cells.contains(c)
    &&& forall|i: int, j: int| 0 <= i < cells.len() && 0 <= j < cells.len() && i != j ==> cells[i] != cells[j]
}

/// Whether `pairs` hold each entry of `map` once and nothing else.
pub open spec fn lists_entries<I, S>(pairs: Seq<(I, S)>, map: Map<I, S>) -> bool {
    &&& forall|i: int|
        0 <= i < pairs.len() ==> map.contains_key((#[trigger] pairs[i]).0) && map[pairs[i].0]
            == pairs[i].1
    &&& forall|c: I| map.contains_key(c) ==> exists|i: int| 0 <= i < pairs.len() && (#[trigger] pairs[i]).0 == c
    &&& forall|i: int, j: int|
        0 <= i < pairs.len() && 0 <= j < pairs.len() && i != j ==> pairs[i].0 != pairs[j].0
}

/// The cells of an automaton: the state of each in the current tick, the
/// states that are staged for the next, and what each cell sees of its
/// neighbours.
pub trait Environment<I: Identifer, S: State, N: Neighborhood<S>> {
    /// The invariant of the environment.
    spec fn valid(&self) -> bool;

    /// The state of each cell in the current tick.
    spec fn current(&self) -> Map<I, S>;

    /// The states that are staged for the next tick.
    spec fn staged(&self) -> Map<I, S>;

    /// How often each state occurs among the neighbours of `ident` in the
    /// current tick.
    spec fn census(&self, ident: I) -> spec_fn(S) -> nat;

    /// Whether cells can be added to the schedule and taken from it.
    spec fn schedulable(&self) -> bool;

    /// Stages `state` for `ident` in the next tick; the current tick stays
    /// as it is.
    fn set_state(&mut self, ident: I, state: S)
        requires
            old(self).valid(),
        ensures
            final(self).valid(),
            final(self).current() == old(self).current(),
            final(self).staged() == old(self).staged().insert(ident, state),
            forall|c: I| #[trigger] final(self).census(c) == old(self).census(c),
    ;

    /// The state of `ident` in the current tick, if it is a cell.
    fn get_state(&self, ident: I) -> (r: Option<S>)
        requires
            self.valid(),
        ensures
            r == (if self.current().contains_key(ident) {
                Some(self.current()[ident])
            } else {
                None
            }),
    ;

    /// The neighbours of `ident` in the current tick, if it is a cell.
    fn get_neighborhood(&self, ident: I) -> (r: Option<N>)
        requires
            self.valid(),
        ensures
            match r {
                Some(n) => self.current().contains_key(ident) && tallies(&n) == self.census(ident),
                None => !self.current().contains_key(ident),
            },
    ;

    /// Adds `ident` to the schedule, where the environment has one.
    fn schedule(&mut self, ident: I)
        requires
            old(self).valid(),
            old(self).schedulable(),
        ensures
            final(self).valid(),
    ;

    /// Takes `ident` from the schedule, where the environment has one.
    fn deschedule(&mut self, ident: I)
        requires
            old(self).valid(),
            old(self).schedulable(),
        ensures
            final(self).valid(),
    ;

    /// The cells that a tick visits: every cell of the current tick, once.
    fn get_schedule(&self) -> (r: Vec<I>)
        requires
            self.valid(),
        ensures
            lists_keys(r@, self.current()),
    ;

    /// The current tick as pairs of cell and state.
    fn snapshot(&self) -> (r: Vec<(I, S)>)
        requires
            self.valid(),
        ensures
            lists_entries(r@, self.current()),
    ;

    /// Ends the tick: each cell takes its staged state where one is
    /// staged and keeps its state otherwise, and nothing is staged any
    /// more.
    fn tick(&mut self)
        requires
            old(self).valid(),
        ensures
            final(self).valid(),
            final(self).current() == old(self).current().union_prefer_right(old(self).staged()),
            final(self).staged() == Map::<I, S>::empty(),
    ;
}

} // verus!
