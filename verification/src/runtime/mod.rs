//! Runtimes over any environment of cells.

use vstd::prelude::*;
use crate::datatypes::ident::Identifer;
use crate::datatypes::neighborhood::Neighborhood;
use crate::datatypes::state::State;
use crate::runtime::environment::Environment;
use crate::runtime::state::Ruleset;

pub mod environment;
pub mod state;

verus! {

/// Something that advances an automaton tick by tick and tells what each
/// tick changed.
pub trait Runtime<Delta, E>: Sized {
    /// The invariant between ticks.
    spec fn sound(&self) -> bool;

    /// Whether a tick can be carried out.
    spec fn ready(&self) -> bool;

    /// Whether `next` is what a tick makes of `self`, with the delta
    /// `delta`.
    spec fn ticked(&self, next: &Self, delta: Delta) -> bool;

    /// Whether `next` is what `ticks` ticks make of `self`.
    spec fn arrives(&self, next: &Self, ticks: nat) -> bool;

    /// Carries out one tick and returns what it changed, or returns
    /// `None` and changes nothing where no tick can be carried out.
    fn try_run_tick(&mut self) -> (r: Option<Delta>)
        requires
            old(self).sound(),
        ensures
            final(self).sound(),
            match r {
                Some(delta) => old(self).ready() && old(self).ticked(final(self), delta),
                None => !old(self).ready() && *final(self) == *old(self),
            },
    ;

    /// Carries out one tick and returns what it changed.
    fn run_tick(&mut self) -> (delta: Delta)
        requires
            old(self).sound(),
            old(self).ready(),
        ensures
            final(self).sound(),
            old(self).ticked(final(self), delta),
    ;

    /// Carries out `ticks` ticks, or fewer where the next one cannot be
    /// carried out.
    fn run_ticks(&mut self, ticks: usize)
        requires
            old(self).sound(),
        ensures
            final(self).sound(),
            exists|n: nat|
                {
                    &&& n <= ticks
                    &&& #[trigger] old(self).arrives(final(self), n)
                    &&& n < ticks ==> !final(self).ready()
                },
    ;

    /// The environment of the automaton.
    spec fn surroundings(&self) -> E;

    /// The environment of the automaton.
    fn environment(&self) -> (r: &E)
        ensures
            *r == self.surroundings(),
    ;
}

/// The state that a cell in state `state` takes in a tick under `rules`
/// where `tally` says how often each state occurs among its neighbours:
/// the state that its transition enters where it fires, else its own.
pub open spec fn successor<S: State, N: Neighborhood<S>>(
    rules: Ruleset<S, N>,
    state: S,
    tally: spec_fn(S) -> nat,
) -> S {
    match rules.decide(state, tally) {
        Some(Some(to)) => to,
        _ => state,
    }
}

/// A runtime that visits every cell of its environment in each tick and
/// gives all of them their new state at once.
pub struct SynchronousRuntime<S: State, N: Neighborhood<S>, E> {
    ruleset: Ruleset<S, N>,
    environment: E,
}

impl<S: State, N: Neighborhood<S>, E> SynchronousRuntime<S, N, E> {
    /// The rules of the automaton.
    pub closed spec fn rules(self) -> Ruleset<S, N> {
        self.ruleset
    }

    /// The environment of the automaton.
    pub closed spec fn cells(self) -> E {
        self.environment
    }

    pub fn new(ruleset: Ruleset<S, N>, environment: E) -> (r: Self)
        ensures
            r.rules() == ruleset,
            r.cells() == environment,
    {
        SynchronousRuntime { ruleset, environment }
    }
}

impl<I: Identifer, S: State, N: Neighborhood<S>, E: Environment<I, S, N>> Runtime<
    Vec<(I, S)>,
    E,
> for SynchronousRuntime<S, N, E> {
    /// Between ticks the environment is valid and nothing is staged.
    open spec fn sound(&self) -> bool {
        self.cells().valid() && self.cells().staged() == Map::<I, S>::empty()
    }

    /// A tick can be carried out where the rules decide for every cell.
    open spec fn ready(&self) -> bool {
        forall|c: I| #[trigger]
            self.cells().current().contains_key(c) ==> self.rules().decide(
                self.cells().current()[c],
                self.cells().census(c),
            ) is Some
    }

    /// A tick keeps the rules and the set of cells, gives every cell the
    /// state that follows from its state and its neighbours before the
    /// tick, and reports each cell whose transition fired, once and with
    /// the state it entered.
    open spec fn ticked(&self, next: &Self, delta: Vec<(I, S)>) -> bool {
        let before = self.cells().current();
        let after = next.cells().current();
        &&& next.rules() == self.rules()
        &&& after.dom() == before.dom()
        &&& forall|c: I| #[trigger]
            before.contains_key(c) ==> after[c] == successor(
                self.rules(),
                before[c],
                self.cells().census(c),
            )
        &&& forall|c: I, s: S| #[trigger]
            delta@.contains((c, s)) <==> (before.contains_key(c) && self.rules().decide(
                before[c],
                self.cells().census(c),
            ) == Some(Some(s)))
        &&& forall|i: int, j: int|
            0 <= i < delta@.len() && 0 <= j < delta@.len() && i != j ==> delta@[i].0 != delta@[j].0
    }

    open spec fn surroundings(&self) -> E {
        self.cells()
    }

    open spec fn arrives(&self, next: &Self, ticks: nat) -> bool {
        arrives_in::<I, S, N, E>(*self, *next, ticks)
    }

    fn try_run_tick(&mut self) -> (r: Option<Vec<(I, S)>>) {
        let ghost before = self.cells().current();
        let ghost env0 = self.cells();
        let schedule = self.environment.get_schedule();
        let mut decisions: Vec<Option<S>> = Vec::new();
        let mut i: usize = 0;
        while i < schedule.len()
            invariant
                i <= schedule.len(),
                *self == *old(self),
                self.sound(),
                env0 == self.cells(),
                before == env0.current(),
                crate::runtime::environment::lists_keys(schedule@, before),
                decisions@.len() == i,
                forall|k: int|
                    0 <= k < i ==> Some(#[trigger] decisions@[k]) == self.rules().decide(
                        before[schedule@[k]],
                        env0.census(schedule@[k]),
                    ),
            decreases schedule.len() - i,
        {
            let cell = schedule[i];
            assert(before.contains_key(cell));
            let state = match self.environment.get_state(cell) {
                Some(s) => s,
                None => {
                    return None;
                },
            };
            let neighborhood = match self.environment.get_neighborhood(cell) {
                Some(n) => n,
                None => {
                    return None;
                },
            };
            match self.ruleset.try_transition(state, &neighborhood) {
                Some(d) => {
                    decisions.push(d);
                },
                None => {
                    return None;
                },
            }
            i += 1;
        }
        proof {
            assert forall|c: I| #[trigger] before.contains_key(c) implies self.rules().decide(
                before[c],
                env0.census(c),
            ) is Some by {
                assert(schedule@.contains(c));
                let k = choose|k: int| 0 <= k < schedule@.len() && schedule@[k] == c;
                assert(Some(decisions@[k]) == self.rules().decide(
                    before[schedule@[k]],
                    env0.census(schedule@[k]),
                ));
            }
        }
        let mut delta: Vec<(I, S)> = Vec::new();
        let mut j: usize = 0;
        assert(self.environment.staged() =~= Map::<I, S>::empty());
        while j < schedule.len()
            invariant
                j <= schedule.len(),
                self.rules() == old(self).rules(),
                env0 == old(self).cells(),
                before == env0.current(),
                crate::runtime::environment::lists_keys(schedule@, before),
                decisions@.len() == schedule@.len(),
                forall|k: int|
                    0 <= k < schedule@.len() ==> Some(#[trigger] decisions@[k])
                        == self.rules().decide(before[schedule@[k]], env0.census(schedule@[k])),
                self.environment.valid(),
                self.environment.current() == before,
                forall|c: I| #[trigger]
                    self.environment.staged().contains_key(c) <==> (exists|k: int|
                        0 <= k < j && schedule@[k] == c && decisions@[k] is Some),
                forall|k: int|
                    0 <= k < j && decisions@[k] is Some ==> self.environment.staged()[
                        #[trigger] schedule@[k]
                    ] == decisions@[k]->0,
                forall|c: I, s: S| #[trigger]
                    delta@.contains((c, s)) <==> (exists|k: int|
                        0 <= k < j && schedule@[k] == c && decisions@[k] == Some(s)),
                forall|a: int, b: int|
                    0 <= a < delta@.len() && 0 <= b < delta@.len() && a != b ==> delta@[a].0
                        != delta@[b].0,
            decreases schedule.len() - j,
        {
            let cell = schedule[j];
            let ghost staged = self.environment.staged();
            let ghost prev = delta@;
            match decisions[j] {
                Some(to) => {
                    self.environment.set_state(cell, to);
                    delta.push((cell, to));
                    proof {
                        let now = self.environment.staged();
                        assert forall|c: I| #[trigger] now.contains_key(c) <==> (exists|k: int|
                            0 <= k < j + 1 && schedule@[k] == c && decisions@[k] is Some) by {
                            if staged.contains_key(c) {
                                let k = choose|k: int|
                                    0 <= k < j && schedule@[k] == c && decisions@[k] is Some;
                                assert(0 <= k < j + 1 && schedule@[k] == c && decisions@[k] is Some);
                            }
                            if c == cell {
                                assert(schedule@[j as int] == c && decisions@[j as int] is Some);
                            }
                        }
                        assert forall|k: int| 0 <= k < j + 1 && decisions@[k] is Some implies now[
                            #[trigger] schedule@[k]
                        ] == decisions@[k]->0 by {
                            if k < j {
                                assert(schedule@[k] != schedule@[j as int]);
                            }
                        }
                        assert forall|c: I, s: S| #[trigger]
                            delta@.contains((c, s)) <==> (exists|k: int|
                                0 <= k < j + 1 && schedule@[k] == c && decisions@[k] == Some(s)) by {
                            crate::lang::runtime::naive::lemma_push_contains(prev, (cell, to), (c, s));
                            if prev.contains((c, s)) {
                                let k = choose|k: int|
                                    0 <= k < j && schedule@[k] == c && decisions@[k] == Some(s);
                                assert(0 <= k < j + 1 && schedule@[k] == c && decisions@[k] == Some(
                                    s,
                                ));
                            }
                            if (c, s) == (cell, to) {
                                assert(schedule@[j as int] == c && decisions@[j as int] == Some(s));
                            }
                        }
                        assert forall|a: int| 0 <= a < prev.len() implies prev[a].0 != cell by {
                            let e = prev[a];
                            assert(prev[a] == (e.0, e.1));
                            assert(prev.contains((e.0, e.1)));
                            let k = choose|k: int|
                                0 <= k < j && schedule@[k] == e.0 && decisions@[k] == Some(e.1);
                            assert(schedule@[k] != schedule@[j as int]);
                        }
                    }
                },
                None => {
                    proof {
                        assert forall|c: I| #[trigger]
                            staged.contains_key(c) <==> (exists|k: int|
                                0 <= k < j + 1 && schedule@[k] == c && decisions@[k] is Some) by {
                            if staged.contains_key(c) {
                                let k = choose|k: int|
                                    0 <= k < j && schedule@[k] == c && decisions@[k] is Some;
                                assert(0 <= k < j + 1 && schedule@[k] == c && decisions@[k] is Some);
                            }
                        }
                        assert forall|c: I, s: S| #[trigger]
                            prev.contains((c, s)) <==> (exists|k: int|
                                0 <= k < j + 1 && schedule@[k] == c && decisions@[k] == Some(s)) by {
                            if prev.contains((c, s)) {
                                let k = choose|k: int|
                                    0 <= k < j && schedule@[k] == c && decisions@[k] == Some(s);
                                assert(0 <= k < j + 1 && schedule@[k] == c && decisions@[k] == Some(
                                    s,
                                ));
                            }
                        }
                    }
                },
            }
            j += 1;
        }
        let ghost staged = self.environment.staged();
        self.environment.tick();
        proof {
            let after = self.environment.current();
            assert(after.dom() =~= before.dom()) by {
                assert forall|c: I| staged.contains_key(c) implies before.contains_key(c) by {
                    let k = choose|k: int|
                        0 <= k < schedule@.len() && schedule@[k] == c && decisions@[k] is Some;
                    assert(before.contains_key(schedule@[k]));
                }
            }
            assert forall|c: I| #[trigger] before.contains_key(c) implies after[c] == successor(
                old(self).rules(),
                before[c],
                env0.census(c),
            ) by {
                assert(schedule@.contains(c));
                let k = choose|k: int| 0 <= k < schedule@.len() && schedule@[k] == c;
                assert(Some(decisions@[k]) == old(self).rules().decide(
                    before[schedule@[k]],
                    env0.census(schedule@[k]),
                ));
                if decisions@[k] is Some {
                    assert(staged[schedule@[k]] == decisions@[k]->0);
                    assert(staged.contains_key(c));
                } else {
                    if staged.contains_key(c) {
                        let m = choose|m: int|
                            0 <= m < schedule@.len() && schedule@[m] == c && decisions@[m] is Some;
                        assert(m == k);
                    }
                }
            }
            assert forall|c: I, s: S| #[trigger]
                delta@.contains((c, s)) <==> (before.contains_key(c) && old(self).rules().decide(
                    before[c],
                    env0.census(c),
                ) == Some(Some(s))) by {
                if before.contains_key(c) {
                    assert(schedule@.contains(c));
                    let k = choose|k: int| 0 <= k < schedule@.len() && schedule@[k] == c;
                    assert(Some(decisions@[k]) == old(self).rules().decide(
                        before[schedule@[k]],
                        env0.census(schedule@[k]),
                    ));
                    if delta@.contains((c, s)) {
                        let m = choose|m: int|
                            0 <= m < schedule@.len() && schedule@[m] == c && decisions@[m] == Some(s);
                        assert(m == k);
                    }
                }
                if delta@.contains((c, s)) {
                    let m = choose|m: int|
                        0 <= m < schedule@.len() && schedule@[m] == c && decisions@[m] == Some(s);
                    assert(before.contains_key(schedule@[m]));
                }
            }
        }
        Some(delta)
    }

    fn run_tick(&mut self) -> (delta: Vec<(I, S)>) {
        match self.try_run_tick() {
            Some(delta) => delta,
            None => Vec::new(),
        }
    }

    fn run_ticks(&mut self, ticks: usize) {
        let mut done: usize = 0;
        while done < ticks
            invariant
                done <= ticks,
                self.sound(),
                arrives_in::<I, S, N, E>(*old(self), *self, done as nat),
            decreases ticks - done,
        {
            let ghost here = *self;
            match self.try_run_tick() {
                Some(delta) => {
                    assert(here.ticked(&*self, delta));
                    done += 1;
                },
                None => {
                    assert(old(self).arrives(&*self, done as nat));
                    return ;
                },
            }
        }
        assert(old(self).arrives(&*self, done as nat));
    }

    fn environment(&self) -> (r: &E) {
        &self.environment
    }
}

/// Whether `end` is what `ticks` ticks make of `start`.
pub open spec fn arrives_in<I: Identifer, S: State, N: Neighborhood<S>, E: Environment<I, S, N>>(
    start: SynchronousRuntime<S, N, E>,
    end: SynchronousRuntime<S, N, E>,
    ticks: nat,
) -> bool
    decreases ticks,
{
    if ticks == 0 {
        end == start
    } else {
        exists|mid: SynchronousRuntime<S, N, E>, delta: Vec<(I, S)>|
            arrives_in::<I, S, N, E>(start, mid, (ticks - 1) as nat) && #[trigger] mid.ticked(
                &end,
                delta,
            )
    }
}

} // verus!
