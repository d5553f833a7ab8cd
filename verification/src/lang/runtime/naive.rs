//! The transition engine: the model of an automaton between ticks, the
//! tick itself and what holds of every tick.

use vstd::prelude::*;
use crate::lang::parse::Error;
use crate::lang::parse::blocks::boundary::BoundaryBlock;
use crate::lang::runtime::StateId;
use crate::lang::runtime::datatypes::coords::{Coordinate, DimensionBounds};
use crate::lang::runtime::datatypes::generation::{holds, lemma_entry_in_map, place, Generation};
use crate::lang::runtime::datatypes::states::{id_in, States};
use crate::lang::runtime::ops::neighborhood::{
    lemma_neighbors_dims,
    rules_supported,
    Neighborhood,
};
use crate::lang::runtime::ops::rules::Rules;
use crate::render::Delta;

verus! {

/// The state of a cell in a sparse generation: the stored state, else the
/// default.
pub open spec fn lookup(cells: Map<Coordinate, StateId>, default: Option<StateId>, c: Coordinate) -> Option<
    StateId,
> {
    if cells.contains_key(c) {
        Some(cells[c])
    } else {
        default
    }
}

/// A cellular automaton between two ticks: the program and the current
/// generation.
pub ghost struct World {
    /// The current generation.
    pub cells: Map<Coordinate, StateId>,
    /// The initial bounds.
    pub bounds: DimensionBounds,
    /// The boundary regime.
    pub boundary: BoundaryBlock,
    /// The state that edge cells are pinned to, if any.
    pub pinned: Option<StateId>,
    /// The state of every cell that is not stored, if any.
    pub default: Option<StateId>,
    /// The rule table.
    pub rules: Rules,
    /// The neighbourhood operator.
    pub neighborhood: Neighborhood,
    /// Number of ticks completed.
    pub ticks: nat,
}

impl World {
    /// Whether the grid ends at the bounds.
    pub open spec fn finite(self) -> bool {
        !(self.boundary is Infinite)
    }

    /// The invariant of a world: the bounds are well formed, every stored
    /// cell has as many axes as the bounds, and an unbounded grid has a
    /// default state.
    pub open spec fn wf(self) -> bool {
        &&& self.bounds.wf()
        &&& forall|c: Coordinate| #[trigger] self.cells.contains_key(c) ==> c.dims() == self.bounds.dims()
        &&& !self.finite() ==> self.default is Some
    }

    /// The state of the cell `c`: the stored state, else the default.
    pub open spec fn state_of(self, c: Coordinate) -> Option<StateId> {
        lookup(self.cells, self.default, c)
    }

    /// The cell that stands for the neighbour `n`: on a finite grid a
    /// neighbour outside the bounds is mapped onto the torus under `Wrap`
    /// and is no cell at all otherwise.
    pub open spec fn placed(self, n: Coordinate) -> Option<Coordinate> {
        if self.finite() && !self.bounds.has(n) {
            if self.boundary is Wrap {
                Some(self.bounds.torus(n))
            } else {
                None
            }
        } else {
            Some(n)
        }
    }

    /// Whether the cell `p` is read as the pinned state: a state is pinned
    /// and `p` is on the edge of the bounds.
    pub open spec fn pinned_at(self, p: Coordinate) -> bool {
        self.pinned is Some && self.bounds.on_edge(p)
    }

    /// The state that the neighbour `n` adds to a census, if it adds one:
    /// the pinned state on the edge, else the stored state, else the
    /// default on an unbounded grid.
    pub open spec fn seen(self, n: Coordinate) -> Option<StateId> {
        match self.placed(n) {
            None => None,
            Some(p) => if self.pinned_at(p) {
                self.pinned
            } else if self.cells.contains_key(p) {
                Some(self.cells[p])
            } else if !self.finite() {
                self.default
            } else {
                None
            },
        }
    }

    /// Whether the neighbour `n` is woken when a stored cell sees it: the
    /// grid is unbounded, and `n` is neither pinned nor stored.
    pub open spec fn wakes(self, n: Coordinate) -> bool {
        !self.finite() && !self.pinned_at(n) && !self.cells.contains_key(n)
    }

    /// The states that the neighbours `ns` add to a census, in order.
    pub open spec fn census_input(self, ns: Seq<Coordinate>) -> Seq<StateId>
        decreases ns.len(),
    {
        if ns.len() == 0 {
            Seq::empty()
        } else {
            let before = self.census_input(ns.drop_last());
            match self.seen(ns.last()) {
                Some(s) => before.push(s),
                None => before,
            }
        }
    }

    /// Those among the neighbours `ns` that are woken, in order.
    pub open spec fn woken(self, ns: Seq<Coordinate>) -> Seq<Coordinate>
        decreases ns.len(),
    {
        if ns.len() == 0 {
            Seq::empty()
        } else {
            let before = self.woken(ns.drop_last());
            if self.wakes(ns.last()) {
                before.push(ns.last())
            } else {
                before
            }
        }
    }

    /// The census input of the cell `c`: the states that its neighbours
    /// add. `None` where the neighbourhood cannot be applied to `c`.
    pub open spec fn neighbor_states(self, c: Coordinate) -> Option<Seq<StateId>> {
        match self.neighborhood.neighbors_of(c) {
            Some(ns) => Some(self.census_input(ns)),
            None => None,
        }
    }

    /// The cells that the stored cell `c` wakes.
    pub open spec fn woken_by(self, c: Coordinate) -> Seq<Coordinate> {
        match self.neighborhood.neighbors_of(c) {
            Some(ns) => self.woken(ns),
            None => Seq::empty(),
        }
    }

    /// The state of the cell `c` after the tick, computed from the current
    /// generation alone: the state that the first transition that fires
    /// enters, else the state of `c`. `None` where it cannot be computed:
    /// `c` has no state, its neighbourhood cannot be applied or evaluating
    /// a rule is an error.
    pub open spec fn result(self, c: Coordinate) -> Option<StateId> {
        match (self.state_of(c), self.neighbor_states(c)) {
            (Some(state), Some(census)) => match self.rules.outcome(state, census) {
                Some(Some(to)) => Some(to),
                Some(None) => Some(state),
                None => None,
            },
            _ => None,
        }
    }

    /// Whether the cell `c` is visited in the tick: it is stored, or a
    /// stored cell wakes it.
    pub open spec fn scheduled(self, c: Coordinate) -> bool {
        self.cells.contains_key(c) || exists|o: Coordinate|
            self.cells.contains_key(o) && #[trigger] self.woken_by(o).contains(c)
    }

    /// Whether a visited cell `c` with the new state `state` is stored in
    /// the next generation: not where the state is the default, and not
    /// where `c` is pinned.
    pub open spec fn kept(self, c: Coordinate, state: StateId) -> bool {
        self.default != Some(state) && !self.pinned_at(c)
    }

    /// Whether the tick can be carried out: the new state of every visited
    /// cell can be computed, and the tick counter can be advanced.
    pub open spec fn tick_defined(self) -> bool {
        &&& self.ticks < usize::MAX
        &&& forall|c: Coordinate| #[trigger] self.scheduled(c) ==> self.result(c) is Some
    }

    /// The next generation: of the visited cells those that are kept, each
    /// with its new state.
    pub open spec fn next_cells(self) -> Map<Coordinate, StateId> {
        Map::new(
            |c: Coordinate|
                self.scheduled(c) && self.result(c) is Some && self.kept(c, self.result(c)->0),
            |c: Coordinate| self.result(c)->0,
        )
    }

    /// The world after one tick.
    pub open spec fn step(self) -> World {
        World { cells: self.next_cells(), ticks: self.ticks + 1, ..self }
    }

    /// The world after `n` ticks; `None` where one of them cannot be
    /// carried out.
    pub open spec fn after(self, n: nat) -> Option<World>
        decreases n,
    {
        if n == 0 {
            Some(self)
        } else if self.tick_defined() {
            self.step().after((n - 1) as nat)
        } else {
            None
        }
    }

    /// Whether `(c, state)` belongs to the delta of the tick from `self` to
    /// `next`: `state` is the state of `c` after the tick and was not its
    /// state before.
    pub open spec fn changed(self, next: World, c: Coordinate, state: StateId) -> bool {
        next.state_of(c) == Some(state) && self.state_of(c) != Some(state)
    }

    /// The cells of `done` that are kept, each with its new state.
    pub open spec fn settled(self, done: Seq<Coordinate>) -> Map<Coordinate, StateId> {
        Map::new(
            |c: Coordinate| done.contains(c) && self.result(c) is Some && self.kept(c, self.result(c)->0),
            |c: Coordinate| self.result(c)->0,
        )
    }
}

/// The state that edge cells are pinned to under `boundary`: under a
/// static boundary the named state, or the default state where no name is
/// given; none under the other regimes. The outer `None` where the name
/// is not declared.
pub open spec fn pinned_state(
    boundary: BoundaryBlock,
    names: Seq<Seq<char>>,
    default: Option<StateId>,
) -> Option<Option<StateId>> {
    match boundary {
        BoundaryBlock::Static(Some(name)) => match id_in(names, name@) {
            Some(id) => Some(Some(id)),
            None => None,
        },
        BoundaryBlock::Static(None) => Some(default),
        _ => Some(None),
    }
}

/// The transition engine: it owns the current generation and advances it
/// tick by tick.
pub struct Runtime {
    current_tick: Generation,
    initial_dimensions: DimensionBounds,
    boundary: BoundaryBlock,
    static_state: Option<StateId>,
    default_state: Option<StateId>,
    rules: Rules,
    neighborhood: Neighborhood,
    tick: usize,
}

impl Runtime {
    /// The automaton that the runtime holds.
    pub closed spec fn view(self) -> World {
        World {
            cells: self.current_tick@,
            bounds: self.initial_dimensions,
            boundary: self.boundary,
            pinned: self.static_state,
            default: self.default_state,
            rules: self.rules,
            neighborhood: self.neighborhood,
            ticks: self.tick as nat,
        }
    }

    /// The invariant of a runtime: its world is well formed and no cell is
    /// stored twice.
    pub closed spec fn wf(self) -> bool {
        &&& self@.wf()
        &&& self.current_tick.wf()
    }

    /// A runtime without cells at tick zero. Fails with `InvalidExtent`
    /// where a range of the bounds is empty, else with
    /// `UnsupportedNeighborhood` where a rule of the neighbourhood cannot be
    /// applied in the bounds, else with `UnknownState` where a static
    /// boundary names a state that is not declared, else with
    /// `MissingDefaultState` where the boundary is infinite and no state is
    /// the default.
    pub fn new(
        initial_dimensions: DimensionBounds,
        boundary: BoundaryBlock,
        states: States,
        rules: Rules,
        neighborhood: Neighborhood,
    ) -> (r: Result<Runtime, Error>)
        requires
            states.wf(),
        ensures
            match r {
                Ok(rt) => {
                    &&& initial_dimensions.wf()
                    &&& rules_supported(neighborhood.rules(), initial_dimensions.dims())
                    &&& pinned_state(boundary, states.names(), states.default_id()) is Some
                    &&& boundary is Infinite ==> states.default_id() is Some
                    &&& rt.wf()
                    &&& rt@ == World {
                        cells: Map::<Coordinate, StateId>::empty(),
                        bounds: initial_dimensions,
                        boundary: boundary,
                        pinned: pinned_state(boundary, states.names(), states.default_id())->0,
                        default: states.default_id(),
                        rules: rules,
                        neighborhood: neighborhood,
                        ticks: 0,
                    }
                },
                Err(e) => if !initial_dimensions.wf() {
                    e == Error::InvalidExtent
                } else if !rules_supported(neighborhood.rules(), initial_dimensions.dims()) {
                    e == Error::UnsupportedNeighborhood
                } else if pinned_state(boundary, states.names(), states.default_id()) is None {
                    e == Error::UnknownState
                } else {
                    e == Error::MissingDefaultState && boundary is Infinite
                        && states.default_id() is None
                },
            },
    {
        if !initial_dimensions.is_valid() {
            return Err(Error::InvalidExtent);
        }
        if !neighborhood.supports(initial_dimensions.dimensions()) {
            return Err(Error::UnsupportedNeighborhood);
        }
        let default_state = states.default_state();
        let static_state = match &boundary {
            BoundaryBlock::Static(Some(name)) => match states.name_to_id(name.as_str()) {
                Some(id) => Some(id),
                None => {
                    return Err(Error::UnknownState);
                },
            },
            BoundaryBlock::Static(None) => default_state,
            _ => None,
        };
        if !boundary.is_finite() && default_state.is_none() {
            return Err(Error::MissingDefaultState);
        }
        Ok(
            Runtime {
                current_tick: Generation::new(),
                initial_dimensions,
                boundary,
                static_state,
                default_state,
                rules,
                neighborhood,
                tick: 0,
            },
        )
    }

    /// Stores `state` for the cell `coord` in the current generation and
    /// returns the state that was stored for it before, if one was. The
    /// coordinate must have as many axes as the bounds.
    pub fn set_cell(&mut self, coord: Coordinate, state: StateId) -> (r: Option<StateId>)
        requires
            old(self).wf(),
            coord.dims() == old(self)@.bounds.dims(),
        ensures
            final(self).wf(),
            final(self)@ == (World { cells: old(self)@.cells.insert(coord, state), ..old(self)@ }),
            r == (if old(self)@.cells.contains_key(coord) {
                Some(old(self)@.cells[coord])
            } else {
                None
            }),
    {
        self.current_tick.insert(coord, state)
    }

    /// Replaces the current generation. Every coordinate of `environment`
    /// must have as many axes as the bounds.
    pub fn set_env(&mut self, environment: Generation)
        requires
            old(self).wf(),
            environment.wf(),
            forall|c: Coordinate| #[trigger]
                environment@.contains_key(c) ==> c.dims() == old(self)@.bounds.dims(),
        ensures
            final(self).wf(),
            final(self)@ == (World { cells: environment@, ..old(self)@ }),
    {
        self.current_tick = environment;
    }

    /// A copy of the current generation.
    pub fn get_env(&self) -> (r: Generation)
        requires
            self.wf(),
        ensures
            r.wf(),
            r@ == self@.cells,
    {
        self.current_tick.copy()
    }

    /// The state of the cell `coord`: the stored state, else the default
    /// state, else none.
    pub fn get_state(&self, coord: Coordinate) -> (r: Option<StateId>)
        requires
            self.wf(),
        ensures
            r == self@.state_of(coord),
    {
        match self.current_tick.get(coord) {
            Some(s) => Some(s),
            None => self.default_state,
        }
    }

    /// Number of ticks completed.
    pub fn tick(&self) -> (r: usize)
        ensures
            r == self@.ticks,
    {
        self.tick
    }

    /// The initial bounds.
    pub fn bounds(&self) -> (r: DimensionBounds)
        ensures
            r == self@.bounds,
    {
        self.initial_dimensions
    }

    /// The state of every cell that is not stored, if there is one.
    pub fn default_state(&self) -> (r: Option<StateId>)
        ensures
            r == self@.default,
    {
        self.default_state
    }
}


/// A sequence with one more element holds what it held before and that
/// element.
pub proof fn lemma_push_contains<A>(s: Seq<A>, e: A, x: A)
    ensures
        s.push(e).contains(x) <==> (s.contains(x) || x == e),
{
    if s.contains(x) {
        let i = choose|i: int| 0 <= i < s.len() && s[i] == x;
        assert(s.push(e)[i] == x);
    }
    if x == e {
        assert(s.push(e)[s.len() as int] == x);
    }
    if s.push(e).contains(x) {
        let i = choose|i: int| 0 <= i < s.push(e).len() && s.push(e)[i] == x;
        if i < s.len() {
            assert(s[i] == x);
        }
    }
}

/// Two sequences one after the other hold what either holds.
pub proof fn lemma_concat_contains<A>(a: Seq<A>, b: Seq<A>, x: A)
    ensures
        (a + b).contains(x) <==> (a.contains(x) || b.contains(x)),
{
    if a.contains(x) {
        let i = choose|i: int| 0 <= i < a.len() && a[i] == x;
        assert((a + b)[i] == x);
    }
    if b.contains(x) {
        let i = choose|i: int| 0 <= i < b.len() && b[i] == x;
        assert((a + b)[a.len() + i] == x);
    }
    if (a + b).contains(x) {
        let i = choose|i: int| 0 <= i < (a + b).len() && (a + b)[i] == x;
        if i < a.len() {
            assert(a[i] == x);
        } else {
            assert(b[i - a.len()] == x);
        }
    }
}

/// Whether `delta` is the delta between two generations with the default
/// state `default`: it holds exactly the cells that have a state after and
/// had another state, or none, before, each once and with its state after.
pub open spec fn is_delta(
    before: Map<Coordinate, StateId>,
    after: Map<Coordinate, StateId>,
    default: Option<StateId>,
    delta: Seq<(Coordinate, StateId)>,
) -> bool {
    &&& forall|c: Coordinate, s: StateId| #[trigger]
        delta.contains((c, s)) <==> (lookup(after, default, c) == Some(s) && lookup(
            before,
            default,
            c,
        ) != Some(s))
    &&& forall|i: int, j: int|
        0 <= i < delta.len() && 0 <= j < delta.len() && i != j ==> delta[i].0 != delta[j].0
}

fn same_state(a: Option<StateId>, b: StateId) -> (r: bool)
    ensures
        r == (a == Some(b)),
{
    match a {
        Some(v) => v == b,
        None => false,
    }
}

/// The delta between two generations with the default state `default`.
pub fn diff(before: &Generation, after: &Generation, default: Option<StateId>) -> (delta: Delta)
    requires
        before.wf(),
        after.wf(),
    ensures
        is_delta(before@, after@, default, delta@),
{
    let mut delta: Delta = Vec::new();
    let mut i: usize = 0;
    while i < before.len()
        invariant
            i <= before.entries().len(),
            before.wf(),
            after.wf(),
            forall|c: Coordinate, s: StateId| #[trigger]
                delta@.contains((c, s)) <==> (holds(before.entries().take(i as int), c) && lookup(
                    after@,
                    default,
                    c,
                ) == Some(s) && lookup(before@, default, c) != Some(s)),
            forall|a: int, b: int|
                0 <= a < delta@.len() && 0 <= b < delta@.len() && a != b ==> delta@[a].0
                    != delta@[b].0,
        decreases before.entries().len() - i,
    {
        let (c, old_state) = before.nth(i);
        let new_state = match after.get(c) {
            Some(s) => Some(s),
            None => default,
        };
        let ghost prev = delta@;
        let ghost head = before.entries().take(i as int);
        let ghost next = before.entries().take(i + 1);
        proof {
            lemma_entry_in_map(before.entries(), i as int);
            assert(next[i as int].0 == c);
            assert(!holds(head, c)) by {
                if holds(head, c) {
                    let k = place(head, c);
                    assert(before.entries()[k].0 == c);
                }
            }
            assert forall|x: Coordinate| holds(next, x) <==> (holds(head, x) || x == c) by {
                if holds(head, x) {
                    let k = place(head, x);
                    assert(next[k].0 == x);
                }
                if holds(next, x) && x != c {
                    let k = place(next, x);
                    assert(head[k].0 == x);
                }
            }
        }
        let mut pushed = false;
        match new_state {
            Some(s) => {
                if s != old_state {
                    delta.push((c, s));
                    pushed = true;
                }
            },
            None => {},
        }
        proof {
            assert forall|x: Coordinate, s: StateId| #[trigger]
                delta@.contains((x, s)) <==> (holds(next, x) && lookup(after@, default, x) == Some(s)
                    && lookup(before@, default, x) != Some(s)) by {
                if pushed {
                    lemma_push_contains(prev, (c, new_state->0), (x, s));
                }
            }
            if pushed {
                assert forall|a: int| 0 <= a < prev.len() implies prev[a].0 != c by {
                    let e = prev[a];
                    assert(e == (e.0, e.1));
                    assert(prev[a] == (e.0, e.1));
                    assert(prev.contains((e.0, e.1)));
                }
            }
        }
        i += 1;
    }
    assert(before.entries().take(before.entries().len() as int) =~= before.entries());
    let mut k: usize = 0;
    while k < after.len()
        invariant
            k <= after.entries().len(),
            before.wf(),
            after.wf(),
            forall|c: Coordinate, s: StateId| #[trigger]
                delta@.contains((c, s)) <==> ((before@.contains_key(c) || holds(
                    after.entries().take(k as int),
                    c,
                )) && lookup(after@, default, c) == Some(s) && lookup(before@, default, c) != Some(
                    s,
                )),
            forall|a: int, b: int|
                0 <= a < delta@.len() && 0 <= b < delta@.len() && a != b ==> delta@[a].0
                    != delta@[b].0,
        decreases after.entries().len() - k,
    {
        let (c, s_new) = after.nth(k);
        let ghost prev = delta@;
        let ghost head = after.entries().take(k as int);
        let ghost next = after.entries().take(k + 1);
        proof {
            lemma_entry_in_map(after.entries(), k as int);
            assert(next[k as int].0 == c);
            assert(!holds(head, c)) by {
                if holds(head, c) {
                    let j = place(head, c);
                    assert(after.entries()[j].0 == c);
                }
            }
            assert forall|x: Coordinate| holds(next, x) <==> (holds(head, x) || x == c) by {
                if holds(head, x) {
                    let j = place(head, x);
                    assert(next[j].0 == x);
                }
                if holds(next, x) && x != c {
                    let j = place(next, x);
                    assert(head[j].0 == x);
                }
            }
        }
        let mut pushed = false;
        if !before.contains_key(c) {
            if !same_state(default, s_new) {
                delta.push((c, s_new));
                pushed = true;
            }
        }
        proof {
            assert forall|x: Coordinate, s: StateId| #[trigger]
                delta@.contains((x, s)) <==> ((before@.contains_key(x) || holds(next, x)) && lookup(
                    after@,
                    default,
                    x,
                ) == Some(s) && lookup(before@, default, x) != Some(s)) by {
                if pushed {
                    lemma_push_contains(prev, (c, s_new), (x, s));
                }
            }
            if pushed {
                assert forall|a: int| 0 <= a < prev.len() implies prev[a].0 != c by {
                    let e = prev[a];
                    assert(e == (e.0, e.1));
                    assert(prev[a] == (e.0, e.1));
                    assert(prev.contains((e.0, e.1)));
                }
            }
        }
        k += 1;
    }
    assert(after.entries().take(after.entries().len() as int) =~= after.entries());
    delta
}


impl Runtime {
    /// Collects the census input of the cell `coord` and, where `wake` is
    /// set, appends the cells that it wakes to `fringe`.
    fn gather(&self, coord: Coordinate, wake: bool, fringe: &mut Vec<Coordinate>) -> (r: Option<
        Vec<StateId>,
    >)
        requires
            self.wf(),
            coord.dims() == self@.bounds.dims(),
        ensures
            match r {
                Some(census) => {
                    &&& self@.neighbor_states(coord) == Some(census@)
                    &&& final(fringe)@ == old(fringe)@ + (if wake {
                        self@.woken_by(coord)
                    } else {
                        Seq::empty()
                    })
                },
                None => self@.neighbor_states(coord) is None,
            },
    {
        let ghost start = fringe@;
        let ns = match self.neighborhood.try_neighbors(coord) {
            Some(v) => v,
            None => {
                return None;
            },
        };
        proof {
            lemma_neighbors_dims(self.neighborhood.rules(), coord);
            assert(start + Seq::<Coordinate>::empty() =~= start);
        }
        let finite = self.boundary.is_finite();
        let wraps = self.boundary.wraps();
        let mut census: Vec<StateId> = Vec::new();
        let mut j: usize = 0;
        while j < ns.len()
            invariant
                j <= ns.len(),
                self.wf(),
                finite == self@.finite(),
                wraps == (self@.boundary is Wrap),
                forall|k: int| 0 <= k < ns@.len() ==> (#[trigger] ns@[k]).dims() == self@.bounds.dims(),
                census@ == self@.census_input(ns@.take(j as int)),
                fringe@ == start + (if wake {
                    self@.woken(ns@.take(j as int))
                } else {
                    Seq::empty()
                }),
            decreases ns.len() - j,
        {
            let n = ns[j];
            let ghost before = fringe@;
            proof {
                let next = ns@.take(j + 1);
                assert(next.drop_last() =~= ns@.take(j as int));
                assert(next.last() == n);
            }
            let inside = self.initial_dimensions.contains(n);
            let placed: Option<Coordinate> = if finite && !inside {
                if wraps {
                    Some(self.initial_dimensions.wrap(n))
                } else {
                    None
                }
            } else {
                Some(n)
            };
            let mut woke = false;
            match placed {
                None => {},
                Some(p) => {
                    let pinned = match self.static_state {
                        Some(s) => if self.initial_dimensions.boundary(p) {
                            Some(s)
                        } else {
                            None
                        },
                        None => None,
                    };
                    match pinned {
                        Some(s) => {
                            census.push(s);
                        },
                        None => match self.current_tick.get(p) {
                            Some(s) => {
                                census.push(s);
                            },
                            None => {
                                if !finite {
                                    match self.default_state {
                                        Some(d) => {
                                            census.push(d);
                                        },
                                        None => {},
                                    }
                                    if wake {
                                        fringe.push(p);
                                        woke = true;
                                    }
                                }
                            },
                        },
                    }
                },
            }
            proof {
                if wake {
                    let w = self@.woken(ns@.take(j as int));
                    if woke {
                        assert(fringe@ =~= start + w.push(n));
                    }
                } else {
                    assert(fringe@ =~= start + Seq::<Coordinate>::empty());
                }
            }
            j += 1;
        }
        assert(ns@.take(ns.len() as int) =~= ns@);
        Some(census)
    }

    /// The new state of the cell `coord` given its census input.
    fn settle(&self, coord: Coordinate, census: &Vec<StateId>) -> (r: Option<StateId>)
        requires
            self.wf(),
            self@.neighbor_states(coord) == Some(census@),
        ensures
            r == self@.result(coord),
    {
        let state = match self.get_state(coord) {
            Some(s) => s,
            None => {
                return None;
            },
        };
        match self.rules.try_evaluate(state, census) {
            Some(Some(to)) => Some(to),
            Some(None) => Some(state),
            None => None,
        }
    }

    /// Whether the cell `coord` with the new state `state` is stored.
    fn keeps(&self, coord: Coordinate, state: StateId) -> (r: bool)
        requires
            self.wf(),
            coord.dims() == self@.bounds.dims(),
        ensures
            r == self@.kept(coord, state),
    {
        if same_state(self.default_state, state) {
            return false;
        }
        match self.static_state {
            Some(_) => !self.initial_dimensions.boundary(coord),
            None => true,
        }
    }

    /// Advances the automaton by one tick and returns the delta: every
    /// visited cell gets its new state from the current generation alone,
    /// then the generations are exchanged. Returns `None`, and leaves the
    /// runtime as it was, where the tick cannot be carried out.
    pub fn try_run_tick(&mut self) -> (r: Option<Delta>)
        requires
            old(self).wf(),
        ensures
            final(self).wf(),
            match r {
                Some(delta) => {
                    &&& old(self)@.tick_defined()
                    &&& final(self)@ == old(self)@.step()
                    &&& is_delta(old(self)@.cells, final(self)@.cells, old(self)@.default, delta@)
                },
                None => !old(self)@.tick_defined() && final(self)@ == old(self)@,
            },
    {
        if self.tick == usize::MAX {
            return None;
        }
        // The tick goes in two rounds. The first visits the stored cells, which
        // wake neighbours; the second visits the woken cells, which wake nobody.
        let ghost w = self@;
        let keys = self.current_tick.keys();
        let mut next = Generation::new();
        let mut fringe: Vec<Coordinate> = Vec::new();
        proof {
            assert(next@ =~= w.settled(keys@.take(0)));
            assert forall|k: int| 0 <= k < keys@.len() implies w.cells.contains_key(
                #[trigger] keys@[k],
            ) by {
                lemma_entry_in_map(self.current_tick.entries(), k);
            }
        }
        let mut i: usize = 0;
        while i < keys.len()
            invariant
                i <= keys.len(),
                *self == *old(self),
                self.wf(),
                self@ == w,
                forall|k: int| 0 <= k < keys@.len() ==> w.cells.contains_key(#[trigger] keys@[k]),
                next.wf(),
                next@ == w.settled(keys@.take(i as int)),
                forall|k: int| 0 <= k < i ==> w.result(#[trigger] keys@[k]) is Some,
                forall|x: Coordinate|
                    fringe@.contains(x) <==> exists|k: int|
                        0 <= k < i && #[trigger] w.woken_by(keys@[k]).contains(x),
                forall|k: int| 0 <= k < fringe@.len() ==> (#[trigger] fringe@[k]).dims() == w.bounds.dims(),
            decreases keys.len() - i,
        {
            let c = keys[i];
            let ghost done = keys@.take(i as int);
            let ghost before_fringe = fringe@;
            assert(w.cells.contains_key(c));
            assert(w.scheduled(c));
            let census = match self.gather(c, true, &mut fringe) {
                Some(v) => v,
                None => {
                    return None;
                },
            };
            let state = match self.settle(c, &census) {
                Some(s) => s,
                None => {
                    return None;
                },
            };
            if self.keeps(c, state) {
                next.insert(c, state);
            }
            proof {
                assert(keys@.take(i + 1) =~= done.push(c));
                assert forall|x: Coordinate|
                    done.push(c).contains(x) <==> (done.contains(x) || x == c) by {
                    lemma_push_contains(done, c, x);
                }
                assert(next@ =~= w.settled(done.push(c)));
                lemma_neighbors_dims(w.neighborhood.rules(), c);
                w.lemma_woken_dims(w.neighborhood.neighbors_of(c)->0, w.bounds.dims());
                assert forall|x: Coordinate|
                    fringe@.contains(x) <==> exists|k: int|
                        0 <= k < i + 1 && #[trigger] w.woken_by(keys@[k]).contains(x) by {
                    lemma_concat_contains(before_fringe, w.woken_by(c), x);
                    if w.woken_by(c).contains(x) {
                        assert(w.woken_by(keys@[i as int]).contains(x));
                    }
                }
            }
            i += 1;
        }
        assert(keys@.take(keys.len() as int) =~= keys@);
        assert(keys@ + fringe@.take(0) =~= keys@);
        let mut k: usize = 0;
        while k < fringe.len()
            invariant
                k <= fringe.len(),
                *self == *old(self),
                self.wf(),
                self@ == w,
                forall|j: int| 0 <= j < keys@.len() ==> w.cells.contains_key(#[trigger] keys@[j]),
                next.wf(),
                next@ == w.settled(keys@ + fringe@.take(k as int)),
                forall|j: int| 0 <= j < keys@.len() ==> w.result(#[trigger] keys@[j]) is Some,
                forall|j: int| 0 <= j < k ==> w.result(#[trigger] fringe@[j]) is Some,
                forall|x: Coordinate|
                    fringe@.contains(x) <==> exists|j: int|
                        0 <= j < keys@.len() && #[trigger] w.woken_by(keys@[j]).contains(x),
                forall|j: int| 0 <= j < fringe@.len() ==> (#[trigger] fringe@[j]).dims() == w.bounds.dims(),
            decreases fringe.len() - k,
        {
            let c = fringe[k];
            let ghost done = keys@ + fringe@.take(k as int);
            proof {
                assert(fringe@.contains(c));
                let j = choose|j: int|
                    0 <= j < keys@.len() && #[trigger] w.woken_by(keys@[j]).contains(c);
                assert(w.cells.contains_key(keys@[j]));
                assert(w.scheduled(c));
            }
            let mut nothing: Vec<Coordinate> = Vec::new();
            let census = match self.gather(c, false, &mut nothing) {
                Some(v) => v,
                None => {
                    return None;
                },
            };
            let state = match self.settle(c, &census) {
                Some(s) => s,
                None => {
                    return None;
                },
            };
            if self.keeps(c, state) {
                next.insert(c, state);
            }
            proof {
                assert(keys@ + fringe@.take(k + 1) =~= done.push(c));
                assert forall|x: Coordinate|
                    done.push(c).contains(x) <==> (done.contains(x) || x == c) by {
                    lemma_push_contains(done, c, x);
                }
                assert(next@ =~= w.settled(done.push(c)));
            }
            k += 1;
        }
        proof {
            assert(fringe@.take(fringe.len() as int) =~= fringe@);
            let all = keys@ + fringe@;
            assert forall|x: Coordinate| all.contains(x) <==> w.scheduled(x) by {
                lemma_concat_contains(keys@, fringe@, x);
                if w.cells.contains_key(x) {
                    let p = place(self.current_tick.entries(), x);
                    assert(keys@[p] == x);
                }
                if w.scheduled(x) && !w.cells.contains_key(x) {
                    let o = choose|o: Coordinate|
                        w.cells.contains_key(o) && #[trigger] w.woken_by(o).contains(x);
                    let p = place(self.current_tick.entries(), o);
                    assert(keys@[p] == o);
                    assert(w.woken_by(keys@[p]).contains(x));
                }
            }
            assert forall|x: Coordinate| #[trigger] w.scheduled(x) implies w.result(x) is Some by {
                assert(all.contains(x));
                let p = choose|p: int| 0 <= p < all.len() && all[p] == x;
                if p < keys@.len() {
                    assert(keys@[p] == x);
                } else {
                    assert(fringe@[p - keys@.len()] == x);
                }
            }
            assert(next@ =~= w.next_cells());
            assert forall|c: Coordinate| #[trigger] next@.contains_key(c) implies c.dims()
                == w.bounds.dims() by {
                assert(all.contains(c));
                let p = choose|p: int| 0 <= p < all.len() && all[p] == c;
                if p < keys@.len() {
                    assert(keys@[p] == c);
                } else {
                    assert(fringe@[p - keys@.len()] == c);
                }
            }
        }
        let delta = diff(&self.current_tick, &next, self.default_state);
        self.current_tick = next;
        self.tick = self.tick + 1;
        Some(delta)
    }

    /// Advances the automaton by one tick and returns the delta. The tick
    /// must be one that can be carried out.
    pub fn run_tick(&mut self) -> (delta: Delta)
        requires
            old(self).wf(),
            old(self)@.tick_defined(),
        ensures
            final(self).wf(),
            final(self)@ == old(self)@.step(),
            is_delta(old(self)@.cells, final(self)@.cells, old(self)@.default, delta@),
    {
        match self.try_run_tick() {
            Some(delta) => delta,
            None => Vec::new(),
        }
    }

    /// Advances the automaton by up to `ticks` ticks and returns how many
    /// were carried out: fewer than `ticks` only where the next one cannot
    /// be carried out.
    pub fn try_run(&mut self, ticks: usize) -> (done: usize)
        requires
            old(self).wf(),
        ensures
            final(self).wf(),
            done <= ticks,
            old(self)@.after(done as nat) == Some(final(self)@),
            done < ticks ==> !final(self)@.tick_defined(),
    {
        let mut done: usize = 0;
        while done < ticks
            invariant
                done <= ticks,
                self.wf(),
                old(self)@.after(done as nat) == Some(self@),
            decreases ticks - done,
        {
            match self.try_run_tick() {
                Some(_) => {
                    proof {
                        lemma_after_step(old(self)@, done as nat);
                    }
                    done += 1;
                },
                None => {
                    return done;
                },
            }
        }
        done
    }

    /// Advances the automaton by `ticks` ticks; every one of them must be
    /// one that can be carried out.
    pub fn run(&mut self, ticks: usize)
        requires
            old(self).wf(),
            old(self)@.after(ticks as nat) is Some,
        ensures
            final(self).wf(),
            Some(final(self)@) == old(self)@.after(ticks as nat),
    {
        let done = self.try_run(ticks);
        proof {
            if done < ticks {
                lemma_after_stuck(old(self)@, done as nat, ticks as nat);
            }
        }
    }
}

impl World {
    /// Woken cells keep the number of axes of the neighbours they are
    /// taken from.
    pub proof fn lemma_woken_dims(self, ns: Seq<Coordinate>, d: nat)
        requires
            forall|k: int| 0 <= k < ns.len() ==> (#[trigger] ns[k]).dims() == d,
        ensures
            forall|k: int|
                0 <= k < self.woken(ns).len() ==> (#[trigger] self.woken(ns)[k]).dims() == d,
        decreases ns.len(),
    {
        if ns.len() > 0 {
            let front = ns.drop_last();
            assert forall|k: int| 0 <= k < front.len() implies (#[trigger] front[k]).dims() == d by {
                assert(front[k] == ns[k]);
            }
            self.lemma_woken_dims(front, d);
            assert(ns.last() == ns[ns.len() - 1]);
            let before = self.woken(front);
            let all = self.woken(ns);
            assert(all == if self.wakes(ns.last()) {
                before.push(ns.last())
            } else {
                before
            });
            assert forall|k: int| 0 <= k < all.len() implies (#[trigger] all[k]).dims() == d by {
                if k < before.len() {
                    assert(all[k] == before[k]);
                }
            }
        } else {
            assert(self.woken(ns).len() == 0);
        }
    }
}

/// One more tick after `n` ticks is `n + 1` ticks.
pub proof fn lemma_after_step(w: World, n: nat)
    requires
        w.after(n) is Some,
        w.after(n)->0.tick_defined(),
    ensures
        w.after(n + 1) == Some(w.after(n)->0.step()),
    decreases n,
{
    reveal_with_fuel(World::after, 3);
    if n > 0 {
        lemma_after_step(w.step(), (n - 1) as nat);
    }
}

/// Where the world after `n` ticks cannot carry out a tick, there is no
/// world after more than `n` ticks.
pub proof fn lemma_after_stuck(w: World, n: nat, m: nat)
    requires
        n < m,
        w.after(n) matches Some(v) && !v.tick_defined(),
    ensures
        w.after(m) is None,
    decreases n,
{
    if n > 0 {
        lemma_after_stuck(w.step(), (n - 1) as nat, (m - 1) as nat);
    }
}


/// Under a pinned edge, a tick leaves the state of an edge cell as it was,
/// unless the cell was stored with a state other than the default.
pub proof fn lemma_static_edge_invariant(w: World, c: Coordinate)
    requires
        w.pinned is Some,
        w.bounds.on_edge(c),
        w.cells.contains_key(c) ==> Some(w.cells[c]) == w.default,
    ensures
        !w.step().cells.contains_key(c),
        w.step().state_of(c) == w.state_of(c),
{
}

/// Under a pinned edge, any number of ticks leaves the state of an edge
/// cell as it was, unless the cell was stored at the start with a state
/// other than the default.
pub proof fn lemma_static_edge_invariant_forever(w: World, c: Coordinate, n: nat)
    requires
        w.pinned is Some,
        w.bounds.on_edge(c),
        w.cells.contains_key(c) ==> Some(w.cells[c]) == w.default,
        w.after(n) is Some,
    ensures
        w.after(n)->0.state_of(c) == w.state_of(c),
    decreases n,
{
    if n > 0 {
        lemma_static_edge_invariant(w, c);
        lemma_static_edge_invariant_forever(w.step(), c, (n - 1) as nat);
    }
}

/// A cell whose new state is the default state is not stored in the next
/// generation, and the delta holds it exactly where its state before was
/// another.
pub proof fn lemma_default_not_stored(w: World, c: Coordinate, delta: Seq<(Coordinate, StateId)>)
    requires
        w.default is Some,
        w.result(c) == w.default,
        is_delta(w.cells, w.step().cells, w.default, delta),
    ensures
        !w.step().cells.contains_key(c),
        forall|s: StateId| #[trigger]
            delta.contains((c, s)) <==> (Some(s) == w.default && w.state_of(c) != w.default),
{
}

/// No cell is stored with the default state in the generation that a tick
/// produces.
pub proof fn lemma_next_generation_sparse(w: World, c: Coordinate)
    requires
        w.step().cells.contains_key(c),
    ensures
        Some(w.step().cells[c]) != w.default,
        w.scheduled(c),
        w.result(c) == Some(w.step().cells[c]),
{
}


/// A tick is synchronous: the state of every cell after the tick follows
/// from the generation before it alone. A visited cell that is not pinned
/// takes its new state, a visited cell that is pinned reads as the default
/// state, and a cell that is not visited keeps its state.
pub proof fn lemma_tick_is_synchronous(w: World, c: Coordinate)
    requires
        w.tick_defined(),
    ensures
        w.scheduled(c) && !w.pinned_at(c) ==> w.step().state_of(c) == w.result(c),
        w.scheduled(c) && w.pinned_at(c) ==> w.step().state_of(c) == w.default,
        !w.scheduled(c) ==> w.step().state_of(c) == w.state_of(c),
{
}

/// A cell that is woken is one of the neighbours it is taken from.
pub proof fn lemma_woken_are_neighbors(w: World, ns: Seq<Coordinate>, c: Coordinate)
    requires
        w.woken(ns).contains(c),
    ensures
        ns.contains(c),
        w.wakes(c),
    decreases ns.len(),
{
    if ns.len() > 0 {
        let front = ns.drop_last();
        if w.wakes(ns.last()) {
            lemma_push_contains(w.woken(front), ns.last(), c);
        }
        if w.woken(front).contains(c) {
            lemma_woken_are_neighbors(w, front, c);
            let i = choose|i: int| 0 <= i < front.len() && front[i] == c;
            assert(ns[i] == c);
        } else {
            assert(ns[ns.len() - 1] == c);
        }
    }
}

/// A tick visits no cell beyond the neighbours of the stored cells: a
/// visited cell is stored, or it is a neighbour of a stored cell.
pub proof fn lemma_scheduled_is_near(w: World, c: Coordinate)
    requires
        w.scheduled(c),
    ensures
        w.cells.contains_key(c) || exists|o: Coordinate|
            w.cells.contains_key(o) && w.neighborhood.neighbors_of(o) is Some
                && #[trigger] w.neighborhood.neighbors_of(o)->0.contains(c),
{
    if !w.cells.contains_key(c) {
        let o = choose|o: Coordinate| w.cells.contains_key(o) && #[trigger] w.woken_by(o).contains(c);
        assert(w.neighborhood.neighbors_of(o) is Some);
        lemma_woken_are_neighbors(w, w.neighborhood.neighbors_of(o)->0, c);
    }
}

impl crate::lang::runtime::Runtime for Runtime {
    open spec fn world(&self) -> World {
        self@
    }

    open spec fn valid(&self) -> bool {
        self.wf()
    }

    fn run_tick(&mut self) -> (delta: Delta) {
        Runtime::run_tick(self)
    }

    fn run(&mut self, ticks: usize) {
        Runtime::run(self, ticks)
    }

    fn tick(&self) -> (r: usize) {
        Runtime::tick(self)
    }

    fn get_env(&self) -> (r: Generation) {
        Runtime::get_env(self)
    }

    fn get_state(&self, coord: Coordinate) -> (r: Option<StateId>) {
        Runtime::get_state(self, coord)
    }

    fn set_env(&mut self, environment: Generation) {
        Runtime::set_env(self, environment)
    }

    fn set_cell(&mut self, coord: Coordinate, state: StateId) -> (r: Option<StateId>) {
        Runtime::set_cell(self, coord, state)
    }
}

} // verus!
