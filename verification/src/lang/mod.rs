//! Programs: the five blocks of a program text, the builder that gathers
//! them and the runtime that is built from them.

use vstd::prelude::*;
use crate::lang::parse::Error;
use crate::lang::parse::blocks::boundary::BoundaryBlock;
use crate::lang::parse::blocks::environment::EnvironmentBlock;
use crate::lang::parse::blocks::neighborhood::NeighborhoodBlock;
use crate::lang::parse::blocks::rule::RulesBlock;
use crate::lang::parse::blocks::state::{Attribute, Rgb8, StatesBlock};
use crate::lang::runtime::StateId;
use crate::lang::runtime::datatypes::coords::Coordinate;
use crate::lang::runtime::datatypes::states::{
    default_of,
    is_color_of,
    names_of,
    two_defaults,
    States,
};
use crate::lang::runtime::naive::{pinned_state, Runtime, World};
use crate::lang::runtime::ops::neighborhood::{rules_supported, Neighborhood};
use crate::lang::runtime::ops::rules::{resolved_rule, transitions_from, Rules};
use crate::render::Output;

pub mod parse;
pub mod runtime;

verus! {

/// Something that is worth telling the author of a program and does not
/// keep the program from running.
#[derive(Debug, Clone, Copy, PartialEq, Eq, Structural)]
pub enum Warnings {
    /// A colour attribute names a colour that is not known.
    UnknownColor,
}

/// Number of colour attributes among `attributes` whose colour is not
/// known.
pub open spec fn unknown_colors(attributes: Seq<Attribute>) -> nat
    decreases attributes.len(),
{
    if attributes.len() == 0 {
        0
    } else {
        unknown_colors(attributes.drop_last()) + if attributes.last() == Attribute::Color(None) {
            1nat
        } else {
            0nat
        }
    }
}

/// Number of colour attributes among the states `entries` whose colour is
/// not known.
pub open spec fn unknown_colors_of(entries: Seq<(Seq<char>, Seq<Attribute>)>) -> nat
    decreases entries.len(),
{
    if entries.len() == 0 {
        0
    } else {
        unknown_colors_of(entries.drop_last()) + unknown_colors(entries.last().1)
    }
}

/// The five blocks of a program as they are gathered, and what is built
/// from them.
#[derive(Debug)]
pub struct ProgramBuilder {
    boundary: Option<BoundaryBlock>,
    environment: Option<EnvironmentBlock>,
    neighborhood: Option<NeighborhoodBlock>,
    states: Option<StatesBlock>,
    rules: Option<RulesBlock>,
    valid: Option<bool>,
}

impl Default for ProgramBuilder {
    fn default() -> (r: Self)
        ensures
            r.boundary_block() is None,
            r.environment_block() is None,
            r.neighborhood_block() is None,
            r.states_block() is None,
            r.rules_block() is None,
            r.validated() is None,
    {
        ProgramBuilder {
            boundary: None,
            neighborhood: None,
            environment: None,
            states: None,
            rules: None,
            valid: None,
        }
    }
}

impl ProgramBuilder {
    /// The boundary block, if it is given.
    pub closed spec fn boundary_block(self) -> Option<BoundaryBlock> {
        self.boundary
    }

    /// The environment block, if it is given.
    pub closed spec fn environment_block(self) -> Option<EnvironmentBlock> {
        self.environment
    }

    /// The neighbourhood block, if it is given.
    pub closed spec fn neighborhood_block(self) -> Option<NeighborhoodBlock> {
        self.neighborhood
    }

    /// The states block, if it is given.
    pub closed spec fn states_block(self) -> Option<StatesBlock> {
        self.states
    }

    /// The rules block, if it is given.
    pub closed spec fn rules_block(self) -> Option<RulesBlock> {
        self.rules
    }

    /// What the last validation found, if there was one.
    pub closed spec fn validated(self) -> Option<bool> {
        self.valid
    }

    /// Whether every one of the five blocks is given.
    pub open spec fn complete(self) -> bool {
        &&& self.boundary_block() is Some
        &&& self.environment_block() is Some
        &&& self.neighborhood_block() is Some
        &&& self.states_block() is Some
        &&& self.rules_block() is Some
    }

    /// Whether `other` holds the same five blocks.
    pub open spec fn same_blocks(self, other: ProgramBuilder) -> bool {
        &&& self.boundary_block() == other.boundary_block()
        &&& self.environment_block() == other.environment_block()
        &&& self.neighborhood_block() == other.neighborhood_block()
        &&& self.states_block() == other.states_block()
        &&& self.rules_block() == other.rules_block()
    }

    /// Whether the boundary block is given.
    pub fn has_boundary(&self) -> (r: bool)
        ensures
            r == (self.boundary_block() is Some),
    {
        self.boundary.is_some()
    }

    /// Whether the environment block is given.
    pub fn has_environment(&self) -> (r: bool)
        ensures
            r == (self.environment_block() is Some),
    {
        self.environment.is_some()
    }

    /// Whether the neighbourhood block is given.
    pub fn has_neighborhood(&self) -> (r: bool)
        ensures
            r == (self.neighborhood_block() is Some),
    {
        self.neighborhood.is_some()
    }

    /// Whether the states block is given.
    pub fn has_states(&self) -> (r: bool)
        ensures
            r == (self.states_block() is Some),
    {
        self.states.is_some()
    }

    /// Whether the rules block is given.
    pub fn has_rules(&self) -> (r: bool)
        ensures
            r == (self.rules_block() is Some),
    {
        self.rules.is_some()
    }

    /// Whether every one of the five blocks is given.
    pub fn is_complete(&self) -> (r: bool)
        ensures
            r == self.complete(),
    {
        self.boundary.is_some() && self.environment.is_some() && self.neighborhood.is_some()
            && self.states.is_some() && self.rules.is_some()
    }

    /// A builder without blocks.
    pub fn new() -> (r: Self)
        ensures
            r.boundary_block() is None,
            r.environment_block() is None,
            r.neighborhood_block() is None,
            r.states_block() is None,
            r.rules_block() is None,
            r.validated() is None,
    {
        ProgramBuilder {
            boundary: None,
            neighborhood: None,
            environment: None,
            states: None,
            rules: None,
            valid: None,
        }
    }

    /// Gives the boundary block, in place of an earlier one.
    pub fn boundary(&mut self, b: BoundaryBlock) -> (this: &mut Self)
        ensures
            this.boundary_block() == Some(b),
            this.environment_block() == old(self).environment_block(),
            this.neighborhood_block() == old(self).neighborhood_block(),
            this.states_block() == old(self).states_block(),
            this.rules_block() == old(self).rules_block(),
            this.validated() is None,
            *final(self) == *final(this),
    {
        self.boundary = Some(b);
        self.valid = None;
        self
    }

    /// Gives the environment block, in place of an earlier one.
    pub fn environment(&mut self, e: EnvironmentBlock) -> (this: &mut Self)
        ensures
            this.boundary_block() == old(self).boundary_block(),
            this.environment_block() == Some(e),
            this.neighborhood_block() == old(self).neighborhood_block(),
            this.states_block() == old(self).states_block(),
            this.rules_block() == old(self).rules_block(),
            this.validated() is None,
            *final(self) == *final(this),
    {
        self.environment = Some(e);
        self.valid = None;
        self
    }

    /// Gives the neighbourhood block, in place of an earlier one.
    pub fn neighborhood(&mut self, n: NeighborhoodBlock) -> (this: &mut Self)
        ensures
            this.boundary_block() == old(self).boundary_block(),
            this.environment_block() == old(self).environment_block(),
            this.neighborhood_block() == Some(n),
            this.states_block() == old(self).states_block(),
            this.rules_block() == old(self).rules_block(),
            this.validated() is None,
            *final(self) == *final(this),
    {
        self.neighborhood = Some(n);
        self.valid = None;
        self
    }

    /// Gives the states block, in place of an earlier one.
    pub fn states(&mut self, s: StatesBlock) -> (this: &mut Self)
        ensures
            this.boundary_block() == old(self).boundary_block(),
            this.environment_block() == old(self).environment_block(),
            this.neighborhood_block() == old(self).neighborhood_block(),
            this.states_block() == Some(s),
            this.rules_block() == old(self).rules_block(),
            this.validated() is None,
            *final(self) == *final(this),
    {
        self.states = Some(s);
        self.valid = None;
        self
    }

    /// Gives the rules block, in place of an earlier one.
    pub fn rules(&mut self, r: RulesBlock) -> (this: &mut Self)
        ensures
            this.boundary_block() == old(self).boundary_block(),
            this.environment_block() == old(self).environment_block(),
            this.neighborhood_block() == old(self).neighborhood_block(),
            this.states_block() == old(self).states_block(),
            this.rules_block() == Some(r),
            this.validated() is None,
            *final(self) == *final(this),
    {
        self.rules = Some(r);
        self.valid = None;
        self
    }

    /// Whether the world `w` is what the five blocks describe: no cells at
    /// tick zero, the bounds of the environment, the boundary, the default
    /// state and the pinned state of the states block, the transitions of
    /// the rules block with every name resolved, and the rules of the
    /// neighbourhood block.
    pub open spec fn describes(self, w: World) -> bool {
        let entries = self.states_block()->0@;
        let names = names_of(entries);
        &&& w.cells == Map::<Coordinate, StateId>::empty()
        &&& w.ticks == 0
        &&& w.bounds == self.environment_block()->0.bounds()
        &&& w.boundary == self.boundary_block()->0
        &&& w.default == default_of(entries)
        &&& Some(w.pinned) == pinned_state(self.boundary_block()->0, names, default_of(entries))
        &&& forall|from: StateId| #[trigger]
            w.rules.bucket(from) == transitions_from(self.rules_block()->0@, names, from)
        &&& w.neighborhood.rules() == self.neighborhood_block()->0.rules_model(
            self.environment_block()->0.dims(),
        )
    }

    /// Whether a rule of the rules block names a state that the states
    /// block does not declare.
    pub open spec fn names_unknown_state(self) -> bool {
        exists|i: int|
            0 <= i < self.rules_block()->0@.len() && resolved_rule(
                #[trigger] self.rules_block()->0@[i],
                names_of(self.states_block()->0@),
            ) is None
    }

    /// The error that keeps the blocks from being built, if there is one:
    /// the first that applies of a missing block, two default states, an
    /// extent that cannot be laid out, a rule that names an unknown state,
    /// a neighbourhood rule that cannot be applied in the grid, a static
    /// boundary that names an unknown state, and an infinite boundary
    /// without a default state.
    pub open spec fn fault(self) -> Option<Error> {
        let entries = self.states_block()->0@;
        if !self.complete() {
            Some(Error::MissingBlock)
        } else if two_defaults(entries) {
            Some(Error::MultipleDefaultStates)
        } else if !self.environment_block()->0.extents_ok() {
            Some(Error::InvalidExtent)
        } else if self.names_unknown_state() {
            Some(Error::UnknownState)
        } else if !rules_supported(
            self.neighborhood_block()->0.rules_model(self.environment_block()->0.dims()),
            self.environment_block()->0.dims(),
        ) {
            Some(Error::UnsupportedNeighborhood)
        } else if pinned_state(self.boundary_block()->0, names_of(entries), default_of(entries))
            is None {
            Some(Error::UnknownState)
        } else if self.boundary_block()->0 is Infinite && default_of(entries) is None {
            Some(Error::MissingDefaultState)
        } else {
            None
        }
    }

    /// Builds the runtime that the five blocks describe, or says what
    /// keeps them from being built.
    pub fn build(self) -> (r: Result<Runtime, Error>)
        ensures
            match r {
                Ok(rt) => self.fault() is None && rt.wf() && self.describes(rt@),
                Err(e) => self.fault() == Some(e),
            },
    {
        match self.build_with_colors() {
            Ok((runtime, _)) => Ok(runtime),
            Err(e) => Err(e),
        }
    }

    /// Builds the runtime that the five blocks describe together with the
    /// colour of each state, by identifier, or says what keeps them from
    /// being built.
    pub fn build_with_colors(self) -> (r: Result<(Runtime, Vec<Rgb8>), Error>)
        ensures
            match r {
                Ok((rt, colors)) => {
                    &&& self.fault() is None
                    &&& rt.wf()
                    &&& self.describes(rt@)
                    &&& colors@.len() == self.states_block()->0@.len()
                    &&& forall|i: int|
                        0 <= i < colors@.len() ==> is_color_of(
                            self.states_block()->0@[i].1,
                            #[trigger] colors@[i],
                        )
                },
                Err(e) => self.fault() == Some(e),
            },
    {
        let ProgramBuilder { boundary, environment, neighborhood, states, rules, valid } = self;
        let (boundary, environment, neighborhood, states, rules) = match (
            boundary,
            environment,
            neighborhood,
            states,
            rules,
        ) {
            (Some(b), Some(e), Some(n), Some(s), Some(r)) => (b, e, n, s, r),
            _ => {
                return Err(Error::MissingBlock);
            },
        };
        let registry = match States::from_block(states) {
            Ok(s) => s,
            Err(e) => {
                return Err(e);
            },
        };
        let colors = registry.color_map();
        let dim_bounds = match environment.dimensions() {
            Ok(b) => b,
            Err(e) => {
                return Err(e);
            },
        };
        let table = match Rules::from_block(rules, &registry) {
            Ok(t) => t,
            Err(e) => {
                return Err(e);
            },
        };
        let operator = Neighborhood::from_block(neighborhood, dim_bounds.dimensions());
        match Runtime::new(dim_bounds, boundary, registry, table, operator) {
            Ok(runtime) => Ok((runtime, colors)),
            Err(e) => Err(e),
        }
    }

    /// Whether every one of the five blocks is given; the builder
    /// remembers the answer.
    pub fn validate(&mut self) -> (r: bool)
        ensures
            r == old(self).complete(),
            final(self).validated() == Some(r),
            final(self).same_blocks(*old(self)),
    {
        let complete = self.boundary.is_some() && self.environment.is_some()
            && self.neighborhood.is_some() && self.states.is_some() && self.rules.is_some();
        self.valid = Some(complete);
        complete
    }

    /// One warning for each colour attribute of the states block whose
    /// colour is not known.
    pub fn warnings(&self) -> (r: Vec<Warnings>)
        ensures
            r@.len() == (match self.states_block() {
                Some(block) => unknown_colors_of(block@),
                None => 0,
            }),
            forall|i: int| 0 <= i < r@.len() ==> #[trigger] r@[i] == Warnings::UnknownColor,
    {
        let mut out: Vec<Warnings> = Vec::new();
        match &self.states {
            None => {},
            Some(block) => {
                block.warn_unknown_colors(&mut out);
            },
        }
        out
    }
}

/// A runtime together with the sink that takes its deltas.
pub struct Program<O: Output> {
    runtime: Runtime,
    output: O,
}

impl<O: Output> Program<O> {
    /// The runtime of the program.
    pub closed spec fn engine(self) -> Runtime {
        self.runtime
    }

    pub fn new(runtime: Runtime, output: O) -> (r: Self)
        ensures
            r.engine() == runtime,
    {
        Program { runtime, output }
    }

    /// The runtime of the program.
    pub fn runtime(&self) -> (r: &Runtime)
        ensures
            *r == self.engine(),
    {
        &self.runtime
    }

    /// Stores `state` for the cell `coord` in the current generation; the
    /// coordinate must have as many axes as the bounds.
    pub fn set_cell(&mut self, coord: Coordinate, state: StateId) -> (r: Option<StateId>)
        requires
            old(self).engine().wf(),
            coord.dims() == old(self).engine()@.bounds.dims(),
        ensures
            final(self).engine().wf(),
            final(self).engine()@ == (World {
                cells: old(self).engine()@.cells.insert(coord, state),
                ..old(self).engine()@
            }),
    {
        self.runtime.set_cell(coord, state)
    }

    /// Advances the automaton by up to `ticks` ticks, hands the delta of
    /// each to the sink, and returns how many ticks were carried out:
    /// fewer than `ticks` only where the next one cannot be carried out.
    pub fn run(&mut self, ticks: usize) -> (done: usize)
        requires
            old(self).engine().wf(),
        ensures
            final(self).engine().wf(),
            done <= ticks,
            old(self).engine()@.after(done as nat) == Some(final(self).engine()@),
            done < ticks ==> !final(self).engine()@.tick_defined(),
    {
        let mut done: usize = 0;
        while done < ticks
            invariant
                done <= ticks,
                self.engine().wf(),
                old(self).engine()@.after(done as nat) == Some(self.engine()@),
            decreases ticks - done,
        {
            match self.runtime.try_run_tick() {
                Some(delta) => {
                    proof {
                        crate::lang::runtime::naive::lemma_after_step(
                            old(self).engine()@,
                            done as nat,
                        );
                    }
                    self.output.output_tick(delta);
                    done += 1;
                },
                None => {
                    return done;
                },
            }
        }
        done
    }
}

} // verus!
