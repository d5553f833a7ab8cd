//! The neighbourhood block and its rules.

use vstd::prelude::*;
use crate::lang::parse::Error;

verus! {

/// An axis of the grid, or every axis that the grid has.
#[derive(Debug, Eq, PartialEq, Clone, Copy, Structural)]
pub enum Dimension {
    X,
    Y,
    Z,
    All,
}

/// The sign of a directed edge as it is written down.
#[derive(Debug, Eq, PartialEq, Clone, Copy, Structural)]
pub enum EdgeDirection {
    Positive,
    Negative,
}

/// One rule of a neighbourhood: which cells, seen from a cell, are its
/// neighbours.
#[derive(Debug, Eq, PartialEq)]
pub enum NeighborhoodRule {
    /// The cells at distance `magnitude` along `dimension`, on both sides.
    UndirectedEdge { dimension: Dimension, magnitude: usize },
    /// The cell at the signed offset `magnitude` along `dimension`.
    DirectedEdge { dimension: Dimension, magnitude: isize },
    /// Every cell within `magnitude` along `dimension`; reserved.
    UndirectedCircle { dimension: Dimension, magnitude: usize },
    /// The rules applied one after another, each to every cell that the
    /// one before produced.
    Compound(Vec<NeighborhoodRule>),
}

/// The mathematical content of a `NeighborhoodRule`.
pub ghost enum RuleModel {
    UndirectedEdge { dimension: Dimension, magnitude: int },
    DirectedEdge { dimension: Dimension, magnitude: int },
    UndirectedCircle { dimension: Dimension, magnitude: int },
    Compound(Seq<RuleModel>),
}

impl NeighborhoodRule {
    /// The rule as a mathematical value.
    pub open spec fn model(self) -> RuleModel
        decreases self,
    {
        match self {
            NeighborhoodRule::UndirectedEdge { dimension, magnitude } => RuleModel::UndirectedEdge {
                dimension,
                magnitude: magnitude as int,
            },
            NeighborhoodRule::DirectedEdge { dimension, magnitude } => RuleModel::DirectedEdge {
                dimension,
                magnitude: magnitude as int,
            },
            NeighborhoodRule::UndirectedCircle { dimension, magnitude } => RuleModel::UndirectedCircle {
                dimension,
                magnitude: magnitude as int,
            },
            NeighborhoodRule::Compound(children) => RuleModel::Compound(
                Seq::new(
                    children.len() as nat,
                    |i: int|
                        if 0 <= i < children.len() {
                            children[i].model()
                        } else {
                            RuleModel::Compound(Seq::empty())
                        },
                ),
            ),
        }
    }

    /// A directed edge from an unsigned magnitude and a written sign.
    /// Fails with `UnrepresentableNumber` exactly where the magnitude
    /// exceeds the largest signed offset.
    pub fn directed(dimension: Dimension, magnitude: usize, direction: EdgeDirection) -> (r: Result<
        NeighborhoodRule,
        Error,
    >)
        ensures
            magnitude <= isize::MAX ==> r == Ok::<NeighborhoodRule, Error>(
                NeighborhoodRule::DirectedEdge {
                    dimension,
                    magnitude: match direction {
                        EdgeDirection::Positive => magnitude as isize,
                        EdgeDirection::Negative => (-(magnitude as int)) as isize,
                    },
                },
            ),
            magnitude > isize::MAX ==> r == Err::<NeighborhoodRule, Error>(
                Error::UnrepresentableNumber,
            ),
    {
        if magnitude > isize::MAX as usize {
            return Err(Error::UnrepresentableNumber);
        }
        let m: isize = magnitude as isize;
        match direction {
            EdgeDirection::Positive => Ok(NeighborhoodRule::DirectedEdge { dimension, magnitude: m }),
            EdgeDirection::Negative => Ok(
                NeighborhoodRule::DirectedEdge { dimension, magnitude: -m },
            ),
        }
    }
}

/// The models of a sequence of rules, in order.
pub open spec fn models(rules: Seq<NeighborhoodRule>) -> Seq<RuleModel> {
    Seq::new(rules.len(), |i: int| rules[i].model())
}

/// The undirected unit edge along `dimension`.
pub open spec fn unit_edge(dimension: Dimension) -> RuleModel {
    RuleModel::UndirectedEdge { dimension, magnitude: 1 }
}

/// The rules of the von Neumann neighbourhood: the cells one step away
/// along each axis.
pub open spec fn von_neumann_model() -> Seq<RuleModel> {
    seq![unit_edge(Dimension::All)]
}

/// The rules of the Moore neighbourhood of a grid with `dims` axes: the
/// cells that differ by at most one step along every axis.
pub open spec fn moore_model(dims: nat) -> Seq<RuleModel> {
    if dims <= 1 {
        seq![unit_edge(Dimension::All)]
    } else if dims == 2 {
        seq![
            unit_edge(Dimension::All),
            RuleModel::Compound(seq![unit_edge(Dimension::X), unit_edge(Dimension::Y)]),
        ]
    } else {
        seq![
            unit_edge(Dimension::All),
            RuleModel::Compound(seq![unit_edge(Dimension::X), unit_edge(Dimension::Y)]),
            RuleModel::Compound(seq![unit_edge(Dimension::X), unit_edge(Dimension::Z)]),
            RuleModel::Compound(seq![unit_edge(Dimension::Y), unit_edge(Dimension::Z)]),
            RuleModel::Compound(
                seq![unit_edge(Dimension::X), unit_edge(Dimension::Y), unit_edge(Dimension::Z)],
            ),
        ]
    }
}

fn unit(dimension: Dimension) -> (r: NeighborhoodRule)
    ensures
        r.model() == unit_edge(dimension),
{
    NeighborhoodRule::UndirectedEdge { dimension, magnitude: 1 }
}

fn pair(a: Dimension, b: Dimension) -> (r: NeighborhoodRule)
    ensures
        r.model() == RuleModel::Compound(seq![unit_edge(a), unit_edge(b)]),
{
    let mut children: Vec<NeighborhoodRule> = Vec::new();
    children.push(unit(a));
    children.push(unit(b));
    let r = NeighborhoodRule::Compound(children);
    assert(r.model()->Compound_0 =~= seq![unit_edge(a), unit_edge(b)]);
    r
}

/// The von Neumann neighbourhood as a rule sequence.
pub fn von_neumann_rules() -> (r: Vec<NeighborhoodRule>)
    ensures
        models(r@) == von_neumann_model(),
{
    let mut rules: Vec<NeighborhoodRule> = Vec::new();
    rules.push(unit(Dimension::All));
    assert(models(rules@) =~= von_neumann_model());
    rules
}

/// The Moore neighbourhood of a grid with `dims` axes as a rule sequence.
pub fn moore_rules(dims: usize) -> (r: Vec<NeighborhoodRule>)
    ensures
        models(r@) == moore_model(dims as nat),
{
    let mut rules: Vec<NeighborhoodRule> = Vec::new();
    rules.push(unit(Dimension::All));
    if dims >= 2 {
        rules.push(pair(Dimension::X, Dimension::Y));
    }
    if dims >= 3 {
        rules.push(pair(Dimension::X, Dimension::Z));
        rules.push(pair(Dimension::Y, Dimension::Z));
        let mut children: Vec<NeighborhoodRule> = Vec::new();
        children.push(unit(Dimension::X));
        children.push(unit(Dimension::Y));
        children.push(unit(Dimension::Z));
        let triple = NeighborhoodRule::Compound(children);
        assert(triple.model()->Compound_0 =~= seq![
            unit_edge(Dimension::X),
            unit_edge(Dimension::Y),
            unit_edge(Dimension::Z),
        ]);
        rules.push(triple);
    }
    assert(models(rules@) =~= moore_model(dims as nat));
    rules
}

/// The neighbourhood of a program: a preset or a sequence of rules.
#[derive(Debug, Eq, PartialEq)]
pub enum NeighborhoodBlock {
    Moore,
    VonNeumann,
    Custom(Vec<NeighborhoodRule>),
}

/// The mathematical content of a `NeighborhoodBlock`.
pub ghost enum NeighborhoodModel {
    Moore,
    VonNeumann,
    Custom(Seq<RuleModel>),
}

impl NeighborhoodBlock {
    /// The block as a mathematical value.
    pub open spec fn model(self) -> NeighborhoodModel {
        match self {
            NeighborhoodBlock::Moore => NeighborhoodModel::Moore,
            NeighborhoodBlock::VonNeumann => NeighborhoodModel::VonNeumann,
            NeighborhoodBlock::Custom(rules) => NeighborhoodModel::Custom(models(rules@)),
        }
    }

    /// The rule sequence that the block stands for in a grid with `dims`
    /// axes.
    pub open spec fn rules_model(self, dims: nat) -> Seq<RuleModel> {
        match self {
            NeighborhoodBlock::Moore => moore_model(dims),
            NeighborhoodBlock::VonNeumann => von_neumann_model(),
            NeighborhoodBlock::Custom(rules) => models(rules@),
        }
    }

    /// Expands a preset to its rules; a custom block gives its own.
    pub fn into_rules(self, dims: usize) -> (r: Vec<NeighborhoodRule>)
        ensures
            models(r@) == self.rules_model(dims as nat),
    {
        match self {
            NeighborhoodBlock::Moore => moore_rules(dims),
            NeighborhoodBlock::VonNeumann => von_neumann_rules(),
            NeighborhoodBlock::Custom(rules) => rules,
        }
    }
}

} // verus!
