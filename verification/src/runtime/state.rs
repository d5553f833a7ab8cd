//! Values, expressions and rules over any type of state.

use vstd::prelude::*;
use core::marker::PhantomData;
use crate::datatypes::coords::fits;
use crate::datatypes::neighborhood::Neighborhood;
use crate::datatypes::state::State;

verus! {

/// The value of an expression: a boolean or an integer.
#[derive(Copy, Clone, Ord, PartialOrd, Eq, PartialEq, Debug, Structural)]
pub enum LoafType {
    Boolean(bool),
    Integer(isize),
}

/// The twelve binary operators of expressions.
#[derive(Copy, Clone, Eq, PartialEq, Debug, Structural)]
pub enum Operator {
    Add,
    Sub,
    Mul,
    Div,
    Eq,
    Neq,
    Gt,
    Gte,
    Lt,
    Lte,
    And,
    Or,
}

/// The quotient of `a` by `b` rounded towards zero, for `b` other than
/// zero.
pub open spec fn quotient(a: int, b: int) -> int {
    if a >= 0 && b > 0 {
        a / b
    } else if a < 0 && b < 0 {
        (-a) / (-b)
    } else if a < 0 {
        -((-a) / b)
    } else {
        -(a / (-b))
    }
}

/// The integer as a value, where it is representable.
pub open spec fn integer(v: int) -> Option<LoafType> {
    if fits(v) {
        Some(LoafType::Integer(v as isize))
    } else {
        None
    }
}

/// The result of a binary operator on two values. `None` where the
/// operation is an error: arithmetic or an ordering on a boolean, a
/// division by zero, or a result that is not representable.
pub open spec fn combine(op: Operator, lhs: LoafType, rhs: LoafType) -> Option<LoafType> {
    match op {
        Operator::Eq => Some(LoafType::Boolean(lhs == rhs)),
        Operator::Neq => Some(LoafType::Boolean(lhs != rhs)),
        Operator::And => Some(LoafType::Boolean(lhs.truth() && rhs.truth())),
        Operator::Or => Some(LoafType::Boolean(lhs.truth() || rhs.truth())),
        _ => match (lhs, rhs) {
            (LoafType::Integer(a), LoafType::Integer(b)) => match op {
                Operator::Add => integer(a + b),
                Operator::Sub => integer(a - b),
                Operator::Mul => integer(a * b),
                Operator::Div => if b == 0 {
                    None
                } else {
                    integer(quotient(a as int, b as int))
                },
                Operator::Gt => Some(LoafType::Boolean(a > b)),
                Operator::Gte => Some(LoafType::Boolean(a >= b)),
                Operator::Lt => Some(LoafType::Boolean(a < b)),
                _ => Some(LoafType::Boolean(a <= b)),
            },
            _ => None,
        },
    }
}

fn wrap_integer(v: Option<isize>) -> (r: Option<LoafType>)
    ensures
        r == match v {
            Some(n) => Some(LoafType::Integer(n)),
            None => None,
        },
{
    match v {
        Some(n) => Some(LoafType::Integer(n)),
        None => None,
    }
}

/// Applies a binary operator to two values; `None` where the operation is
/// an error.
pub fn combine_values(op: Operator, lhs: LoafType, rhs: LoafType) -> (r: Option<LoafType>)
    ensures
        r == combine(op, lhs, rhs),
{
    match op {
        Operator::Eq => Some(LoafType::Boolean(lhs == rhs)),
        Operator::Neq => Some(LoafType::Boolean(lhs != rhs)),
        Operator::And => {
            let l = lhs.to_bool();
            let r = rhs.to_bool();
            Some(LoafType::Boolean(l && r))
        },
        Operator::Or => {
            let l = lhs.to_bool();
            let r = rhs.to_bool();
            Some(LoafType::Boolean(l || r))
        },
        _ => match (lhs, rhs) {
            (LoafType::Integer(a), LoafType::Integer(b)) => match op {
                Operator::Add => wrap_integer(a.checked_add(b)),
                Operator::Sub => wrap_integer(a.checked_sub(b)),
                Operator::Mul => wrap_integer(a.checked_mul(b)),
                Operator::Div => wrap_integer(a.checked_div(b)),
                Operator::Gt => Some(LoafType::Boolean(a > b)),
                Operator::Gte => Some(LoafType::Boolean(a >= b)),
                Operator::Lt => Some(LoafType::Boolean(a < b)),
                _ => Some(LoafType::Boolean(a <= b)),
            },
            _ => None,
        },
    }
}

impl LoafType {
    /// The value as a boolean: a boolean is itself, an integer is true
    /// unless it is zero.
    pub open spec fn truth(self) -> bool {
        match self {
            LoafType::Boolean(b) => b,
            LoafType::Integer(n) => n != 0,
        }
    }

    /// Coerces the value to a boolean.
    pub fn to_bool(self) -> (r: bool)
        ensures
            r == self.truth(),
    {
        match self {
            LoafType::Boolean(b) => b,
            LoafType::Integer(n) => n != 0,
        }
    }

    /// The integer that the value is; it must be an integer.
    pub fn to_integer(self) -> (r: isize)
        requires
            self is Integer,
        ensures
            self == LoafType::Integer(r),
    {
        match self {
            LoafType::Integer(n) => n,
            LoafType::Boolean(_) => 0,
        }
    }

    /// A count as a value; `None` where it is not representable.
    pub fn from_count(count: usize) -> (r: Option<LoafType>)
        ensures
            r == integer(count as int),
    {
        if count > isize::MAX as usize {
            None
        } else {
            Some(LoafType::Integer(count as isize))
        }
    }

    pub fn boxed<S: State>(self) -> (r: Box<Node<S>>)
        ensures
            *r == Node::<S>::Constant(self),
    {
        Box::new(Node::Constant(self))
    }
}

impl From<bool> for LoafType {
    fn from(b: bool) -> (r: LoafType) {
        LoafType::Boolean(b)
    }
}

impl vstd::std_specs::convert::FromSpecImpl<bool> for LoafType {
    open spec fn obeys_from_spec() -> bool {
        true
    }

    open spec fn from_spec(b: bool) -> LoafType {
        LoafType::Boolean(b)
    }
}

impl From<isize> for LoafType {
    fn from(i: isize) -> (r: LoafType) {
        LoafType::Integer(i)
    }
}

impl vstd::std_specs::convert::FromSpecImpl<isize> for LoafType {
    open spec fn obeys_from_spec() -> bool {
        true
    }

    open spec fn from_spec(i: isize) -> LoafType {
        LoafType::Integer(i)
    }
}

impl core::ops::Add<LoafType> for LoafType {
    type Output = LoafType;

    fn add(self, rhs: LoafType) -> (r: LoafType) {
        match combine_values(Operator::Add, self, rhs) {
            Some(v) => v,
            None => self,
        }
    }
}

impl vstd::std_specs::ops::AddSpecImpl<LoafType> for LoafType {
    open spec fn obeys_add_spec() -> bool {
        true
    }

    open spec fn add_req(self, rhs: LoafType) -> bool {
        combine(Operator::Add, self, rhs) is Some
    }

    open spec fn add_spec(self, rhs: LoafType) -> LoafType {
        combine(Operator::Add, self, rhs)->0
    }
}

impl core::ops::Sub<LoafType> for LoafType {
    type Output = LoafType;

    fn sub(self, rhs: LoafType) -> (r: LoafType) {
        match combine_values(Operator::Sub, self, rhs) {
            Some(v) => v,
            None => self,
        }
    }
}

impl vstd::std_specs::ops::SubSpecImpl<LoafType> for LoafType {
    open spec fn obeys_sub_spec() -> bool {
        true
    }

    open spec fn sub_req(self, rhs: LoafType) -> bool {
        combine(Operator::Sub, self, rhs) is Some
    }

    open spec fn sub_spec(self, rhs: LoafType) -> LoafType {
        combine(Operator::Sub, self, rhs)->0
    }
}

impl core::ops::Mul<LoafType> for LoafType {
    type Output = LoafType;

    fn mul(self, rhs: LoafType) -> (r: LoafType) {
        match combine_values(Operator::Mul, self, rhs) {
            Some(v) => v,
            None => self,
        }
    }
}

impl vstd::std_specs::ops::MulSpecImpl<LoafType> for LoafType {
    open spec fn obeys_mul_spec() -> bool {
        true
    }

    open spec fn mul_req(self, rhs: LoafType) -> bool {
        combine(Operator::Mul, self, rhs) is Some
    }

    open spec fn mul_spec(self, rhs: LoafType) -> LoafType {
        combine(Operator::Mul, self, rhs)->0
    }
}

impl core::ops::Div<LoafType> for LoafType {
    type Output = LoafType;

    fn div(self, rhs: LoafType) -> (r: LoafType) {
        match combine_values(Operator::Div, self, rhs) {
            Some(v) => v,
            None => self,
        }
    }
}

impl vstd::std_specs::ops::DivSpecImpl<LoafType> for LoafType {
    open spec fn obeys_div_spec() -> bool {
        true
    }

    open spec fn div_req(self, rhs: LoafType) -> bool {
        combine(Operator::Div, self, rhs) is Some
    }

    open spec fn div_spec(self, rhs: LoafType) -> LoafType {
        combine(Operator::Div, self, rhs)->0
    }
}

/// The result of a binary operator on the values of two operands, where
/// both have a value.
pub open spec fn joint(op: Operator, lhs: Option<LoafType>, rhs: Option<LoafType>) -> Option<
    LoafType,
> {
    match (lhs, rhs) {
        (Some(l), Some(r)) => combine(op, l, r),
        _ => None,
    }
}

/// The value of a condition read as a boolean.
pub open spec fn as_truth(value: Option<LoafType>) -> Option<bool> {
    match value {
        Some(v) => Some(v.truth()),
        None => None,
    }
}

/// How often each state occurs in `neighborhood`.
pub open spec fn tallies<S, N: Neighborhood<S>>(neighborhood: &N) -> spec_fn(S) -> nat {
    |state: S| neighborhood.tally(state)
}

/// A node of an expression: something that has a value once it is known
/// how often each state occurs among the neighbours of a cell.
pub trait ASTNode<S: State, N: Neighborhood<S>> {
    /// The value of the node where `tally` says how often each state
    /// occurs; `None` where evaluation is an error.
    spec fn value(&self, tally: spec_fn(S) -> nat) -> Option<LoafType>;

    /// The value of the node in `neighborhood`; `None` where evaluation is
    /// an error.
    fn try_evaluate(&self, neighborhood: &N) -> (r: Option<LoafType>)
        ensures
            r == self.value(tallies(neighborhood)),
    ;

    /// The value of the node in `neighborhood`; the evaluation must not be
    /// an error.
    fn evaluate(&self, neighborhood: &N) -> (r: LoafType)
        requires
            self.value(tallies(neighborhood)) is Some,
        ensures
            Some(r) == self.value(tallies(neighborhood)),
    ;
}

impl<S: State, N: Neighborhood<S>> ASTNode<S, N> for LoafType {
    open spec fn value(&self, tally: spec_fn(S) -> nat) -> Option<LoafType> {
        Some(*self)
    }

    fn try_evaluate(&self, neighborhood: &N) -> (r: Option<LoafType>) {
        Some(*self)
    }

    fn evaluate(&self, neighborhood: &N) -> (r: LoafType) {
        *self
    }
}

/// An expression: a constant, a census, or a binary operator on two
/// expressions.
pub enum Node<S: State> {
    Constant(LoafType),
    Census(CensusNode<S>),
    Binary(BinaryNode<S>),
}

/// A binary operator on two expressions: both are evaluated, then the
/// operator is applied.
pub struct BinaryNode<S: State> {
    pub op: Operator,
    pub lhs: Box<Node<S>>,
    pub rhs: Box<Node<S>>,
}

/// The census primitive: the number of neighbours in a given state.
#[derive(Debug, Clone, Copy)]
pub struct CensusNode<S: State> {
    pub state: S,
}

/// The value of an expression where `tally` says how often each state
/// occurs; `None` where evaluation is an error.
pub open spec fn node_value<S: State>(node: Node<S>, tally: spec_fn(S) -> nat) -> Option<LoafType>
    decreases node,
{
    match node {
        Node::Constant(v) => Some(v),
        Node::Census(c) => integer(tally(c.state) as int),
        Node::Binary(b) => joint(b.op, node_value(*b.lhs, tally), node_value(*b.rhs, tally)),
    }
}

/// Evaluates an expression in `neighborhood`; `None` where evaluation is
/// an error.
pub fn evaluate_node<S: State, N: Neighborhood<S>>(node: &Node<S>, neighborhood: &N) -> (r: Option<
    LoafType,
>)
    ensures
        r == node_value(*node, tallies(neighborhood)),
    decreases *node,
{
    match node {
        Node::Constant(v) => Some(*v),
        Node::Census(c) => LoafType::from_count(neighborhood.count(c.state)),
        Node::Binary(b) => {
            let l = evaluate_node(&b.lhs, neighborhood);
            let r = evaluate_node(&b.rhs, neighborhood);
            match (l, r) {
                (Some(x), Some(y)) => combine_values(b.op, x, y),
                _ => None,
            }
        },
    }
}

impl<S: State> Node<S> {
    pub fn boxed(self) -> (r: Box<Node<S>>)
        ensures
            *r == self,
    {
        Box::new(self)
    }
}

impl<S: State, N: Neighborhood<S>> ASTNode<S, N> for Node<S> {
    open spec fn value(&self, tally: spec_fn(S) -> nat) -> Option<LoafType> {
        node_value(*self, tally)
    }

    fn try_evaluate(&self, neighborhood: &N) -> (r: Option<LoafType>) {
        evaluate_node(self, neighborhood)
    }

    fn evaluate(&self, neighborhood: &N) -> (r: LoafType) {
        match evaluate_node(self, neighborhood) {
            Some(v) => v,
            None => LoafType::Boolean(false),
        }
    }
}

impl<S: State> BinaryNode<S> {
    pub fn new(op: Operator, lhs: Box<Node<S>>, rhs: Box<Node<S>>) -> (r: Self)
        ensures
            r == (BinaryNode { op, lhs, rhs }),
    {
        BinaryNode { op, lhs, rhs }
    }

    pub fn boxed(self) -> (r: Box<Node<S>>)
        ensures
            *r == Node::Binary(self),
    {
        Box::new(Node::Binary(self))
    }
}

impl<S: State, N: Neighborhood<S>> ASTNode<S, N> for BinaryNode<S> {
    open spec fn value(&self, tally: spec_fn(S) -> nat) -> Option<LoafType> {
        joint(self.op, node_value(*self.lhs, tally), node_value(*self.rhs, tally))
    }

    fn try_evaluate(&self, neighborhood: &N) -> (r: Option<LoafType>) {
        let l = evaluate_node(&self.lhs, neighborhood);
        let r = evaluate_node(&self.rhs, neighborhood);
        match (l, r) {
            (Some(x), Some(y)) => combine_values(self.op, x, y),
            _ => None,
        }
    }

    fn evaluate(&self, neighborhood: &N) -> (r: LoafType) {
        match ASTNode::<S, N>::try_evaluate(self, neighborhood) {
            Some(v) => v,
            None => LoafType::Boolean(false),
        }
    }
}

/// The sum of two expressions.
pub struct AddNode {}

impl AddNode {
    pub fn new<S: State>(lhs: Box<Node<S>>, rhs: Box<Node<S>>) -> (r: BinaryNode<S>)
        ensures
            r == (BinaryNode { op: Operator::Add, lhs, rhs }),
    {
        BinaryNode { op: Operator::Add, lhs, rhs }
    }
}

/// The difference of two expressions.
pub struct SubNode {}

impl SubNode {
    pub fn new<S: State>(lhs: Box<Node<S>>, rhs: Box<Node<S>>) -> (r: BinaryNode<S>)
        ensures
            r == (BinaryNode { op: Operator::Sub, lhs, rhs }),
    {
        BinaryNode { op: Operator::Sub, lhs, rhs }
    }
}

/// The product of two expressions.
pub struct MulNode {}

impl MulNode {
    pub fn new<S: State>(lhs: Box<Node<S>>, rhs: Box<Node<S>>) -> (r: BinaryNode<S>)
        ensures
            r == (BinaryNode { op: Operator::Mul, lhs, rhs }),
    {
        BinaryNode { op: Operator::Mul, lhs, rhs }
    }
}

/// The quotient of two expressions.
pub struct DivNode {}

impl DivNode {
    pub fn new<S: State>(lhs: Box<Node<S>>, rhs: Box<Node<S>>) -> (r: BinaryNode<S>)
        ensures
            r == (BinaryNode { op: Operator::Div, lhs, rhs }),
    {
        BinaryNode { op: Operator::Div, lhs, rhs }
    }
}

/// Whether two expressions have the same value.
pub struct EqNode {}

impl EqNode {
    pub fn new<S: State>(lhs: Box<Node<S>>, rhs: Box<Node<S>>) -> (r: BinaryNode<S>)
        ensures
            r == (BinaryNode { op: Operator::Eq, lhs, rhs }),
    {
        BinaryNode { op: Operator::Eq, lhs, rhs }
    }
}

/// Whether two expressions have different values.
pub struct NeqNode {}

impl NeqNode {
    pub fn new<S: State>(lhs: Box<Node<S>>, rhs: Box<Node<S>>) -> (r: BinaryNode<S>)
        ensures
            r == (BinaryNode { op: Operator::Neq, lhs, rhs }),
    {
        BinaryNode { op: Operator::Neq, lhs, rhs }
    }
}

/// Whether the first expression exceeds the second.
pub struct GtNode {}

impl GtNode {
    pub fn new<S: State>(lhs: Box<Node<S>>, rhs: Box<Node<S>>) -> (r: BinaryNode<S>)
        ensures
            r == (BinaryNode { op: Operator::Gt, lhs, rhs }),
    {
        BinaryNode { op: Operator::Gt, lhs, rhs }
    }
}

/// Whether the first expression is at least the second.
pub struct GteNode {}

impl GteNode {
    pub fn new<S: State>(lhs: Box<Node<S>>, rhs: Box<Node<S>>) -> (r: BinaryNode<S>)
        ensures
            r == (BinaryNode { op: Operator::Gte, lhs, rhs }),
    {
        BinaryNode { op: Operator::Gte, lhs, rhs }
    }
}

/// Whether the first expression is below the second.
pub struct LtNode {}

impl LtNode {
    pub fn new<S: State>(lhs: Box<Node<S>>, rhs: Box<Node<S>>) -> (r: BinaryNode<S>)
        ensures
            r == (BinaryNode { op: Operator::Lt, lhs, rhs }),
    {
        BinaryNode { op: Operator::Lt, lhs, rhs }
    }
}

/// Whether the first expression is at most the second.
pub struct LteNode {}

impl LteNode {
    pub fn new<S: State>(lhs: Box<Node<S>>, rhs: Box<Node<S>>) -> (r: BinaryNode<S>)
        ensures
            r == (BinaryNode { op: Operator::Lte, lhs, rhs }),
    {
        BinaryNode { op: Operator::Lte, lhs, rhs }
    }
}

/// Whether both expressions hold.
pub struct AndNode {}

impl AndNode {
    pub fn new<S: State>(lhs: Box<Node<S>>, rhs: Box<Node<S>>) -> (r: BinaryNode<S>)
        ensures
            r == (BinaryNode { op: Operator::And, lhs, rhs }),
    {
        BinaryNode { op: Operator::And, lhs, rhs }
    }
}

/// Whether one of two expressions holds.
pub struct OrNode {}

impl OrNode {
    pub fn new<S: State>(lhs: Box<Node<S>>, rhs: Box<Node<S>>) -> (r: BinaryNode<S>)
        ensures
            r == (BinaryNode { op: Operator::Or, lhs, rhs }),
    {
        BinaryNode { op: Operator::Or, lhs, rhs }
    }
}

impl<S: State> CensusNode<S> {
    pub fn new(state: S) -> (r: Self)
        ensures
            r.state == state,
    {
        CensusNode { state }
    }

    pub fn boxed(self) -> (r: Box<Node<S>>)
        ensures
            *r == Node::Census(self),
    {
        Box::new(Node::Census(self))
    }
}

impl<S: State, N: Neighborhood<S>> ASTNode<S, N> for CensusNode<S> {
    open spec fn value(&self, tally: spec_fn(S) -> nat) -> Option<LoafType> {
        integer(tally(self.state) as int)
    }

    fn try_evaluate(&self, neighborhood: &N) -> (r: Option<LoafType>) {
        LoafType::from_count(neighborhood.count(self.state))
    }

    fn evaluate(&self, neighborhood: &N) -> (r: LoafType) {
        match LoafType::from_count(neighborhood.count(self.state)) {
            Some(v) => v,
            None => LoafType::Integer(0),
        }
    }
}

/// The root of a condition: an expression whose value is read as a
/// boolean.
pub struct ASTRoot<S: State, N: Neighborhood<S>> {
    pub child: Box<Node<S>>,
    pub phantom: PhantomData<(S, N)>,
}

impl<S: State, N: Neighborhood<S>> ASTRoot<S, N> {
    /// Whether the condition holds where `tally` says how often each state
    /// occurs; `None` where evaluation is an error.
    pub open spec fn holds(self, tally: spec_fn(S) -> nat) -> Option<bool> {
        as_truth(node_value(*self.child, tally))
    }

    pub fn new(child: Box<Node<S>>) -> (r: Self)
        ensures
            r.child == child,
    {
        ASTRoot { child, phantom: PhantomData }
    }

    /// Whether the condition holds in `neighborhood`; `None` where
    /// evaluation is an error.
    pub fn try_evaluate(&self, neighborhood: &N) -> (r: Option<bool>)
        ensures
            r == self.holds(tallies(neighborhood)),
    {
        match evaluate_node(&self.child, neighborhood) {
            Some(v) => Some(v.to_bool()),
            None => None,
        }
    }

    /// Whether the condition holds in `neighborhood`; the evaluation must
    /// not be an error.
    pub fn evaluate(&self, neighborhood: N) -> (r: bool)
        requires
            self.holds(tallies(&neighborhood)) is Some,
        ensures
            Some(r) == self.holds(tallies(&neighborhood)),
    {
        match self.try_evaluate(&neighborhood) {
            Some(b) => b,
            None => false,
        }
    }
}

/// The rules of an automaton: for a state at most one transition, with
/// its condition and the state it enters.
pub struct Ruleset<S: State, N: Neighborhood<S>> {
    rules: Vec<(S, (ASTRoot<S, N>, S))>,
}

/// Position of the last rule for `from` among `rules`, if there is one.
pub open spec fn last_rule<S: State, N: Neighborhood<S>>(
    rules: Seq<(S, (ASTRoot<S, N>, S))>,
    from: S,
) -> Option<int>
    decreases rules.len(),
{
    if rules.len() == 0 {
        None
    } else if rules.last().0 == from {
        Some(rules.len() - 1)
    } else {
        last_rule(rules.drop_last(), from)
    }
}

impl<S: State, N: Neighborhood<S>> Ruleset<S, N> {
    /// The rules as they were given.
    pub closed spec fn entries(self) -> Seq<(S, (ASTRoot<S, N>, S))> {
        self.rules@
    }

    /// The transition from `from`: its condition and the state it enters.
    /// Where several rules are given for a state the last one counts.
    pub open spec fn rule_for(self, from: S) -> Option<(ASTRoot<S, N>, S)> {
        match last_rule(self.entries(), from) {
            Some(i) => Some(self.entries()[i].1),
            None => None,
        }
    }

    /// What becomes of a cell in state `from` where `tally` says how often
    /// each state occurs among its neighbours: `Some(Some(to))` where the
    /// transition from `from` fires and enters `to`, `Some(None)` where it
    /// does not fire, `None` where there is no transition from `from` or
    /// evaluating its condition is an error.
    pub open spec fn decide(self, from: S, tally: spec_fn(S) -> nat) -> Option<Option<S>> {
        match self.rule_for(from) {
            Some((root, to)) => match root.holds(tally) {
                Some(true) => Some(Some(to)),
                Some(false) => Some(None),
                None => None,
            },
            None => None,
        }
    }

    pub fn new(rules: Vec<(S, (ASTRoot<S, N>, S))>) -> (r: Self)
        ensures
            r.entries() == rules@,
    {
        Ruleset { rules }
    }

    /// What becomes of a cell in state `from_state` with the neighbours
    /// `neighborhood`; the outer `None` where there is no transition from
    /// the state or evaluating its condition is an error.
    pub fn try_transition(&self, from_state: S, neighborhood: &N) -> (r: Option<Option<S>>)
        ensures
            r == self.decide(from_state, tallies(neighborhood)),
    {
        let mut i: usize = self.rules.len();
        assert(self.entries().take(i as int) =~= self.entries());
        while i > 0
            invariant
                i <= self.rules.len(),
                last_rule(self.entries(), from_state) == last_rule(
                    self.entries().take(i as int),
                    from_state,
                ),
            decreases i,
        {
            proof {
                let head = self.entries().take(i as int);
                assert(head.last() == self.entries()[i - 1]);
                assert(head.drop_last() =~= self.entries().take(i - 1));
            }
            i -= 1;
            if self.rules[i].0.same(&from_state) {
                let rule = &self.rules[i].1;
                return match rule.0.try_evaluate(neighborhood) {
                    Some(true) => Some(Some(rule.1)),
                    Some(false) => Some(None),
                    None => None,
                };
            }
        }
        None
    }

    /// The state that a cell in state `from_state` with the neighbours
    /// `neighborhood` enters, or `None` where its transition does not
    /// fire. There must be a transition from the state, and evaluating its
    /// condition must not be an error.
    pub fn transition(&self, from_state: S, neighborhood: N) -> (r: Option<S>)
        requires
            self.decide(from_state, tallies(&neighborhood)) is Some,
        ensures
            Some(r) == self.decide(from_state, tallies(&neighborhood)),
    {
        match self.try_transition(from_state, &neighborhood) {
            Some(r) => r,
            None => None,
        }
    }
}

} // verus!
