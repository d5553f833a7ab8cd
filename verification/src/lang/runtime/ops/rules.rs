//! Rule expressions, their values and the rule table.

use vstd::prelude::*;
use std::collections::HashMap;
use crate::lang::parse::Error;
use crate::lang::parse::blocks::rule::{RuleASTNode, RuleTerminal, RulesBlock, TransitionRule};
use crate::lang::runtime::StateId;
use crate::lang::runtime::datatypes::coords::fits;
use crate::lang::runtime::datatypes::states::{id_in, States};
use crate::lang::runtime::ops::{FromState, ToState};

verus! {

broadcast use vstd::std_specs::hash::group_hash_axioms;

/// The value of a rule expression: an integer or a boolean.
#[derive(Copy, Clone, Eq, PartialEq, Debug, Structural)]
pub enum RuleValue {
    Number(isize),
    Boolean(bool),
}

impl RuleValue {
    /// The value as a boolean: a boolean is itself, an integer is true
    /// unless it is zero.
    pub open spec fn truth(self) -> bool {
        match self {
            RuleValue::Boolean(b) => b,
            RuleValue::Number(n) => n != 0,
        }
    }

    /// Coerces the value to a boolean.
    pub fn to_bool(self) -> (r: bool)
        ensures
            r == self.truth(),
    {
        match self {
            RuleValue::Boolean(b) => b,
            RuleValue::Number(n) => n != 0,
        }
    }

    /// The sum of two integers; both values must be integers and the sum
    /// must be representable.
    pub fn add(self, other: RuleValue) -> (r: RuleValue)
        requires
            apply(BinaryOp::Add, self, other) is Some,
        ensures
            Some(r) == apply(BinaryOp::Add, self, other),
    {
        match apply_op(BinaryOp::Add, self, other) {
            Some(v) => v,
            None => self,
        }
    }

    /// The difference of two integers; both values must be integers and
    /// the difference must be representable.
    pub fn sub(self, other: RuleValue) -> (r: RuleValue)
        requires
            apply(BinaryOp::Sub, self, other) is Some,
        ensures
            Some(r) == apply(BinaryOp::Sub, self, other),
    {
        match apply_op(BinaryOp::Sub, self, other) {
            Some(v) => v,
            None => self,
        }
    }

    /// The product of two integers; both values must be integers and the
    /// product must be representable.
    pub fn mul(self, other: RuleValue) -> (r: RuleValue)
        requires
            apply(BinaryOp::Mul, self, other) is Some,
        ensures
            Some(r) == apply(BinaryOp::Mul, self, other),
    {
        match apply_op(BinaryOp::Mul, self, other) {
            Some(v) => v,
            None => self,
        }
    }

    /// The quotient of two integers, rounded towards zero; both values
    /// must be integers, the divisor must not be zero and the quotient
    /// must be representable.
    pub fn div(self, other: RuleValue) -> (r: RuleValue)
        requires
            apply(BinaryOp::Div, self, other) is Some,
        ensures
            Some(r) == apply(BinaryOp::Div, self, other),
    {
        match apply_op(BinaryOp::Div, self, other) {
            Some(v) => v,
            None => self,
        }
    }
}

/// The twelve binary operators of rule expressions.
#[derive(Copy, Clone, Eq, PartialEq, Debug, Structural)]
pub enum BinaryOp {
    Add,
    Sub,
    Mul,
    Div,
    Equal,
    NotEqual,
    GreaterThan,
    GreaterThanOrEqualTo,
    LessThan,
    LessThanOrEqualTo,
    And,
    Or,
}

/// The quotient of `a` by `b` rounded towards zero, for `b` other than
/// zero.
pub open spec fn quotient(a: int, b: int) -> int {
    if a >= 0 && b > 0 {
        a / b
    } else if a < 0 && b < 0 {
        (-a) / (-b)
    } else if a < 0 {
        -((-a) / b)
    } else {
        -(a / (-b))
    }
}

/// The integer as a value, where it is representable.
pub open spec fn number(v: int) -> Option<RuleValue> {
    if fits(v) {
        Some(RuleValue::Number(v as isize))
    } else {
        None
    }
}

/// The result of a binary operator on two values. `None` where the
/// operation is an error: arithmetic or an ordering on a boolean, a
/// division by zero, or a result that is not representable.
pub open spec fn apply(op: BinaryOp, lhs: RuleValue, rhs: RuleValue) -> Option<RuleValue> {
    match op {
        BinaryOp::Equal => Some(RuleValue::Boolean(lhs == rhs)),
        BinaryOp::NotEqual => Some(RuleValue::Boolean(lhs != rhs)),
        BinaryOp::And => Some(RuleValue::Boolean(lhs.truth() && rhs.truth())),
        BinaryOp::Or => Some(RuleValue::Boolean(lhs.truth() || rhs.truth())),
        _ => match (lhs, rhs) {
            (RuleValue::Number(a), RuleValue::Number(b)) => match op {
                BinaryOp::Add => number(a + b),
                BinaryOp::Sub => number(a - b),
                BinaryOp::Mul => number(a * b),
                BinaryOp::Div => if b == 0 {
                    None
                } else {
                    number(quotient(a as int, b as int))
                },
                BinaryOp::GreaterThan => Some(RuleValue::Boolean(a > b)),
                BinaryOp::GreaterThanOrEqualTo => Some(RuleValue::Boolean(a >= b)),
                BinaryOp::LessThan => Some(RuleValue::Boolean(a < b)),
                _ => Some(RuleValue::Boolean(a <= b)),
            },
            _ => None,
        },
    }
}

fn wrap_number(v: Option<isize>) -> (r: Option<RuleValue>)
    ensures
        r == match v {
            Some(n) => Some(RuleValue::Number(n)),
            None => None,
        },
{
    match v {
        Some(n) => Some(RuleValue::Number(n)),
        None => None,
    }
}

/// Applies a binary operator to two values; `None` where the operation is
/// an error.
pub fn apply_op(op: BinaryOp, lhs: RuleValue, rhs: RuleValue) -> (r: Option<RuleValue>)
    ensures
        r == apply(op, lhs, rhs),
{
    match op {
        BinaryOp::Equal => Some(RuleValue::Boolean(lhs == rhs)),
        BinaryOp::NotEqual => Some(RuleValue::Boolean(lhs != rhs)),
        BinaryOp::And => {
            let l = lhs.to_bool();
            let r = rhs.to_bool();
            Some(RuleValue::Boolean(l && r))
        },
        BinaryOp::Or => {
            let l = lhs.to_bool();
            let r = rhs.to_bool();
            Some(RuleValue::Boolean(l || r))
        },
        _ => match (lhs, rhs) {
            (RuleValue::Number(a), RuleValue::Number(b)) => match op {
                BinaryOp::Add => wrap_number(a.checked_add(b)),
                BinaryOp::Sub => wrap_number(a.checked_sub(b)),
                BinaryOp::Mul => wrap_number(a.checked_mul(b)),
                BinaryOp::Div => wrap_number(a.checked_div(b)),
                BinaryOp::GreaterThan => Some(RuleValue::Boolean(a > b)),
                BinaryOp::GreaterThanOrEqualTo => Some(RuleValue::Boolean(a >= b)),
                BinaryOp::LessThan => Some(RuleValue::Boolean(a < b)),
                _ => Some(RuleValue::Boolean(a <= b)),
            },
            _ => None,
        },
    }
}

/// Number of occurrences of `state` in `neighborhood`.
pub open spec fn occurrences(neighborhood: Seq<StateId>, state: StateId) -> nat
    decreases neighborhood.len(),
{
    if neighborhood.len() == 0 {
        0
    } else {
        occurrences(neighborhood.drop_last(), state) + if neighborhood.last() == state {
            1nat
        } else {
            0nat
        }
    }
}

/// The census of a state counts the state as often as the neighbourhood,
/// seen as a multiset, holds it.
pub proof fn lemma_occurrences_is_multiset_count(neighborhood: Seq<StateId>, state: StateId)
    ensures
        occurrences(neighborhood, state) == neighborhood.to_multiset().count(state),
        occurrences(neighborhood, state) <= neighborhood.len(),
    decreases neighborhood.len(),
{
    if neighborhood.len() == 0 {
        neighborhood.to_multiset_ensures();
        assert(neighborhood.to_multiset().len() == 0);
    } else {
        let front = neighborhood.drop_last();
        lemma_occurrences_is_multiset_count(front, state);
        front.to_multiset_ensures();
        assert(front.push(neighborhood.last()) =~= neighborhood);
    }
}

/// Counts the occurrences of `state` in `neighborhood`.
pub fn count_state(neighborhood: &Vec<StateId>, state: StateId) -> (r: usize)
    ensures
        r == occurrences(neighborhood@, state),
{
    let mut count: usize = 0;
    let mut i: usize = 0;
    while i < neighborhood.len()
        invariant
            i <= neighborhood.len(),
            count <= i,
            count == occurrences(neighborhood@.take(i as int), state),
        decreases neighborhood.len() - i,
    {
        proof {
            let next = neighborhood@.take(i + 1);
            assert(next.drop_last() =~= neighborhood@.take(i as int));
            assert(next.last() == neighborhood@[i as int]);
        }
        if neighborhood[i] == state {
            count += 1;
        }
        i += 1;
    }
    assert(neighborhood@.take(neighborhood.len() as int) =~= neighborhood@);
    count
}

/// Something that has a value in a neighbourhood: a constant, a census or
/// a whole expression.
pub trait RuleOperation {
    /// The value in `neighborhood`; `None` where evaluation is an error.
    spec fn value(&self, neighborhood: Seq<StateId>) -> Option<RuleValue>;

    /// Evaluates in `neighborhood`; the evaluation must not be an error.
    fn evaluate(&self, neighborhood: &Vec<StateId>) -> (r: RuleValue)
        requires
            self.value(neighborhood@) is Some,
        ensures
            Some(r) == self.value(neighborhood@),
    ;
}

impl RuleOperation for RuleValue {
    open spec fn value(&self, neighborhood: Seq<StateId>) -> Option<RuleValue> {
        Some(*self)
    }

    fn evaluate(&self, neighborhood: &Vec<StateId>) -> (r: RuleValue) {
        *self
    }
}

/// The census primitive: the number of neighbours in a given state.
#[derive(Copy, Clone, Eq, PartialEq, Debug, Structural)]
pub struct Census {
    state_id: StateId,
}

impl Census {
    /// The state that is counted.
    pub closed spec fn state(self) -> StateId {
        self.state_id
    }

    pub fn new(state_id: StateId) -> (r: Census)
        ensures
            r.state() == state_id,
    {
        Census { state_id }
    }

    pub fn boxed(state_id: StateId) -> (r: Box<Census>)
        ensures
            r.state() == state_id,
    {
        Box::new(Census::new(state_id))
    }

    /// The count of the state in `neighborhood` as a value; `None` where
    /// the count is not representable.
    pub fn try_evaluate(&self, neighborhood: &Vec<StateId>) -> (r: Option<RuleValue>)
        ensures
            r == self.value(neighborhood@),
    {
        let count = count_state(neighborhood, self.state_id);
        if count > isize::MAX as usize {
            None
        } else {
            Some(RuleValue::Number(count as isize))
        }
    }
}

impl RuleOperation for Census {
    open spec fn value(&self, neighborhood: Seq<StateId>) -> Option<RuleValue> {
        number(occurrences(neighborhood, self.state()) as int)
    }

    fn evaluate(&self, neighborhood: &Vec<StateId>) -> (r: RuleValue) {
        match self.try_evaluate(neighborhood) {
            Some(v) => v,
            None => RuleValue::Number(0),
        }
    }
}

/// A rule expression with states by identifier.
#[derive(Eq, PartialEq, Debug)]
pub enum RuleExpr {
    Value(RuleValue),
    Census(Census),
    Binary { op: BinaryOp, lhs: Box<RuleExpr>, rhs: Box<RuleExpr> },
}

impl RuleExpr {
    /// The value of the expression in `neighborhood`: both operands of an
    /// operator are evaluated, then the operator is applied. `None` where
    /// an operand or the operation is an error.
    pub open spec fn eval(self, neighborhood: Seq<StateId>) -> Option<RuleValue>
        decreases self,
    {
        match self {
            RuleExpr::Value(v) => Some(v),
            RuleExpr::Census(c) => c.value(neighborhood),
            RuleExpr::Binary { op, lhs, rhs } => match (
                lhs.eval(neighborhood),
                rhs.eval(neighborhood),
            ) {
                (Some(l), Some(r)) => apply(op, l, r),
                _ => None,
            },
        }
    }

    /// The constant `n`.
    pub fn number(n: isize) -> (r: RuleExpr)
        ensures
            r == RuleExpr::Value(RuleValue::Number(n)),
    {
        RuleExpr::Value(RuleValue::Number(n))
    }

    /// The constant `b`.
    pub fn boolean(b: bool) -> (r: RuleExpr)
        ensures
            r == RuleExpr::Value(RuleValue::Boolean(b)),
    {
        RuleExpr::Value(RuleValue::Boolean(b))
    }

    /// The census of `state_id`.
    pub fn census(state_id: StateId) -> (r: RuleExpr)
        ensures
            r matches RuleExpr::Census(c) && c.state() == state_id,
    {
        RuleExpr::Census(Census::new(state_id))
    }

    /// The operator `op` on two expressions.
    pub fn binary(op: BinaryOp, lhs: RuleExpr, rhs: RuleExpr) -> (r: RuleExpr)
        ensures
            r == (RuleExpr::Binary { op, lhs: Box::new(lhs), rhs: Box::new(rhs) }),
    {
        RuleExpr::Binary { op, lhs: Box::new(lhs), rhs: Box::new(rhs) }
    }

    /// The value of the expression in `neighborhood`; `None` where
    /// evaluation is an error.
    pub fn try_evaluate(&self, neighborhood: &Vec<StateId>) -> (r: Option<RuleValue>)
        ensures
            r == self.eval(neighborhood@),
        decreases self,
    {
        match self {
            RuleExpr::Value(v) => Some(*v),
            RuleExpr::Census(c) => c.try_evaluate(neighborhood),
            RuleExpr::Binary { op, lhs, rhs } => {
                let l = lhs.try_evaluate(neighborhood);
                let r = rhs.try_evaluate(neighborhood);
                match (l, r) {
                    (Some(a), Some(b)) => apply_op(*op, a, b),
                    _ => None,
                }
            },
        }
    }
}

impl RuleOperation for RuleExpr {
    open spec fn value(&self, neighborhood: Seq<StateId>) -> Option<RuleValue> {
        self.eval(neighborhood)
    }

    fn evaluate(&self, neighborhood: &Vec<StateId>) -> (r: RuleValue) {
        match self.try_evaluate(neighborhood) {
            Some(v) => v,
            None => RuleValue::Boolean(false),
        }
    }
}

/// The sum of two expressions.
pub struct AddOp {}

impl AddOp {
    pub fn new(lhs: Box<RuleExpr>, rhs: Box<RuleExpr>) -> (r: RuleExpr)
        ensures
            r == (RuleExpr::Binary { op: BinaryOp::Add, lhs, rhs }),
    {
        RuleExpr::Binary { op: BinaryOp::Add, lhs, rhs }
    }

    pub fn boxed(lhs: Box<RuleExpr>, rhs: Box<RuleExpr>) -> (r: Box<RuleExpr>)
        ensures
            *r == (RuleExpr::Binary { op: BinaryOp::Add, lhs, rhs }),
    {
        Box::new(RuleExpr::Binary { op: BinaryOp::Add, lhs, rhs })
    }
}

/// The difference of two expressions.
pub struct SubOp {}

impl SubOp {
    pub fn new(lhs: Box<RuleExpr>, rhs: Box<RuleExpr>) -> (r: RuleExpr)
        ensures
            r == (RuleExpr::Binary { op: BinaryOp::Sub, lhs, rhs }),
    {
        RuleExpr::Binary { op: BinaryOp::Sub, lhs, rhs }
    }

    pub fn boxed(lhs: Box<RuleExpr>, rhs: Box<RuleExpr>) -> (r: Box<RuleExpr>)
        ensures
            *r == (RuleExpr::Binary { op: BinaryOp::Sub, lhs, rhs }),
    {
        Box::new(RuleExpr::Binary { op: BinaryOp::Sub, lhs, rhs })
    }
}

/// The product of two expressions.
pub struct MulOp {}

impl MulOp {
    pub fn new(lhs: Box<RuleExpr>, rhs: Box<RuleExpr>) -> (r: RuleExpr)
        ensures
            r == (RuleExpr::Binary { op: BinaryOp::Mul, lhs, rhs }),
    {
        RuleExpr::Binary { op: BinaryOp::Mul, lhs, rhs }
    }

    pub fn boxed(lhs: Box<RuleExpr>, rhs: Box<RuleExpr>) -> (r: Box<RuleExpr>)
        ensures
            *r == (RuleExpr::Binary { op: BinaryOp::Mul, lhs, rhs }),
    {
        Box::new(RuleExpr::Binary { op: BinaryOp::Mul, lhs, rhs })
    }
}

/// The quotient of two expressions.
pub struct DivOp {}

impl DivOp {
    pub fn new(lhs: Box<RuleExpr>, rhs: Box<RuleExpr>) -> (r: RuleExpr)
        ensures
            r == (RuleExpr::Binary { op: BinaryOp::Div, lhs, rhs }),
    {
        RuleExpr::Binary { op: BinaryOp::Div, lhs, rhs }
    }

    pub fn boxed(lhs: Box<RuleExpr>, rhs: Box<RuleExpr>) -> (r: Box<RuleExpr>)
        ensures
            *r == (RuleExpr::Binary { op: BinaryOp::Div, lhs, rhs }),
    {
        Box::new(RuleExpr::Binary { op: BinaryOp::Div, lhs, rhs })
    }
}

/// Whether two expressions have the same value.
pub struct EqOp {}

impl EqOp {
    pub fn new(lhs: Box<RuleExpr>, rhs: Box<RuleExpr>) -> (r: RuleExpr)
        ensures
            r == (RuleExpr::Binary { op: BinaryOp::Equal, lhs, rhs }),
    {
        RuleExpr::Binary { op: BinaryOp::Equal, lhs, rhs }
    }

    pub fn boxed(lhs: Box<RuleExpr>, rhs: Box<RuleExpr>) -> (r: Box<RuleExpr>)
        ensures
            *r == (RuleExpr::Binary { op: BinaryOp::Equal, lhs, rhs }),
    {
        Box::new(RuleExpr::Binary { op: BinaryOp::Equal, lhs, rhs })
    }
}

/// Whether two expressions have different values.
pub struct NeqOp {}

impl NeqOp {
    pub fn new(lhs: Box<RuleExpr>, rhs: Box<RuleExpr>) -> (r: RuleExpr)
        ensures
            r == (RuleExpr::Binary { op: BinaryOp::NotEqual, lhs, rhs }),
    {
        RuleExpr::Binary { op: BinaryOp::NotEqual, lhs, rhs }
    }

    pub fn boxed(lhs: Box<RuleExpr>, rhs: Box<RuleExpr>) -> (r: Box<RuleExpr>)
        ensures
            *r == (RuleExpr::Binary { op: BinaryOp::NotEqual, lhs, rhs }),
    {
        Box::new(RuleExpr::Binary { op: BinaryOp::NotEqual, lhs, rhs })
    }
}

/// Whether the first expression exceeds the second.
pub struct GtOp {}

impl GtOp {
    pub fn new(lhs: Box<RuleExpr>, rhs: Box<RuleExpr>) -> (r: RuleExpr)
        ensures
            r == (RuleExpr::Binary { op: BinaryOp::GreaterThan, lhs, rhs }),
    {
        RuleExpr::Binary { op: BinaryOp::GreaterThan, lhs, rhs }
    }

    pub fn boxed(lhs: Box<RuleExpr>, rhs: Box<RuleExpr>) -> (r: Box<RuleExpr>)
        ensures
            *r == (RuleExpr::Binary { op: BinaryOp::GreaterThan, lhs, rhs }),
    {
        Box::new(RuleExpr::Binary { op: BinaryOp::GreaterThan, lhs, rhs })
    }
}

/// Whether the first expression is at least the second.
pub struct GteOp {}

impl GteOp {
    pub fn new(lhs: Box<RuleExpr>, rhs: Box<RuleExpr>) -> (r: RuleExpr)
        ensures
            r == (RuleExpr::Binary { op: BinaryOp::GreaterThanOrEqualTo, lhs, rhs }),
    {
        RuleExpr::Binary { op: BinaryOp::GreaterThanOrEqualTo, lhs, rhs }
    }

    pub fn boxed(lhs: Box<RuleExpr>, rhs: Box<RuleExpr>) -> (r: Box<RuleExpr>)
        ensures
            *r == (RuleExpr::Binary { op: BinaryOp::GreaterThanOrEqualTo, lhs, rhs }),
    {
        Box::new(RuleExpr::Binary { op: BinaryOp::GreaterThanOrEqualTo, lhs, rhs })
    }
}

/// Whether the first expression is below the second.
pub struct LtOp {}

impl LtOp {
    pub fn new(lhs: Box<RuleExpr>, rhs: Box<RuleExpr>) -> (r: RuleExpr)
        ensures
            r == (RuleExpr::Binary { op: BinaryOp::LessThan, lhs, rhs }),
    {
        RuleExpr::Binary { op: BinaryOp::LessThan, lhs, rhs }
    }

    pub fn boxed(lhs: Box<RuleExpr>, rhs: Box<RuleExpr>) -> (r: Box<RuleExpr>)
        ensures
            *r == (RuleExpr::Binary { op: BinaryOp::LessThan, lhs, rhs }),
    {
        Box::new(RuleExpr::Binary { op: BinaryOp::LessThan, lhs, rhs })
    }
}

/// Whether the first expression is at most the second.
pub struct LteOp {}

impl LteOp {
    pub fn new(lhs: Box<RuleExpr>, rhs: Box<RuleExpr>) -> (r: RuleExpr)
        ensures
            r == (RuleExpr::Binary { op: BinaryOp::LessThanOrEqualTo, lhs, rhs }),
    {
        RuleExpr::Binary { op: BinaryOp::LessThanOrEqualTo, lhs, rhs }
    }

    pub fn boxed(lhs: Box<RuleExpr>, rhs: Box<RuleExpr>) -> (r: Box<RuleExpr>)
        ensures
            *r == (RuleExpr::Binary { op: BinaryOp::LessThanOrEqualTo, lhs, rhs }),
    {
        Box::new(RuleExpr::Binary { op: BinaryOp::LessThanOrEqualTo, lhs, rhs })
    }
}

/// Whether both expressions hold.
pub struct AndOp {}

impl AndOp {
    pub fn new(lhs: Box<RuleExpr>, rhs: Box<RuleExpr>) -> (r: RuleExpr)
        ensures
            r == (RuleExpr::Binary { op: BinaryOp::And, lhs, rhs }),
    {
        RuleExpr::Binary { op: BinaryOp::And, lhs, rhs }
    }

    pub fn boxed(lhs: Box<RuleExpr>, rhs: Box<RuleExpr>) -> (r: Box<RuleExpr>)
        ensures
            *r == (RuleExpr::Binary { op: BinaryOp::And, lhs, rhs }),
    {
        Box::new(RuleExpr::Binary { op: BinaryOp::And, lhs, rhs })
    }
}

/// Whether one of two expressions holds.
pub struct OrOp {}

impl OrOp {
    pub fn new(lhs: Box<RuleExpr>, rhs: Box<RuleExpr>) -> (r: RuleExpr)
        ensures
            r == (RuleExpr::Binary { op: BinaryOp::Or, lhs, rhs }),
    {
        RuleExpr::Binary { op: BinaryOp::Or, lhs, rhs }
    }

    pub fn boxed(lhs: Box<RuleExpr>, rhs: Box<RuleExpr>) -> (r: Box<RuleExpr>)
        ensures
            *r == (RuleExpr::Binary { op: BinaryOp::Or, lhs, rhs }),
    {
        Box::new(RuleExpr::Binary { op: BinaryOp::Or, lhs, rhs })
    }
}

/// The operator `op` on two resolved operands, where both are resolved.
pub open spec fn joined(op: BinaryOp, lhs: Option<RuleExpr>, rhs: Option<RuleExpr>) -> Option<
    RuleExpr,
> {
    match (lhs, rhs) {
        (Some(l), Some(r)) => Some(RuleExpr::Binary { op, lhs: Box::new(l), rhs: Box::new(r) }),
        _ => None,
    }
}

/// The expression that a written expression stands for once every state
/// name is resolved among `names`; `None` where a name is not declared.
pub open spec fn resolve(node: RuleASTNode, names: Seq<Seq<char>>) -> Option<RuleExpr>
    decreases node,
{
    match node {
        RuleASTNode::Terminal(RuleTerminal::Number(n)) => Some(RuleExpr::Value(RuleValue::Number(n))),
        RuleASTNode::Terminal(RuleTerminal::Census(name)) => match id_in(names, name@) {
            Some(id) => Some(RuleExpr::Census(census_of(id))),
            None => None,
        },
        RuleASTNode::Add { lhs, rhs } => joined(
            BinaryOp::Add,
            resolve(*lhs, names),
            resolve(*rhs, names),
        ),
        RuleASTNode::Sub { lhs, rhs } => joined(
            BinaryOp::Sub,
            resolve(*lhs, names),
            resolve(*rhs, names),
        ),
        RuleASTNode::Mul { lhs, rhs } => joined(
            BinaryOp::Mul,
            resolve(*lhs, names),
            resolve(*rhs, names),
        ),
        RuleASTNode::Div { lhs, rhs } => joined(
            BinaryOp::Div,
            resolve(*lhs, names),
            resolve(*rhs, names),
        ),
        RuleASTNode::And { lhs, rhs } => joined(
            BinaryOp::And,
            resolve(*lhs, names),
            resolve(*rhs, names),
        ),
        RuleASTNode::Or { lhs, rhs } => joined(
            BinaryOp::Or,
            resolve(*lhs, names),
            resolve(*rhs, names),
        ),
        RuleASTNode::GreaterThan { lhs, rhs } => joined(
            BinaryOp::GreaterThan,
            resolve(*lhs, names),
            resolve(*rhs, names),
        ),
        RuleASTNode::GreaterThanOrEqualTo { lhs, rhs } => joined(
            BinaryOp::GreaterThanOrEqualTo,
            resolve(*lhs, names),
            resolve(*rhs, names),
        ),
        RuleASTNode::LessThan { lhs, rhs } => joined(
            BinaryOp::LessThan,
            resolve(*lhs, names),
            resolve(*rhs, names),
        ),
        RuleASTNode::LessThanOrEqualTo { lhs, rhs } => joined(
            BinaryOp::LessThanOrEqualTo,
            resolve(*lhs, names),
            resolve(*rhs, names),
        ),
        RuleASTNode::Equal { lhs, rhs } => joined(
            BinaryOp::Equal,
            resolve(*lhs, names),
            resolve(*rhs, names),
        ),
        RuleASTNode::NotEqual { lhs, rhs } => joined(
            BinaryOp::NotEqual,
            resolve(*lhs, names),
            resolve(*rhs, names),
        ),
    }
}

/// The census of the state `id`.
pub closed spec fn census_of(id: StateId) -> Census {
    Census { state_id: id }
}

fn join(
    Ghost(parent): Ghost<RuleASTNode>,
    op: BinaryOp,
    lhs: &RuleASTNode,
    rhs: &RuleASTNode,
    states: &States,
) -> (r: Result<RuleExpr, Error>)
    requires
        states.wf(),
        decreases_to!(parent => *lhs),
        decreases_to!(parent => *rhs),
    ensures
        match joined(op, resolve(*lhs, states.names()), resolve(*rhs, states.names())) {
            Some(e) => r == Ok::<RuleExpr, Error>(e),
            None => r == Err::<RuleExpr, Error>(Error::UnknownState),
        },
    decreases parent, 0nat,
{
    let l = build_ast(lhs, states);
    let r = build_ast(rhs, states);
    match (l, r) {
        (Ok(a), Ok(b)) => Ok(RuleExpr::Binary { op, lhs: Box::new(a), rhs: Box::new(b) }),
        _ => Err(Error::UnknownState),
    }
}

/// Resolves the state names of a written expression. Fails with
/// `UnknownState` exactly where a census names a state that is not
/// declared.
pub fn build_ast(node: &RuleASTNode, states: &States) -> (r: Result<RuleExpr, Error>)
    requires
        states.wf(),
    ensures
        match resolve(*node, states.names()) {
            Some(e) => r == Ok::<RuleExpr, Error>(e),
            None => r == Err::<RuleExpr, Error>(Error::UnknownState),
        },
    decreases *node, 1nat,
{
    match node {
        RuleASTNode::Terminal(t) => match t {
            RuleTerminal::Number(n) => Ok(RuleExpr::Value(RuleValue::Number(*n))),
            RuleTerminal::Census(name) => match states.name_to_id(name.as_str()) {
                Some(id) => Ok(RuleExpr::Census(Census::new(id))),
                None => Err(Error::UnknownState),
            },
        },
        RuleASTNode::Add { lhs, rhs } => join(Ghost(*node), BinaryOp::Add, lhs, rhs, states),
        RuleASTNode::Sub { lhs, rhs } => join(Ghost(*node), BinaryOp::Sub, lhs, rhs, states),
        RuleASTNode::Mul { lhs, rhs } => join(Ghost(*node), BinaryOp::Mul, lhs, rhs, states),
        RuleASTNode::Div { lhs, rhs } => join(Ghost(*node), BinaryOp::Div, lhs, rhs, states),
        RuleASTNode::And { lhs, rhs } => join(Ghost(*node), BinaryOp::And, lhs, rhs, states),
        RuleASTNode::Or { lhs, rhs } => join(Ghost(*node), BinaryOp::Or, lhs, rhs, states),
        RuleASTNode::GreaterThan { lhs, rhs } => join(Ghost(*node), BinaryOp::GreaterThan, lhs, rhs, states),
        RuleASTNode::GreaterThanOrEqualTo { lhs, rhs } => join(Ghost(*node), BinaryOp::GreaterThanOrEqualTo,
            lhs,
            rhs,
            states,
        ),
        RuleASTNode::LessThan { lhs, rhs } => join(Ghost(*node), BinaryOp::LessThan, lhs, rhs, states),
        RuleASTNode::LessThanOrEqualTo { lhs, rhs } => join(Ghost(*node), BinaryOp::LessThanOrEqualTo,
            lhs,
            rhs,
            states,
        ),
        RuleASTNode::Equal { lhs, rhs } => join(Ghost(*node), BinaryOp::Equal, lhs, rhs, states),
        RuleASTNode::NotEqual { lhs, rhs } => join(Ghost(*node), BinaryOp::NotEqual, lhs, rhs, states),
    }
}


/// A written transition with its state names resolved among `names`: the
/// state it leaves, the state it enters and its condition. `None` where a
/// name is not declared.
pub open spec fn resolved_rule(rule: TransitionRule, names: Seq<Seq<char>>) -> Option<
    (FromState, ToState, RuleExpr),
> {
    match (id_in(names, rule.from@), id_in(names, rule.to@), resolve(*rule.root, names)) {
        (Some(from), Some(to), Some(expr)) => Some((from, to, expr)),
        _ => None,
    }
}

/// The transitions among `rules` that leave the state `from`, in the order
/// of their declaration; transitions that do not resolve are passed over.
pub open spec fn transitions_from(
    rules: Seq<TransitionRule>,
    names: Seq<Seq<char>>,
    from: FromState,
) -> Seq<(ToState, RuleExpr)>
    decreases rules.len(),
{
    if rules.len() == 0 {
        Seq::empty()
    } else {
        let before = transitions_from(rules.drop_last(), names, from);
        match resolved_rule(rules.last(), names) {
            Some((f, to, expr)) => if f == from {
                before.push((to, expr))
            } else {
                before
            },
            None => before,
        }
    }
}

/// The state that the first transition of `bucket` whose condition holds
/// in `neighborhood` enters: `Some(None)` where no condition holds, and
/// `None` where evaluating a condition, up to the first that holds, is an
/// error.
pub open spec fn first_match(bucket: Seq<(ToState, RuleExpr)>, neighborhood: Seq<StateId>) -> Option<
    Option<StateId>,
>
    decreases bucket.len(),
{
    if bucket.len() == 0 {
        Some(None)
    } else {
        match bucket[0].1.eval(neighborhood) {
            None => None,
            Some(v) => if v.truth() {
                Some(Some(bucket[0].0))
            } else {
                first_match(bucket.skip(1), neighborhood)
            },
        }
    }
}

/// The transitions that `table` holds for the state `from`.
pub open spec fn bucket_of(table: Map<FromState, Vec<(ToState, RuleExpr)>>, from: FromState) -> Seq<
    (ToState, RuleExpr),
> {
    if table.contains_key(from) {
        table[from]@
    } else {
        Seq::empty()
    }
}

/// The rule table: for each state the transitions that leave it, in the
/// order of their declaration.
pub struct Rules {
    rules: HashMap<FromState, Vec<(ToState, RuleExpr)>>,
}

impl Rules {
    /// The transitions that leave `from`, in declaration order.
    pub closed spec fn bucket(self, from: FromState) -> Seq<(ToState, RuleExpr)> {
        bucket_of(self.rules@, from)
    }

    /// What becomes of a cell in `state` with the neighbourhood
    /// `neighborhood`: `Some(Some(to))` where the first transition whose
    /// condition holds enters `to`, `Some(None)` where no condition holds,
    /// `None` where evaluating a condition is an error.
    pub open spec fn outcome(self, state: StateId, neighborhood: Seq<StateId>) -> Option<
        Option<StateId>,
    > {
        first_match(self.bucket(state), neighborhood)
    }

    /// Builds the table of a rules block, with state names resolved in
    /// `states`. Fails with `UnknownState` exactly where a transition
    /// names a state that is not declared.
    pub fn from_block(block: RulesBlock, states: &States) -> (r: Result<Rules, Error>)
        requires
            states.wf(),
        ensures
            match r {
                Ok(table) => {
                    &&& forall|i: int|
                        0 <= i < block@.len() ==> resolved_rule(#[trigger] block@[i], states.names()) is Some
                    &&& forall|from: FromState| #[trigger]
                        table.bucket(from) == transitions_from(block@, states.names(), from)
                },
                Err(e) => e == Error::UnknownState && exists|i: int|
                    0 <= i < block@.len() && resolved_rule(#[trigger] block@[i], states.names()) is None,
            },
    {
        let written = block.into_vec();
        let mut rules: HashMap<FromState, Vec<(ToState, RuleExpr)>> = HashMap::new();
        let mut i: usize = 0;
        while i < written.len()
            invariant
                i <= written.len(),
                written@ == block@,
                states.wf(),
                forall|k: int| 0 <= k < i ==> resolved_rule(#[trigger] written@[k], states.names()) is Some,
                forall|from: FromState| #[trigger]
                    bucket_of(rules@, from) == transitions_from(
                        written@.take(i as int),
                        states.names(),
                        from,
                    ),
            decreases written.len() - i,
        {
            let rule = &written[i];
            proof {
                let next = written@.take(i + 1);
                assert(next.drop_last() =~= written@.take(i as int));
                assert(next.last() == written@[i as int]);
            }
            let from = match states.name_to_id(rule.from.as_str()) {
                Some(id) => id,
                None => {
                    return Err(Error::UnknownState);
                },
            };
            let to = match states.name_to_id(rule.to.as_str()) {
                Some(id) => id,
                None => {
                    return Err(Error::UnknownState);
                },
            };
            let expr = match build_ast(&rule.root, states) {
                Ok(e) => e,
                Err(_) => {
                    return Err(Error::UnknownState);
                },
            };
            let ghost before = rules@;
            let mut bucket: Vec<(ToState, RuleExpr)> = match rules.remove(&from) {
                Some(b) => b,
                None => Vec::new(),
            };
            assert(bucket@ == bucket_of(before, from));
            bucket.push((to, expr));
            rules.insert(from, bucket);
            proof {
                assert forall|f: FromState| #[trigger]
                    bucket_of(rules@, f) == transitions_from(written@.take(i + 1), states.names(), f) by {
                    assert(bucket_of(before, f) == transitions_from(
                        written@.take(i as int),
                        states.names(),
                        f,
                    ));
                    if f != from {
                        assert(rules@.contains_key(f) == before.contains_key(f));
                    }
                }
            }
            i += 1;
        }
        assert(written@.take(written.len() as int) =~= written@);
        Ok(Rules { rules })
    }

    /// What becomes of a cell in `state` with the neighbourhood
    /// `neighborhood`; the outer `None` where evaluating a condition is an
    /// error.
    pub fn try_evaluate(&self, state: StateId, neighborhood: &Vec<StateId>) -> (r: Option<
        Option<StateId>,
    >)
        ensures
            r == self.outcome(state, neighborhood@),
    {
        let bucket = match self.rules.get(&state) {
            Some(b) => b,
            None => {
                return Some(None);
            },
        };
        assert(bucket@ == self.bucket(state));
        let mut i: usize = 0;
        assert(bucket@.skip(0) =~= bucket@);
        while i < bucket.len()
            invariant
                i <= bucket.len(),
                bucket@ == self.bucket(state),
                first_match(bucket@.skip(i as int), neighborhood@) == first_match(
                    bucket@,
                    neighborhood@,
                ),
            decreases bucket.len() - i,
        {
            let ghost rest = bucket@.skip(i as int);
            assert(rest[0] == bucket@[i as int]);
            assert(rest.skip(1) =~= bucket@.skip(i + 1));
            match bucket[i].1.try_evaluate(neighborhood) {
                None => {
                    return None;
                },
                Some(v) => {
                    if v.to_bool() {
                        return Some(Some(bucket[i].0));
                    }
                },
            }
            i += 1;
        }
        Some(None)
    }

    /// The state that a cell in `state` with the neighbourhood
    /// `neighborhood` enters, or `None` where no transition fires; no
    /// condition that is evaluated may be an error.
    pub fn evaluate(&self, state: StateId, neighborhood: Vec<StateId>) -> (r: Option<StateId>)
        requires
            self.outcome(state, neighborhood@) is Some,
        ensures
            Some(r) == self.outcome(state, neighborhood@),
    {
        match self.try_evaluate(state, &neighborhood) {
            Some(r) => r,
            None => None,
        }
    }
}

} // verus!
