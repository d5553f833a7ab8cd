//! The rules block and the expressions of its conditions.

use vstd::prelude::*;
use crate::lang::runtime::ops::rules::BinaryOp;

verus! {

/// A leaf of a rule expression as it is written: a number, or the count of
/// a named state in the neighbourhood.
#[derive(Debug, Eq, PartialEq)]
pub enum RuleTerminal {
    Number(isize),
    Census(String),
}

/// A rule expression as it is written, with states by name.
#[derive(Debug, Eq, PartialEq)]
pub enum RuleASTNode {
    Terminal(RuleTerminal),
    Add { lhs: Box<RuleASTNode>, rhs: Box<RuleASTNode> },
    Sub { lhs: Box<RuleASTNode>, rhs: Box<RuleASTNode> },
    Mul { lhs: Box<RuleASTNode>, rhs: Box<RuleASTNode> },
    Div { lhs: Box<RuleASTNode>, rhs: Box<RuleASTNode> },
    And { lhs: Box<RuleASTNode>, rhs: Box<RuleASTNode> },
    Or { lhs: Box<RuleASTNode>, rhs: Box<RuleASTNode> },
    GreaterThan { lhs: Box<RuleASTNode>, rhs: Box<RuleASTNode> },
    GreaterThanOrEqualTo { lhs: Box<RuleASTNode>, rhs: Box<RuleASTNode> },
    LessThan { lhs: Box<RuleASTNode>, rhs: Box<RuleASTNode> },
    LessThanOrEqualTo { lhs: Box<RuleASTNode>, rhs: Box<RuleASTNode> },
    Equal { lhs: Box<RuleASTNode>, rhs: Box<RuleASTNode> },
    NotEqual { lhs: Box<RuleASTNode>, rhs: Box<RuleASTNode> },
}

/// The mathematical content of a written rule expression.
pub ghost enum ExprModel {
    Number(int),
    Census(Seq<char>),
    Binary { op: BinaryOp, lhs: Box<ExprModel>, rhs: Box<ExprModel> },
}

/// The mathematical content of a written transition.
pub ghost struct TransitionModel {
    pub from: Seq<char>,
    pub to: Seq<char>,
    pub root: ExprModel,
}

impl RuleASTNode {
    /// The expression as a mathematical value.
    pub open spec fn model(self) -> ExprModel
        decreases self,
    {
        match self {
            RuleASTNode::Terminal(RuleTerminal::Number(n)) => ExprModel::Number(n as int),
            RuleASTNode::Terminal(RuleTerminal::Census(name)) => ExprModel::Census(name@),
            RuleASTNode::Add { lhs, rhs } => ExprModel::Binary {
                op: BinaryOp::Add,
                lhs: Box::new(lhs.model()),
                rhs: Box::new(rhs.model()),
            },
            RuleASTNode::Sub { lhs, rhs } => ExprModel::Binary {
                op: BinaryOp::Sub,
                lhs: Box::new(lhs.model()),
                rhs: Box::new(rhs.model()),
            },
            RuleASTNode::Mul { lhs, rhs } => ExprModel::Binary {
                op: BinaryOp::Mul,
                lhs: Box::new(lhs.model()),
                rhs: Box::new(rhs.model()),
            },
            RuleASTNode::Div { lhs, rhs } => ExprModel::Binary {
                op: BinaryOp::Div,
                lhs: Box::new(lhs.model()),
                rhs: Box::new(rhs.model()),
            },
            RuleASTNode::And { lhs, rhs } => ExprModel::Binary {
                op: BinaryOp::And,
                lhs: Box::new(lhs.model()),
                rhs: Box::new(rhs.model()),
            },
            RuleASTNode::Or { lhs, rhs } => ExprModel::Binary {
                op: BinaryOp::Or,
                lhs: Box::new(lhs.model()),
                rhs: Box::new(rhs.model()),
            },
            RuleASTNode::GreaterThan { lhs, rhs } => ExprModel::Binary {
                op: BinaryOp::GreaterThan,
                lhs: Box::new(lhs.model()),
                rhs: Box::new(rhs.model()),
            },
            RuleASTNode::GreaterThanOrEqualTo { lhs, rhs } => ExprModel::Binary {
                op: BinaryOp::GreaterThanOrEqualTo,
                lhs: Box::new(lhs.model()),
                rhs: Box::new(rhs.model()),
            },
            RuleASTNode::LessThan { lhs, rhs } => ExprModel::Binary {
                op: BinaryOp::LessThan,
                lhs: Box::new(lhs.model()),
                rhs: Box::new(rhs.model()),
            },
            RuleASTNode::LessThanOrEqualTo { lhs, rhs } => ExprModel::Binary {
                op: BinaryOp::LessThanOrEqualTo,
                lhs: Box::new(lhs.model()),
                rhs: Box::new(rhs.model()),
            },
            RuleASTNode::Equal { lhs, rhs } => ExprModel::Binary {
                op: BinaryOp::Equal,
                lhs: Box::new(lhs.model()),
                rhs: Box::new(rhs.model()),
            },
            RuleASTNode::NotEqual { lhs, rhs } => ExprModel::Binary {
                op: BinaryOp::NotEqual,
                lhs: Box::new(lhs.model()),
                rhs: Box::new(rhs.model()),
            },
        }
    }

    /// The node of the operator `op` on two expressions.
    pub fn binary(op: BinaryOp, lhs: Box<RuleASTNode>, rhs: Box<RuleASTNode>) -> (r: RuleASTNode)
        ensures
            r.model() == (ExprModel::Binary {
                op,
                lhs: Box::new(lhs.model()),
                rhs: Box::new(rhs.model()),
            }),
    {
        match op {
            BinaryOp::Add => RuleASTNode::Add { lhs, rhs },
            BinaryOp::Sub => RuleASTNode::Sub { lhs, rhs },
            BinaryOp::Mul => RuleASTNode::Mul { lhs, rhs },
            BinaryOp::Div => RuleASTNode::Div { lhs, rhs },
            BinaryOp::And => RuleASTNode::And { lhs, rhs },
            BinaryOp::Or => RuleASTNode::Or { lhs, rhs },
            BinaryOp::GreaterThan => RuleASTNode::GreaterThan { lhs, rhs },
            BinaryOp::GreaterThanOrEqualTo => RuleASTNode::GreaterThanOrEqualTo { lhs, rhs },
            BinaryOp::LessThan => RuleASTNode::LessThan { lhs, rhs },
            BinaryOp::LessThanOrEqualTo => RuleASTNode::LessThanOrEqualTo { lhs, rhs },
            BinaryOp::Equal => RuleASTNode::Equal { lhs, rhs },
            BinaryOp::NotEqual => RuleASTNode::NotEqual { lhs, rhs },
        }
    }
}

/// The models of a sequence of transitions, in order.
pub open spec fn transition_models(rules: Seq<TransitionRule>) -> Seq<TransitionModel> {
    Seq::new(rules.len(), |i: int| rules[i].model())
}

/// One transition as it is written: a cell in state `from` becomes `to`
/// where `root` holds of its neighbourhood.
#[derive(Debug, Eq, PartialEq)]
pub struct TransitionRule {
    pub from: String,
    pub to: String,
    pub root: Box<RuleASTNode>,
}

/// The transitions of a program, in the order of their declaration.
#[derive(Debug, Eq, PartialEq)]
pub struct RulesBlock {
    rules: Vec<TransitionRule>,
}

impl TransitionRule {
    /// The transition as a mathematical value.
    pub open spec fn model(self) -> TransitionModel {
        TransitionModel { from: self.from@, to: self.to@, root: self.root.model() }
    }
}

impl RulesBlock {
    /// The transitions as mathematical values, in declaration order.
    pub open spec fn model(self) -> Seq<TransitionModel> {
        transition_models(self@)
    }

    /// The transitions, in declaration order.
    pub closed spec fn view(self) -> Seq<TransitionRule> {
        self.rules@
    }

    pub fn new(rules: Vec<TransitionRule>) -> (r: RulesBlock)
        ensures
            r@ == rules@,
    {
        RulesBlock { rules }
    }

    pub fn into_vec(self) -> (r: Vec<TransitionRule>)
        ensures
            r@ == self@,
    {
        self.rules
    }
}

} // verus!
