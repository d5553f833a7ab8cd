use loaf_lang::lang::parse::blocks::rule::{RuleASTNode, RuleTerminal, RulesBlock, TransitionRule};
use loaf_lang::lang::runtime::datatypes::states::{States, DEFAULT_COLOR};
use loaf_lang::lang::runtime::ops::rules::{
    AddOp, AndOp, Census, DivOp, EqOp, GtOp, GteOp, LtOp, LteOp, MulOp, NeqOp, OrOp, RuleExpr,
    RuleOperation, RuleValue, Rules, SubOp,
};

const STATE_A: usize = 0;
const STATE_B: usize = 1;

/// The registry of the two states `A` and `B`.
fn state_map() -> States {
    States::new(
        vec!["A".to_string(), "B".to_string()],
        vec![DEFAULT_COLOR, DEFAULT_COLOR],
        None,
    )
}

#[test]
fn add_constants() {
    let ops = AddOp::boxed(
        Box::new(RuleExpr::number(1)),
        Box::new(RuleExpr::number(1))
    );
    assert_eq!(ops.evaluate(&vec!()), RuleValue::Number(2));
}

#[test]
fn sub_constants() {
    let ops = SubOp::boxed(
        Box::new(RuleExpr::number(1)),
        Box::new(RuleExpr::number(1))
    );
    assert_eq!(ops.evaluate(&vec!()), RuleValue::Number(0));
}

#[test]
fn mul_constants() {
    let ops = MulOp::boxed(
        Box::new(RuleExpr::number(5)),
        Box::new(RuleExpr::number(2))
    );
    assert_eq!(ops.evaluate(&vec!()), RuleValue::Number(10));
}

#[test]
fn div_constants() {
    let ops = DivOp::boxed(
        Box::new(RuleExpr::number(10)),
        Box::new(RuleExpr::number(2))
    );
    assert_eq!(ops.evaluate(&vec!()), RuleValue::Number(5));
}

#[test]
fn gt_constants() {
    let ops_true = GtOp::boxed(
        Box::new(RuleExpr::number(2)),
        Box::new(RuleExpr::number(1))
    );
    let ops_false = GtOp::boxed(
        Box::new(RuleExpr::number(1)),
        Box::new(RuleExpr::number(2))
    );
    let ops_false_eq = GtOp::boxed(
        Box::new(RuleExpr::number(1)),
        Box::new(RuleExpr::number(1))
    );
    assert_eq!(ops_true.evaluate(&vec!()), RuleValue::Boolean(true));
    assert_eq!(ops_false.evaluate(&vec!()), RuleValue::Boolean(false));
    assert_eq!(ops_false_eq.evaluate(&vec!()), RuleValue::Boolean(false));
}

#[test]
fn gte_constants() {
    let ops_true = GteOp::boxed(
        Box::new(RuleExpr::number(2)),
        Box::new(RuleExpr::number(1))
    );
    let ops_true_eq = GteOp::boxed(
        Box::new(RuleExpr::number(1)),
        Box::new(RuleExpr::number(1))
    );
    let ops_false = GteOp::boxed(
        Box::new(RuleExpr::number(1)),
        Box::new(RuleExpr::number(2))
    );
    assert_eq!(ops_true.evaluate(&vec!()), RuleValue::Boolean(true));
    assert_eq!(ops_true_eq.evaluate(&vec!()), RuleValue::Boolean(true));
    assert_eq!(ops_false.evaluate(&vec!()), RuleValue::Boolean(false));
}

#[test]
fn lt_constants() {
    let ops_true = LtOp::boxed(
        Box::new(RuleExpr::number(1)),
        Box::new(RuleExpr::number(2))
    );
    let ops_false = LtOp::boxed(
        Box::new(RuleExpr::number(2)),
        Box::new(RuleExpr::number(1))
    );
    let ops_false_eq = LtOp::boxed(
        Box::new(RuleExpr::number(1)),
        Box::new(RuleExpr::number(1))
    );
    assert_eq!(ops_true.evaluate(&vec!()), RuleValue::Boolean(true));
    assert_eq!(ops_false.evaluate(&vec!()), RuleValue::Boolean(false));
    assert_eq!(ops_false_eq.evaluate(&vec!()), RuleValue::Boolean(false));
}

#[test]
fn lte_constants() {
    let ops_true = LteOp::boxed(
        Box::new(RuleExpr::number(1)),
        Box::new(RuleExpr::number(2))
    );
    let ops_true_eq = LteOp::boxed(
        Box::new(RuleExpr::number(1)),
        Box::new(RuleExpr::number(1))
    );
    let ops_false = LteOp::boxed(
        Box::new(RuleExpr::number(2)),
        Box::new(RuleExpr::number(1))
    );
    assert_eq!(ops_true.evaluate(&vec!()), RuleValue::Boolean(true));
    assert_eq!(ops_true_eq.evaluate(&vec!()), RuleValue::Boolean(true));
    assert_eq!(ops_false.evaluate(&vec!()), RuleValue::Boolean(false));
}

#[test]
fn eq_constants() {
    let ops_true = EqOp::boxed(
        Box::new(RuleExpr::number(1)),
        Box::new(RuleExpr::number(1))
    );
    let ops_false = EqOp::boxed(
        Box::new(RuleExpr::number(2)),
        Box::new(RuleExpr::number(1))
    );
    assert_eq!(ops_true.evaluate(&vec!()), RuleValue::Boolean(true));
    assert_eq!(ops_false.evaluate(&vec!()), RuleValue::Boolean(false));
}

#[test]
fn neq_constants() {
    let ops_true = NeqOp::boxed(
        Box::new(RuleExpr::number(2)),
        Box::new(RuleExpr::number(1))
    );
    let ops_false = NeqOp::boxed(
        Box::new(RuleExpr::number(1)),
        Box::new(RuleExpr::number(1))
    );
    assert_eq!(ops_true.evaluate(&vec!()), RuleValue::Boolean(true));
    assert_eq!(ops_false.evaluate(&vec!()), RuleValue::Boolean(false));
}

#[test]
fn and_constants() {
    let ops_true = AndOp::boxed(
        Box::new(RuleExpr::boolean(true)),
        Box::new(RuleExpr::boolean(true))
    );
    let ops_false = AndOp::boxed(
        Box::new(RuleExpr::boolean(false)),
        Box::new(RuleExpr::boolean(true))
    );
    assert_eq!(ops_true.evaluate(&vec!()), RuleValue::Boolean(true));
    assert_eq!(ops_false.evaluate(&vec!()), RuleValue::Boolean(false));
}

#[test]
fn or_constants() {
    let ops_true_both = OrOp::boxed(
        Box::new(RuleExpr::boolean(true)),
        Box::new(RuleExpr::boolean(true))
    );
    let ops_true_one = OrOp::boxed(
        Box::new(RuleExpr::boolean(false)),
        Box::new(RuleExpr::boolean(true))
    );
    let ops_false = OrOp::boxed(
        Box::new(RuleExpr::boolean(false)),
        Box::new(RuleExpr::boolean(false))
    );
    assert_eq!(ops_true_both.evaluate(&vec!()), RuleValue::Boolean(true));
    assert_eq!(ops_true_one.evaluate(&vec!()), RuleValue::Boolean(true));
    assert_eq!(ops_false.evaluate(&vec!()), RuleValue::Boolean(false));
}

#[test]
fn census() {
    let ops = Census::boxed(1);
    assert_eq!(ops.evaluate(&vec!(0, 1, 1, 2, 2, 2)), RuleValue::Number(2));
}

#[test]
fn constant() {
    assert_eq!(RuleValue::Number(10).evaluate(&vec!()), RuleValue::Number(10));
}

#[test]
fn simple_rules_with_transition() {
    let rules = Rules::from_block(
        RulesBlock::new(vec!(
            TransitionRule {
                from: "A".into(),
                to: "B".into(),
                root: Box::new(RuleASTNode::GreaterThan {
                    lhs: Box::new(RuleASTNode::Terminal(RuleTerminal::Number(2))),
                    rhs: Box::new(RuleASTNode::Terminal(RuleTerminal::Number(1)))
                })
            }
        )),
        &state_map()
    ).unwrap();
    assert_eq!(rules.evaluate(STATE_A, vec!()), Some(STATE_B));
}

#[test]
fn simple_rules_without_transition() {
    let rules = Rules::from_block(
        RulesBlock::new(vec!(
            TransitionRule {
                from: "A".into(),
                to: "B".into(),
                root: Box::new(RuleASTNode::GreaterThan {
                    lhs: Box::new(RuleASTNode::Terminal(RuleTerminal::Number(1))),
                    rhs: Box::new(RuleASTNode::Terminal(RuleTerminal::Number(2)))
                })
            }
        )),
        &state_map()
    ).unwrap();
    assert_eq!(rules.evaluate(STATE_A, vec!()), None);
}

#[test]
fn census_rule_with_transition() {
    let rules = Rules::from_block(
        RulesBlock::new(vec!(
            TransitionRule {
                from: "A".into(),
                to: "B".into(),
                root: Box::new(RuleASTNode::GreaterThan {
                    lhs: Box::new(RuleASTNode::Terminal(RuleTerminal::Census("A".into()))),
                    rhs: Box::new(RuleASTNode::Terminal(RuleTerminal::Census("B".into())))
                })
            }
        )),
        &state_map()
    ).unwrap();
    assert_eq!(rules.evaluate(STATE_A, vec!(STATE_A, STATE_A, STATE_B)), Some(STATE_B));
}

#[test]
fn census_rule_without_transition() {
    let rules = Rules::from_block(
        RulesBlock::new(vec!(
            TransitionRule {
                from: "A".into(),
                to: "B".into(),
                root: Box::new(RuleASTNode::GreaterThan {
                    lhs: Box::new(RuleASTNode::Terminal(RuleTerminal::Census("A".into()))),
                    rhs: Box::new(RuleASTNode::Terminal(RuleTerminal::Census("B".into())))
                })
            }
        )),
        &state_map()
    ).unwrap();
    assert_eq!(rules.evaluate(STATE_A, vec!(STATE_A, STATE_A, STATE_B, STATE_B)), None);
}
