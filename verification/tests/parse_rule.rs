use loaf_lang::lang::parse::blocks::rule::{
    RuleASTNode, RuleTerminal, RulesBlock, TransitionRule,
};

#[test]
fn simple_eq() {
    let rules: Result<RulesBlock, _> = RulesBlock::parse("rule := { from A to B :=  neighborhood(A) = 1 }");
    assert!(rules.is_ok()); // Converted successfully
    assert_eq!(rules.unwrap(),
               RulesBlock::new(vec!(
                   TransitionRule {
                       from: "A".into(),
                       to: "B".into(),
                       root: Box::new(
                           RuleASTNode::Equal {
                               lhs: Box::new(RuleASTNode::Terminal(RuleTerminal::Census("A".into()))),
                               rhs: Box::new(RuleASTNode::Terminal(RuleTerminal::Number(1)))
                           }
                       )
                   }
               ))
    );
}

#[test]
fn simple_neq() {
    let rules: Result<RulesBlock, _> = RulesBlock::parse("rule := { from A to B :=  neighborhood(A) != 1 }");
    assert!(rules.is_ok()); // Converted successfully
    assert_eq!(rules.unwrap(),
               RulesBlock::new(vec!(
                   TransitionRule {
                       from: "A".into(),
                       to: "B".into(),
                       root: Box::new(
                           RuleASTNode::NotEqual {
                               lhs: Box::new(RuleASTNode::Terminal(RuleTerminal::Census("A".into()))),
                               rhs: Box::new(RuleASTNode::Terminal(RuleTerminal::Number(1)))
                           }
                       )
                   }
               ))
    );
}

#[test]
fn simple_gt() {
    let rules: Result<RulesBlock, _> = RulesBlock::parse("rule := { from A to B :=  neighborhood(A) > 1 }");
    assert!(rules.is_ok()); // Converted successfully
    assert_eq!(rules.unwrap(),
        RulesBlock::new(vec!(
            TransitionRule {
                from: "A".into(),
                to: "B".into(),
                root: Box::new(
                    RuleASTNode::GreaterThan {
                        lhs: Box::new(RuleASTNode::Terminal(RuleTerminal::Census("A".into()))),
                        rhs: Box::new(RuleASTNode::Terminal(RuleTerminal::Number(1)))
                    }
                )
            }
        ))
    );
}

#[test]
fn simple_gte() {
    let rules: Result<RulesBlock, _> = RulesBlock::parse("rule := { from A to B :=  neighborhood(A) >= 1 }");
    assert!(rules.is_ok()); // Converted successfully
    assert_eq!(rules.unwrap(),
               RulesBlock::new(vec!(
                   TransitionRule {
                       from: "A".into(),
                       to: "B".into(),
                       root: Box::new(
                           RuleASTNode::GreaterThanOrEqualTo {
                               lhs: Box::new(RuleASTNode::Terminal(RuleTerminal::Census("A".into()))),
                               rhs: Box::new(RuleASTNode::Terminal(RuleTerminal::Number(1)))
                           }
                       )
                   }
               ))
    );
}

#[test]
fn simple_lt() {
    let rules: Result<RulesBlock, _> = RulesBlock::parse("rule := { from A to B :=  neighborhood(A) < 1 }");
    assert!(rules.is_ok()); // Converted successfully
    assert_eq!(rules.unwrap(),
               RulesBlock::new(vec!(
                   TransitionRule {
                       from: "A".into(),
                       to: "B".into(),
                       root: Box::new(
                           RuleASTNode::LessThan {
                               lhs: Box::new(RuleASTNode::Terminal(RuleTerminal::Census("A".into()))),
                               rhs: Box::new(RuleASTNode::Terminal(RuleTerminal::Number(1)))
                           }
                       )
                   }
               ))
    );
}

#[test]
fn simple_lte() {
    let rules: Result<RulesBlock, _> = RulesBlock::parse("rule := { from A to B :=  neighborhood(A) <= 1 }");
    assert!(rules.is_ok()); // Converted successfully
    assert_eq!(rules.unwrap(),
               RulesBlock::new(vec!(
                   TransitionRule {
                       from: "A".into(),
                       to: "B".into(),
                       root: Box::new(
                           RuleASTNode::LessThanOrEqualTo {
                               lhs: Box::new(RuleASTNode::Terminal(RuleTerminal::Census("A".into()))),
                               rhs: Box::new(RuleASTNode::Terminal(RuleTerminal::Number(1)))
                           }
                       )
                   }
               ))
    );
}

#[test]
fn simple_and() {
    let rules: Result<RulesBlock, _> = RulesBlock::parse("rule := { from A to B :=  neighborhood(A) = 1 and neighborhood(B) = 2 }");
    assert!(rules.is_ok()); // Converted successfully
    assert_eq!(rules.unwrap(),
               RulesBlock::new(vec!(
                   TransitionRule {
                       from: "A".into(),
                       to: "B".into(),
                       root: Box::new(
                           RuleASTNode::And {
                               lhs: Box::new(RuleASTNode::Equal {
                                   lhs: Box::new(RuleASTNode::Terminal(RuleTerminal::Census("A".into()))),
                                   rhs: Box::new(RuleASTNode::Terminal(RuleTerminal::Number(1)))
                               }),
                               rhs: Box::new(RuleASTNode::Equal {
                                   lhs: Box::new(RuleASTNode::Terminal(RuleTerminal::Census("B".into()))),
                                   rhs: Box::new(RuleASTNode::Terminal(RuleTerminal::Number(2)))
                               }),
                           }
                       )
                   }
               ))
    );
}

#[test]
fn simple_or() {
    let rules: Result<RulesBlock, _> = RulesBlock::parse("rule := { from A to B :=  neighborhood(A) = 1 or neighborhood(B) = 2 }");
    assert!(rules.is_ok()); // Converted successfully
    assert_eq!(rules.unwrap(),
               RulesBlock::new(vec!(
                   TransitionRule {
                       from: "A".into(),
                       to: "B".into(),
                       root: Box::new(
                           RuleASTNode::Or {
                               lhs: Box::new(RuleASTNode::Equal {
                                   lhs: Box::new(RuleASTNode::Terminal(RuleTerminal::Census("A".into()))),
                                   rhs: Box::new(RuleASTNode::Terminal(RuleTerminal::Number(1)))
                               }),
                               rhs: Box::new(RuleASTNode::Equal {
                                   lhs: Box::new(RuleASTNode::Terminal(RuleTerminal::Census("B".into()))),
                                   rhs: Box::new(RuleASTNode::Terminal(RuleTerminal::Number(2)))
                               }),
                           }
                       )
                   }
               ))
    );
}
