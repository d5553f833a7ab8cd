use loaf_lang::datatypes::neighborhood::Neighborhood;
use loaf_lang::datatypes::state::State;
use loaf_lang::runtime::state::{
    combine_values, ASTNode, ASTRoot, AddNode, AndNode, CensusNode, DivNode, EqNode, LoafType,
    LtNode, Operator, Ruleset,
};

#[test]
fn values_coerce_to_booleans() {
    assert!(LoafType::Boolean(true).to_bool());
    assert!(!LoafType::Boolean(false).to_bool());
    assert!(LoafType::Integer(-3).to_bool());
    assert!(!LoafType::Integer(0).to_bool());
    assert_eq!(LoafType::Integer(7).to_integer(), 7);
    assert_eq!(LoafType::from(true), LoafType::Boolean(true));
    assert_eq!(LoafType::from(-4isize), LoafType::Integer(-4));
    assert_eq!(LoafType::from_count(12), Some(LoafType::Integer(12)));
    assert_eq!(LoafType::from_count(usize::MAX), None);
}

#[test]
fn operators_that_are_errors() {
    let i = LoafType::Integer;
    let b = LoafType::Boolean;
    assert_eq!(combine_values(Operator::Add, i(isize::MAX), i(1)), None);
    assert_eq!(combine_values(Operator::Sub, i(isize::MIN), i(1)), None);
    assert_eq!(combine_values(Operator::Mul, i(isize::MIN), i(-1)), None);
    assert_eq!(combine_values(Operator::Div, i(1), i(0)), None);
    assert_eq!(combine_values(Operator::Div, i(isize::MIN), i(-1)), None);
    assert_eq!(combine_values(Operator::Div, i(-9), i(2)), Some(i(-4)));
    assert_eq!(combine_values(Operator::Gt, b(true), i(0)), None);
    assert_eq!(combine_values(Operator::Lte, i(0), b(false)), None);
    assert_eq!(combine_values(Operator::Eq, b(true), i(1)), Some(b(false)));
    assert_eq!(combine_values(Operator::Neq, b(true), i(1)), Some(b(true)));
    assert_eq!(combine_values(Operator::And, i(5), i(0)), Some(b(false)));
    assert_eq!(combine_values(Operator::Or, i(5), i(0)), Some(b(true)));
}

#[test]
fn nodes_evaluate_their_operands_first() {
    let neighborhood: Vec<usize> = vec![1, 1, 0];
    let sum = AddNode::new(CensusNode::new(1usize).boxed(), LoafType::Integer(40).boxed());
    assert_eq!(sum.try_evaluate(&neighborhood), Some(LoafType::Integer(42)));
    let broken = AndNode::new(
        LoafType::Boolean(false).boxed(),
        DivNode::new(LoafType::Integer(1).boxed(), CensusNode::new(7usize).boxed()).boxed(),
    );
    assert_eq!(broken.try_evaluate(&neighborhood), None);
}

#[test]
fn a_ruleset_decides_by_the_rule_of_the_state() {
    let two_alive: ASTRoot<usize, Vec<usize>> =
        ASTRoot::new(EqNode::new(CensusNode::new(1usize).boxed(), LoafType::Integer(2).boxed()).boxed());
    let crowded: ASTRoot<usize, Vec<usize>> =
        ASTRoot::new(LtNode::new(LoafType::Integer(2).boxed(), CensusNode::new(1usize).boxed()).boxed());
    let never: ASTRoot<usize, Vec<usize>> = ASTRoot::new(LoafType::Integer(0).boxed());
    // Where a state has two rules, the last one counts.
    let rules = Ruleset::new(vec![(0, (never, 9)), (0, (two_alive, 1)), (1, (crowded, 0))]);
    assert_eq!(rules.try_transition(0, &vec![1, 1, 0]), Some(Some(1)));
    assert_eq!(rules.try_transition(0, &vec![1, 0, 0]), Some(None));
    assert_eq!(rules.try_transition(1, &vec![1, 1, 1]), Some(Some(0)));
    assert_eq!(rules.try_transition(2, &vec![1, 1, 1]), None);
    assert_eq!(rules.transition(1, vec![1, 1]), None);
    let root: ASTRoot<usize, Vec<usize>> = ASTRoot::new(LoafType::Integer(3).boxed());
    assert!(root.evaluate(vec![]));
}

#[test]
fn states_and_their_counts() {
    assert!(3usize.same(&3));
    assert!(!3u8.same(&4));
    let neighborhood: Vec<u8> = vec![2, 2, 5];
    assert_eq!(neighborhood.count(2), 2);
    assert_eq!(neighborhood.count(5), 1);
    assert_eq!(neighborhood.count(0), 0);
}
