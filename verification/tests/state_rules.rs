use loaf_lang::runtime::state::{
    ASTNode, AddNode, AndNode, CensusNode, DivNode, EqNode, GtNode, GteNode, LoafType, LtNode,
    LteNode, MulNode, NeqNode, OrNode, SubNode,
};

#[test]
fn add_loaf_type() {
    assert_eq!(
        LoafType::Integer(10) + LoafType::Integer(5),
        LoafType::Integer(15)
    )
}

#[test]
fn sub_loaf_type() {
    assert_eq!(
        LoafType::Integer(10) - LoafType::Integer(5),
        LoafType::Integer(5)
    )
}

#[test]
fn mul_loaf_type() {
    assert_eq!(
        LoafType::Integer(10) * LoafType::Integer(5),
        LoafType::Integer(50)
    )
}

#[test]
fn div_loaf_type() {
    assert_eq!(
        LoafType::Integer(10) / LoafType::Integer(5),
        LoafType::Integer(2)
    )
}

#[test]
fn add_rule() {
    assert_eq!(
        AddNode::new(LoafType::Integer(10).boxed(), LoafType::Integer(5).boxed())
            .evaluate(&Vec::<usize>::new()),
        LoafType::Integer(15)
    )
}

#[test]
fn sub_rule() {
    assert_eq!(
        SubNode::new(LoafType::Integer(10).boxed(), LoafType::Integer(5).boxed())
            .evaluate(&Vec::<usize>::new()),
        LoafType::Integer(5)
    )
}

#[test]
fn mul_rule() {
    assert_eq!(
        MulNode::new(LoafType::Integer(10).boxed(), LoafType::Integer(5).boxed())
            .evaluate(&Vec::<usize>::new()),
        LoafType::Integer(50)
    )
}

#[test]
fn div_rule() {
    assert_eq!(
        DivNode::new(LoafType::Integer(10).boxed(), LoafType::Integer(5).boxed())
            .evaluate(&Vec::<usize>::new()),
        LoafType::Integer(2)
    )
}

#[test]
fn gt_rule_true_when_lhs_gt_rhs() {
    assert_eq!(
        GtNode::new(LoafType::Integer(10).boxed(), LoafType::Integer(5).boxed())
            .evaluate(&Vec::<usize>::new()),
        LoafType::Boolean(true)
    );
}

#[test]
fn gt_rule_false_when_lhs_lt_rhs() {
    assert_eq!(
        GtNode::new(LoafType::Integer(5).boxed(), LoafType::Integer(10).boxed())
            .evaluate(&Vec::<usize>::new()),
        LoafType::Boolean(false)
    );
}

#[test]
fn gt_rule_false_when_lhs_eq_rhs() {
    assert_eq!(
        GtNode::new(LoafType::Integer(10).boxed(), LoafType::Integer(10).boxed())
            .evaluate(&Vec::<usize>::new()),
        LoafType::Boolean(false)
    );
}

#[test]
fn gte_rule_true_when_lhs_gt_rhs() {
    assert_eq!(
        GteNode::new(LoafType::Integer(10).boxed(), LoafType::Integer(5).boxed())
            .evaluate(&Vec::<usize>::new()),
        LoafType::Boolean(true)
    );
}

#[test]
fn gte_rule_false_when_lhs_lt_rhs() {
    assert_eq!(
        GteNode::new(LoafType::Integer(5).boxed(), LoafType::Integer(10).boxed())
            .evaluate(&Vec::<usize>::new()),
        LoafType::Boolean(false)
    );
}

#[test]
fn gte_rule_true_when_lhs_eq_rhs() {
    assert_eq!(
        GteNode::new(LoafType::Integer(10).boxed(), LoafType::Integer(10).boxed())
            .evaluate(&Vec::<usize>::new()),
        LoafType::Boolean(true)
    );
}

#[test]
fn lt_rule_false_when_lhs_gt_rhs() {
    assert_eq!(
        LtNode::new(LoafType::Integer(10).boxed(), LoafType::Integer(5).boxed())
            .evaluate(&Vec::<usize>::new()),
        LoafType::Boolean(false)
    );
}

#[test]
fn lt_rule_false_when_lhs_lt_rhs() {
    assert_eq!(
        LtNode::new(LoafType::Integer(5).boxed(), LoafType::Integer(10).boxed())
            .evaluate(&Vec::<usize>::new()),
        LoafType::Boolean(true)
    );
}

#[test]
fn lt_rule_false_when_lhs_eq_rhs() {
    assert_eq!(
        LtNode::new(LoafType::Integer(10).boxed(), LoafType::Integer(10).boxed())
            .evaluate(&Vec::<usize>::new()),
        LoafType::Boolean(false)
    );
}

#[test]
fn lte_rule_false_when_lhs_gt_rhs() {
    assert_eq!(
        LteNode::new(LoafType::Integer(10).boxed(), LoafType::Integer(5).boxed())
            .evaluate(&Vec::<usize>::new()),
        LoafType::Boolean(false)
    );
}

#[test]
fn lte_rule_false_when_lhs_lt_rhs() {
    assert_eq!(
        LteNode::new(LoafType::Integer(5).boxed(), LoafType::Integer(10).boxed())
            .evaluate(&Vec::<usize>::new()),
        LoafType::Boolean(true)
    );
}

#[test]
fn lte_rule_true_when_lhs_eq_rhs() {
    assert_eq!(
        LteNode::new(LoafType::Integer(10).boxed(), LoafType::Integer(10).boxed())
            .evaluate(&Vec::<usize>::new()),
        LoafType::Boolean(true)
    );
}

#[test]
fn eq_rule_true_when_lhs_eq_rhs() {
    assert_eq!(
        EqNode::new(LoafType::Integer(10).boxed(), LoafType::Integer(10).boxed())
            .evaluate(&Vec::<usize>::new()),
        LoafType::Boolean(true)
    );
}

#[test]
fn eq_rule_false_when_lhs_neq_rhs() {
    assert_eq!(
        EqNode::new(LoafType::Integer(10).boxed(), LoafType::Integer(11).boxed())
            .evaluate(&Vec::<usize>::new()),
        LoafType::Boolean(false)
    );
}

#[test]
fn neq_rule_true_when_lhs_eq_rhs() {
    assert_eq!(
        NeqNode::new(LoafType::Integer(10).boxed(), LoafType::Integer(10).boxed())
            .evaluate(&Vec::<usize>::new()),
        LoafType::Boolean(false)
    );
}

#[test]
fn neq_rule_true_when_lhs_neq_rhs() {
    assert_eq!(
        NeqNode::new(LoafType::Integer(10).boxed(), LoafType::Integer(11).boxed())
            .evaluate(&Vec::<usize>::new()),
        LoafType::Boolean(true)
    );
}

#[test]
fn and_rule_true_for_t_t() {
    assert_eq!(
        AndNode::new(
            LoafType::Boolean(true).boxed(),
            LoafType::Boolean(true).boxed()
        )
        .evaluate(&Vec::<usize>::new()),
        LoafType::Boolean(true)
    );
}

#[test]
fn and_rule_false_for_t_f() {
    assert_eq!(
        AndNode::new(
            LoafType::Boolean(true).boxed(),
            LoafType::Boolean(false).boxed()
        )
        .evaluate(&Vec::<usize>::new()),
        LoafType::Boolean(false)
    );
}

#[test]
fn and_rule_false_for_f_t() {
    assert_eq!(
        AndNode::new(
            LoafType::Boolean(false).boxed(),
            LoafType::Boolean(true).boxed()
        )
        .evaluate(&Vec::<usize>::new()),
        LoafType::Boolean(false)
    );
}

#[test]
fn and_rule_false_for_f_f() {
    assert_eq!(
        AndNode::new(
            LoafType::Boolean(false).boxed(),
            LoafType::Boolean(false).boxed()
        )
        .evaluate(&Vec::<usize>::new()),
        LoafType::Boolean(false)
    );
}

#[test]
fn or_rule_true_for_t_t() {
    assert_eq!(
        OrNode::new(
            LoafType::Boolean(true).boxed(),
            LoafType::Boolean(true).boxed()
        )
        .evaluate(&Vec::<usize>::new()),
        LoafType::Boolean(true)
    );
}

#[test]
fn or_rule_true_for_t_f() {
    assert_eq!(
        OrNode::new(
            LoafType::Boolean(true).boxed(),
            LoafType::Boolean(false).boxed()
        )
        .evaluate(&Vec::<usize>::new()),
        LoafType::Boolean(true)
    );
}

#[test]
fn or_rule_false_for_f_t() {
    assert_eq!(
        OrNode::new(
            LoafType::Boolean(false).boxed(),
            LoafType::Boolean(true).boxed()
        )
        .evaluate(&Vec::<usize>::new()),
        LoafType::Boolean(true)
    );
}

#[test]
fn or_rule_false_for_f_f() {
    assert_eq!(
        OrNode::new(
            LoafType::Boolean(false).boxed(),
            LoafType::Boolean(false).boxed()
        )
        .evaluate(&Vec::<usize>::new()),
        LoafType::Boolean(false)
    );
}

#[test]
fn census_op() {
    assert_eq!(
        CensusNode::new(0usize).evaluate(&vec!(0, 0, 0, 1, 1, 2)),
        LoafType::Integer(3)
    );
    assert_eq!(
        CensusNode::new(1usize).evaluate(&vec!(0, 0, 0, 1, 1, 2)),
        LoafType::Integer(2)
    );
    assert_eq!(
        CensusNode::new(2usize).evaluate(&vec!(0, 0, 0, 1, 1, 2)),
        LoafType::Integer(1)
    );
}

#[test]
fn test_realistic_ast() {
    assert_eq!(
        GtNode::new(
            AddNode::new(
                CensusNode::new(0).boxed().boxed(),
                LoafType::Integer(1).boxed()
            )
            .boxed(),
            CensusNode::new(1).boxed()
        )
        .evaluate(&vec!(0usize, 0usize, 1usize, 1usize)),
        LoafType::Boolean(true)
    );
    assert_eq!(
        GtNode::new(
            AddNode::new(
                CensusNode::new(0).boxed().boxed(),
                LoafType::Integer(1).boxed()
            )
            .boxed(),
            CensusNode::new(1).boxed()
        )
        .evaluate(&vec!(0usize, 0usize, 1usize, 1usize, 1usize)),
        LoafType::Boolean(false)
    );
}
