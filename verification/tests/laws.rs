use std::collections::HashSet;

use loaf_lang::lang::parse::blocks::boundary::BoundaryBlock;
use loaf_lang::lang::parse::blocks::neighborhood::{Dimension, NeighborhoodBlock, NeighborhoodRule};
use loaf_lang::lang::parse::parse;
use loaf_lang::lang::runtime::datatypes::coords::{
    bound_breadth, wrap_bound, Coordinate, DimensionBounds,
};
use loaf_lang::lang::runtime::datatypes::generation::Generation;
use loaf_lang::lang::runtime::naive::diff;
use loaf_lang::lang::runtime::ops::neighborhood::Neighborhood;
use loaf_lang::lang::runtime::ops::rules::{
    apply_op, count_state, BinaryOp, Census, RuleExpr, RuleOperation, RuleValue,
};

fn point(x: isize, y: isize, z: isize) -> Coordinate {
    Coordinate::Coordinate3D { x, y, z }
}

#[test]
fn a_tick_reads_only_the_generation_before_it() {
    // Were cells updated in place, the state B would run through the whole
    // row within one tick.
    let text = "
        boundary := void
        environment := 1D::(x = 7)
        neighborhood := { x - 1 }
        state := { A B }
        rule := { from A to B := neighborhood(B) = 1 }
    ";
    let mut rt = parse(text).unwrap().build().unwrap();
    for x in -3..=3 {
        rt.set_cell(Coordinate::Coordinate1D { x }, 0);
    }
    rt.set_cell(Coordinate::Coordinate1D { x: -3 }, 1);
    let delta = rt.run_tick();
    assert_eq!(delta, vec![(Coordinate::Coordinate1D { x: -2 }, 1)]);
    for x in -1..=3 {
        assert_eq!(rt.get_state(Coordinate::Coordinate1D { x }), Some(0));
    }
}

#[test]
fn translating_and_translating_back_gives_the_coordinate() {
    for m in [-7isize, 0, 3, 1000] {
        let c1 = Coordinate::Coordinate1D { x: 4 };
        let c2 = Coordinate::Coordinate2D { x: 4, y: -9 };
        let c3 = point(4, -9, 12);
        assert_eq!(c1.add_x(m).sub_x(m), c1);
        assert_eq!(c2.add_x(m).sub_x(m), c2);
        assert_eq!(c2.add_y(m).sub_y(m), c2);
        assert_eq!(c3.add_x(m).sub_x(m), c3);
        assert_eq!(c3.add_y(m).sub_y(m), c3);
        assert_eq!(c3.add_z(m).sub_z(m), c3);
    }
}

#[test]
fn pointwise_addition_is_commutative_and_associative() {
    let a = point(1, -2, 3);
    let b = point(10, 20, -30);
    let c = point(-100, 0, 7);
    assert_eq!(a.plus_point(b), b.plus_point(a));
    assert_eq!(a.plus_point(b).plus_point(c), a.plus_point(b.plus_point(c)));
    assert_eq!(a.plus_point(b), point(11, 18, -27));
}

#[test]
fn add_all_translates_along_each_axis_in_turn() {
    assert_eq!(
        point(1, 2, 3).add_all(10),
        vec![point(11, 2, 3), point(1, 12, 3), point(1, 2, 13)]
    );
    assert_eq!(
        Coordinate::Coordinate2D { x: 1, y: 2 }.sub_all(1),
        vec![Coordinate::Coordinate2D { x: 0, y: 2 }, Coordinate::Coordinate2D { x: 1, y: 1 }]
    );
}

#[test]
fn offset_is_refused_where_a_component_leaves_the_range() {
    let c = Coordinate::Coordinate2D { x: isize::MAX, y: 0 };
    assert_eq!(c.offset(1, 0, 0), None);
    assert_eq!(c.offset(0, 5, 0), Some(Coordinate::Coordinate2D { x: isize::MAX, y: 5 }));
    assert_eq!(c.offset(-1, 0, 9), Some(Coordinate::Coordinate2D { x: isize::MAX - 1, y: 0 }));
}

#[test]
fn iterating_bounds_yields_each_point_once() {
    let dims = DimensionBounds::DimensionBounds3D { x: (-1, 2), y: (0, 1), z: (5, 7) };
    let points = dims.into_iter().collect();
    assert_eq!(points.len(), 4 * 2 * 3);
    let unique: HashSet<Coordinate> = points.iter().copied().collect();
    assert_eq!(unique.len(), points.len());
    for p in &points {
        assert!(dims.contains(*p));
    }
    assert_eq!(points[0], point(-1, 0, 5));
    assert_eq!(points[1], point(-1, 0, 6));
    assert_eq!(points[3], point(-1, 1, 5));
    assert_eq!(points[6], point(0, 0, 5));
    assert_eq!(points[23], point(2, 1, 7));
}

#[test]
fn iterating_a_single_point() {
    let dims = DimensionBounds::DimensionBounds2D { x: (3, 3), y: (-4, -4) };
    let mut it = dims.into_iter();
    assert_eq!(it.next(), Some(Coordinate::Coordinate2D { x: 3, y: -4 }));
    assert_eq!(it.next(), None);
    assert_eq!(it.next(), None);
}

#[test]
fn breadth_and_torus() {
    assert_eq!(bound_breadth((-3, 3)), 7);
    assert_eq!(bound_breadth((5, 5)), 1);
    assert_eq!(wrap_bound(4, (-3, 3)), -3);
    assert_eq!(wrap_bound(-4, (-3, 3)), 3);
    assert_eq!(wrap_bound(-11, (-3, 3)), 3);
    assert_eq!(wrap_bound(10, (-3, 3)), 3);
    assert_eq!(wrap_bound(2, (-3, 3)), 2);
    let dims = DimensionBounds::DimensionBounds2D { x: (0, 9), y: (0, 4) };
    assert_eq!(
        dims.wrap(Coordinate::Coordinate2D { x: -1, y: 5 }),
        Coordinate::Coordinate2D { x: 9, y: 0 }
    );
}

#[test]
fn edge_of_bounds() {
    let dims = DimensionBounds::DimensionBounds2D { x: (-2, 2), y: (-1, 1) };
    assert!(dims.boundary(Coordinate::Coordinate2D { x: -2, y: 0 }));
    assert!(dims.boundary(Coordinate::Coordinate2D { x: 0, y: 1 }));
    assert!(!dims.boundary(Coordinate::Coordinate2D { x: 0, y: 0 }));
    // A point outside the bounds is not on their edge.
    assert!(!dims.boundary(Coordinate::Coordinate2D { x: 2, y: 5 }));
    assert!(dims.is_valid());
    assert!(!DimensionBounds::DimensionBounds1D { x: (1, 0) }.is_valid());
}

#[test]
fn undirected_edge_has_exactly_the_two_neighbours() {
    let c = point(10, 20, 30);
    for (dimension, plus, minus) in [
        (Dimension::X, point(13, 20, 30), point(7, 20, 30)),
        (Dimension::Y, point(10, 23, 30), point(10, 17, 30)),
        (Dimension::Z, point(10, 20, 33), point(10, 20, 27)),
    ] {
        let n = Neighborhood::new(vec![NeighborhoodRule::UndirectedEdge { dimension, magnitude: 3 }]);
        assert_eq!(n.neighbors(c).collect(), vec![plus, minus]);
    }
}

#[test]
fn compound_rules_apply_one_after_another() {
    let n = Neighborhood::new(vec![NeighborhoodRule::Compound(vec![
        NeighborhoodRule::DirectedEdge { dimension: Dimension::X, magnitude: 2 },
        NeighborhoodRule::UndirectedEdge { dimension: Dimension::Y, magnitude: 1 },
        NeighborhoodRule::DirectedEdge { dimension: Dimension::X, magnitude: -1 },
    ])]);
    let c = Coordinate::Coordinate2D { x: 0, y: 0 };
    assert_eq!(
        n.neighbors(c).collect(),
        vec![Coordinate::Coordinate2D { x: 1, y: 1 }, Coordinate::Coordinate2D { x: 1, y: -1 }]
    );
}

#[test]
fn neighbourhood_keeps_repetitions() {
    let n = Neighborhood::new(vec![
        NeighborhoodRule::DirectedEdge { dimension: Dimension::X, magnitude: 1 },
        NeighborhoodRule::DirectedEdge { dimension: Dimension::All, magnitude: 1 },
    ]);
    let c = Coordinate::Coordinate1D { x: 0 };
    let one = Coordinate::Coordinate1D { x: 1 };
    assert_eq!(n.neighbors(c).collect(), vec![one, one]);
}

#[test]
fn neighbours_that_cannot_be_had() {
    let c1 = Coordinate::Coordinate1D { x: 0 };
    let along_y =
        Neighborhood::new(vec![NeighborhoodRule::DirectedEdge { dimension: Dimension::Y, magnitude: 1 }]);
    assert_eq!(along_y.try_neighbors(c1), None);
    let circle = Neighborhood::new(vec![NeighborhoodRule::UndirectedCircle {
        dimension: Dimension::X,
        magnitude: 1,
    }]);
    assert_eq!(circle.try_neighbors(c1), None);
    let empty = Neighborhood::new(vec![NeighborhoodRule::Compound(vec![])]);
    assert_eq!(empty.try_neighbors(c1), None);
    let step =
        Neighborhood::new(vec![NeighborhoodRule::DirectedEdge { dimension: Dimension::X, magnitude: 1 }]);
    assert_eq!(step.try_neighbors(Coordinate::Coordinate1D { x: isize::MAX }), None);
    assert_eq!(step.try_neighbors(c1), Some(vec![Coordinate::Coordinate1D { x: 1 }]));
}

#[test]
fn moore_neighbourhood_by_dimension() {
    let origin2 = Coordinate::Coordinate2D { x: 0, y: 0 };
    let two = Neighborhood::from_block(NeighborhoodBlock::Moore, 2);
    let around: Vec<Coordinate> = two.neighbors(origin2).collect();
    assert_eq!(around.len(), 8);
    let unique: HashSet<Coordinate> = around.iter().copied().collect();
    assert_eq!(unique.len(), 8);
    for p in &around {
        match p {
            Coordinate::Coordinate2D { x, y } => {
                assert!(x.abs() <= 1 && y.abs() <= 1 && (*x, *y) != (0, 0))
            }
            _ => panic!("a neighbour of a two-dimensional cell has two components"),
        }
    }
    let three = Neighborhood::from_block(NeighborhoodBlock::Moore, 3);
    let around: HashSet<Coordinate> = three.neighbors(point(0, 0, 0)).collect().into_iter().collect();
    assert_eq!(around.len(), 26);
    let one = Neighborhood::from_block(NeighborhoodBlock::Moore, 1);
    assert_eq!(one.neighbors(Coordinate::Coordinate1D { x: 0 }).collect().len(), 2);
    let von_neumann = Neighborhood::from_block(NeighborhoodBlock::VonNeumann, 3);
    assert_eq!(von_neumann.neighbors(point(0, 0, 0)).collect().len(), 6);
}

#[test]
fn census_counts_occurrences() {
    let neighborhood = vec![0, 1, 1, 2, 2, 2, 1];
    for (state, count) in [(0usize, 1isize), (1, 3), (2, 3), (3, 0)] {
        assert_eq!(count_state(&neighborhood, state), count as usize);
        assert_eq!(Census::new(state).evaluate(&neighborhood), RuleValue::Number(count));
        assert_eq!(
            RuleExpr::census(state).try_evaluate(&neighborhood),
            Some(RuleValue::Number(count))
        );
    }
}

#[test]
fn operators_on_values() {
    let n = RuleValue::Number;
    let b = RuleValue::Boolean;
    assert_eq!(apply_op(BinaryOp::Add, n(2), n(3)), Some(n(5)));
    assert_eq!(apply_op(BinaryOp::Sub, n(2), n(3)), Some(n(-1)));
    assert_eq!(apply_op(BinaryOp::Mul, n(-2), n(3)), Some(n(-6)));
    assert_eq!(apply_op(BinaryOp::Div, n(7), n(2)), Some(n(3)));
    assert_eq!(apply_op(BinaryOp::Div, n(-7), n(2)), Some(n(-3)));
    assert_eq!(apply_op(BinaryOp::Div, n(7), n(-2)), Some(n(-3)));
    assert_eq!(apply_op(BinaryOp::Div, n(-7), n(-2)), Some(n(3)));
    assert_eq!(apply_op(BinaryOp::Div, n(7), n(0)), None);
    assert_eq!(apply_op(BinaryOp::Div, n(isize::MIN), n(-1)), None);
    assert_eq!(apply_op(BinaryOp::Add, n(isize::MAX), n(1)), None);
    assert_eq!(apply_op(BinaryOp::Sub, n(isize::MIN), n(1)), None);
    assert_eq!(apply_op(BinaryOp::Mul, n(isize::MAX), n(2)), None);
    assert_eq!(apply_op(BinaryOp::Add, b(true), n(1)), None);
    assert_eq!(apply_op(BinaryOp::LessThan, n(1), b(true)), None);
    assert_eq!(apply_op(BinaryOp::Equal, n(1), b(true)), Some(b(false)));
    assert_eq!(apply_op(BinaryOp::NotEqual, n(1), b(true)), Some(b(true)));
    assert_eq!(apply_op(BinaryOp::Equal, b(true), b(true)), Some(b(true)));
    assert_eq!(apply_op(BinaryOp::And, n(2), b(true)), Some(b(true)));
    assert_eq!(apply_op(BinaryOp::And, n(0), b(true)), Some(b(false)));
    assert_eq!(apply_op(BinaryOp::Or, n(0), b(false)), Some(b(false)));
    assert_eq!(apply_op(BinaryOp::Or, n(0), n(-1)), Some(b(true)));
    assert!(n(3).to_bool());
    assert!(!n(0).to_bool());
    assert_eq!(n(2).add(n(3)), n(5));
    assert_eq!(n(2).sub(n(3)), n(-1));
    assert_eq!(n(2).mul(n(3)), n(6));
    assert_eq!(n(7).div(n(2)), n(3));
}

#[test]
fn static_boundary_reads_edge_cells_as_the_pinned_state() {
    let text = "
        boundary := static::(A)
        environment := 1D::(x = 3)
        neighborhood := { x +- 1 }
        state := { A::(default) B }
        rule := { from B to A := neighborhood(A) = 2 }
    ";
    let mut rt = parse(text).unwrap().build().unwrap();
    rt.set_cell(Coordinate::Coordinate1D { x: 0 }, 1);
    let before = [-1, 1].map(|x| rt.get_state(Coordinate::Coordinate1D { x }));
    let delta = rt.run_tick();
    let after = [-1, 1].map(|x| rt.get_state(Coordinate::Coordinate1D { x }));
    assert_eq!(before, after);
    assert_eq!(delta, vec![(Coordinate::Coordinate1D { x: 0 }, 0)]);
}

#[test]
fn cells_in_the_default_state_are_not_stored() {
    let text = "
        boundary := infinite
        environment := 1D
        neighborhood := { x +- 1 }
        state := { A::(default) B }
        rule := { from B to A := neighborhood(B) = 0 }
    ";
    let mut rt = parse(text).unwrap().build().unwrap();
    rt.set_cell(Coordinate::Coordinate1D { x: 0 }, 1);
    rt.set_cell(Coordinate::Coordinate1D { x: 5 }, 0);
    let delta = rt.run_tick();
    assert!(rt.get_env().is_empty());
    // The cell that was stored in the default state did not change.
    assert_eq!(delta, vec![(Coordinate::Coordinate1D { x: 0 }, 0)]);
    assert_eq!(rt.get_state(Coordinate::Coordinate1D { x: 0 }), Some(0));
}

#[test]
fn delta_between_generations() {
    let c = |x| Coordinate::Coordinate1D { x };
    let before = Generation::from_pairs(&vec![(c(0), 1), (c(1), 2), (c(2), 3)]);
    let after = Generation::from_pairs(&vec![(c(1), 2), (c(2), 4), (c(3), 5)]);
    let delta: HashSet<(Coordinate, usize)> = diff(&before, &after, Some(0)).into_iter().collect();
    let expected: HashSet<(Coordinate, usize)> =
        [(c(0), 0), (c(2), 4), (c(3), 5)].into_iter().collect();
    assert_eq!(delta, expected);
}

#[test]
fn generation_is_a_map() {
    let c = |x| Coordinate::Coordinate1D { x };
    let mut g = Generation::new();
    assert!(g.is_empty());
    assert_eq!(g.insert(c(1), 7), None);
    assert_eq!(g.insert(c(2), 8), None);
    assert_eq!(g.insert(c(1), 9), Some(7));
    assert_eq!(g.len(), 2);
    assert_eq!(g.get(c(1)), Some(9));
    assert_eq!(g.get(c(3)), None);
    assert!(g.contains_key(c(2)));
    assert_eq!(g.keys(), vec![c(1), c(2)]);
    assert_eq!(g.nth(1), (c(2), 8));
    assert_eq!(g.copy(), g);
    let h = Generation::from_pairs(&vec![(c(1), 1), (c(1), 2)]);
    assert_eq!(h.to_vec(), vec![(c(1), 2)]);
}

#[test]
fn boundary_regimes() {
    assert!(BoundaryBlock::Void.is_finite());
    assert!(BoundaryBlock::Wrap.is_finite());
    assert!(!BoundaryBlock::Infinite.is_finite());
    assert!(BoundaryBlock::Static(None).is_finite());
    assert_eq!(BoundaryBlock::Static(None).is_static(), None);
    assert_eq!(
        BoundaryBlock::Static(Some("A".to_string())).is_static(),
        Some(&"A".to_string())
    );
    assert!(BoundaryBlock::Static(None).pins_edge());
    assert!(BoundaryBlock::Wrap.wraps());
    assert_eq!(BoundaryBlock::default(), BoundaryBlock::Void);
}

#[test]
fn breadth_of_each_axis() {
    let dims = DimensionBounds::DimensionBounds3D { x: (-1, 2), y: (0, 0), z: (5, 9) };
    assert_eq!(dims.x_breadth(), 4);
    assert_eq!(dims.y_breadth(), 1);
    assert_eq!(dims.z_breadth(), 5);
    assert_eq!(dims.dimensions(), 3);
    assert_eq!(DimensionBounds::DimensionBounds1D { x: (-7, 7) }.x_breadth(), 15);
    assert_eq!(point(0, 0, 0).dimensions(), 3);
}
