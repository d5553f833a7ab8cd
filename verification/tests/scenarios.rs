use std::collections::HashSet;

use loaf_lang::lang::parse::parse;
use loaf_lang::lang::runtime::datatypes::coords::Coordinate;
use loaf_lang::lang::runtime::naive::Runtime;

const DEAD: usize = 0;
const ALIVE: usize = 1;

const CONWAY: &str = "
boundary := infinite
environment := 2D
neighborhood := MOORE
state := {
    dead::(default, color=\"black\")
    alive::(color=\"white\")
}
rule := {
    from dead to alive := neighborhood(alive) = 3
    from alive to dead := neighborhood(alive) < 2 or neighborhood(alive) > 3
}
";

fn cell(x: isize, y: isize) -> Coordinate {
    Coordinate::Coordinate2D { x, y }
}

fn conway(seed: &[(isize, isize)]) -> Runtime {
    let mut rt = parse(CONWAY).unwrap().build().unwrap();
    for (x, y) in seed {
        rt.set_cell(cell(*x, *y), ALIVE);
    }
    rt
}

fn live(rt: &Runtime) -> HashSet<(isize, isize)> {
    let mut out = HashSet::new();
    for (coord, state) in rt.get_env().to_vec() {
        assert_eq!(state, ALIVE);
        match coord {
            Coordinate::Coordinate2D { x, y } => {
                out.insert((x, y));
            }
            _ => panic!("a cell of a two-dimensional grid has two components"),
        }
    }
    out
}

fn set(cells: &[(isize, isize)]) -> HashSet<(isize, isize)> {
    cells.iter().copied().collect()
}

#[test]
fn block_is_a_still_life() {
    let block = [(0, 0), (1, 0), (0, 1), (1, 1)];
    let mut rt = conway(&block);
    let delta = rt.run_tick();
    assert!(delta.is_empty());
    assert_eq!(live(&rt), set(&block));
    assert_eq!(rt.tick(), 1);
}

#[test]
fn blinker_oscillates_with_period_two() {
    let mut rt = conway(&[(-1, 0), (0, 0), (1, 0)]);
    let delta: HashSet<(Coordinate, usize)> = rt.run_tick().into_iter().collect();
    assert_eq!(live(&rt), set(&[(0, -1), (0, 0), (0, 1)]));
    let expected: HashSet<(Coordinate, usize)> = [
        (cell(-1, 0), DEAD),
        (cell(1, 0), DEAD),
        (cell(0, -1), ALIVE),
        (cell(0, 1), ALIVE),
    ]
    .into_iter()
    .collect();
    assert_eq!(delta, expected);
    rt.run_tick();
    assert_eq!(live(&rt), set(&[(-1, 0), (0, 0), (1, 0)]));
    assert_eq!(rt.tick(), 2);
}

#[test]
fn single_cell_dies() {
    let mut rt = conway(&[(0, 0)]);
    let delta = rt.run_tick();
    assert_eq!(live(&rt), set(&[]));
    assert_eq!(delta, vec![(cell(0, 0), DEAD)]);
    assert_eq!(rt.get_state(cell(0, 0)), Some(DEAD));
}

#[test]
fn glider_moves_one_cell_diagonally_in_four_ticks() {
    let glider = [(1, 0), (2, 1), (0, 2), (1, 2), (2, 2)];
    let mut rt = conway(&glider);
    rt.run(4);
    let moved: Vec<(isize, isize)> = glider.iter().map(|(x, y)| (x + 1, y + 1)).collect();
    assert_eq!(live(&rt), set(&moved));
}

#[test]
fn infinite_boundary_wakes_only_the_ring_around_a_cell() {
    let text = "
        boundary := infinite
        environment := 2D
        neighborhood := MOORE
        state := { dead::(default) alive }
        rule := { from dead to alive := 1 = 1 }
    ";
    let mut rt = parse(text).unwrap().build().unwrap();
    rt.set_cell(cell(0, 0), ALIVE);
    rt.run_tick();
    let cells = live(&rt);
    assert_eq!(cells.len(), 9);
    for (x, y) in cells {
        assert!(x.abs() <= 1 && y.abs() <= 1);
    }
    rt.run_tick();
    let cells = live(&rt);
    assert_eq!(cells.len(), 25);
    for (x, y) in cells {
        assert!(x.abs() <= 2 && y.abs() <= 2);
    }
}

#[test]
fn static_boundary_pins_every_edge_cell() {
    let text = "
        boundary := static::(dead)
        environment := 2D::(* = 3)
        neighborhood := MOORE
        state := { dead::(default) alive }
        rule := { from dead to alive := neighborhood(alive) >= 1 }
    ";
    let mut rt = parse(text).unwrap().build().unwrap();
    rt.set_cell(cell(0, 0), ALIVE);
    for _ in 0..5 {
        rt.run_tick();
        for x in -1..=1 {
            for y in -1..=1 {
                if (x, y) != (0, 0) {
                    assert_eq!(rt.get_state(cell(x, y)), Some(DEAD));
                }
            }
        }
        assert_eq!(rt.get_state(cell(0, 0)), Some(ALIVE));
    }
}

#[test]
fn one_dimensional_propagation_grows_by_one_cell_per_tick() {
    let text = "
        boundary := infinite
        environment := 1D::(x = 11)
        neighborhood := { x +- 1 }
        state := { A::(default) B }
        rule := { from A to B := neighborhood(A) >= 1 }
    ";
    let mut rt = parse(text).unwrap().build().unwrap();
    rt.set_cell(Coordinate::Coordinate1D { x: 0 }, 1);
    for t in 1..=8isize {
        rt.run_tick();
        for x in -t..=t {
            assert_eq!(rt.get_state(Coordinate::Coordinate1D { x }), Some(1));
        }
        assert_eq!(rt.get_state(Coordinate::Coordinate1D { x: t + 1 }), Some(0));
        assert_eq!(rt.get_state(Coordinate::Coordinate1D { x: -t - 1 }), Some(0));
        assert_eq!(rt.get_env().len(), (2 * t + 1) as usize);
    }
}

#[test]
fn wrap_boundary_reads_neighbours_across_the_edge() {
    let text = "
        boundary := wrap
        environment := 1D::(x = 5)
        neighborhood := { x + 1 }
        state := { A B }
        rule := { from A to B := neighborhood(B) = 1 }
    ";
    let mut rt = parse(text).unwrap().build().unwrap();
    for x in -2..=2 {
        rt.set_cell(Coordinate::Coordinate1D { x }, 0);
    }
    rt.set_cell(Coordinate::Coordinate1D { x: -2 }, 1);
    rt.run_tick();
    // The cell at the high end sees the cell at the low end.
    assert_eq!(rt.get_state(Coordinate::Coordinate1D { x: 2 }), Some(1));
    assert_eq!(rt.get_state(Coordinate::Coordinate1D { x: 1 }), Some(0));
    assert_eq!(rt.get_state(Coordinate::Coordinate1D { x: -2 }), Some(1));
}

#[test]
fn void_boundary_ignores_neighbours_outside() {
    let text = "
        boundary := void
        environment := 1D::(x = 3)
        neighborhood := { x +- 1 }
        state := { A B }
        rule := { from A to B := neighborhood(A) = 1 }
    ";
    let mut rt = parse(text).unwrap().build().unwrap();
    for x in -1..=1 {
        rt.set_cell(Coordinate::Coordinate1D { x }, 0);
    }
    rt.run_tick();
    // The cells at the ends have one neighbour inside, the middle one two.
    assert_eq!(rt.get_state(Coordinate::Coordinate1D { x: -1 }), Some(1));
    assert_eq!(rt.get_state(Coordinate::Coordinate1D { x: 0 }), Some(0));
    assert_eq!(rt.get_state(Coordinate::Coordinate1D { x: 1 }), Some(1));
}
