use loaf_lang::datatypes::coords::{
    BoundingBox1D, BoundingBox2D, BoundingBox2DIterator, BoundingBox3D, BoundingBox3DIterator,
    Circle2D, ClosedSet, Contains, Coordinate1D, Coordinate2D, Coordinate3D, CoordinateBounds,
};
use loaf_lang::lang::parse::parse;
use loaf_lang::lang::runtime::datatypes::coords::{Coordinate, DimensionBounds};
use loaf_lang::lang::Program;
use loaf_lang::render::render2d::Render2D;
use loaf_lang::render::{Delta, NullOutput, Output};

#[test]
fn a_new_frame_has_the_default_colour() {
    let bounds = DimensionBounds::DimensionBounds2D { x: (-1, 1), y: (0, 1) };
    let render =
        Render2D::new(vec![(0, 0, 0), (9, 8, 7)], bounds, (1, 2, 3), "frame".to_string(), 4).unwrap();
    assert_eq!(render.dimensions(), (12, 8));
    assert_eq!(render.frame_number(), 0);
    assert_eq!(render.name(), "frame");
    for x in 0..12 {
        for y in 0..8 {
            assert_eq!(render.pixel(x, y), (1, 2, 3));
        }
    }
    let raw = render.raw();
    assert_eq!(raw.len(), 3 * 12 * 8);
    assert_eq!(&raw[0..6], &[1, 2, 3, 1, 2, 3]);
}

#[test]
fn a_cell_is_drawn_as_a_square() {
    let bounds = DimensionBounds::DimensionBounds2D { x: (-1, 1), y: (0, 1) };
    let mut render =
        Render2D::new(vec![(0, 0, 0), (9, 8, 7)], bounds, (1, 2, 3), "frame".to_string(), 4).unwrap();
    render.draw_frame(&vec![
        (Coordinate::Coordinate2D { x: 0, y: 1 }, 1),
        (Coordinate::Coordinate2D { x: 7, y: 7 }, 0),
    ]);
    assert_eq!(render.frame_number(), 1);
    for x in 0..12u32 {
        for y in 0..8u32 {
            let inside = (4..8).contains(&x) && (4..8).contains(&y);
            assert_eq!(render.pixel(x, y), if inside { (9, 8, 7) } else { (1, 2, 3) });
        }
    }
    let raw = render.raw();
    let at = 3 * (5 * 12 + 6);
    assert_eq!(&raw[at..at + 3], &[9, 8, 7]);
    render.draw_cell(Coordinate::Coordinate2D { x: -1, y: 0 }, (5, 5, 5));
    assert_eq!(render.pixel(0, 0), (5, 5, 5));
    assert_eq!(render.pixel(3, 3), (5, 5, 5));
    assert_eq!(render.pixel(4, 3), (1, 2, 3));
    assert_eq!(render.frame_number(), 1);
}

#[test]
fn frames_that_cannot_be_made() {
    let line = DimensionBounds::DimensionBounds1D { x: (0, 3) };
    assert!(Render2D::new(vec![], line, (0, 0, 0), "frame".to_string(), 4).is_none());
    let wide = DimensionBounds::DimensionBounds2D { x: (0, isize::MAX), y: (0, 1) };
    assert!(Render2D::new(vec![], wide, (0, 0, 0), "frame".to_string(), 4).is_none());
    let upside_down = DimensionBounds::DimensionBounds2D { x: (0, 1), y: (1, 0) };
    assert!(Render2D::new(vec![], upside_down, (0, 0, 0), "frame".to_string(), 4).is_none());
}

#[test]
fn the_cells_of_a_rectangle_come_row_by_row() {
    let mut it = BoundingBox2DIterator::new((1, 2), (-1, 1));
    let mut seen = Vec::new();
    while let Some(c) = it.next() {
        seen.push(c);
    }
    let expected: Vec<Coordinate2D> = [(1, -1), (1, 0), (1, 1), (2, -1), (2, 0), (2, 1)]
        .iter()
        .map(|(x, y)| Coordinate2D::new(*x, *y))
        .collect();
    assert_eq!(seen, expected);
    assert_eq!(BoundingBox2D::new((1, 2), (-1, 1)).into_cells(), expected);
    assert!(BoundingBox2D::new((1, 0), (-1, 1)).into_cells().is_empty());
    assert!(BoundingBox2D::new((1, 2), (1, -1)).into_cells().is_empty());
}

#[test]
fn the_cells_of_a_box_come_in_lexicographic_order() {
    let mut it = BoundingBox3DIterator::new((0, 1), (5, 6), (-1, 0));
    let mut seen = Vec::new();
    while let Some(c) = it.next() {
        seen.push(c);
    }
    let expected: Vec<Coordinate3D> = [
        (0, 5, -1),
        (0, 5, 0),
        (0, 6, -1),
        (0, 6, 0),
        (1, 5, -1),
        (1, 5, 0),
        (1, 6, -1),
        (1, 6, 0),
    ]
    .iter()
    .map(|(x, y, z)| Coordinate3D::new(*x, *y, *z))
    .collect();
    assert_eq!(seen, expected);
    assert_eq!(BoundingBox3D::new((0, 1), (5, 6), (-1, 0)).into_cells(), expected);
}

#[test]
fn the_cells_of_an_interval() {
    assert_eq!(
        BoundingBox1D::new(-1, 1).into_cells(),
        vec![Coordinate1D::new(-1), Coordinate1D::new(0), Coordinate1D::new(1)]
    );
    assert!(BoundingBox1D::new(1, -1).into_cells().is_empty());
    let mut it = BoundingBox1D::new(isize::MAX, isize::MAX).into_iter();
    assert_eq!(it.next(), Some(Coordinate1D::new(isize::MAX)));
    assert_eq!(it.next(), None);
}

#[test]
fn a_disc_holds_the_points_within_its_radius() {
    let disc = Circle2D::new(Coordinate2D::new(1, 1), 5);
    assert_eq!(disc.contains(Coordinate2D::new(1, 1)), Contains::Within);
    assert_eq!(disc.contains(Coordinate2D::new(4, 5)), Contains::OnEdge);
    assert_eq!(disc.contains(Coordinate2D::new(1, 6)), Contains::OnEdge);
    assert_eq!(disc.contains(Coordinate2D::new(5, 5)), Contains::Outside);
    assert_eq!(disc.contains(Coordinate2D::new(-2, -2)), Contains::Within);
    assert!(disc.within(Coordinate2D::new(2, 2)));
    assert!(disc.on_edge(Coordinate2D::new(-4, 1)));
    assert!(disc.outside(Coordinate2D::new(isize::MAX, isize::MIN)));
    let nothing = Circle2D::new(Coordinate2D::new(0, 0), -1);
    assert_eq!(nothing.contains(Coordinate2D::new(0, 0)), Contains::Outside);
}

struct Collector {
    deltas: Vec<Delta>,
}

impl Output for Collector {
    fn output_tick(&mut self, delta: Delta) {
        self.deltas.push(delta);
    }
}

#[test]
fn a_program_hands_each_delta_to_its_sink() {
    let text = "
        boundary := infinite
        environment := 1D
        neighborhood := { x +- 1 }
        state := { A::(default) B }
        rule := { from A to B := neighborhood(B) = 1 }
    ";
    let runtime = parse(text).unwrap().build().unwrap();
    let mut program = Program::new(runtime, NullOutput {});
    program.set_cell(Coordinate::Coordinate1D { x: 0 }, 1);
    assert_eq!(program.run(3), 3);
    assert_eq!(program.runtime().tick(), 3);
    assert_eq!(program.runtime().get_env().len(), 7);

    let runtime = parse(text).unwrap().build().unwrap();
    let mut program = Program::new(runtime, Collector { deltas: Vec::new() });
    program.set_cell(Coordinate::Coordinate1D { x: 0 }, 1);
    assert_eq!(program.run(2), 2);
}

#[test]
fn draw_frames() {
    let colors_map = vec![(0, 0, 0), (0xff, 0xff, 0xff)];
    let dims = DimensionBounds::DimensionBounds2D { x: (-5, 5), y: (-5, 5) };
    let mut out =
        Render2D::new(colors_map, dims, (0xff, 0xff, 0xff), "MyAnimation".to_string(), 50).unwrap();
    assert_eq!(out.dimensions(), (550, 550));
    out.draw_frame(&vec![(Coordinate::Coordinate2D { x: 0, y: 0 }, 0)]);
    assert_eq!(out.pixel(250, 250), (0, 0, 0));
    assert_eq!(out.pixel(299, 299), (0, 0, 0));
    assert_eq!(out.pixel(249, 250), (0xff, 0xff, 0xff));
    assert_eq!(out.pixel(300, 299), (0xff, 0xff, 0xff));
    out.draw_frame(&vec![(Coordinate::Coordinate2D { x: 0, y: 0 }, 1)]);
    assert_eq!(out.pixel(250, 250), (0xff, 0xff, 0xff));
    out.draw_frame(&vec![(Coordinate::Coordinate2D { x: 0, y: 0 }, 0)]);
    out.draw_frame(&vec![(Coordinate::Coordinate2D { x: 0, y: 0 }, 1)]);
    assert_eq!(out.frame_number(), 4);
    assert_eq!(out.pixel(275, 275), (0xff, 0xff, 0xff));
}
