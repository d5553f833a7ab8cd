//! Frames of two-dimensional generations, drawn into a raster image.

use vstd::prelude::*;
use crate::lang::parse::blocks::state::Rgb8;
use crate::lang::runtime::StateId;
use crate::lang::runtime::datatypes::coords::{breadth, Coordinate, DimensionBounds};
use crate::render::Delta;

verus! {

/// A raster image with three colour channels of eight bits.
#[verifier::external_body]
pub struct Canvas {
    image: image::RgbImage,
}

/// Width and height of a canvas, in pixels.
pub uninterp spec fn canvas_size(canvas: Canvas) -> (u32, u32);

/// The colour of each pixel of a canvas, by column and row.
pub uninterp spec fn canvas_pixels(canvas: Canvas) -> Map<(u32, u32), Rgb8>;

/// Whether a canvas of `width` by `height` pixels can be allocated: its
/// three bytes per pixel fit a vector.
pub open spec fn canvas_fits(width: u32, height: u32) -> bool {
    3 * width * height <= isize::MAX
}

/// `ImageBuffer::from_pixel`: an image of the given width and height in
/// which every pixel has the given colour.
#[verifier::external_body]
fn canvas_filled(width: u32, height: u32, color: Rgb8) -> (r: Canvas)
    requires
        canvas_fits(width, height),
    ensures
        canvas_size(r) == (width, height),
        canvas_pixels(r) == Map::new(
            |p: (u32, u32)| p.0 < width && p.1 < height,
            |p: (u32, u32)| color,
        ),
{
    Canvas { image: image::RgbImage::from_pixel(width, height, image::Rgb([color.0, color.1, color.2])) }
}

/// `ImageBuffer::put_pixel`: the pixel in column `x` and row `y` takes
/// the given colour; every other pixel and the size stay as they are.
#[verifier::external_body]
fn canvas_put(canvas: &mut Canvas, x: u32, y: u32, color: Rgb8)
    requires
        x < canvas_size(*old(canvas)).0,
        y < canvas_size(*old(canvas)).1,
    ensures
        canvas_size(*final(canvas)) == canvas_size(*old(canvas)),
        canvas_pixels(*final(canvas)) == canvas_pixels(*old(canvas)).insert((x, y), color),
{
    canvas.image.put_pixel(x, y, image::Rgb([color.0, color.1, color.2]))
}

/// `ImageBuffer::get_pixel`: the colour of the pixel in column `x` and
/// row `y`.
#[verifier::external_body]
fn canvas_get(canvas: &Canvas, x: u32, y: u32) -> (r: Rgb8)
    requires
        x < canvas_size(*canvas).0,
        y < canvas_size(*canvas).1,
    ensures
        r == canvas_pixels(*canvas)[(x, y)],
{
    let p = canvas.image.get_pixel(x, y);
    (p[0], p[1], p[2])
}

/// `ImageBuffer::as_raw`: the channels of the pixels row by row, three
/// bytes for each pixel.
#[verifier::external_body]
fn canvas_raw(canvas: &Canvas) -> (r: Vec<u8>)
    ensures
        r@.len() == 3 * canvas_size(*canvas).0 * canvas_size(*canvas).1,
        forall|x: u32, y: u32|
            x < canvas_size(*canvas).0 && y < canvas_size(*canvas).1 ==> {
                let at = 3 * (y * canvas_size(*canvas).0 + x);
                #[trigger] canvas_pixels(*canvas)[(x, y)] == (r@[at], r@[at + 1], r@[at + 2])
            },
{
    canvas.image.as_raw().clone()
}

/// The pixels `pixels` with the square of side `side` at column `left`
/// and row `top` painted in `color`.
pub open spec fn painted(
    pixels: Map<(u32, u32), Rgb8>,
    left: int,
    top: int,
    side: int,
    color: Rgb8,
) -> Map<(u32, u32), Rgb8> {
    Map::new(
        |p: (u32, u32)| pixels.contains_key(p),
        |p: (u32, u32)|
            if left <= p.0 < left + side && top <= p.1 < top + side {
                color
            } else {
                pixels[p]
            },
    )
}

/// The pixels `pixels` with the square painted as far as the painting has
/// come: every column before `column`, and of `column` the rows before
/// `row`.
pub open spec fn painted_upto(
    pixels: Map<(u32, u32), Rgb8>,
    left: int,
    top: int,
    side: int,
    color: Rgb8,
    column: int,
    row: int,
) -> Map<(u32, u32), Rgb8> {
    Map::new(
        |p: (u32, u32)| pixels.contains_key(p),
        |p: (u32, u32)|
            if left <= p.0 < left + side && top <= p.1 < top + side && (p.0 < column || (p.0
                == column && p.1 < row)) {
                color
            } else {
                pixels[p]
            },
    )
}

/// A renderer of two-dimensional generations: one square of pixels for
/// each cell of the bounds.
pub struct Render2D {
    colors_map: Vec<Rgb8>,
    buffer: Canvas,
    cell_width: u32,
    bounds: DimensionBounds,
    name: String,
    frame_number: usize,
}

/// Whether a frame for `bounds` with cells of `cell_width` pixels can be
/// made: the bounds are well formed and two-dimensional, and width and
/// height of the frame are representable and can be allocated.
pub open spec fn frame_fits(bounds: DimensionBounds, cell_width: u32) -> bool {
    &&& bounds.dims() == 2
    &&& bounds.wf()
    &&& cell_width * breadth(bounds.x_range()) <= u32::MAX
    &&& cell_width * breadth(bounds.y_range()) <= u32::MAX
    &&& 3 * (cell_width * breadth(bounds.x_range())) * (cell_width * breadth(bounds.y_range()))
        <= isize::MAX
}

impl Render2D {
    /// The colour of each state, by identifier.
    pub closed spec fn colors(self) -> Seq<Rgb8> {
        self.colors_map@
    }

    /// The bounds that the frame shows.
    pub closed spec fn bounds(self) -> DimensionBounds {
        self.bounds
    }

    /// The side of the square of a cell, in pixels.
    pub closed spec fn cell_width(self) -> u32 {
        self.cell_width
    }

    /// Number of frames drawn.
    pub closed spec fn frames(self) -> usize {
        self.frame_number
    }

    /// The name of the animation.
    pub closed spec fn title(self) -> Seq<char> {
        self.name@
    }

    /// Width and height of the frame, in pixels.
    pub closed spec fn size(self) -> (u32, u32) {
        canvas_size(self.buffer)
    }

    /// The colour of each pixel of the frame.
    pub closed spec fn pixels(self) -> Map<(u32, u32), Rgb8> {
        canvas_pixels(self.buffer)
    }

    /// The invariant of a renderer: the frame has one square for each cell
    /// of the bounds, and every pixel of it has a colour.
    pub open spec fn wf(self) -> bool {
        &&& frame_fits(self.bounds(), self.cell_width())
        &&& self.size().0 == self.cell_width() * breadth(self.bounds().x_range())
        &&& self.size().1 == self.cell_width() * breadth(self.bounds().y_range())
        &&& forall|p: (u32, u32)| #[trigger]
            self.pixels().contains_key(p) <==> (p.0 < self.size().0 && p.1 < self.size().1)
    }

    /// Column and row of the first pixel of the square of the cell `coord`
    /// of the bounds.
    pub open spec fn corner(self, coord: Coordinate) -> (int, int) {
        (
            self.cell_width() * (coord.px() - self.bounds().x_range().0),
            self.cell_width() * (coord.py() - self.bounds().y_range().0),
        )
    }

    /// The pixels after the cell `coord` is drawn in `color`: its square
    /// is painted where the cell belongs to the bounds, and nothing
    /// changes where it does not.
    pub open spec fn with_cell(self, pixels: Map<(u32, u32), Rgb8>, coord: Coordinate, color: Rgb8) -> Map<
        (u32, u32),
        Rgb8,
    > {
        if self.bounds().has(coord) {
            painted(
                pixels,
                self.corner(coord).0,
                self.corner(coord).1,
                self.cell_width() as int,
                color,
            )
        } else {
            pixels
        }
    }

    /// The pixels after the cells of `delta` are drawn one after another,
    /// each in the colour of its state.
    pub open spec fn with_delta(
        self,
        pixels: Map<(u32, u32), Rgb8>,
        delta: Seq<(Coordinate, StateId)>,
    ) -> Map<(u32, u32), Rgb8>
        decreases delta.len(),
    {
        if delta.len() == 0 {
            pixels
        } else {
            self.with_cell(
                self.with_delta(pixels, delta.drop_last()),
                delta.last().0,
                self.colors()[delta.last().1 as int],
            )
        }
    }

    /// A renderer for `bounds` with every pixel in `default_color`, or
    /// `None` where no frame can be made for the bounds.
    pub fn new(
        colors_map: Vec<Rgb8>,
        bounds: DimensionBounds,
        default_color: Rgb8,
        name: String,
        cell_width: u32,
    ) -> (r: Option<Render2D>)
        ensures
            match r {
                Some(render) => {
                    &&& frame_fits(bounds, cell_width)
                    &&& render.wf()
                    &&& render.colors() == colors_map@
                    &&& render.bounds() == bounds
                    &&& render.cell_width() == cell_width
                    &&& render.title() == name@
                    &&& render.frames() == 0
                    &&& forall|p: (u32, u32)| #[trigger]
                        render.pixels().contains_key(p) ==> render.pixels()[p] == default_color
                },
                None => !frame_fits(bounds, cell_width),
            },
    {
        let (x, y) = match bounds {
            DimensionBounds::DimensionBounds2D { x, y } => (x, y),
            _ => {
                return None;
            },
        };
        if !bounds.is_valid() {
            return None;
        }
        let columns: i128 = x.1 as i128 - x.0 as i128 + 1;
        let rows: i128 = y.1 as i128 - y.0 as i128 + 1;
        let limit: i128 = 0xffff_ffff;
        assert(cell_width * columns <= limit * columns) by (nonlinear_arith)
            requires
                0 <= cell_width <= limit,
                columns >= 1,
        ;
        assert(cell_width * rows <= limit * rows) by (nonlinear_arith)
            requires
                0 <= cell_width <= limit,
                rows >= 1,
        ;
        let width: i128 = cell_width as i128 * columns;
        let height: i128 = cell_width as i128 * rows;
        if width > limit || height > limit {
            return None;
        }
        assert(0 <= width * height <= limit * limit) by (nonlinear_arith)
            requires
                0 <= width <= limit,
                0 <= height <= limit,
        ;
        let area: i128 = width * height;
        if 3 * area > isize::MAX as i128 {
            assert(3 * (width * height) == 3 * width * height) by (nonlinear_arith);
            return None;
        }
        assert(3 * (width * height) == 3 * width * height) by (nonlinear_arith);
        let buffer = canvas_filled(width as u32, height as u32, default_color);
        Some(Render2D { colors_map, buffer, cell_width, bounds, name, frame_number: 0 })
    }

    /// Number of frames drawn.
    pub fn frame_number(&self) -> (r: usize)
        ensures
            r == self.frames(),
    {
        self.frame_number
    }

    /// The name of the animation.
    pub fn name(&self) -> (r: &String)
        ensures
            r@ == self.title(),
    {
        &self.name
    }

    /// Width and height of the frame, in pixels.
    pub fn dimensions(&self) -> (r: (u32, u32))
        requires
            self.wf(),
        ensures
            r == self.size(),
    {
        let (x, y) = match self.bounds {
            DimensionBounds::DimensionBounds2D { x, y } => (x, y),
            _ => ((0, 0), (0, 0)),
        };
        let columns: i128 = x.1 as i128 - x.0 as i128 + 1;
        let rows: i128 = y.1 as i128 - y.0 as i128 + 1;
        ((self.cell_width as i128 * columns) as u32, (self.cell_width as i128 * rows) as u32)
    }

    /// The colour of the pixel in column `x` and row `y`.
    pub fn pixel(&self, x: u32, y: u32) -> (r: Rgb8)
        requires
            self.wf(),
            x < self.size().0,
            y < self.size().1,
        ensures
            r == self.pixels()[(x, y)],
    {
        canvas_get(&self.buffer, x, y)
    }

    /// The channels of the pixels of the frame row by row, three bytes
    /// for each pixel.
    pub fn raw(&self) -> (r: Vec<u8>)
        requires
            self.wf(),
        ensures
            r@.len() == 3 * self.size().0 * self.size().1,
            forall|x: u32, y: u32|
                x < self.size().0 && y < self.size().1 ==> {
                    let at = 3 * (y * self.size().0 + x);
                    #[trigger] self.pixels()[(x, y)] == (r@[at], r@[at + 1], r@[at + 2])
                },
    {
        canvas_raw(&self.buffer)
    }

    /// Paints the square of the cell `coord` in `color`; a cell outside
    /// the bounds is passed over.
    pub fn draw_cell(&mut self, coord: Coordinate, color: Rgb8)
        requires
            old(self).wf(),
            coord.dims() == 2,
        ensures
            final(self).wf(),
            final(self).pixels() == old(self).with_cell(old(self).pixels(), coord, color),
            final(self).colors() == old(self).colors(),
            final(self).bounds() == old(self).bounds(),
            final(self).cell_width() == old(self).cell_width(),
            final(self).frames() == old(self).frames(),
            final(self).title() == old(self).title(),
    {
        if !self.bounds.contains(coord) {
            return ;
        }
        let (x, y) = match coord {
            Coordinate::Coordinate2D { x, y } => (x, y),
            _ => (0, 0),
        };
        let (low_x, low_y) = match self.bounds {
            DimensionBounds::DimensionBounds2D { x, y } => (x.0, y.0),
            _ => (0, 0),
        };
        let side = self.cell_width;
        let ghost start = self.pixels();
        let ghost columns = breadth(self.bounds().x_range());
        let ghost rows = breadth(self.bounds().y_range());
        let dx: i128 = x as i128 - low_x as i128;
        let dy: i128 = y as i128 - low_y as i128;
        assert(side * dx + side <= side * columns) by (nonlinear_arith)
            requires
                0 <= dx < columns,
                side >= 0,
        ;
        assert(side * dy + side <= side * rows) by (nonlinear_arith)
            requires
                0 <= dy < rows,
                side >= 0,
        ;
        assert(0 <= side * dx && 0 <= side * dy) by (nonlinear_arith)
            requires
                0 <= dx,
                0 <= dy,
                side >= 0,
        ;
        let left: u32 = (side as i128 * dx) as u32;
        let top: u32 = (side as i128 * dy) as u32;
        let mut column: u32 = 0;
        assert(self.pixels() =~= painted_upto(
            start,
            left as int,
            top as int,
            side as int,
            color,
            left as int,
            top as int,
        ));
        while column < side
            invariant
                column <= side,
                side == self.cell_width(),
                left + side <= self.size().0,
                top + side <= self.size().1,
                self.wf(),
                self.size() == old(self).size(),
                self.colors() == old(self).colors(),
                self.bounds() == old(self).bounds(),
                self.cell_width() == old(self).cell_width(),
                self.frames() == old(self).frames(),
                self.title() == old(self).title(),
                start == old(self).pixels(),
                self.pixels() == painted_upto(
                    start,
                    left as int,
                    top as int,
                    side as int,
                    color,
                    left + column,
                    top as int,
                ),
            decreases side - column,
        {
            let mut row: u32 = 0;
            while row < side
                invariant
                    row <= side,
                    column < side,
                    side == self.cell_width(),
                    left + side <= self.size().0,
                    top + side <= self.size().1,
                    self.wf(),
                    self.size() == old(self).size(),
                    self.colors() == old(self).colors(),
                    self.bounds() == old(self).bounds(),
                    self.cell_width() == old(self).cell_width(),
                    self.frames() == old(self).frames(),
                    self.title() == old(self).title(),
                    start == old(self).pixels(),
                    self.pixels() == painted_upto(
                        start,
                        left as int,
                        top as int,
                        side as int,
                        color,
                        left + column,
                        top + row,
                    ),
                decreases side - row,
            {
                canvas_put(&mut self.buffer, left + column, top + row, color);
                assert(self.pixels() =~= painted_upto(
                    start,
                    left as int,
                    top as int,
                    side as int,
                    color,
                    left + column,
                    top + row + 1,
                ));
                row += 1;
            }
            assert(self.pixels() =~= painted_upto(
                start,
                left as int,
                top as int,
                side as int,
                color,
                left + column + 1,
                top as int,
            ));
            column += 1;
        }
        assert(self.pixels() =~= painted(start, left as int, top as int, side as int, color));
    }

    /// Draws the cells of `delta`, each in the colour of its state, and
    /// counts the frame. Every cell must be two-dimensional and every state
    /// must have a colour.
    pub fn draw_frame(&mut self, delta: &Delta)
        requires
            old(self).wf(),
            old(self).frames() < usize::MAX,
            forall|i: int|
                0 <= i < delta@.len() ==> (#[trigger] delta@[i]).0.dims() == 2 && delta@[i].1 < old(
                    self,
                ).colors().len(),
        ensures
            final(self).wf(),
            final(self).pixels() == old(self).with_delta(old(self).pixels(), delta@),
            final(self).frames() == old(self).frames() + 1,
            final(self).colors() == old(self).colors(),
            final(self).bounds() == old(self).bounds(),
            final(self).cell_width() == old(self).cell_width(),
            final(self).title() == old(self).title(),
    {
        let mut i: usize = 0;
        while i < delta.len()
            invariant
                i <= delta.len(),
                self.wf(),
                self.colors() == old(self).colors(),
                self.bounds() == old(self).bounds(),
                self.cell_width() == old(self).cell_width(),
                self.frames() == old(self).frames(),
                self.title() == old(self).title(),
                forall|k: int|
                    0 <= k < delta@.len() ==> (#[trigger] delta@[k]).0.dims() == 2 && delta@[k].1
                        < self.colors().len(),
                self.pixels() == old(self).with_delta(old(self).pixels(), delta@.take(i as int)),
            decreases delta.len() - i,
        {
            let (coord, state) = delta[i];
            proof {
                let next = delta@.take(i + 1);
                assert(next.drop_last() =~= delta@.take(i as int));
                assert(next.last() == delta@[i as int]);
            }
            let color = self.colors_map[state];
            self.draw_cell(coord, color);
            i += 1;
        }
        assert(delta@.take(delta.len() as int) =~= delta@);
        self.frame_number = self.frame_number + 1;
    }
}

} // verus!
