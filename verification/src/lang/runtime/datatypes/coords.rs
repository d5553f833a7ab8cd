//! Coordinates of one, two or three axes, bounds and their enumeration.

use vstd::prelude::*;

verus! {

/// A lattice point of a one-, two- or three-dimensional grid.
#[derive(Debug, Eq, PartialEq, Hash, Copy, Clone, Structural)]
pub enum Coordinate {
    Coordinate1D { x: isize },
    Coordinate2D { x: isize, y: isize },
    Coordinate3D { x: isize, y: isize, z: isize },
}

/// Whether `v` is representable as a coordinate component.
pub open spec fn fits(v: int) -> bool {
    isize::MIN <= v <= isize::MAX
}

/// `Some(v + d)` where the sum is representable, `None` where it is not.
pub fn checked_shift(v: isize, d: isize) -> (r: Option<isize>)
    ensures
        r == (if fits(v + d) {
            Some((v + d) as isize)
        } else {
            None
        }),
{
    v.checked_add(d)
}

/// `Some(v + d)` for an offset that may exceed the component range itself,
/// `None` where the sum is not representable.
pub fn wide_shift(v: isize, d: i128) -> (r: Option<isize>)
    requires
        -0x1_0000_0000_0000_0000 <= d <= 0x1_0000_0000_0000_0000,
    ensures
        r == (if fits(v + d) {
            Some((v + d) as isize)
        } else {
            None
        }),
{
    let sum: i128 = v as i128 + d;
    if sum < isize::MIN as i128 || sum > isize::MAX as i128 {
        None
    } else {
        Some(sum as isize)
    }
}

impl Coordinate {
    /// Number of axes of this coordinate: 1, 2 or 3.
    pub open spec fn dims(self) -> nat {
        match self {
            Coordinate::Coordinate1D { .. } => 1,
            Coordinate::Coordinate2D { .. } => 2,
            Coordinate::Coordinate3D { .. } => 3,
        }
    }

    /// The X component.
    pub open spec fn px(self) -> int {
        match self {
            Coordinate::Coordinate1D { x } => x as int,
            Coordinate::Coordinate2D { x, .. } => x as int,
            Coordinate::Coordinate3D { x, .. } => x as int,
        }
    }

    /// The Y component; zero where the coordinate has none.
    pub open spec fn py(self) -> int {
        match self {
            Coordinate::Coordinate1D { .. } => 0,
            Coordinate::Coordinate2D { y, .. } => y as int,
            Coordinate::Coordinate3D { y, .. } => y as int,
        }
    }

    /// The Z component; zero where the coordinate has none.
    pub open spec fn pz(self) -> int {
        match self {
            Coordinate::Coordinate1D { .. } => 0,
            Coordinate::Coordinate2D { .. } => 0,
            Coordinate::Coordinate3D { z, .. } => z as int,
        }
    }

    /// The coordinate of the same variant moved by `(dx, dy, dz)`; a shift
    /// along an axis the variant lacks is ignored.
    pub open spec fn shifted(self, dx: int, dy: int, dz: int) -> Coordinate {
        match self {
            Coordinate::Coordinate1D { x } => Coordinate::Coordinate1D { x: (x + dx) as isize },
            Coordinate::Coordinate2D { x, y } => Coordinate::Coordinate2D {
                x: (x + dx) as isize,
                y: (y + dy) as isize,
            },
            Coordinate::Coordinate3D { x, y, z } => Coordinate::Coordinate3D {
                x: (x + dx) as isize,
                y: (y + dy) as isize,
                z: (z + dz) as isize,
            },
        }
    }

    /// Whether every component that the variant has stays representable
    /// when moved by `(dx, dy, dz)`.
    pub open spec fn shift_ok(self, dx: int, dy: int, dz: int) -> bool {
        &&& fits(self.px() + dx)
        &&& self.dims() >= 2 ==> fits(self.py() + dy)
        &&& self.dims() >= 3 ==> fits(self.pz() + dz)
    }

    /// The per-axis translations by `m`, X first: one coordinate for each
    /// axis the variant has.
    pub open spec fn all_shifted(self, m: int) -> Seq<Coordinate> {
        match self {
            Coordinate::Coordinate1D { .. } => seq![self.shifted(m, 0, 0)],
            Coordinate::Coordinate2D { .. } => seq![self.shifted(m, 0, 0), self.shifted(0, m, 0)],
            Coordinate::Coordinate3D { .. } => seq![
                self.shifted(m, 0, 0),
                self.shifted(0, m, 0),
                self.shifted(0, 0, m),
            ],
        }
    }

    /// The pointwise sum of two coordinates of the same variant.
    pub open spec fn plus(self, other: Coordinate) -> Coordinate {
        self.shifted(other.px(), other.py(), other.pz())
    }

    /// Number of axes, as a machine integer.
    pub fn dimensions(self) -> (r: usize)
        ensures
            r == self.dims(),
    {
        match self {
            Coordinate::Coordinate1D { .. } => 1,
            Coordinate::Coordinate2D { .. } => 2,
            Coordinate::Coordinate3D { .. } => 3,
        }
    }

    /// Translation by `(dx, dy, dz)`, or `None` where a component that the
    /// variant has would leave the representable range.
    pub fn offset(self, dx: isize, dy: isize, dz: isize) -> (r: Option<Coordinate>)
        ensures
            r == (if self.shift_ok(dx as int, dy as int, dz as int) {
                Some(self.shifted(dx as int, dy as int, dz as int))
            } else {
                None
            }),
    {
        match self {
            Coordinate::Coordinate1D { x } => match checked_shift(x, dx) {
                Some(nx) => Some(Coordinate::Coordinate1D { x: nx }),
                None => None,
            },
            Coordinate::Coordinate2D { x, y } => match (checked_shift(x, dx), checked_shift(y, dy)) {
                (Some(nx), Some(ny)) => Some(Coordinate::Coordinate2D { x: nx, y: ny }),
                _ => None,
            },
            Coordinate::Coordinate3D { x, y, z } => match (
                checked_shift(x, dx),
                checked_shift(y, dy),
                checked_shift(z, dz),
            ) {
                (Some(nx), Some(ny), Some(nz)) => Some(
                    Coordinate::Coordinate3D { x: nx, y: ny, z: nz },
                ),
                _ => None,
            },
        }
    }

    /// Translation by offsets that may exceed the component range
    /// themselves, or `None` where a component that the variant has would
    /// leave the representable range.
    pub fn translate(self, dx: i128, dy: i128, dz: i128) -> (r: Option<Coordinate>)
        requires
            -0x1_0000_0000_0000_0000 <= dx <= 0x1_0000_0000_0000_0000,
            -0x1_0000_0000_0000_0000 <= dy <= 0x1_0000_0000_0000_0000,
            -0x1_0000_0000_0000_0000 <= dz <= 0x1_0000_0000_0000_0000,
        ensures
            r == (if self.shift_ok(dx as int, dy as int, dz as int) {
                Some(self.shifted(dx as int, dy as int, dz as int))
            } else {
                None
            }),
    {
        match self {
            Coordinate::Coordinate1D { x } => match wide_shift(x, dx) {
                Some(nx) => Some(Coordinate::Coordinate1D { x: nx }),
                None => None,
            },
            Coordinate::Coordinate2D { x, y } => match (wide_shift(x, dx), wide_shift(y, dy)) {
                (Some(nx), Some(ny)) => Some(Coordinate::Coordinate2D { x: nx, y: ny }),
                _ => None,
            },
            Coordinate::Coordinate3D { x, y, z } => match (
                wide_shift(x, dx),
                wide_shift(y, dy),
                wide_shift(z, dz),
            ) {
                (Some(nx), Some(ny), Some(nz)) => Some(
                    Coordinate::Coordinate3D { x: nx, y: ny, z: nz },
                ),
                _ => None,
            },
        }
    }

    /// Translation along X by `magnitude`.
    pub fn add_x(self, magnitude: isize) -> (r: Coordinate)
        requires
            fits(self.px() + magnitude),
        ensures
            r == self.shifted(magnitude as int, 0, 0),
    {
        match self {
            Coordinate::Coordinate1D { x } => Coordinate::Coordinate1D { x: x + magnitude },
            Coordinate::Coordinate2D { x, y } => Coordinate::Coordinate2D { x: x + magnitude, y },
            Coordinate::Coordinate3D { x, y, z } => Coordinate::Coordinate3D {
                x: x + magnitude,
                y,
                z,
            },
        }
    }

    /// Translation along Y by `magnitude`; the coordinate must have a Y axis.
    pub fn add_y(self, magnitude: isize) -> (r: Coordinate)
        requires
            self.dims() >= 2,
            fits(self.py() + magnitude),
        ensures
            r == self.shifted(0, magnitude as int, 0),
    {
        match self {
            Coordinate::Coordinate1D { .. } => self,
            Coordinate::Coordinate2D { x, y } => Coordinate::Coordinate2D { x, y: y + magnitude },
            Coordinate::Coordinate3D { x, y, z } => Coordinate::Coordinate3D {
                x,
                y: y + magnitude,
                z,
            },
        }
    }

    /// Translation along Z by `magnitude`; the coordinate must have a Z axis.
    pub fn add_z(self, magnitude: isize) -> (r: Coordinate)
        requires
            self.dims() == 3,
            fits(self.pz() + magnitude),
        ensures
            r == self.shifted(0, 0, magnitude as int),
    {
        match self {
            Coordinate::Coordinate3D { x, y, z } => Coordinate::Coordinate3D {
                x,
                y,
                z: z + magnitude,
            },
            _ => self,
        }
    }

    /// The translations by `magnitude` along each axis the variant has.
    pub fn add_all(self, magnitude: isize) -> (r: Vec<Coordinate>)
        requires
            self.shift_ok(magnitude as int, magnitude as int, magnitude as int),
        ensures
            r@ == self.all_shifted(magnitude as int),
    {
        let mut out: Vec<Coordinate> = Vec::new();
        match self {
            Coordinate::Coordinate1D { x } => {
                out.push(Coordinate::Coordinate1D { x: x + magnitude });
            },
            Coordinate::Coordinate2D { x, y } => {
                out.push(Coordinate::Coordinate2D { x: x + magnitude, y });
                out.push(Coordinate::Coordinate2D { x, y: y + magnitude });
            },
            Coordinate::Coordinate3D { x, y, z } => {
                out.push(Coordinate::Coordinate3D { x: x + magnitude, y, z });
                out.push(Coordinate::Coordinate3D { x, y: y + magnitude, z });
                out.push(Coordinate::Coordinate3D { x, y, z: z + magnitude });
            },
        }
        assert(out@ =~= self.all_shifted(magnitude as int));
        out
    }

    /// Translation along X by `-magnitude`.
    pub fn sub_x(self, magnitude: isize) -> (r: Coordinate)
        requires
            fits(self.px() - magnitude),
        ensures
            r == self.shifted(-(magnitude as int), 0, 0),
    {
        match self {
            Coordinate::Coordinate1D { x } => Coordinate::Coordinate1D { x: x - magnitude },
            Coordinate::Coordinate2D { x, y } => Coordinate::Coordinate2D { x: x - magnitude, y },
            Coordinate::Coordinate3D { x, y, z } => Coordinate::Coordinate3D {
                x: x - magnitude,
                y,
                z,
            },
        }
    }

    /// Translation along Y by `-magnitude`; the coordinate must have a Y axis.
    pub fn sub_y(self, magnitude: isize) -> (r: Coordinate)
        requires
            self.dims() >= 2,
            fits(self.py() - magnitude),
        ensures
            r == self.shifted(0, -(magnitude as int), 0),
    {
        match self {
            Coordinate::Coordinate1D { .. } => self,
            Coordinate::Coordinate2D { x, y } => Coordinate::Coordinate2D { x, y: y - magnitude },
            Coordinate::Coordinate3D { x, y, z } => Coordinate::Coordinate3D {
                x,
                y: y - magnitude,
                z,
            },
        }
    }

    /// Translation along Z by `-magnitude`; the coordinate must have a Z axis.
    pub fn sub_z(self, magnitude: isize) -> (r: Coordinate)
        requires
            self.dims() == 3,
            fits(self.pz() - magnitude),
        ensures
            r == self.shifted(0, 0, -(magnitude as int)),
    {
        match self {
            Coordinate::Coordinate3D { x, y, z } => Coordinate::Coordinate3D {
                x,
                y,
                z: z - magnitude,
            },
            _ => self,
        }
    }

    /// The translations by `-magnitude` along each axis the variant has.
    pub fn sub_all(self, magnitude: isize) -> (r: Vec<Coordinate>)
        requires
            self.shift_ok(-(magnitude as int), -(magnitude as int), -(magnitude as int)),
        ensures
            r@ == self.all_shifted(-(magnitude as int)),
    {
        let mut out: Vec<Coordinate> = Vec::new();
        match self {
            Coordinate::Coordinate1D { x } => {
                out.push(Coordinate::Coordinate1D { x: x - magnitude });
            },
            Coordinate::Coordinate2D { x, y } => {
                out.push(Coordinate::Coordinate2D { x: x - magnitude, y });
                out.push(Coordinate::Coordinate2D { x, y: y - magnitude });
            },
            Coordinate::Coordinate3D { x, y, z } => {
                out.push(Coordinate::Coordinate3D { x: x - magnitude, y, z });
                out.push(Coordinate::Coordinate3D { x, y: y - magnitude, z });
                out.push(Coordinate::Coordinate3D { x, y, z: z - magnitude });
            },
        }
        assert(out@ =~= self.all_shifted(-(magnitude as int)));
        out
    }

    /// Pointwise sum with a coordinate of the same variant.
    pub fn plus_point(self, other: Coordinate) -> (r: Coordinate)
        requires
            self.dims() == other.dims(),
            self.shift_ok(other.px(), other.py(), other.pz()),
        ensures
            r == self.plus(other),
    {
        match (self, other) {
            (Coordinate::Coordinate1D { x }, Coordinate::Coordinate1D { x: ox }) => {
                Coordinate::Coordinate1D { x: x + ox }
            },
            (Coordinate::Coordinate2D { x, y }, Coordinate::Coordinate2D { x: ox, y: oy }) => {
                Coordinate::Coordinate2D { x: x + ox, y: y + oy }
            },
            (
                Coordinate::Coordinate3D { x, y, z },
                Coordinate::Coordinate3D { x: ox, y: oy, z: oz },
            ) => Coordinate::Coordinate3D { x: x + ox, y: y + oy, z: z + oz },
            _ => self,
        }
    }
}

/// Translating along X by `m` and back again gives the coordinate itself,
/// for every variant.
pub proof fn lemma_add_sub_x(c: Coordinate, m: int)
    requires
        fits(c.px() + m),
    ensures
        c.shifted(m, 0, 0).shifted(-m, 0, 0) == c,
{
}

/// Translating along Y by `m` and back again gives the coordinate itself,
/// for every variant with a Y axis.
pub proof fn lemma_add_sub_y(c: Coordinate, m: int)
    requires
        c.dims() >= 2,
        fits(c.py() + m),
    ensures
        c.shifted(0, m, 0).shifted(0, -m, 0) == c,
{
}

/// Translating along Z by `m` and back again gives the coordinate itself,
/// for the variant with a Z axis.
pub proof fn lemma_add_sub_z(c: Coordinate, m: int)
    requires
        c.dims() == 3,
        fits(c.pz() + m),
    ensures
        c.shifted(0, 0, m).shifted(0, 0, -m) == c,
{
}

/// Pointwise addition is commutative within a variant.
pub proof fn lemma_plus_commutative(a: Coordinate, b: Coordinate)
    requires
        a.dims() == b.dims(),
        a.shift_ok(b.px(), b.py(), b.pz()),
    ensures
        a.plus(b) == b.plus(a),
{
}

/// Pointwise addition is associative within a variant, wherever the
/// partial sums are representable.
pub proof fn lemma_plus_associative(a: Coordinate, b: Coordinate, c: Coordinate)
    requires
        a.dims() == b.dims(),
        b.dims() == c.dims(),
        a.shift_ok(b.px(), b.py(), b.pz()),
        b.shift_ok(c.px(), c.py(), c.pz()),
    ensures
        a.plus(b).plus(c) == a.plus(b.plus(c)),
{
}


/// An inclusive range `(low, high)` along one axis.
pub type Bound = (isize, isize);

/// Whether `v` lies in the inclusive range `bound`.
pub open spec fn in_bound(v: int, bound: Bound) -> bool {
    bound.0 <= v <= bound.1
}

/// Whether `v` equals one of the two ends of `bound`.
pub open spec fn on_bound(v: int, bound: Bound) -> bool {
    bound.0 == v || v == bound.1
}

/// Number of integers in the inclusive range `bound`.
pub open spec fn breadth(bound: Bound) -> int {
    bound.1 - bound.0 + 1
}

pub fn within_bound(coord: isize, bound: Bound) -> (r: bool)
    ensures
        r == in_bound(coord as int, bound),
{
    let (low, high) = bound;
    low <= coord && coord <= high
}

pub fn at_bound(coord: isize, bound: Bound) -> (r: bool)
    ensures
        r == on_bound(coord as int, bound),
{
    let (low, high) = bound;
    low == coord || coord == high
}

pub fn bound_breadth(bound: Bound) -> (r: isize)
    requires
        fits(breadth(bound)),
    ensures
        r == breadth(bound),
{
    let (low, high) = bound;
    if low <= 0 {
        high + 1 - low
    } else {
        high - (low - 1)
    }
}

/// The image of `v` under the torus that identifies the two ends of
/// `bound`: the one member of the range that differs from `v` by a multiple
/// of the range's breadth.
pub open spec fn wrapped(v: int, bound: Bound) -> int {
    bound.0 + (v - bound.0) % breadth(bound)
}

/// Maps `coord` into `bound` modulo the breadth of the range.
pub fn wrap_bound(coord: isize, bound: Bound) -> (r: isize)
    requires
        bound.0 <= bound.1,
    ensures
        r == wrapped(coord as int, bound),
        in_bound(r as int, bound),
{
    let (low, high) = bound;
    let span: i128 = high as i128 - low as i128 + 1;
    let delta: i128 = coord as i128 - low as i128;
    let rem: i128 = match delta.checked_rem_euclid(span) {
        Some(v) => v,
        None => 0,
    };
    proof {
        vstd::arithmetic::div_mod::lemma_mod_bound(delta as int, span as int);
    }
    (low as i128 + rem) as isize
}

/// An axis-aligned inclusive box of lattice points.
#[derive(Copy, Clone, Debug, Eq, PartialEq)]
pub enum DimensionBounds {
    DimensionBounds1D { x: Bound },
    DimensionBounds2D { x: Bound, y: Bound },
    DimensionBounds3D { x: Bound, y: Bound, z: Bound },
}

impl DimensionBounds {
    /// Number of axes of the box: 1, 2 or 3.
    pub open spec fn dims(self) -> nat {
        match self {
            DimensionBounds::DimensionBounds1D { .. } => 1,
            DimensionBounds::DimensionBounds2D { .. } => 2,
            DimensionBounds::DimensionBounds3D { .. } => 3,
        }
    }

    /// The range along X.
    pub open spec fn x_range(self) -> Bound {
        match self {
            DimensionBounds::DimensionBounds1D { x } => x,
            DimensionBounds::DimensionBounds2D { x, .. } => x,
            DimensionBounds::DimensionBounds3D { x, .. } => x,
        }
    }

    /// The range along Y; the single point zero where the box has no Y axis.
    pub open spec fn y_range(self) -> Bound {
        match self {
            DimensionBounds::DimensionBounds1D { .. } => (0isize, 0isize),
            DimensionBounds::DimensionBounds2D { y, .. } => y,
            DimensionBounds::DimensionBounds3D { y, .. } => y,
        }
    }

    /// The range along Z; the single point zero where the box has no Z axis.
    pub open spec fn z_range(self) -> Bound {
        match self {
            DimensionBounds::DimensionBounds1D { .. } => (0isize, 0isize),
            DimensionBounds::DimensionBounds2D { .. } => (0isize, 0isize),
            DimensionBounds::DimensionBounds3D { z, .. } => z,
        }
    }

    /// The invariant of a box: along every axis the low end does not exceed
    /// the high end.
    pub open spec fn wf(self) -> bool {
        &&& self.x_range().0 <= self.x_range().1
        &&& self.y_range().0 <= self.y_range().1
        &&& self.z_range().0 <= self.z_range().1
    }

    /// Whether `c` is a point of this box: same number of axes, every
    /// component within its range.
    pub open spec fn has(self, c: Coordinate) -> bool {
        &&& c.dims() == self.dims()
        &&& in_bound(c.px(), self.x_range())
        &&& in_bound(c.py(), self.y_range())
        &&& in_bound(c.pz(), self.z_range())
    }

    /// Whether `c` is a point of this box's surface: a point of the box with
    /// at least one component at an end of its range.
    pub open spec fn on_edge(self, c: Coordinate) -> bool {
        &&& self.has(c)
        &&& {
            ||| on_bound(c.px(), self.x_range())
            ||| self.dims() >= 2 && on_bound(c.py(), self.y_range())
            ||| self.dims() >= 3 && on_bound(c.pz(), self.z_range())
        }
    }

    /// The point of this box's variant with the given components.
    pub open spec fn point(self, x: int, y: int, z: int) -> Coordinate {
        match self {
            DimensionBounds::DimensionBounds1D { .. } => Coordinate::Coordinate1D { x: x as isize },
            DimensionBounds::DimensionBounds2D { .. } => Coordinate::Coordinate2D {
                x: x as isize,
                y: y as isize,
            },
            DimensionBounds::DimensionBounds3D { .. } => Coordinate::Coordinate3D {
                x: x as isize,
                y: y as isize,
                z: z as isize,
            },
        }
    }

    /// The torus image of `c`: every component wrapped into its range.
    pub open spec fn torus(self, c: Coordinate) -> Coordinate {
        self.point(
            wrapped(c.px(), self.x_range()),
            wrapped(c.py(), self.y_range()),
            wrapped(c.pz(), self.z_range()),
        )
    }

    /// Number of lattice points in the box.
    pub open spec fn count(self) -> int {
        breadth(self.x_range()) * breadth(self.y_range()) * breadth(self.z_range())
    }

    /// Position of the point `c` of the box in lexicographic order, X
    /// outermost and Z innermost, counted from zero.
    pub open spec fn rank(self, c: Coordinate) -> int {
        ((c.px() - self.x_range().0) * breadth(self.y_range()) + (c.py() - self.y_range().0)) * breadth(self.z_range())
            + (c.pz() - self.z_range().0)
    }

    /// The point at position `i` of the lexicographic order.
    pub open spec fn unrank(self, i: int) -> Coordinate {
        let q = i / breadth(self.z_range());
        self.point(
            self.x_range().0 + q / breadth(self.y_range()),
            self.y_range().0 + q % breadth(self.y_range()),
            self.z_range().0 + i % breadth(self.z_range()),
        )
    }

    /// The point that follows `c` in lexicographic order, if there is one.
    pub open spec fn successor(self, c: Coordinate) -> Option<Coordinate> {
        if c.pz() < self.z_range().1 {
            Some(self.point(c.px(), c.py(), c.pz() + 1))
        } else if c.py() < self.y_range().1 {
            Some(self.point(c.px(), c.py() + 1, self.z_range().0 as int))
        } else if c.px() < self.x_range().1 {
            Some(self.point(c.px() + 1, self.y_range().0 as int, self.z_range().0 as int))
        } else {
            None
        }
    }

    /// The first point in lexicographic order: the low end of every range.
    pub open spec fn first(self) -> Coordinate {
        self.point(self.x_range().0 as int, self.y_range().0 as int, self.z_range().0 as int)
    }

    /// Every lattice point of the box, in lexicographic order.
    pub open spec fn points(self) -> Seq<Coordinate> {
        Seq::new(self.count() as nat, |i: int| self.unrank(i))
    }

    /// Number of axes, as a machine integer.
    pub fn dimensions(self) -> (r: usize)
        ensures
            r == self.dims(),
    {
        match self {
            DimensionBounds::DimensionBounds1D { .. } => 1,
            DimensionBounds::DimensionBounds2D { .. } => 2,
            DimensionBounds::DimensionBounds3D { .. } => 3,
        }
    }

    /// Whether the low end of every range does not exceed its high end.
    pub fn is_valid(self) -> (r: bool)
        ensures
            r == self.wf(),
    {
        match self {
            DimensionBounds::DimensionBounds1D { x } => x.0 <= x.1,
            DimensionBounds::DimensionBounds2D { x, y } => x.0 <= x.1 && y.0 <= y.1,
            DimensionBounds::DimensionBounds3D { x, y, z } => x.0 <= x.1 && y.0 <= y.1 && z.0 <= z.1,
        }
    }

    /// Whether every component of `coord` lies in its range.
    pub fn contains(self, coord: Coordinate) -> (r: bool)
        requires
            coord.dims() == self.dims(),
        ensures
            r == self.has(coord),
    {
        match (coord, self) {
            (Coordinate::Coordinate1D { x }, DimensionBounds::DimensionBounds1D { x: x_bound }) => {
                within_bound(x, x_bound)
            },
            (
                Coordinate::Coordinate2D { x, y },
                DimensionBounds::DimensionBounds2D { x: x_bound, y: y_bound },
            ) => within_bound(x, x_bound) && within_bound(y, y_bound),
            (
                Coordinate::Coordinate3D { x, y, z },
                DimensionBounds::DimensionBounds3D { x: x_bound, y: y_bound, z: z_bound },
            ) => within_bound(x, x_bound) && within_bound(y, y_bound) && within_bound(z, z_bound),
            _ => false,
        }
    }

    /// Whether `coord` is a point of the box with a component at an end of
    /// its range.
    pub fn boundary(self, coord: Coordinate) -> (r: bool)
        requires
            coord.dims() == self.dims(),
        ensures
            r == self.on_edge(coord),
    {
        if !self.contains(coord) {
            return false;
        }
        match (coord, self) {
            (Coordinate::Coordinate1D { x }, DimensionBounds::DimensionBounds1D { x: x_bound }) => {
                at_bound(x, x_bound)
            },
            (
                Coordinate::Coordinate2D { x, y },
                DimensionBounds::DimensionBounds2D { x: x_bound, y: y_bound },
            ) => at_bound(x, x_bound) || at_bound(y, y_bound),
            (
                Coordinate::Coordinate3D { x, y, z },
                DimensionBounds::DimensionBounds3D { x: x_bound, y: y_bound, z: z_bound },
            ) => at_bound(x, x_bound) || at_bound(y, y_bound) || at_bound(z, z_bound),
            _ => false,
        }
    }

    /// Maps `coord` onto the torus of this box, axis by axis.
    pub fn wrap(self, coord: Coordinate) -> (r: Coordinate)
        requires
            self.wf(),
            coord.dims() == self.dims(),
        ensures
            r == self.torus(coord),
            self.has(r),
    {
        match (coord, self) {
            (Coordinate::Coordinate1D { x }, DimensionBounds::DimensionBounds1D { x: x_bound }) => {
                Coordinate::Coordinate1D { x: wrap_bound(x, x_bound) }
            },
            (
                Coordinate::Coordinate2D { x, y },
                DimensionBounds::DimensionBounds2D { x: x_bound, y: y_bound },
            ) => Coordinate::Coordinate2D { x: wrap_bound(x, x_bound), y: wrap_bound(y, y_bound) },
            (
                Coordinate::Coordinate3D { x, y, z },
                DimensionBounds::DimensionBounds3D { x: x_bound, y: y_bound, z: z_bound },
            ) => Coordinate::Coordinate3D {
                x: wrap_bound(x, x_bound),
                y: wrap_bound(y, y_bound),
                z: wrap_bound(z, z_bound),
            },
            _ => coord,
        }
    }

    /// Number of integers in the X range.
    pub fn x_breadth(&self) -> (r: isize)
        requires
            fits(breadth(self.x_range())),
        ensures
            r == breadth(self.x_range()),
    {
        match self {
            DimensionBounds::DimensionBounds1D { x } => bound_breadth(*x),
            DimensionBounds::DimensionBounds2D { x, .. } => bound_breadth(*x),
            DimensionBounds::DimensionBounds3D { x, .. } => bound_breadth(*x),
        }
    }

    /// Number of integers in the Y range; the box must have a Y axis.
    pub fn y_breadth(&self) -> (r: isize)
        requires
            self.dims() >= 2,
            fits(breadth(self.y_range())),
        ensures
            r == breadth(self.y_range()),
    {
        match self {
            DimensionBounds::DimensionBounds1D { .. } => 1,
            DimensionBounds::DimensionBounds2D { y, .. } => bound_breadth(*y),
            DimensionBounds::DimensionBounds3D { y, .. } => bound_breadth(*y),
        }
    }

    /// Number of integers in the Z range; the box must have a Z axis.
    pub fn z_breadth(&self) -> (r: isize)
        requires
            self.dims() == 3,
            fits(breadth(self.z_range())),
        ensures
            r == breadth(self.z_range()),
    {
        match self {
            DimensionBounds::DimensionBounds3D { z, .. } => bound_breadth(*z),
            _ => 1,
        }
    }
}


/// The points of a box are counted by `count`, which is positive.
pub proof fn lemma_count_positive(b: DimensionBounds)
    requires
        b.wf(),
    ensures
        b.count() >= 1,
{
    let m = breadth(b.x_range());
    let n = breadth(b.y_range());
    let k = breadth(b.z_range());
    assert(m * n >= 1) by (nonlinear_arith)
        requires
            m >= 1,
            n >= 1,
    ;
    assert((m * n) * k >= 1) by (nonlinear_arith)
        requires
            m * n >= 1,
            k >= 1,
    ;
}

/// In a box, position and point determine each other: the point at the
/// rank of `c` is `c`, and that rank is below `count`.
pub proof fn lemma_unrank_rank(b: DimensionBounds, c: Coordinate)
    requires
        b.wf(),
        b.has(c),
    ensures
        0 <= b.rank(c) < b.count(),
        b.unrank(b.rank(c)) == c,
{
    let m = breadth(b.x_range());
    let n = breadth(b.y_range());
    let k = breadth(b.z_range());
    let dx = c.px() - b.x_range().0;
    let dy = c.py() - b.y_range().0;
    let dz = c.pz() - b.z_range().0;
    let q = dx * n + dy;
    assert(0 <= q < m * n) by (nonlinear_arith)
        requires
            q == dx * n + dy,
            0 <= dx < m,
            0 <= dy < n,
    ;
    assert(0 <= q * k + dz < (m * n) * k) by (nonlinear_arith)
        requires
            0 <= q < m * n,
            0 <= dz < k,
    ;
    vstd::arithmetic::div_mod::lemma_fundamental_div_mod_converse(q * k + dz, k, q, dz);
    vstd::arithmetic::div_mod::lemma_fundamental_div_mod_converse(q, n, dx, dy);
}

/// The rank of the point at position `i` is `i`, and that point lies in
/// the box.
pub proof fn lemma_rank_unrank(b: DimensionBounds, i: int)
    requires
        b.wf(),
        0 <= i < b.count(),
    ensures
        b.has(b.unrank(i)),
        b.rank(b.unrank(i)) == i,
{
    let m = breadth(b.x_range());
    let n = breadth(b.y_range());
    let k = breadth(b.z_range());
    let q = i / k;
    vstd::arithmetic::div_mod::lemma_fundamental_div_mod(i, k);
    vstd::arithmetic::div_mod::lemma_mod_bound(i, k);
    assert(0 <= q < m * n) by (nonlinear_arith)
        requires
            i == k * q + i % k,
            0 <= i % k < k,
            0 <= i < (m * n) * k,
            k >= 1,
    ;
    vstd::arithmetic::div_mod::lemma_fundamental_div_mod(q, n);
    vstd::arithmetic::div_mod::lemma_mod_bound(q, n);
    let dx = q / n;
    assert(0 <= dx < m) by (nonlinear_arith)
        requires
            q == n * dx + q % n,
            0 <= q % n < n,
            0 <= q < m * n,
            n >= 1,
    ;
    let c = b.unrank(i);
    assert(c.px() == b.x_range().0 + dx);
    assert(c.py() == b.y_range().0 + q % n);
    assert(c.pz() == b.z_range().0 + i % k);
    assert(dx * n + q % n == q) by (nonlinear_arith)
        requires
            q == n * dx + q % n,
    ;
    assert(q * k + i % k == i) by (nonlinear_arith)
        requires
            i == k * q + i % k,
    ;
}

/// The successor of a point of the box is the point at the next rank, and
/// the last point has none.
pub proof fn lemma_successor_rank(b: DimensionBounds, c: Coordinate)
    requires
        b.wf(),
        b.has(c),
    ensures
        match b.successor(c) {
            Some(n) => b.has(n) && b.rank(n) == b.rank(c) + 1,
            None => b.rank(c) + 1 == b.count(),
        },
{
    let m = breadth(b.x_range());
    let n = breadth(b.y_range());
    let k = breadth(b.z_range());
    let dx = c.px() - b.x_range().0;
    let dy = c.py() - b.y_range().0;
    let dz = c.pz() - b.z_range().0;
    if c.pz() < b.z_range().1 {
    } else if c.py() < b.y_range().1 {
        assert((dx * n + dy + 1) * k == (dx * n + dy) * k + k) by (nonlinear_arith);
    } else if c.px() < b.x_range().1 {
        assert(((dx + 1) * n) * k == (dx * n + (n - 1)) * k + k) by (nonlinear_arith);
    } else {
        assert(((m - 1) * n + (n - 1)) * k + (k - 1) + 1 == (m * n) * k) by (nonlinear_arith);
    }
}

/// Enumerating a box yields exactly the product of the breadths of its
/// ranges many points, every one of them inside the box and no two alike.
pub proof fn lemma_points_exact(b: DimensionBounds)
    requires
        b.wf(),
    ensures
        b.points().len() == breadth(b.x_range()) * breadth(b.y_range()) * breadth(b.z_range()),
        forall|i: int| 0 <= i < b.points().len() ==> b.has(#[trigger] b.points()[i]),
        forall|i: int, j: int|
            0 <= i < b.points().len() && 0 <= j < b.points().len() && i != j
                ==> #[trigger] b.points()[i] != #[trigger] b.points()[j],
        forall|c: Coordinate| b.has(c) ==> #[trigger] b.points().contains(c),
{
    lemma_count_positive(b);
    assert forall|i: int| 0 <= i < b.points().len() implies b.has(#[trigger] b.points()[i]) by {
        lemma_rank_unrank(b, i);
    }
    assert forall|i: int, j: int|
        0 <= i < b.points().len() && 0 <= j < b.points().len() && i != j implies #[trigger] b.points()[i]
        != #[trigger] b.points()[j] by {
        lemma_rank_unrank(b, i);
        lemma_rank_unrank(b, j);
    }
    assert forall|c: Coordinate| b.has(c) implies #[trigger] b.points().contains(c) by {
        lemma_unrank_rank(b, c);
        assert(b.points()[b.rank(c)] == c);
    }
}

/// A cursor over the points of a one-dimensional box.
pub struct DimensionsIter1D {
    x: Bound,
    cursor: Option<isize>,
}

/// A cursor over the points of a two-dimensional box.
pub struct DimensionsIter2D {
    x: Bound,
    y: Bound,
    cursor: Option<(isize, isize)>,
}

/// A cursor over the points of a three-dimensional box.
pub struct DimensionsIter3D {
    x: Bound,
    y: Bound,
    z: Bound,
    cursor: Option<(isize, isize, isize)>,
}

impl DimensionsIter1D {
    /// The box that is enumerated.
    pub closed spec fn bounds(self) -> DimensionBounds {
        DimensionBounds::DimensionBounds1D { x: self.x }
    }

    /// The point that `next` yields, if any is left.
    pub closed spec fn peek(self) -> Option<Coordinate> {
        match self.cursor {
            Some(x) => Some(Coordinate::Coordinate1D { x }),
            None => None,
        }
    }

    /// Yields the point under the cursor and moves the cursor to its
    /// successor.
    pub fn next(&mut self) -> (r: Option<Coordinate>)
        requires
            old(self).peek() matches Some(c) ==> old(self).bounds().has(c),
        ensures
            r == old(self).peek(),
            final(self).bounds() == old(self).bounds(),
            final(self).peek() == match old(self).peek() {
                Some(c) => old(self).bounds().successor(c),
                None => None,
            },
    {
        match self.cursor {
            None => None,
            Some(x) => {
                if x < self.x.1 {
                    self.cursor = Some(x + 1);
                } else {
                    self.cursor = None;
                }
                Some(Coordinate::Coordinate1D { x })
            },
        }
    }
}

impl DimensionsIter2D {
    /// The box that is enumerated.
    pub closed spec fn bounds(self) -> DimensionBounds {
        DimensionBounds::DimensionBounds2D { x: self.x, y: self.y }
    }

    /// The point that `next` yields, if any is left.
    pub closed spec fn peek(self) -> Option<Coordinate> {
        match self.cursor {
            Some((x, y)) => Some(Coordinate::Coordinate2D { x, y }),
            None => None,
        }
    }

    /// Yields the point under the cursor and moves the cursor to its
    /// successor.
    pub fn next(&mut self) -> (r: Option<Coordinate>)
        requires
            old(self).peek() matches Some(c) ==> old(self).bounds().has(c),
        ensures
            r == old(self).peek(),
            final(self).bounds() == old(self).bounds(),
            final(self).peek() == match old(self).peek() {
                Some(c) => old(self).bounds().successor(c),
                None => None,
            },
    {
        match self.cursor {
            None => None,
            Some((x, y)) => {
                if y < self.y.1 {
                    self.cursor = Some((x, y + 1));
                } else if x < self.x.1 {
                    self.cursor = Some((x + 1, self.y.0));
                } else {
                    self.cursor = None;
                }
                Some(Coordinate::Coordinate2D { x, y })
            },
        }
    }
}

impl DimensionsIter3D {
    /// The box that is enumerated.
    pub closed spec fn bounds(self) -> DimensionBounds {
        DimensionBounds::DimensionBounds3D { x: self.x, y: self.y, z: self.z }
    }

    /// The point that `next` yields, if any is left.
    pub closed spec fn peek(self) -> Option<Coordinate> {
        match self.cursor {
            Some((x, y, z)) => Some(Coordinate::Coordinate3D { x, y, z }),
            None => None,
        }
    }

    /// Yields the point under the cursor and moves the cursor to its
    /// successor.
    pub fn next(&mut self) -> (r: Option<Coordinate>)
        requires
            old(self).peek() matches Some(c) ==> old(self).bounds().has(c),
        ensures
            r == old(self).peek(),
            final(self).bounds() == old(self).bounds(),
            final(self).peek() == match old(self).peek() {
                Some(c) => old(self).bounds().successor(c),
                None => None,
            },
    {
        match self.cursor {
            None => None,
            Some((x, y, z)) => {
                if z < self.z.1 {
                    self.cursor = Some((x, y, z + 1));
                } else if y < self.y.1 {
                    self.cursor = Some((x, y + 1, self.z.0));
                } else if x < self.x.1 {
                    self.cursor = Some((x + 1, self.y.0, self.z.0));
                } else {
                    self.cursor = None;
                }
                Some(Coordinate::Coordinate3D { x, y, z })
            },
        }
    }
}

/// A cursor over the points of a box, in lexicographic order.
pub enum DimensionsIter {
    Dimensions1D(DimensionsIter1D),
    Dimensions2D(DimensionsIter2D),
    Dimensions3D(DimensionsIter3D),
}

impl DimensionsIter {
    /// The box that is enumerated.
    pub open spec fn bounds(self) -> DimensionBounds {
        match self {
            DimensionsIter::Dimensions1D(i) => i.bounds(),
            DimensionsIter::Dimensions2D(i) => i.bounds(),
            DimensionsIter::Dimensions3D(i) => i.bounds(),
        }
    }

    /// The point that `next` yields, if any is left.
    pub open spec fn peek(self) -> Option<Coordinate> {
        match self {
            DimensionsIter::Dimensions1D(i) => i.peek(),
            DimensionsIter::Dimensions2D(i) => i.peek(),
            DimensionsIter::Dimensions3D(i) => i.peek(),
        }
    }

    /// The invariant of a cursor: its box is well formed and the point under
    /// the cursor belongs to it.
    pub open spec fn wf(self) -> bool {
        &&& self.bounds().wf()
        &&& self.peek() matches Some(c) ==> self.bounds().has(c)
    }

    /// The points that are still to come, in order.
    pub open spec fn remaining(self) -> Seq<Coordinate> {
        match self.peek() {
            Some(c) => self.bounds().points().skip(self.bounds().rank(c)),
            None => Seq::empty(),
        }
    }

    /// A cursor at the first point of `dimensions`.
    pub fn new(dimensions: DimensionBounds) -> (r: DimensionsIter)
        requires
            dimensions.wf(),
        ensures
            r.wf(),
            r.bounds() == dimensions,
            r.peek() == Some(dimensions.first()),
            r.remaining() == dimensions.points(),
    {
        let r = match dimensions {
            DimensionBounds::DimensionBounds1D { x } => DimensionsIter::Dimensions1D(
                DimensionsIter1D { x, cursor: Some(x.0) },
            ),
            DimensionBounds::DimensionBounds2D { x, y } => DimensionsIter::Dimensions2D(
                DimensionsIter2D { x, y, cursor: Some((x.0, y.0)) },
            ),
            DimensionBounds::DimensionBounds3D { x, y, z } => DimensionsIter::Dimensions3D(
                DimensionsIter3D { x, y, z, cursor: Some((x.0, y.0, z.0)) },
            ),
        };
        proof {
            assert(r.peek() == Some(dimensions.first()));
            assert(dimensions.rank(dimensions.first()) == 0) by (nonlinear_arith)
                requires
                    dimensions.first().px() == dimensions.x_range().0,
                    dimensions.first().py() == dimensions.y_range().0,
                    dimensions.first().pz() == dimensions.z_range().0,
                    dimensions.rank(dimensions.first()) == ((dimensions.first().px()
                        - dimensions.x_range().0) * breadth(dimensions.y_range()) + (
                    dimensions.first().py() - dimensions.y_range().0)) * breadth(
                        dimensions.z_range(),
                    ) + (dimensions.first().pz() - dimensions.z_range().0),
            ;
            assert(dimensions.points().skip(0) =~= dimensions.points());
        }
        r
    }

    /// Yields the next point in lexicographic order, or `None` once every
    /// point of the box has been yielded.
    pub fn next(&mut self) -> (r: Option<Coordinate>)
        requires
            old(self).wf(),
        ensures
            final(self).wf(),
            final(self).bounds() == old(self).bounds(),
            r == old(self).peek(),
            final(self).peek() == match old(self).peek() {
                Some(c) => old(self).bounds().successor(c),
                None => None,
            },
            match r {
                Some(c) => old(self).remaining().len() > 0 && c == old(self).remaining()[0]
                    && final(self).remaining() == old(self).remaining().skip(1),
                None => old(self).remaining().len() == 0 && final(self).remaining().len() == 0,
            },
    {
        let ghost before = *self;
        let r = match self {
            DimensionsIter::Dimensions1D(i) => i.next(),
            DimensionsIter::Dimensions2D(i) => i.next(),
            DimensionsIter::Dimensions3D(i) => i.next(),
        };
        proof {
            let b = before.bounds();
            match r {
                Some(c) => {
                    lemma_successor_rank(b, c);
                    lemma_unrank_rank(b, c);
                    let k = b.rank(c);
                    assert(before.remaining() == b.points().skip(k));
                    assert(b.points().skip(k)[0] == b.points()[k]);
                    match b.successor(c) {
                        Some(n) => {
                            assert(self.remaining() =~= b.points().skip(k + 1));
                            assert(b.points().skip(k).skip(1) =~= b.points().skip(k + 1));
                        },
                        None => {
                            assert(b.points().skip(k).skip(1) =~= Seq::<Coordinate>::empty());
                        },
                    }
                },
                None => {},
            }
        }
        r
    }

    /// Every point that is still to come, in order.
    pub fn collect(self) -> (r: Vec<Coordinate>)
        requires
            self.wf(),
            self.remaining().len() <= usize::MAX,
        ensures
            r@ == self.remaining(),
    {
        let mut it = self;
        let mut out: Vec<Coordinate> = Vec::new();
        loop
            invariant
                it.wf(),
                out@ + it.remaining() == self.remaining(),
            decreases it.remaining().len(),
        {
            match it.next() {
                Some(c) => {
                    let ghost prev = out@;
                    out.push(c);
                    assert(out@ + it.remaining() =~= self.remaining()) by {
                        let ghost rest = it.remaining();
                        assert(prev.push(c) + rest =~= prev + (seq![c] + rest));
                    }
                },
                None => {
                    assert(out@ =~= self.remaining());
                    return out;
                },
            }
        }
    }
}

impl DimensionBounds {
    /// A cursor at the first point of the box.
    pub fn into_iter(self) -> (r: DimensionsIter)
        requires
            self.wf(),
        ensures
            r.wf(),
            r.bounds() == self,
            r.remaining() == self.points(),
    {
        DimensionsIter::new(self)
    }
}

} // verus!
