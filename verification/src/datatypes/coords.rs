//! Coordinates with a fixed number of axes, the closed sets that hold them
//! and the cursors that enumerate them.

use vstd::prelude::*;
use core::ops::RangeInclusive;
use itertools::Itertools;
use itertools::Product;

verus! {

/// How many axes a coordinate type has.
#[derive(Debug, Clone, Copy, PartialEq, Eq, Structural)]
pub enum Dimensionality {
    OneDimensional,
    TwoDimensional,
    ThreeDimensional,
}

impl Dimensionality {
    /// The number of axes.
    pub open spec fn axes(self) -> nat {
        match self {
            Dimensionality::OneDimensional => 1,
            Dimensionality::TwoDimensional => 2,
            Dimensionality::ThreeDimensional => 3,
        }
    }
}

/// An axis, or every axis.
#[derive(Debug, Clone, Copy, PartialEq, Eq, PartialOrd, Ord, Structural)]
pub enum Dimension {
    X,
    Y,
    Z,
    All,
}

impl Dimension {
    /// Position of the dimension in the order X, Y, Z, All.
    pub open spec fn rank(self) -> nat {
        match self {
            Dimension::X => 0,
            Dimension::Y => 1,
            Dimension::Z => 2,
            Dimension::All => 3,
        }
    }

    /// Position of the dimension in the order X, Y, Z, All.
    pub fn position(self) -> (r: u8)
        ensures
            r == self.rank(),
    {
        match self {
            Dimension::X => 0,
            Dimension::Y => 1,
            Dimension::Z => 2,
            Dimension::All => 3,
        }
    }

    /// The single axes that the dimension stands for: itself, or X, Y and
    /// Z for `All`.
    pub open spec fn axes(self) -> Seq<Dimension> {
        match self {
            Dimension::All => seq![Dimension::X, Dimension::Y, Dimension::Z],
            _ => seq![self],
        }
    }

    /// A cursor over the single axes that the dimension stands for.
    pub fn into_iter(self) -> (r: DimensionIterator)
        ensures
            r.remaining() == self.axes(),
    {
        DimensionIterator::new(self)
    }
}

/// A cursor over the single axes of a dimension.
#[derive(Debug, Clone, Copy)]
pub struct DimensionIterator {
    dimension: Dimension,
    current_dim: usize,
    done: bool,
}

impl DimensionIterator {
    /// The axes that are still to come, in order.
    pub closed spec fn remaining(self) -> Seq<Dimension> {
        if self.done {
            Seq::empty()
        } else {
            match self.dimension {
                Dimension::All => if self.current_dim <= 3 {
                    Dimension::All.axes().skip(self.current_dim as int)
                } else {
                    Seq::empty()
                },
                _ => seq![self.dimension],
            }
        }
    }

    pub fn new(dimension: Dimension) -> (r: DimensionIterator)
        ensures
            r.remaining() == dimension.axes(),
    {
        let r = DimensionIterator { dimension, current_dim: 0, done: false };
        assert(Dimension::All.axes().skip(0) =~= Dimension::All.axes());
        r
    }

    /// Yields the next axis, or `None` once every axis has been yielded.
    pub fn next(&mut self) -> (r: Option<Dimension>)
        ensures
            match r {
                Some(d) => old(self).remaining().len() > 0 && d == old(self).remaining()[0]
                    && final(self).remaining() == old(self).remaining().skip(1),
                None => old(self).remaining().len() == 0 && final(self).remaining().len() == 0,
            },
    {
        if self.done {
            return None;
        }
        match self.dimension {
            Dimension::All => {
                let d = if self.current_dim == 0 {
                    Some(Dimension::X)
                } else if self.current_dim == 1 {
                    Some(Dimension::Y)
                } else if self.current_dim == 2 {
                    Some(Dimension::Z)
                } else {
                    self.done = true;
                    None
                };
                if self.current_dim < 3 {
                    proof {
                        let all = Dimension::All.axes();
                        assert(all.skip(self.current_dim as int).skip(1) =~= all.skip(
                            self.current_dim + 1,
                        ));
                    }
                    self.current_dim += 1;
                }
                d
            },
            _ => {
                self.done = true;
                assert(seq![self.dimension].skip(1) =~= Seq::<Dimension>::empty());
                Some(self.dimension)
            },
        }
    }

    /// Every axis that is still to come, in order.
    pub fn collect(self) -> (r: Vec<Dimension>)
        ensures
            r@ == self.remaining(),
    {
        let mut it = self;
        let mut out: Vec<Dimension> = Vec::new();
        loop
            invariant
                out@ + it.remaining() == self.remaining(),
            decreases it.remaining().len(),
        {
            match it.next() {
                Some(d) => {
                    let ghost prev = out@;
                    out.push(d);
                    assert(out@ + it.remaining() =~= self.remaining()) by {
                        let rest = it.remaining();
                        assert(prev.push(d) + rest =~= prev + (seq![d] + rest));
                    }
                },
                None => {
                    assert(out@ =~= self.remaining());
                    return out;
                },
            }
        }
    }
}

/// Whether `v` is representable as a coordinate component.
pub open spec fn fits(v: int) -> bool {
    isize::MIN <= v <= isize::MAX
}

/// A point of a grid with a fixed number of axes.
pub trait Coordinate: Copy {
    /// Number of axes of the coordinate type.
    spec fn axes() -> nat;

    /// The X component.
    spec fn px(&self) -> int;

    /// The Y component; zero where the type has none.
    spec fn py(&self) -> int;

    /// The Z component; zero where the type has none.
    spec fn pz(&self) -> int;

    /// Two coordinates with the same components are the same.
    proof fn lemma_components(a: Self, b: Self)
        requires
            a.px() == b.px(),
            a.py() == b.py(),
            a.pz() == b.pz(),
        ensures
            a == b,
    ;

    /// The origin.
    fn origin() -> (r: Self)
        ensures
            r.px() == 0,
            r.py() == 0,
            r.pz() == 0,
    ;

    fn x(&self) -> (r: isize)
        ensures
            r == self.px(),
    ;

    /// The Y component; the type must have a Y axis.
    fn y(&self) -> (r: isize)
        requires
            Self::axes() >= 2,
        ensures
            r == self.py(),
    ;

    /// The Z component; the type must have a Z axis.
    fn z(&self) -> (r: isize)
        requires
            Self::axes() >= 3,
        ensures
            r == self.pz(),
    ;

    fn set_x(&mut self, x: isize)
        ensures
            final(self).px() == x,
            final(self).py() == old(self).py(),
            final(self).pz() == old(self).pz(),
    ;

    /// Sets the Y component; the type must have a Y axis.
    fn set_y(&mut self, y: isize)
        requires
            Self::axes() >= 2,
        ensures
            final(self).px() == old(self).px(),
            final(self).py() == y,
            final(self).pz() == old(self).pz(),
    ;

    /// Sets the Z component; the type must have a Z axis.
    fn set_z(&mut self, z: isize)
        requires
            Self::axes() >= 3,
        ensures
            final(self).px() == old(self).px(),
            final(self).py() == old(self).py(),
            final(self).pz() == z,
    ;

    /// Sets every component that the type has.
    fn set_all(&mut self, value: isize)
        ensures
            final(self).px() == value,
            final(self).py() == (if Self::axes() >= 2 {
                value as int
            } else {
                0
            }),
            final(self).pz() == (if Self::axes() >= 3 {
                value as int
            } else {
                0
            }),
    ;

    /// Whether two coordinates are the same.
    fn same(&self, other: &Self) -> (r: bool)
        ensures
            r == (*self == *other),
    ;

    /// The pointwise sum; every component of it must be representable.
    fn plus(self, rhs: Self) -> (r: Self)
        requires
            fits(self.px() + rhs.px()),
            fits(self.py() + rhs.py()),
            fits(self.pz() + rhs.pz()),
        ensures
            r.px() == self.px() + rhs.px(),
            r.py() == self.py() + rhs.py(),
            r.pz() == self.pz() + rhs.pz(),
    ;

    /// The coordinate moved by `(dx, dy, dz)`; a shift along an axis that
    /// the type lacks is ignored.
    spec fn translated(self, dx: int, dy: int, dz: int) -> Self;

    /// The pointwise sum, or `None` where a component of it is not
    /// representable.
    fn try_plus(self, rhs: Self) -> (r: Option<Self>)
        ensures
            r == (if fits(self.px() + rhs.px()) && fits(self.py() + rhs.py()) && fits(
                self.pz() + rhs.pz(),
            ) {
                Some(self.translated(rhs.px(), rhs.py(), rhs.pz()))
            } else {
                None
            }),
            r matches Some(c) ==> c.px() == self.px() + rhs.px() && c.py() == self.py() + rhs.py()
                && c.pz() == self.pz() + rhs.pz(),
    ;

    /// The number of axes of the type.
    fn dimensionality() -> (r: Dimensionality)
        ensures
            r.axes() == Self::axes(),
    ;

    /// Sets the components along `dimension` to `value`; the type must
    /// have the dimension.
    fn set(&mut self, dimension: Dimension, value: isize)
        requires
            has_axis(Self::axes(), dimension),
        ensures
            final(self).px() == (if dimension == Dimension::X || dimension == Dimension::All {
                value as int
            } else {
                old(self).px()
            }),
            final(self).py() == (if dimension == Dimension::Y || (dimension == Dimension::All
                && Self::axes() >= 2) {
                value as int
            } else if dimension == Dimension::All {
                0
            } else {
                old(self).py()
            }),
            final(self).pz() == (if dimension == Dimension::Z || (dimension == Dimension::All
                && Self::axes() >= 3) {
                value as int
            } else if dimension == Dimension::All {
                0
            } else {
                old(self).pz()
            }),
    {
        match dimension {
            Dimension::X => self.set_x(value),
            Dimension::Y => self.set_y(value),
            Dimension::Z => self.set_z(value),
            Dimension::All => self.set_all(value),
        }
    }

    /// A cursor over the coordinates that arise from this one by setting
    /// one axis of `dimension` after another to `value`.
    fn offset(self, dimension: Dimension, value: isize) -> (r: OffsetIterator<Self>)
        ensures
            r.origin() == self,
            r.value() == value,
            r.axes() == Self::axes(),
            r.pending() == upto(dimension.axes(), Self::axes()),
    {
        OffsetIterator {
            coord: self,
            dim_iter: dimension.into_iter(),
            value,
            last_dim: match Self::dimensionality() {
                Dimensionality::OneDimensional => Dimension::X,
                Dimensionality::TwoDimensional => Dimension::Y,
                Dimensionality::ThreeDimensional => Dimension::Z,
            },
        }
    }
}

/// Whether a coordinate type with `axes` axes has the dimension
/// `dimension`; it has `All` in any case.
pub open spec fn has_axis(axes: nat, dimension: Dimension) -> bool {
    match dimension {
        Dimension::X => true,
        Dimension::Y => axes >= 2,
        Dimension::Z => axes >= 3,
        Dimension::All => true,
    }
}

/// Whether `after` is `before` with the components along `dimension` set
/// to `value`.
pub open spec fn is_set<C: Coordinate>(before: C, after: C, dimension: Dimension, value: int) -> bool {
    match dimension {
        Dimension::X => after.px() == value && after.py() == before.py() && after.pz()
            == before.pz(),
        Dimension::Y => after.px() == before.px() && after.py() == value && after.pz()
            == before.pz(),
        Dimension::Z => after.px() == before.px() && after.py() == before.py() && after.pz()
            == value,
        Dimension::All => after.px() == value && after.py() == (if C::axes() >= 2 {
            value
        } else {
            0
        }) && after.pz() == (if C::axes() >= 3 {
            value
        } else {
            0
        }),
    }
}

/// The leading axes of `dims` that a coordinate type with `axes` axes has.
pub open spec fn upto(dims: Seq<Dimension>, axes: nat) -> Seq<Dimension>
    decreases dims.len(),
{
    if dims.len() == 0 || dims[0].rank() >= axes {
        Seq::empty()
    } else {
        seq![dims[0]] + upto(dims.skip(1), axes)
    }
}

/// A cursor over the coordinates that arise from one coordinate by
/// setting one axis after another to a value.
#[derive(Clone, Copy)]
pub struct OffsetIterator<C> {
    coord: C,
    dim_iter: DimensionIterator,
    value: isize,
    last_dim: Dimension,
}

impl<C> OffsetIterator<C> {
    /// The coordinate that the cursor started from.
    pub closed spec fn origin(self) -> C {
        self.coord
    }

    /// The value that components are set to.
    pub closed spec fn value(self) -> isize {
        self.value
    }

    /// Number of axes of the coordinates that are yielded.
    pub closed spec fn axes(self) -> nat {
        self.last_dim.rank() + 1
    }

    /// The axes that are still to be set, in order.
    pub closed spec fn pending(self) -> Seq<Dimension> {
        upto(self.dim_iter.remaining(), self.axes())
    }
}

impl<C: Coordinate> OffsetIterator<C> {
    /// The invariant of a cursor: it yields coordinates with as many axes
    /// as the coordinate type has.
    pub open spec fn wf(self) -> bool {
        self.axes() == C::axes()
    }

    pub fn new(coord: C, dimension: Dimension, value: isize) -> (r: OffsetIterator<C>)
        ensures
            r.wf(),
            r.origin() == coord,
            r.value() == value,
            r.axes() == C::axes(),
            r.pending() == upto(dimension.axes(), C::axes()),
    {
        coord.offset(dimension, value)
    }

    /// Yields the start coordinate with the next pending axis set to the
    /// value, or `None` once no axis is pending.
    pub fn next(&mut self) -> (r: Option<C>)
        requires
            old(self).wf(),
        ensures
            final(self).wf(),
            final(self).origin() == old(self).origin(),
            final(self).value() == old(self).value(),
            match r {
                Some(c) => old(self).pending().len() > 0 && is_set(
                    old(self).origin(),
                    c,
                    old(self).pending()[0],
                    old(self).value() as int,
                ) && final(self).pending() == old(self).pending().skip(1),
                None => old(self).pending().len() == 0 && final(self).pending().len() == 0,
            },
    {
        let ghost before = self.dim_iter.remaining();
        let dim = match self.dim_iter.next() {
            Some(d) => d,
            None => {
                return None;
            },
        };
        if dim.position() > self.last_dim.position() {
            proof {
                let after = self.dim_iter.remaining();
                assert(after == before.skip(1));
                lemma_upto_after_end(before, C::axes());
            }
            return None;
        }
        let mut c = self.coord;
        c.set(dim, self.value);
        proof {
            assert(seq![before[0]] + upto(before.skip(1), C::axes()) == upto(before, C::axes()));
            assert((seq![before[0]] + upto(before.skip(1), C::axes())).skip(1) =~= upto(
                before.skip(1),
                C::axes(),
            ));
        }
        Some(c)
    }

    /// Every coordinate that is still to come, in order.
    pub fn collect(self) -> (r: Vec<C>)
        requires
            self.wf(),
        ensures
            r@.len() == self.pending().len(),
            forall|i: int|
                0 <= i < r@.len() ==> is_set(
                    self.origin(),
                    #[trigger] r@[i],
                    self.pending()[i],
                    self.value() as int,
                ),
    {
        let mut it = self;
        let mut out: Vec<C> = Vec::new();
        loop
            invariant
                it.wf(),
                it.origin() == self.origin(),
                it.value() == self.value(),
                out@.len() + it.pending().len() == self.pending().len(),
                it.pending() == self.pending().skip(out@.len() as int),
                forall|i: int|
                    0 <= i < out@.len() ==> is_set(
                        self.origin(),
                        #[trigger] out@[i],
                        self.pending()[i],
                        self.value() as int,
                    ),
            decreases it.pending().len(),
        {
            let ghost n = out@.len() as int;
            match it.next() {
                Some(c) => {
                    out.push(c);
                    assert(self.pending().skip(n).skip(1) =~= self.pending().skip(n + 1));
                },
                None => {
                    return out;
                },
            }
        }
    }
}

/// The axes that follow one that a coordinate type lacks are lacking too
/// where axes come in their order.
pub proof fn lemma_upto_after_end(dims: Seq<Dimension>, axes: nat)
    requires
        dims.len() > 0,
        dims[0].rank() >= axes,
        dims.len() == 1 || (dims.len() <= 3 && dims =~= Dimension::All.axes().skip(
            3 - dims.len(),
        )),
    ensures
        upto(dims, axes).len() == 0,
        upto(dims.skip(1), axes).len() == 0,
{
    let rest = dims.skip(1);
    if rest.len() > 0 {
        let all = Dimension::All.axes();
        let from = 3 - dims.len();
        assert(rest[0] == dims[1]);
        assert(all[0] == Dimension::X && all[1] == Dimension::Y && all[2] == Dimension::Z);
        assert(dims[0] == all[from]);
        assert(dims[1] == all[from + 1]);
        assert(rest[0].rank() > dims[0].rank());
    }
}


/// A point of a grid with one axis.
#[derive(Debug, Hash, PartialEq, Eq, Clone, Copy, PartialOrd, Ord, Structural)]
pub struct Coordinate1D {
    x: isize,
}

impl Coordinate1D {
    /// The point with the given components.
    pub closed spec fn at(x: int) -> Coordinate1D {
        Coordinate1D { x: x as isize }
    }

    pub fn new(x: isize) -> (r: Coordinate1D)
        ensures
            r == Coordinate1D::at(x as int),
            r.px() == x,
    {
        Coordinate1D { x }
    }
}

impl Default for Coordinate1D {
    fn default() -> (r: Coordinate1D)
        ensures
            r == Coordinate1D::at(0),
    {
        Coordinate1D { x: 0 }
    }
}

impl Coordinate for Coordinate1D {
    open spec fn axes() -> nat {
        1
    }

    closed spec fn px(&self) -> int {
        self.x as int
    }

    closed spec fn py(&self) -> int {
        0
    }

    closed spec fn pz(&self) -> int {
        0
    }

    proof fn lemma_components(a: Self, b: Self) {
    }

    fn origin() -> (r: Self) {
        Coordinate1D { x: 0 }
    }

    fn x(&self) -> (r: isize) {
        self.x
    }

    /// A one-dimensional coordinate has no Y component: this is never to be
    /// called.
    fn y(&self) -> (r: isize) {
        0
    }

    /// A one-dimensional coordinate has no Z component: this is never to be
    /// called.
    fn z(&self) -> (r: isize) {
        0
    }

    fn set_x(&mut self, x: isize) {
        self.x = x;
    }

    /// A one-dimensional coordinate has no Y component: this is never to be
    /// called.
    fn set_y(&mut self, y: isize) {
    }

    /// A one-dimensional coordinate has no Z component: this is never to be
    /// called.
    fn set_z(&mut self, z: isize) {
    }

    fn set_all(&mut self, value: isize) {
        self.x = value;
    }

    fn same(&self, other: &Self) -> (r: bool) {
        *self == *other
    }

    fn plus(self, rhs: Self) -> (r: Self) {
        Coordinate1D { x: self.x + rhs.x }
    }

    open spec fn translated(self, dx: int, dy: int, dz: int) -> Self {
        Coordinate1D::at(self.px() + dx)
    }

    fn try_plus(self, rhs: Self) -> (r: Option<Self>) {
        let nx = match self.x.checked_add(rhs.x) {
            Some(v) => v,
            None => {
                return None;
            },
        };
        Some(Coordinate1D { x: nx })
    }

    fn dimensionality() -> (r: Dimensionality) {
        Dimensionality::OneDimensional
    }
}

impl core::ops::Add<Coordinate1D> for Coordinate1D {
    type Output = Coordinate1D;

    fn add(self, rhs: Coordinate1D) -> (r: Coordinate1D) {
        Coordinate1D { x: self.x + rhs.x }
    }
}

impl vstd::std_specs::ops::AddSpecImpl<Coordinate1D> for Coordinate1D {
    open spec fn obeys_add_spec() -> bool {
        true
    }

    open spec fn add_req(self, rhs: Coordinate1D) -> bool {
        fits(self.px() + rhs.px())
    }

    open spec fn add_spec(self, rhs: Coordinate1D) -> Coordinate1D {
        Coordinate1D::at(self.px() + rhs.px())
    }
}

/// A point of a grid with two axes.
#[derive(Debug, Hash, PartialEq, Eq, Clone, Copy, PartialOrd, Ord, Structural)]
pub struct Coordinate2D {
    x: isize,
    y: isize,
}

impl Coordinate2D {
    /// The point with the given components.
    pub closed spec fn at(x: int, y: int) -> Coordinate2D {
        Coordinate2D { x: x as isize, y: y as isize }
    }

    pub fn new(x: isize, y: isize) -> (r: Coordinate2D)
        ensures
            r == Coordinate2D::at(x as int, y as int),
            r.px() == x,
            r.py() == y,
    {
        Coordinate2D { x, y }
    }
}

impl Default for Coordinate2D {
    fn default() -> (r: Coordinate2D)
        ensures
            r == Coordinate2D::at(0, 0),
    {
        Coordinate2D { x: 0, y: 0 }
    }
}

impl Coordinate for Coordinate2D {
    open spec fn axes() -> nat {
        2
    }

    closed spec fn px(&self) -> int {
        self.x as int
    }

    closed spec fn py(&self) -> int {
        self.y as int
    }

    closed spec fn pz(&self) -> int {
        0
    }

    proof fn lemma_components(a: Self, b: Self) {
    }

    fn origin() -> (r: Self) {
        Coordinate2D { x: 0, y: 0 }
    }

    fn x(&self) -> (r: isize) {
        self.x
    }

    fn y(&self) -> (r: isize) {
        self.y
    }

    /// A two-dimensional coordinate has no Z component: this is never to be
    /// called.
    fn z(&self) -> (r: isize) {
        0
    }

    fn set_x(&mut self, x: isize) {
        self.x = x;
    }

    fn set_y(&mut self, y: isize) {
        self.y = y;
    }

    /// A two-dimensional coordinate has no Z component: this is never to be
    /// called.
    fn set_z(&mut self, z: isize) {
    }

    fn set_all(&mut self, value: isize) {
        self.x = value; self.y = value;
    }

    fn same(&self, other: &Self) -> (r: bool) {
        *self == *other
    }

    fn plus(self, rhs: Self) -> (r: Self) {
        Coordinate2D { x: self.x + rhs.x, y: self.y + rhs.y }
    }

    open spec fn translated(self, dx: int, dy: int, dz: int) -> Self {
        Coordinate2D::at(self.px() + dx, self.py() + dy)
    }

    fn try_plus(self, rhs: Self) -> (r: Option<Self>) {
        let nx = match self.x.checked_add(rhs.x) {
            Some(v) => v,
            None => {
                return None;
            },
        }; let ny = match self.y.checked_add(rhs.y) {
            Some(v) => v,
            None => {
                return None;
            },
        };
        Some(Coordinate2D { x: nx, y: ny })
    }

    fn dimensionality() -> (r: Dimensionality) {
        Dimensionality::TwoDimensional
    }
}

impl core::ops::Add<Coordinate2D> for Coordinate2D {
    type Output = Coordinate2D;

    fn add(self, rhs: Coordinate2D) -> (r: Coordinate2D) {
        Coordinate2D { x: self.x + rhs.x, y: self.y + rhs.y }
    }
}

impl vstd::std_specs::ops::AddSpecImpl<Coordinate2D> for Coordinate2D {
    open spec fn obeys_add_spec() -> bool {
        true
    }

    open spec fn add_req(self, rhs: Coordinate2D) -> bool {
        fits(self.px() + rhs.px()) && fits(self.py() + rhs.py())
    }

    open spec fn add_spec(self, rhs: Coordinate2D) -> Coordinate2D {
        Coordinate2D::at(self.px() + rhs.px(), self.py() + rhs.py())
    }
}

/// A point of a grid with three axes.
#[derive(Debug, Hash, PartialEq, Eq, Clone, Copy, PartialOrd, Ord, Structural)]
pub struct Coordinate3D {
    x: isize,
    y: isize,
    z: isize,
}

impl Coordinate3D {
    /// The point with the given components.
    pub closed spec fn at(x: int, y: int, z: int) -> Coordinate3D {
        Coordinate3D { x: x as isize, y: y as isize, z: z as isize }
    }

    pub fn new(x: isize, y: isize, z: isize) -> (r: Coordinate3D)
        ensures
            r == Coordinate3D::at(x as int, y as int, z as int),
            r.px() == x,
            r.py() == y,
            r.pz() == z,
    {
        Coordinate3D { x, y, z }
    }
}

impl Default for Coordinate3D {
    fn default() -> (r: Coordinate3D)
        ensures
            r == Coordinate3D::at(0, 0, 0),
    {
        Coordinate3D { x: 0, y: 0, z: 0 }
    }
}

impl Coordinate for Coordinate3D {
    open spec fn axes() -> nat {
        3
    }

    closed spec fn px(&self) -> int {
        self.x as int
    }

    closed spec fn py(&self) -> int {
        self.y as int
    }

    closed spec fn pz(&self) -> int {
        self.z as int
    }

    proof fn lemma_components(a: Self, b: Self) {
    }

    fn origin() -> (r: Self) {
        Coordinate3D { x: 0, y: 0, z: 0 }
    }

    fn x(&self) -> (r: isize) {
        self.x
    }

    fn y(&self) -> (r: isize) {
        self.y
    }

    fn z(&self) -> (r: isize) {
        self.z
    }

    fn set_x(&mut self, x: isize) {
        self.x = x;
    }

    fn set_y(&mut self, y: isize) {
        self.y = y;
    }

    fn set_z(&mut self, z: isize) {
        self.z = z;
    }

    fn set_all(&mut self, value: isize) {
        self.x = value; self.y = value; self.z = value;
    }

    fn same(&self, other: &Self) -> (r: bool) {
        *self == *other
    }

    fn plus(self, rhs: Self) -> (r: Self) {
        Coordinate3D { x: self.x + rhs.x, y: self.y + rhs.y, z: self.z + rhs.z }
    }

    open spec fn translated(self, dx: int, dy: int, dz: int) -> Self {
        Coordinate3D::at(self.px() + dx, self.py() + dy, self.pz() + dz)
    }

    fn try_plus(self, rhs: Self) -> (r: Option<Self>) {
        let nx = match self.x.checked_add(rhs.x) {
            Some(v) => v,
            None => {
                return None;
            },
        }; let ny = match self.y.checked_add(rhs.y) {
            Some(v) => v,
            None => {
                return None;
            },
        }; let nz = match self.z.checked_add(rhs.z) {
            Some(v) => v,
            None => {
                return None;
            },
        };
        Some(Coordinate3D { x: nx, y: ny, z: nz })
    }

    fn dimensionality() -> (r: Dimensionality) {
        Dimensionality::ThreeDimensional
    }
}

impl core::ops::Add<Coordinate3D> for Coordinate3D {
    type Output = Coordinate3D;

    fn add(self, rhs: Coordinate3D) -> (r: Coordinate3D) {
        Coordinate3D { x: self.x + rhs.x, y: self.y + rhs.y, z: self.z + rhs.z }
    }
}

impl vstd::std_specs::ops::AddSpecImpl<Coordinate3D> for Coordinate3D {
    open spec fn obeys_add_spec() -> bool {
        true
    }

    open spec fn add_req(self, rhs: Coordinate3D) -> bool {
        fits(self.px() + rhs.px()) && fits(self.py() + rhs.py()) && fits(self.pz() + rhs.pz())
    }

    open spec fn add_spec(self, rhs: Coordinate3D) -> Coordinate3D {
        Coordinate3D::at(self.px() + rhs.px(), self.py() + rhs.py(), self.pz() + rhs.pz())
    }
}


/// Where a coordinate lies with regard to a closed set.
#[derive(Debug, Clone, Copy, PartialEq, Eq, Structural)]
pub enum Contains {
    Within,
    Outside,
    OnEdge,
}

/// A closed set of coordinates: it has an inside, an edge and an outside.
pub trait ClosedSet<C: Coordinate, I>: Copy {
    /// Where `coord` lies with regard to the set.
    spec fn place(&self, coord: C) -> Contains;

    /// Where `coord` lies with regard to the set.
    fn contains(&self, coord: C) -> (r: Contains)
        ensures
            r == self.place(coord),
    ;

    /// Whether `coord` lies strictly inside the set.
    fn within(&self, coord: C) -> (r: bool)
        ensures
            r == (self.place(coord) == Contains::Within),
    {
        self.contains(coord) == Contains::Within
    }

    /// Whether `coord` lies outside the set.
    fn outside(&self, coord: C) -> (r: bool)
        ensures
            r == (self.place(coord) == Contains::Outside),
    {
        self.contains(coord) == Contains::Outside
    }

    /// Whether `coord` lies on the edge of the set.
    fn on_edge(&self, coord: C) -> (r: bool)
        ensures
            r == (self.place(coord) == Contains::OnEdge),
    {
        self.contains(coord) == Contains::OnEdge
    }

    /// Whether `cursor` is a cursor at the start of the coordinates of the
    /// set.
    spec fn enumerates(&self, cursor: I) -> bool;

    /// A cursor over the coordinates of the set.
    fn into_iter(self) -> (r: I)
        ensures
            self.enumerates(r),
    ;
}

/// An inclusive range `(low, high)` along one axis.
pub type Span = (isize, isize);

/// Number of integers in the inclusive range `span`; zero where the low
/// end exceeds the high end.
pub open spec fn extent(span: Span) -> nat {
    if span.0 <= span.1 {
        (span.1 - span.0 + 1) as nat
    } else {
        0
    }
}

/// Where `v` lies with regard to an inclusive range that is strict about
/// its ends: on the edge where it equals an end, within where it lies
/// strictly between them.
pub open spec fn place_1d(low: int, high: int, v: int) -> Contains {
    if low < v && high > v {
        Contains::Within
    } else if low == v || high == v {
        Contains::OnEdge
    } else {
        Contains::Outside
    }
}

/// A closed interval.
#[derive(Debug, Clone, Copy)]
pub struct BoundingBox1D {
    low: isize,
    high: isize,
}

impl BoundingBox1D {
    /// The ends of the interval.
    pub closed spec fn span(self) -> Span {
        (self.low, self.high)
    }

    pub fn new(low: isize, high: isize) -> (r: BoundingBox1D)
        ensures
            r.span() == (low, high),
    {
        BoundingBox1D { low, high }
    }
}

impl ClosedSet<Coordinate1D, BoundingBox1DIterator> for BoundingBox1D {
    open spec fn place(&self, coord: Coordinate1D) -> Contains {
        place_1d(self.span().0 as int, self.span().1 as int, coord.px())
    }

    fn contains(&self, coord: Coordinate1D) -> (r: Contains) {
        let x = coord.x();
        if self.low < x && self.high > x {
            Contains::Within
        } else if self.low == x || self.high == x {
            Contains::OnEdge
        } else {
            Contains::Outside
        }
    }

    open spec fn enumerates(&self, cursor: BoundingBox1DIterator) -> bool {
        &&& cursor.remaining() == extent(self.span())
        &&& self.span().0 <= self.span().1 ==> cursor.pending() == self.span()
    }

    fn into_iter(self) -> (r: BoundingBox1DIterator) {
        BoundingBox1DIterator::new(self.low, self.high)
    }
}

/// A closed rectangle.
#[derive(Debug, Clone, Copy)]
pub struct BoundingBox2D {
    x: (isize, isize),
    y: (isize, isize),
}

impl BoundingBox2D {
    /// The range along X.
    pub closed spec fn x_span(self) -> Span {
        self.x
    }

    /// The range along Y.
    pub closed spec fn y_span(self) -> Span {
        self.y
    }

    pub fn new(x: (isize, isize), y: (isize, isize)) -> (r: BoundingBox2D)
        ensures
            r.x_span() == x,
            r.y_span() == y,
    {
        BoundingBox2D { x, y }
    }
}

/// Whether `v` lies in the inclusive range `span`.
pub open spec fn inside(span: Span, v: int) -> bool {
    span.0 <= v <= span.1
}

/// Whether `v` equals an end of `span`.
pub open spec fn at_end(span: Span, v: int) -> bool {
    span.0 == v || span.1 == v
}

impl ClosedSet<Coordinate2D, BoundingBox2DIterator> for BoundingBox2D {
    open spec fn place(&self, coord: Coordinate2D) -> Contains {
        if inside(self.x_span(), coord.px()) && inside(self.y_span(), coord.py()) {
            if at_end(self.x_span(), coord.px()) || at_end(self.y_span(), coord.py()) {
                Contains::OnEdge
            } else {
                Contains::Within
            }
        } else {
            Contains::Outside
        }
    }

    fn contains(&self, coord: Coordinate2D) -> (r: Contains) {
        let x = coord.x();
        let y = coord.y();
        if self.x.0 <= x && self.x.1 >= x && self.y.0 <= y && self.y.1 >= y {
            if self.x.0 == x || self.x.1 == x || self.y.0 == y || self.y.1 == y {
                Contains::OnEdge
            } else {
                Contains::Within
            }
        } else {
            Contains::Outside
        }
    }

    open spec fn enumerates(&self, cursor: BoundingBox2DIterator) -> bool {
        cursor.remaining() == pairs(self.x_span(), self.y_span())
    }

    fn into_iter(self) -> (r: BoundingBox2DIterator) {
        BoundingBox2DIterator::new(self.x, self.y)
    }
}

/// A closed box.
#[derive(Debug, Clone, Copy)]
pub struct BoundingBox3D {
    x: (isize, isize),
    y: (isize, isize),
    z: (isize, isize),
}

impl BoundingBox3D {
    /// The range along X.
    pub closed spec fn x_span(self) -> Span {
        self.x
    }

    /// The range along Y.
    pub closed spec fn y_span(self) -> Span {
        self.y
    }

    /// The range along Z.
    pub closed spec fn z_span(self) -> Span {
        self.z
    }

    pub fn new(x: (isize, isize), y: (isize, isize), z: (isize, isize)) -> (r: BoundingBox3D)
        ensures
            r.x_span() == x,
            r.y_span() == y,
            r.z_span() == z,
    {
        BoundingBox3D { x, y, z }
    }
}

impl ClosedSet<Coordinate3D, BoundingBox3DIterator> for BoundingBox3D {
    open spec fn place(&self, coord: Coordinate3D) -> Contains {
        if inside(self.x_span(), coord.px()) && inside(self.y_span(), coord.py()) && inside(
            self.z_span(),
            coord.pz(),
        ) {
            if at_end(self.x_span(), coord.px()) || at_end(self.y_span(), coord.py()) || at_end(
                self.z_span(),
                coord.pz(),
            ) {
                Contains::OnEdge
            } else {
                Contains::Within
            }
        } else {
            Contains::Outside
        }
    }

    fn contains(&self, coord: Coordinate3D) -> (r: Contains) {
        let x = coord.x();
        let y = coord.y();
        let z = coord.z();
        if self.x.0 <= x && self.x.1 >= x && self.y.0 <= y && self.y.1 >= y && self.z.0 <= z
            && self.z.1 >= z {
            if self.x.0 == x || self.x.1 == x || self.y.0 == y || self.y.1 == y || self.z.0 == z
                || self.z.1 == z {
                Contains::OnEdge
            } else {
                Contains::Within
            }
        } else {
            Contains::Outside
        }
    }

    open spec fn enumerates(&self, cursor: BoundingBox3DIterator) -> bool {
        cursor.remaining() == triples(self.x_span(), self.y_span(), self.z_span())
    }

    fn into_iter(self) -> (r: BoundingBox3DIterator) {
        BoundingBox3DIterator::new(self.x, self.y, self.z)
    }
}

/// A cursor over the points of a closed interval, in ascending order.
#[derive(Debug, Clone, Copy)]
pub struct BoundingBox1DIterator {
    cursor: Option<isize>,
    high: isize,
}

impl BoundingBox1DIterator {
    /// The integers that are still to come.
    pub closed spec fn pending(self) -> Span {
        match self.cursor {
            Some(c) => (c, self.high),
            None => (1isize, 0isize),
        }
    }

    /// Number of points that are still to come.
    pub open spec fn remaining(self) -> nat {
        extent(self.pending())
    }

    pub fn new(low: isize, high: isize) -> (r: BoundingBox1DIterator)
        ensures
            r.remaining() == extent((low, high)),
            low <= high ==> r.pending() == (low, high),
    {
        if low <= high {
            BoundingBox1DIterator { cursor: Some(low), high }
        } else {
            BoundingBox1DIterator { cursor: None, high }
        }
    }

    /// Yields the least point that is still to come, or `None` once every
    /// point has been yielded.
    pub fn next(&mut self) -> (r: Option<Coordinate1D>)
        ensures
            match r {
                Some(c) => {
                    &&& old(self).remaining() > 0
                    &&& c == Coordinate1D::at(old(self).pending().0 as int)
                    &&& final(self).remaining() == old(self).remaining() - 1
                    &&& final(self).remaining() > 0 ==> final(self).pending() == (
                        (old(self).pending().0 + 1) as isize,
                        old(self).pending().1,
                    )
                },
                None => old(self).remaining() == 0 && final(self).remaining() == 0,
            },
    {
        match self.cursor {
            Some(c) => {
                if c > self.high {
                    self.cursor = None;
                    return None;
                }
                if c < self.high {
                    self.cursor = Some(c + 1);
                } else {
                    self.cursor = None;
                }
                Some(Coordinate1D::new(c))
            },
            None => None,
        }
    }
}

/// The pairs of the ranges `x` and `y` in lexicographic order, `x`
/// outermost.
pub open spec fn pairs(x: Span, y: Span) -> Seq<(isize, isize)> {
    Seq::new(
        extent(x) * extent(y),
        |i: int| ((x.0 + i / (extent(y) as int)) as isize, (y.0 + i % (extent(y) as int)) as isize),
    )
}

/// The triples of the ranges `x`, `y` and `z` in lexicographic order, `x`
/// outermost, each written as a pair and a third component.
pub open spec fn triples(x: Span, y: Span, z: Span) -> Seq<((isize, isize), isize)> {
    Seq::new(
        extent(x) * extent(y) * extent(z),
        |i: int| (pairs(x, y)[i / (extent(z) as int)], (z.0 + i % (extent(z) as int)) as isize),
    )
}

/// The cartesian product adaptor of the `itertools` crate.
#[verifier::external_type_specification]
#[verifier::external_body]
#[verifier::reject_recursive_types(I)]
#[verifier::reject_recursive_types(J)]
pub struct ExProduct<I: Iterator, J>(Product<I, J>);

/// The pairs that a product of two ranges has still to yield, in order.
pub uninterp spec fn pairs_left(
    product: Product<RangeInclusive<isize>, RangeInclusive<isize>>,
) -> Seq<(isize, isize)>;

/// The triples that a product of three ranges has still to yield, in
/// order.
pub uninterp spec fn triples_left(
    product: Product<Product<RangeInclusive<isize>, RangeInclusive<isize>>, RangeInclusive<isize>>,
) -> Seq<((isize, isize), isize)>;

/// `Itertools::cartesian_product` on two inclusive ranges: the adaptor
/// yields every pair of a member of `x` and a member of `y`, the members
/// of `x` in ascending order and for each of them the members of `y` in
/// ascending order.
#[verifier::external_body]
fn product_of_two(x: Span, y: Span) -> (r: Product<RangeInclusive<isize>, RangeInclusive<isize>>)
    ensures
        pairs_left(r) == pairs(x, y),
{
    (x.0..=x.1).cartesian_product(y.0..=y.1)
}

/// `Iterator::next` of the product of two ranges: it yields the first
/// pair that is left and leaves the others, or yields nothing where none
/// is left.
#[verifier::external_body]
fn next_pair(product: &mut Product<RangeInclusive<isize>, RangeInclusive<isize>>) -> (r: Option<
    (isize, isize),
>)
    ensures
        match r {
            Some(p) => pairs_left(*old(product)).len() > 0 && p == pairs_left(*old(product))[0]
                && pairs_left(*final(product)) == pairs_left(*old(product)).skip(1),
            None => pairs_left(*old(product)).len() == 0 && pairs_left(*final(product)).len() == 0,
        },
{
    product.next()
}

/// `Itertools::cartesian_product` applied twice on three inclusive
/// ranges: the adaptor yields every triple of members of `x`, `y` and
/// `z` as a pair and a third component, in lexicographic order with `x`
/// outermost.
#[verifier::external_body]
fn product_of_three(x: Span, y: Span, z: Span) -> (r: Product<
    Product<RangeInclusive<isize>, RangeInclusive<isize>>,
    RangeInclusive<isize>,
>)
    ensures
        triples_left(r) == triples(x, y, z),
{
    (x.0..=x.1).cartesian_product(y.0..=y.1).cartesian_product(z.0..=z.1)
}

/// `Iterator::next` of the product of three ranges: it yields the first
/// triple that is left and leaves the others, or yields nothing where
/// none is left.
#[verifier::external_body]
fn next_triple(
    product: &mut Product<
        Product<RangeInclusive<isize>, RangeInclusive<isize>>,
        RangeInclusive<isize>,
    >,
) -> (r: Option<((isize, isize), isize)>)
    ensures
        match r {
            Some(t) => triples_left(*old(product)).len() > 0 && t == triples_left(*old(product))[0]
                && triples_left(*final(product)) == triples_left(*old(product)).skip(1),
            None => triples_left(*old(product)).len() == 0 && triples_left(*final(product)).len()
                == 0,
        },
{
    product.next()
}

/// A cursor over the points of a closed rectangle, in lexicographic
/// order.
pub struct BoundingBox2DIterator {
    product: Product<RangeInclusive<isize>, RangeInclusive<isize>>,
}

impl BoundingBox2DIterator {
    /// The points that are still to come, as pairs and in order.
    pub closed spec fn remaining(self) -> Seq<(isize, isize)> {
        pairs_left(self.product)
    }

    pub fn new(x: (isize, isize), y: (isize, isize)) -> (r: BoundingBox2DIterator)
        ensures
            r.remaining() == pairs(x, y),
    {
        BoundingBox2DIterator { product: product_of_two(x, y) }
    }

    /// Yields the next point in lexicographic order, or `None` once every
    /// point has been yielded.
    pub fn next(&mut self) -> (r: Option<Coordinate2D>)
        ensures
            match r {
                Some(c) => old(self).remaining().len() > 0 && c == Coordinate2D::at(
                    old(self).remaining()[0].0 as int,
                    old(self).remaining()[0].1 as int,
                ) && final(self).remaining() == old(self).remaining().skip(1),
                None => old(self).remaining().len() == 0 && final(self).remaining().len() == 0,
            },
    {
        match next_pair(&mut self.product) {
            Some((x, y)) => Some(Coordinate2D::new(x, y)),
            None => None,
        }
    }
}

/// A cursor over the points of a closed box, in lexicographic order.
pub struct BoundingBox3DIterator {
    product: Product<Product<RangeInclusive<isize>, RangeInclusive<isize>>, RangeInclusive<isize>>,
}

impl BoundingBox3DIterator {
    /// The points that are still to come, each as a pair and a third
    /// component, in order.
    pub closed spec fn remaining(self) -> Seq<((isize, isize), isize)> {
        triples_left(self.product)
    }

    pub fn new(x: (isize, isize), y: (isize, isize), z: (isize, isize)) -> (r:
        BoundingBox3DIterator)
        ensures
            r.remaining() == triples(x, y, z),
    {
        BoundingBox3DIterator { product: product_of_three(x, y, z) }
    }

    /// Yields the next point in lexicographic order, or `None` once every
    /// point has been yielded.
    pub fn next(&mut self) -> (r: Option<Coordinate3D>)
        ensures
            match r {
                Some(c) => old(self).remaining().len() > 0 && c == Coordinate3D::at(
                    old(self).remaining()[0].0.0 as int,
                    old(self).remaining()[0].0.1 as int,
                    old(self).remaining()[0].1 as int,
                ) && final(self).remaining() == old(self).remaining().skip(1),
                None => old(self).remaining().len() == 0 && final(self).remaining().len() == 0,
            },
    {
        match next_triple(&mut self.product) {
            Some(((x, y), z)) => Some(Coordinate3D::new(x, y, z)),
            None => None,
        }
    }
}


/// Something that stands for a sequence of coordinates: the cells of a
/// grid.
pub trait CoordinateBounds<C: Coordinate> {
    /// The coordinates, in order.
    spec fn cells(&self) -> Seq<C>;

    /// Whether the coordinates can be held in a vector.
    spec fn enumerable(&self) -> bool;

    /// The coordinates, in order.
    fn into_cells(self) -> (r: Vec<C>)
        requires
            self.enumerable(),
        ensures
            r@ == self.cells(),
    ;
}

impl CoordinateBounds<Coordinate1D> for BoundingBox1D {
    open spec fn cells(&self) -> Seq<Coordinate1D> {
        Seq::new(extent(self.span()), |i: int| Coordinate1D::at(self.span().0 + i))
    }

    open spec fn enumerable(&self) -> bool {
        extent(self.span()) <= usize::MAX
    }

    fn into_cells(self) -> (r: Vec<Coordinate1D>) {
        let mut it = BoundingBox1DIterator::new(self.low, self.high);
        let mut out: Vec<Coordinate1D> = Vec::new();
        loop
            invariant
                out@.len() + it.remaining() == extent(self.span()),
                it.remaining() > 0 ==> it.pending() == ((self.low + out@.len()) as isize, self.high),
                forall|i: int|
                    0 <= i < out@.len() ==> #[trigger] out@[i] == Coordinate1D::at(self.low + i),
            decreases it.remaining(),
        {
            match it.next() {
                Some(c) => {
                    out.push(c);
                },
                None => {
                    assert(out@ =~= self.cells());
                    return out;
                },
            }
        }
    }
}

impl CoordinateBounds<Coordinate2D> for BoundingBox2D {
    open spec fn cells(&self) -> Seq<Coordinate2D> {
        Seq::new(
            pairs(self.x_span(), self.y_span()).len(),
            |i: int|
                Coordinate2D::at(
                    pairs(self.x_span(), self.y_span())[i].0 as int,
                    pairs(self.x_span(), self.y_span())[i].1 as int,
                ),
        )
    }

    open spec fn enumerable(&self) -> bool {
        pairs(self.x_span(), self.y_span()).len() <= usize::MAX
    }

    fn into_cells(self) -> (r: Vec<Coordinate2D>) {
        let ghost all = pairs(self.x, self.y);
        let mut it = BoundingBox2DIterator::new(self.x, self.y);
        let mut out: Vec<Coordinate2D> = Vec::new();
        assert(all.skip(0) =~= all);
        loop
            invariant
                all == pairs(self.x_span(), self.y_span()),
                out@.len() <= all.len(),
                it.remaining() == all.skip(out@.len() as int),
                forall|i: int|
                    0 <= i < out@.len() ==> #[trigger] out@[i] == Coordinate2D::at(
                        all[i].0 as int,
                        all[i].1 as int,
                    ),
            decreases all.len() - out@.len(),
        {
            let ghost n = out@.len() as int;
            match it.next() {
                Some(c) => {
                    assert(all.skip(n)[0] == all[n]);
                    assert(all.skip(n).skip(1) =~= all.skip(n + 1));
                    out.push(c);
                },
                None => {
                    assert(out@ =~= self.cells());
                    return out;
                },
            }
        }
    }
}

impl CoordinateBounds<Coordinate3D> for BoundingBox3D {
    open spec fn cells(&self) -> Seq<Coordinate3D> {
        Seq::new(
            triples(self.x_span(), self.y_span(), self.z_span()).len(),
            |i: int|
                Coordinate3D::at(
                    triples(self.x_span(), self.y_span(), self.z_span())[i].0.0 as int,
                    triples(self.x_span(), self.y_span(), self.z_span())[i].0.1 as int,
                    triples(self.x_span(), self.y_span(), self.z_span())[i].1 as int,
                ),
        )
    }

    open spec fn enumerable(&self) -> bool {
        triples(self.x_span(), self.y_span(), self.z_span()).len() <= usize::MAX
    }

    fn into_cells(self) -> (r: Vec<Coordinate3D>) {
        let ghost all = triples(self.x, self.y, self.z);
        let mut it = BoundingBox3DIterator::new(self.x, self.y, self.z);
        let mut out: Vec<Coordinate3D> = Vec::new();
        assert(all.skip(0) =~= all);
        loop
            invariant
                all == triples(self.x_span(), self.y_span(), self.z_span()),
                out@.len() <= all.len(),
                it.remaining() == all.skip(out@.len() as int),
                forall|i: int|
                    0 <= i < out@.len() ==> #[trigger] out@[i] == Coordinate3D::at(
                        all[i].0.0 as int,
                        all[i].0.1 as int,
                        all[i].1 as int,
                    ),
            decreases all.len() - out@.len(),
        {
            let ghost n = out@.len() as int;
            match it.next() {
                Some(c) => {
                    assert(all.skip(n)[0] == all[n]);
                    assert(all.skip(n).skip(1) =~= all.skip(n + 1));
                    out.push(c);
                },
                None => {
                    assert(out@ =~= self.cells());
                    return out;
                },
            }
        }
    }
}

impl CoordinateBounds<Coordinate1D> for Vec<Coordinate1D> {
    open spec fn cells(&self) -> Seq<Coordinate1D> {
        self@
    }

    open spec fn enumerable(&self) -> bool {
        true
    }

    fn into_cells(self) -> (r: Vec<Coordinate1D>) {
        self
    }
}

impl CoordinateBounds<Coordinate2D> for Vec<Coordinate2D> {
    open spec fn cells(&self) -> Seq<Coordinate2D> {
        self@
    }

    open spec fn enumerable(&self) -> bool {
        true
    }

    fn into_cells(self) -> (r: Vec<Coordinate2D>) {
        self
    }
}

impl CoordinateBounds<Coordinate3D> for Vec<Coordinate3D> {
    open spec fn cells(&self) -> Seq<Coordinate3D> {
        self@
    }

    open spec fn enumerable(&self) -> bool {
        true
    }

    fn into_cells(self) -> (r: Vec<Coordinate3D>) {
        self
    }
}

/// A closed disc.
#[derive(Debug, Clone, Copy)]
pub struct Circle2D {
    center: Coordinate2D,
    radius: isize,
}

/// Where the point `(x, y)` lies with regard to the disc of radius
/// `radius` around `(cx, cy)`: within where its distance from the centre
/// is below the radius, on the edge where it equals the radius.
pub open spec fn place_in_disc(cx: int, cy: int, radius: int, x: int, y: int) -> Contains {
    let d2 = (x - cx) * (x - cx) + (y - cy) * (y - cy);
    if radius < 0 {
        Contains::Outside
    } else if d2 < radius * radius {
        Contains::Within
    } else if d2 == radius * radius {
        Contains::OnEdge
    } else {
        Contains::Outside
    }
}

impl Circle2D {
    /// The centre of the disc.
    pub closed spec fn center(self) -> Coordinate2D {
        self.center
    }

    /// The radius of the disc.
    pub closed spec fn radius(self) -> isize {
        self.radius
    }

    pub fn new(center: Coordinate2D, radius: isize) -> (r: Circle2D)
        ensures
            r.center() == center,
            r.radius() == radius,
    {
        Circle2D { center, radius }
    }
}

fn square(v: i128) -> (r: Option<i128>)
    ensures
        r == (if v * v <= i128::MAX {
            Some((v * v) as i128)
        } else {
            None
        }),
{
    assert(v * v >= 0) by (nonlinear_arith);
    v.checked_mul(v)
}

impl ClosedSet<Coordinate2D, Circle2DIterator> for Circle2D {
    open spec fn place(&self, coord: Coordinate2D) -> Contains {
        place_in_disc(
            self.center().px(),
            self.center().py(),
            self.radius() as int,
            coord.px(),
            coord.py(),
        )
    }

    fn contains(&self, coord: Coordinate2D) -> (r: Contains) {
        if self.radius < 0 {
            return Contains::Outside;
        }
        let dx: i128 = coord.x() as i128 - self.center.x() as i128;
        let dy: i128 = coord.y() as i128 - self.center.y() as i128;
        let rr: i128 = self.radius as i128;
        assert(rr * rr <= 0x4000_0000_0000_0000_0000_0000_0000_0000) by (nonlinear_arith)
            requires
                0 <= rr <= 0x7fff_ffff_ffff_ffff,
        ;
        assert(dx * dx >= 0 && dy * dy >= 0) by (nonlinear_arith);
        let r2: i128 = rr * rr;
        let d2 = match (square(dx), square(dy)) {
            (Some(a), Some(b)) => a.checked_add(b),
            _ => None,
        };
        match d2 {
            None => Contains::Outside,
            Some(d) => if d < r2 {
                Contains::Within
            } else if d == r2 {
                Contains::OnEdge
            } else {
                Contains::Outside
            },
        }
    }

    open spec fn enumerates(&self, cursor: Circle2DIterator) -> bool {
        cursor.disc() == (self.center(), self.radius())
    }

    fn into_iter(self) -> (r: Circle2DIterator) {
        Circle2DIterator::new(self.center, self.radius)
    }
}

/// What `Circle2D::into_iter` hands out: the disc itself. The points of a
/// disc are not enumerated.
#[derive(Debug, Clone, Copy)]
pub struct Circle2DIterator {
    center: Coordinate2D,
    radius: isize,
}

impl Circle2DIterator {
    /// The disc that is to be enumerated.
    pub closed spec fn disc(self) -> (Coordinate2D, isize) {
        (self.center, self.radius)
    }

    pub fn new(center: Coordinate2D, radius: isize) -> (r: Circle2DIterator)
        ensures
            r.disc() == (center, radius),
    {
        Circle2DIterator { center, radius }
    }
}

} // verus!
