//! The environment block.

use vstd::prelude::*;
use crate::lang::parse::Error;
use crate::lang::parse::blocks::neighborhood::Dimension;
use crate::lang::runtime::datatypes::coords::{breadth, Bound, DimensionBounds};

verus! {

/// The extent of an axis for which the program gives none.
pub const DEFAULT_EXTENT: usize = 11;

/// The grid of a program: its number of axes and, where given, the extent
/// of each.
#[derive(Debug, Eq, PartialEq, Clone, Copy)]
pub enum EnvironmentBlock {
    Grid1D { x: Option<usize> },
    Grid2D { x: Option<usize>, y: Option<usize> },
    Grid3D { x: Option<usize>, y: Option<usize>, z: Option<usize> },
}

/// The extent that the directives give to `axis`: that of the last
/// directive that names the axis or every axis.
pub open spec fn last_extent(directives: Seq<(Dimension, usize)>, axis: Dimension) -> Option<usize>
    decreases directives.len(),
{
    if directives.len() == 0 {
        None
    } else {
        let (d, extent) = directives.last();
        if d == axis || d == Dimension::All {
            Some(extent)
        } else {
            last_extent(directives.drop_last(), axis)
        }
    }
}

/// The extent that is meant by an optional extent.
pub open spec fn extent_or_default(extent: Option<usize>) -> int {
    match extent {
        Some(e) => e as int,
        None => DEFAULT_EXTENT as int,
    }
}

/// Whether an extent can be laid out as a range: positive and within the
/// coordinate range.
pub open spec fn extent_ok(extent: Option<usize>) -> bool {
    1 <= extent_or_default(extent) <= isize::MAX
}

/// The range of `extent` many cells around the origin.
pub open spec fn centered(extent: Option<usize>) -> Bound {
    let n = extent_or_default(extent);
    ((-(n / 2)) as isize, (n - 1 - n / 2) as isize)
}

fn centered_range(extent: Option<usize>) -> (r: Option<Bound>)
    ensures
        r == (if extent_ok(extent) {
            Some(centered(extent))
        } else {
            None
        }),
        r matches Some(b) ==> b.0 <= b.1 && breadth(b) == extent_or_default(extent),
{
    let n: usize = match extent {
        Some(e) => e,
        None => DEFAULT_EXTENT,
    };
    if n == 0 || n > isize::MAX as usize {
        return None;
    }
    let half: isize = (n / 2) as isize;
    let low: isize = -half;
    let high: isize = (n - 1 - n / 2) as isize;
    Some((low, high))
}

/// The grid with `dims` axes (one for 1, two for 2, three otherwise) whose
/// extents are those that `directives` give.
pub open spec fn grid_of(dims: int, directives: Seq<(Dimension, usize)>) -> EnvironmentBlock {
    if dims <= 1 {
        EnvironmentBlock::Grid1D { x: last_extent(directives, Dimension::X) }
    } else if dims == 2 {
        EnvironmentBlock::Grid2D {
            x: last_extent(directives, Dimension::X),
            y: last_extent(directives, Dimension::Y),
        }
    } else {
        EnvironmentBlock::Grid3D {
            x: last_extent(directives, Dimension::X),
            y: last_extent(directives, Dimension::Y),
            z: last_extent(directives, Dimension::Z),
        }
    }
}

impl EnvironmentBlock {
    /// Number of axes of the grid.
    pub open spec fn dims(self) -> nat {
        match self {
            EnvironmentBlock::Grid1D { .. } => 1,
            EnvironmentBlock::Grid2D { .. } => 2,
            EnvironmentBlock::Grid3D { .. } => 3,
        }
    }

    /// The extents along X, Y and Z; `None` along an axis that the grid
    /// lacks or for which the program gives none.
    pub open spec fn extents(self) -> (Option<usize>, Option<usize>, Option<usize>) {
        match self {
            EnvironmentBlock::Grid1D { x } => (x, None, None),
            EnvironmentBlock::Grid2D { x, y } => (x, y, None),
            EnvironmentBlock::Grid3D { x, y, z } => (x, y, z),
        }
    }

    /// Whether every axis of the grid has an extent that can be laid out.
    pub open spec fn extents_ok(self) -> bool {
        &&& extent_ok(self.extents().0)
        &&& self.dims() >= 2 ==> extent_ok(self.extents().1)
        &&& self.dims() >= 3 ==> extent_ok(self.extents().2)
    }

    /// The bounds that the grid stands for: along each axis a range of the
    /// given extent around the origin.
    pub open spec fn bounds(self) -> DimensionBounds {
        match self {
            EnvironmentBlock::Grid1D { x } => DimensionBounds::DimensionBounds1D { x: centered(x) },
            EnvironmentBlock::Grid2D { x, y } => DimensionBounds::DimensionBounds2D {
                x: centered(x),
                y: centered(y),
            },
            EnvironmentBlock::Grid3D { x, y, z } => DimensionBounds::DimensionBounds3D {
                x: centered(x),
                y: centered(y),
                z: centered(z),
            },
        }
    }

    /// The grid with `dims` axes (one for 1, two for 2, three otherwise)
    /// whose extents are those that `directives` give.
    pub fn from_directives(dims: usize, directives: &Vec<(Dimension, usize)>) -> (r: EnvironmentBlock)
        ensures
            r == grid_of(dims as int, directives@),
            r.dims() == (if dims <= 1 {
                1nat
            } else if dims == 2 {
                2nat
            } else {
                3nat
            }),
            r.extents().0 == last_extent(directives@, Dimension::X),
            r.dims() >= 2 ==> r.extents().1 == last_extent(directives@, Dimension::Y),
            r.dims() >= 3 ==> r.extents().2 == last_extent(directives@, Dimension::Z),
    {
        let mut x: Option<usize> = None;
        let mut y: Option<usize> = None;
        let mut z: Option<usize> = None;
        let mut i: usize = 0;
        while i < directives.len()
            invariant
                i <= directives.len(),
                x == last_extent(directives@.take(i as int), Dimension::X),
                y == last_extent(directives@.take(i as int), Dimension::Y),
                z == last_extent(directives@.take(i as int), Dimension::Z),
            decreases directives.len() - i,
        {
            let (dimension, magnitude) = directives[i];
            proof {
                let next = directives@.take(i + 1);
                assert(next.last() == directives@[i as int]);
                assert(next.drop_last() =~= directives@.take(i as int));
            }
            match dimension {
                Dimension::X => {
                    x = Some(magnitude);
                },
                Dimension::Y => {
                    y = Some(magnitude);
                },
                Dimension::Z => {
                    z = Some(magnitude);
                },
                Dimension::All => {
                    x = Some(magnitude);
                    y = Some(magnitude);
                    z = Some(magnitude);
                },
            }
            i += 1;
        }
        assert(directives@.take(directives.len() as int) =~= directives@);
        if dims <= 1 {
            EnvironmentBlock::Grid1D { x }
        } else if dims == 2 {
            EnvironmentBlock::Grid2D { x, y }
        } else {
            EnvironmentBlock::Grid3D { x, y, z }
        }
    }

    /// The bounds of the grid. Fails with `InvalidExtent` exactly where an
    /// extent is zero or exceeds the coordinate range.
    pub fn dimensions(&self) -> (r: Result<DimensionBounds, Error>)
        ensures
            self.extents_ok() ==> r == Ok::<DimensionBounds, Error>(self.bounds()),
            !self.extents_ok() ==> r == Err::<DimensionBounds, Error>(Error::InvalidExtent),
            r matches Ok(b) ==> b.wf() && b.dims() == self.dims(),
    {
        match self {
            EnvironmentBlock::Grid1D { x } => match centered_range(*x) {
                Some(xr) => Ok(DimensionBounds::DimensionBounds1D { x: xr }),
                None => Err(Error::InvalidExtent),
            },
            EnvironmentBlock::Grid2D { x, y } => match (centered_range(*x), centered_range(*y)) {
                (Some(xr), Some(yr)) => Ok(DimensionBounds::DimensionBounds2D { x: xr, y: yr }),
                _ => Err(Error::InvalidExtent),
            },
            EnvironmentBlock::Grid3D { x, y, z } => match (
                centered_range(*x),
                centered_range(*y),
                centered_range(*z),
            ) {
                (Some(xr), Some(yr), Some(zr)) => Ok(
                    DimensionBounds::DimensionBounds3D { x: xr, y: yr, z: zr },
                ),
                _ => Err(Error::InvalidExtent),
            },
        }
    }
}

} // verus!
