//! The boundary block.

use vstd::prelude::*;

verus! {

/// How the edge of the initial bounds is treated.
#[derive(Debug, Eq, PartialEq, Clone)]
pub enum BoundaryBlock {
    /// Nothing exists outside the bounds.
    Void,
    /// The bounds form a torus.
    Wrap,
    /// The grid is unbounded; the bounds are a hint.
    Infinite,
    /// Cells on the edge are pinned to the named state, or to the default
    /// state where no name is given.
    Static(Option<String>),
}

/// The mathematical content of a `BoundaryBlock`.
pub ghost enum BoundaryModel {
    Void,
    Wrap,
    Infinite,
    Static(Option<Seq<char>>),
}

impl BoundaryBlock {
    /// The block as a mathematical value.
    pub open spec fn model(self) -> BoundaryModel {
        match self {
            BoundaryBlock::Void => BoundaryModel::Void,
            BoundaryBlock::Wrap => BoundaryModel::Wrap,
            BoundaryBlock::Infinite => BoundaryModel::Infinite,
            BoundaryBlock::Static(Some(name)) => BoundaryModel::Static(Some(name@)),
            BoundaryBlock::Static(None) => BoundaryModel::Static(None),
        }
    }

    /// Whether the grid ends at the bounds: every regime but `Infinite`.
    pub fn is_finite(&self) -> (r: bool)
        ensures
            r == !(self is Infinite),
    {
        match self {
            BoundaryBlock::Infinite => false,
            _ => true,
        }
    }

    /// The state name that a `Static` boundary carries, if it carries one.
    pub fn is_static(&self) -> (r: Option<&String>)
        ensures
            r == match self {
                BoundaryBlock::Static(Some(name)) => Some(name),
                _ => None,
            },
    {
        match self {
            BoundaryBlock::Static(name) => name.as_ref(),
            _ => None,
        }
    }

    /// Whether edge cells are pinned: the boundary is `Static`, with or
    /// without a name.
    pub fn pins_edge(&self) -> (r: bool)
        ensures
            r == (self is Static),
    {
        match self {
            BoundaryBlock::Static(_) => true,
            _ => false,
        }
    }

    /// Whether neighbours outside the bounds are mapped back onto the torus.
    pub fn wraps(&self) -> (r: bool)
        ensures
            r == (self is Wrap),
    {
        match self {
            BoundaryBlock::Wrap => true,
            _ => false,
        }
    }
}

impl Default for BoundaryBlock {
    fn default() -> (r: Self)
        ensures
            r is Void,
    {
        BoundaryBlock::Void
    }
}

} // verus!
