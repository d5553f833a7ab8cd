//! Identifiers of cells.

use vstd::prelude::*;
use crate::datatypes::coords::Coordinate;

verus! {

/// A type whose values identify the cells of an environment.
pub trait Identifer: Copy {
    /// Whether two identifiers are the same.
    fn same_cell(&self, other: &Self) -> (r: bool)
        ensures
            r == (*self == *other),
    ;
}

impl<T: Coordinate> Identifer for T {
    fn same_cell(&self, other: &Self) -> (r: bool) {
        self.same(other)
    }
}

} // verus!
