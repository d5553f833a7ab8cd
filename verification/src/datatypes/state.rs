//! States of cells.

use vstd::prelude::*;

verus! {

/// A type whose values are the states of cells.
pub trait State: Copy {
    /// Whether two states are the same.
    fn same(&self, other: &Self) -> (r: bool)
        ensures
            r == (*self == *other),
    ;
}

impl State for usize {
    fn same(&self, other: &usize) -> (r: bool) {
        *self == *other
    }
}

impl State for u8 {
    fn same(&self, other: &u8) -> (r: bool) {
        *self == *other
    }
}

} // verus!
