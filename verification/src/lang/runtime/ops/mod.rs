//! The operators of a runtime: neighbourhood and rules.

use vstd::prelude::*;

pub mod neighborhood;
pub mod rules;

verus! {

/// The state that a transition leaves.
pub type FromState = crate::lang::runtime::StateId;

/// The state that a transition enters.
pub type ToState = crate::lang::runtime::StateId;

} // verus!
