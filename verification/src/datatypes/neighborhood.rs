//! What a rule can tell of the neighbours of a cell.

use vstd::prelude::*;
use crate::datatypes::state::State;

verus! {

/// Number of occurrences of `state` in `states`.
pub open spec fn tally_of<S>(states: Seq<S>, state: S) -> nat
    decreases states.len(),
{
    if states.len() == 0 {
        0
    } else {
        tally_of(states.drop_last(), state) + if states.last() == state {
            1nat
        } else {
            0nat
        }
    }
}

/// The tally of a state is how often the states, seen as a multiset, hold
/// it; it does not exceed their number.
pub proof fn lemma_tally_is_multiset_count<S>(states: Seq<S>, state: S)
    ensures
        tally_of(states, state) == states.to_multiset().count(state),
        tally_of(states, state) <= states.len(),
    decreases states.len(),
{
    if states.len() == 0 {
        states.to_multiset_ensures();
        assert(states.to_multiset().len() == 0);
    } else {
        let front = states.drop_last();
        lemma_tally_is_multiset_count(front, state);
        front.to_multiset_ensures();
        assert(front.push(states.last()) =~= states);
    }
}

/// The states of the neighbours of a cell, as far as rules can tell them
/// apart: how often each state occurs.
pub trait Neighborhood<S> {
    /// Number of neighbours in `state`.
    spec fn tally(&self, state: S) -> nat;

    /// Number of neighbours in `state`.
    fn count(&self, state: S) -> (r: usize)
        ensures
            r == self.tally(state),
    ;
}

impl<S: State> Neighborhood<S> for Vec<S> {
    open spec fn tally(&self, state: S) -> nat {
        tally_of(self@, state)
    }

    fn count(&self, state: S) -> (r: usize) {
        let mut count: usize = 0;
        let mut i: usize = 0;
        while i < self.len()
            invariant
                i <= self.len(),
                count <= i,
                count == tally_of(self@.take(i as int), state),
            decreases self.len() - i,
        {
            proof {
                let next = self@.take(i + 1);
                assert(next.drop_last() =~= self@.take(i as int));
                assert(next.last() == self@[i as int]);
            }
            if self[i].same(&state) {
                count += 1;
            }
            i += 1;
        }
        assert(self@.take(self.len() as int) =~= self@);
        count
    }
}

} // verus!
