//! Generations: sparse mappings from coordinate to state, kept in the order
//! of insertion and found through an index on the X component.

use vstd::prelude::*;
use std::collections::HashMap;
use crate::lang::runtime::StateId;
use crate::lang::runtime::datatypes::coords::Coordinate;

verus! {

broadcast use vstd::std_specs::hash::group_hash_axioms;

/// Whether no coordinate occurs twice among `entries`.
pub open spec fn distinct(entries: Seq<(Coordinate, StateId)>) -> bool {
    forall|i: int, j: int|
        0 <= i < entries.len() && 0 <= j < entries.len() && i != j ==> entries[i].0 != entries[j].0
}

/// Whether `entries` hold the coordinate `c`.
pub open spec fn holds(entries: Seq<(Coordinate, StateId)>, c: Coordinate) -> bool {
    exists|i: int| 0 <= i < entries.len() && entries[i].0 == c
}

/// A position at which `entries` hold the coordinate `c`.
pub open spec fn place(entries: Seq<(Coordinate, StateId)>, c: Coordinate) -> int {
    choose|i: int| 0 <= i < entries.len() && entries[i].0 == c
}

/// The mapping that `entries` stand for.
pub open spec fn as_map(entries: Seq<(Coordinate, StateId)>) -> Map<Coordinate, StateId> {
    Map::new(|c: Coordinate| holds(entries, c), |c: Coordinate| entries[place(entries, c)].1)
}

/// Where no coordinate occurs twice, an entry is what the mapping holds
/// for its coordinate.
pub proof fn lemma_entry_in_map(entries: Seq<(Coordinate, StateId)>, i: int)
    requires
        distinct(entries),
        0 <= i < entries.len(),
    ensures
        as_map(entries).contains_key(entries[i].0),
        as_map(entries)[entries[i].0] == entries[i].1,
        place(entries, entries[i].0) == i,
{
}

/// The mapping that arises when the pairs are stored one after another:
/// where a coordinate occurs more than once, its last state stays.
pub open spec fn collected(pairs: Seq<(Coordinate, StateId)>) -> Map<Coordinate, StateId>
    decreases pairs.len(),
{
    if pairs.len() == 0 {
        Map::empty()
    } else {
        collected(pairs.drop_last()).insert(pairs.last().0, pairs.last().1)
    }
}

/// The mapping of stored pairs holds exactly the coordinates of the
/// pairs.
pub proof fn lemma_collected_domain(pairs: Seq<(Coordinate, StateId)>, c: Coordinate)
    ensures
        collected(pairs).contains_key(c) <==> holds(pairs, c),
    decreases pairs.len(),
{
    if pairs.len() > 0 {
        let front = pairs.drop_last();
        lemma_collected_domain(front, c);
        if holds(front, c) {
            let k = place(front, c);
            assert(pairs[k].0 == c);
        }
        if pairs.last().0 == c {
            assert(pairs[pairs.len() - 1].0 == c);
        }
        if holds(pairs, c) && pairs.last().0 != c {
            let k = place(pairs, c);
            assert(front[k].0 == c);
        }
    }
}

/// The mapping of stored pairs holds for a coordinate the state of the
/// last pair with that coordinate.
pub proof fn lemma_collected_last(pairs: Seq<(Coordinate, StateId)>, i: int)
    requires
        0 <= i < pairs.len(),
        forall|j: int| i < j < pairs.len() ==> pairs[j].0 != pairs[i].0,
    ensures
        collected(pairs)[pairs[i].0] == pairs[i].1,
    decreases pairs.len(),
{
    if i < pairs.len() - 1 {
        let front = pairs.drop_last();
        assert(pairs.last() == pairs[pairs.len() - 1]);
        assert(pairs.last().0 != pairs[i].0);
        assert forall|j: int| i < j < front.len() implies front[j].0 != front[i].0 by {
            assert(front[j] == pairs[j]);
        }
        lemma_collected_last(front, i);
    }
}

/// The component by which the cells of a generation are indexed: X.
pub open spec fn index_key(c: Coordinate) -> isize {
    match c {
        Coordinate::Coordinate1D { x } => x,
        Coordinate::Coordinate2D { x, .. } => x,
        Coordinate::Coordinate3D { x, .. } => x,
    }
}

fn key_of(c: Coordinate) -> (r: isize)
    ensures
        r == index_key(c),
{
    match c {
        Coordinate::Coordinate1D { x } => x,
        Coordinate::Coordinate2D { x, .. } => x,
        Coordinate::Coordinate3D { x, .. } => x,
    }
}

/// Whether `index` lists for each X component the positions of the
/// entries with that component, and nothing else.
pub open spec fn indexes(index: Map<isize, Vec<usize>>, entries: Seq<(Coordinate, StateId)>) -> bool {
    &&& forall|i: int|
        0 <= i < entries.len() ==> index.contains_key(index_key((#[trigger] entries[i]).0))
            && index[index_key(entries[i].0)]@.contains(i as usize)
    &&& forall|x: isize, j: int|
        index.contains_key(x) && 0 <= j < index[x]@.len() ==> (#[trigger] index[x]@[j])
            < entries.len() && index_key(entries[index[x]@[j] as int].0) == x
}

/// One generation of cells: a sparse mapping from coordinate to state. The
/// cells are kept in the order of their first insertion and are found by
/// their X component.
#[derive(Debug, Clone, PartialEq, Eq)]
pub struct Generation {
    cells: Vec<(Coordinate, StateId)>,
    index: HashMap<isize, Vec<usize>>,
}

impl Generation {
    /// The stored cells, in the order of their first insertion.
    pub closed spec fn entries(self) -> Seq<(Coordinate, StateId)> {
        self.cells@
    }

    /// Whether the index of the generation lists its cells.
    pub closed spec fn indexed(self) -> bool {
        indexes(self.index@, self.cells@)
    }

    /// The invariant of a generation: no coordinate is stored twice, and
    /// every cell is found by its X component.
    pub open spec fn wf(self) -> bool {
        distinct(self.entries()) && self.indexed()
    }

    /// The generation as a mapping from coordinate to state.
    pub open spec fn view(self) -> Map<Coordinate, StateId> {
        as_map(self.entries())
    }

    /// A generation without cells.
    pub fn new() -> (r: Generation)
        ensures
            r.wf(),
            r@ == Map::<Coordinate, StateId>::empty(),
            r.entries().len() == 0,
    {
        let r = Generation { cells: Vec::new(), index: HashMap::new() };
        assert(r@ =~= Map::<Coordinate, StateId>::empty());
        r
    }

    /// Number of stored cells.
    pub fn len(&self) -> (r: usize)
        ensures
            r == self.entries().len(),
    {
        self.cells.len()
    }

    /// Whether no cell is stored.
    pub fn is_empty(&self) -> (r: bool)
        ensures
            r == (self.entries().len() == 0),
    {
        self.cells.len() == 0
    }

    /// The cell at position `i` in the order of first insertion.
    pub fn nth(&self, i: usize) -> (r: (Coordinate, StateId))
        requires
            i < self.entries().len(),
        ensures
            r == self.entries()[i as int],
    {
        self.cells[i]
    }

    fn find(&self, coord: Coordinate) -> (r: Option<usize>)
        requires
            self.indexed(),
        ensures
            match r {
                Some(i) => i < self.entries().len() && self.entries()[i as int].0 == coord,
                None => !holds(self.entries(), coord),
            },
    {
        let x = key_of(coord);
        let bucket = match self.index.get(&x) {
            Some(bucket) => bucket,
            None => {
                proof {
                    assert forall|i: int| 0 <= i < self.cells@.len() implies self.cells@[i].0
                        != coord by {
                        assert(self.index@.contains_key(index_key(self.cells@[i].0)));
                    }
                }
                return None;
            },
        };
        let mut j: usize = 0;
        while j < bucket.len()
            invariant
                j <= bucket.len(),
                self.indexed(),
                x == index_key(coord),
                self.index@.contains_key(x),
                bucket@ == self.index@[x]@,
                forall|k: int| 0 <= k < j ==> self.cells@[bucket@[k] as int].0 != coord,
            decreases bucket.len() - j,
        {
            let at = bucket[j];
            assert(at == self.index@[x]@[j as int]);
            if self.cells[at].0 == coord {
                return Some(at);
            }
            j += 1;
        }
        proof {
            assert forall|i: int| 0 <= i < self.cells@.len() implies self.cells@[i].0 != coord by {
                if self.cells@[i].0 == coord {
                    assert(self.cells@.len() == self.cells.len());
                    let at = i as usize;
                    assert(at as int == i);
                    assert(self.index@[index_key(self.cells@[i].0)]@.contains(at));
                    let k = choose|k: int| 0 <= k < bucket@.len() && bucket@[k] == at;
                    assert(self.cells@[bucket@[k] as int].0 != coord);
                }
            }
        }
        None
    }

    /// The state stored for `coord`, if one is stored.
    pub fn get(&self, coord: Coordinate) -> (r: Option<StateId>)
        requires
            self.wf(),
        ensures
            r == (if self@.contains_key(coord) {
                Some(self@[coord])
            } else {
                None
            }),
    {
        match self.find(coord) {
            Some(i) => {
                proof {
                    lemma_entry_in_map(self.entries(), i as int);
                }
                Some(self.cells[i].1)
            },
            None => None,
        }
    }

    /// Whether a state is stored for `coord`.
    pub fn contains_key(&self, coord: Coordinate) -> (r: bool)
        requires
            self.wf(),
        ensures
            r == self@.contains_key(coord),
    {
        self.find(coord).is_some()
    }

    /// Lists the position `at` under the X component `x`.
    fn list(&mut self, x: isize, at: usize)
        requires
            indexes(old(self).index@, old(self).cells@.take(at as int)),
            at < old(self).cells@.len(),
            at + 1 == old(self).cells@.len(),
            index_key(old(self).cells@[at as int].0) == x,
        ensures
            final(self).cells == old(self).cells,
            final(self).indexed(),
    {
        let ghost before = self.index@;
        let ghost head = self.cells@.take(at as int);
        let mut bucket: Vec<usize> = match self.index.remove(&x) {
            Some(bucket) => bucket,
            None => Vec::new(),
        };
        let ghost was = bucket@;
        bucket.push(at);
        self.index.insert(x, bucket);
        proof {
            let now = self.index@;
            let entries = self.cells@;
            assert(before.contains_key(x) ==> was == before[x]@);
            assert(!before.contains_key(x) ==> was.len() == 0);
            assert(now[x]@ == was.push(at));
            assert forall|i: int| 0 <= i < entries.len() implies now.contains_key(
                index_key((#[trigger] entries[i]).0),
            ) && now[index_key(entries[i].0)]@.contains(i as usize) by {
                let k = index_key(entries[i].0);
                if i == at {
                    assert(now[x]@[was.len() as int] == at);
                } else {
                    assert(head[i] == entries[i]);
                    assert(before.contains_key(k) && before[k]@.contains(i as usize));
                    if k == x {
                        let j = choose|j: int| 0 <= j < was.len() && was[j] == i as usize;
                        assert(now[x]@[j] == i as usize);
                    } else {
                        assert(now[k] == before[k]);
                    }
                }
            }
            assert forall|k: isize, j: int|
                now.contains_key(k) && 0 <= j < now[k]@.len() implies (#[trigger] now[k]@[j])
                < entries.len() && index_key(entries[now[k]@[j] as int].0) == k by {
                if k == x {
                    if j < was.len() {
                        assert(now[x]@[j] == was[j]);
                        assert(before[x]@[j] < head.len());
                        assert(head[before[x]@[j] as int] == entries[before[x]@[j] as int]);
                    }
                } else {
                    assert(now[k] == before[k]);
                    assert(before[k]@[j] < head.len());
                    assert(head[before[k]@[j] as int] == entries[before[k]@[j] as int]);
                }
            }
        }
    }

    /// Stores `state` for `coord` and returns the state that was stored
    /// for it before, if one was.
    pub fn insert(&mut self, coord: Coordinate, state: StateId) -> (r: Option<StateId>)
        requires
            old(self).wf(),
        ensures
            final(self).wf(),
            final(self)@ == old(self)@.insert(coord, state),
            r == (if old(self)@.contains_key(coord) {
                Some(old(self)@[coord])
            } else {
                None
            }),
            old(self)@.contains_key(coord) ==> final(self).entries().len() == old(self).entries().len(),
            !old(self)@.contains_key(coord) ==> final(self).entries() == old(self).entries().push(
                (coord, state),
            ),
    {
        let ghost before = self.entries();
        match self.find(coord) {
            Some(i) => {
                let previous = self.cells[i].1;
                self.cells[i] = (coord, state);
                proof {
                    let after = self.entries();
                    lemma_entry_in_map(before, i as int);
                    assert(after == before.update(i as int, (coord, state)));
                    assert forall|k: int| 0 <= k < after.len() implies index_key(
                        (#[trigger] after[k]).0,
                    ) == index_key(before[k].0) by {}
                    assert(indexes(self.index@, after)) by {
                        assert forall|k: int| 0 <= k < after.len() implies self.index@.contains_key(
                            index_key((#[trigger] after[k]).0),
                        ) && self.index@[index_key(after[k].0)]@.contains(k as usize) by {
                            assert(index_key(before[k].0) == index_key(after[k].0));
                        }
                        assert forall|x: isize, j: int|
                            self.index@.contains_key(x) && 0 <= j < self.index@[x]@.len() implies (
                        #[trigger] self.index@[x]@[j]) < after.len() && index_key(
                            after[self.index@[x]@[j] as int].0,
                        ) == x by {
                            let at = self.index@[x]@[j] as int;
                            assert(index_key(before[at].0) == x);
                            assert(index_key(after[at].0) == index_key(before[at].0));
                        }
                    }
                    assert forall|c: Coordinate| holds(after, c) == holds(before, c) by {
                        if holds(before, c) {
                            let k = place(before, c);
                            assert(after[k].0 == c);
                        }
                        if holds(after, c) {
                            let k = place(after, c);
                            assert(before[k].0 == c);
                        }
                    }
                    assert forall|c: Coordinate| holds(after, c) implies as_map(after)[c] == (if c
                        == coord {
                        state
                    } else {
                        as_map(before)[c]
                    }) by {
                        let k = place(after, c);
                        lemma_entry_in_map(after, k);
                        lemma_entry_in_map(before, k);
                    }
                    assert(self@ =~= as_map(before).insert(coord, state));
                }
                Some(previous)
            },
            None => {
                let at = self.cells.len();
                self.cells.push((coord, state));
                assert(self.cells@.take(at as int) =~= before);
                self.list(key_of(coord), at);
                proof {
                    let after = self.entries();
                    assert(after == before.push((coord, state)));
                    assert(after[before.len() as int].0 == coord);
                    assert forall|c: Coordinate| holds(after, c) == (c == coord || holds(before, c)) by {
                        if holds(before, c) {
                            let k = place(before, c);
                            assert(after[k].0 == c);
                        }
                        if holds(after, c) && c != coord {
                            let k = place(after, c);
                            assert(before[k].0 == c);
                        }
                    }
                    assert forall|c: Coordinate| holds(after, c) implies as_map(after)[c] == (if c
                        == coord {
                        state
                    } else {
                        as_map(before)[c]
                    }) by {
                        let k = place(after, c);
                        lemma_entry_in_map(after, k);
                        if c != coord {
                            lemma_entry_in_map(before, k);
                        }
                    }
                    assert(self@ =~= as_map(before).insert(coord, state));
                }
                None
            },
        }
    }

    /// The generation that holds each of `pairs`; where a coordinate occurs
    /// more than once, its last state stays.
    pub fn from_pairs(pairs: &Vec<(Coordinate, StateId)>) -> (r: Generation)
        ensures
            r.wf(),
            r@ == collected(pairs@),
    {
        let mut out = Generation::new();
        let mut i: usize = 0;
        while i < pairs.len()
            invariant
                i <= pairs.len(),
                out.wf(),
                out@ == collected(pairs@.take(i as int)),
            decreases pairs.len() - i,
        {
            let (c, s) = pairs[i];
            proof {
                let next = pairs@.take(i + 1);
                assert(next.drop_last() =~= pairs@.take(i as int));
                assert(next.last() == pairs@[i as int]);
            }
            out.insert(c, s);
            i += 1;
        }
        assert(pairs@.take(pairs.len() as int) =~= pairs@);
        out
    }

    /// The coordinates of the stored cells, each once.
    pub fn keys(&self) -> (r: Vec<Coordinate>)
        ensures
            r@.len() == self.entries().len(),
            forall|i: int| 0 <= i < r@.len() ==> #[trigger] r@[i] == self.entries()[i].0,
    {
        let mut out: Vec<Coordinate> = Vec::new();
        let mut i: usize = 0;
        while i < self.cells.len()
            invariant
                i <= self.cells.len(),
                out@.len() == i,
                forall|k: int| 0 <= k < i ==> #[trigger] out@[k] == self.cells@[k].0,
            decreases self.cells.len() - i,
        {
            out.push(self.cells[i].0);
            i += 1;
        }
        out
    }

    /// The stored cells as pairs, each coordinate once.
    pub fn to_vec(&self) -> (r: Vec<(Coordinate, StateId)>)
        ensures
            r@ == self.entries(),
    {
        let mut out: Vec<(Coordinate, StateId)> = Vec::new();
        let mut i: usize = 0;
        while i < self.cells.len()
            invariant
                i <= self.cells.len(),
                out@ == self.cells@.take(i as int),
            decreases self.cells.len() - i,
        {
            out.push(self.cells[i]);
            assert(out@ =~= self.cells@.take(i + 1));
            i += 1;
        }
        assert(self.cells@.take(self.cells.len() as int) =~= self.cells@);
        out
    }

    /// A copy of the generation.
    pub fn copy(&self) -> (r: Generation)
        requires
            self.wf(),
        ensures
            r.wf(),
            r.entries() == self.entries(),
            r@ == self@,
    {
        let mut out = Generation::new();
        let mut i: usize = 0;
        assert(out.entries() =~= self.entries().take(0));
        while i < self.cells.len()
            invariant
                i <= self.cells.len(),
                self.wf(),
                out.wf(),
                out.entries() == self.entries().take(i as int),
            decreases self.cells.len() - i,
        {
            let (c, s) = self.cells[i];
            proof {
                let head = self.entries().take(i as int);
                if holds(head, c) {
                    let k = place(head, c);
                    assert(self.entries()[k].0 == self.entries()[i as int].0);
                }
                assert(head.push((c, s)) =~= self.entries().take(i + 1));
            }
            out.insert(c, s);
            i += 1;
        }
        assert(self.entries().take(self.cells.len() as int) =~= self.entries());
        out
    }
}

} // verus!
