//! A grid with a fixed set of cells.

use vstd::prelude::*;
use core::marker::PhantomData;
use crate::datatypes::coords::{fits, Coordinate, CoordinateBounds};
use crate::datatypes::neighborhood::tally_of;
use crate::runtime::environment::Environment;
use crate::runtime::state::tallies;

verus! {

/// Whether no cell occurs twice among `entries`.
pub open spec fn unique<C>(entries: Seq<(C, usize)>) -> bool {
    forall|i: int, j: int|
        0 <= i < entries.len() && 0 <= j < entries.len() && i != j ==> entries[i].0 != entries[j].0
}

/// Whether `entries` hold the cell `c`.
pub open spec fn has_cell<C>(entries: Seq<(C, usize)>, c: C) -> bool {
    exists|i: int| 0 <= i < entries.len() && entries[i].0 == c
}

/// A position at which `entries` hold the cell `c`.
pub open spec fn cell_at<C>(entries: Seq<(C, usize)>, c: C) -> int {
    choose|i: int| 0 <= i < entries.len() && entries[i].0 == c
}

/// The mapping that `entries` stand for.
pub open spec fn grid_of<C>(entries: Seq<(C, usize)>) -> Map<C, usize> {
    Map::new(|c: C| has_cell(entries, c), |c: C| entries[cell_at(entries, c)].1)
}

/// Where no cell occurs twice, an entry is what the mapping holds for its
/// cell.
pub proof fn lemma_grid_entry<C>(entries: Seq<(C, usize)>, i: int)
    requires
        unique(entries),
        0 <= i < entries.len(),
    ensures
        grid_of(entries).contains_key(entries[i].0),
        grid_of(entries)[entries[i].0] == entries[i].1,
        cell_at(entries, entries[i].0) == i,
{
}

/// The mapping that arises when the pairs are stored one after another:
/// where a cell occurs more than once, its last state stays.
pub open spec fn gathered<C>(pairs: Seq<(C, usize)>) -> Map<C, usize>
    decreases pairs.len(),
{
    if pairs.len() == 0 {
        Map::empty()
    } else {
        gathered(pairs.drop_last()).insert(pairs.last().0, pairs.last().1)
    }
}

/// The mapping `cells` with each of `wanted` that it lacks added in state
/// zero.
pub open spec fn completed<C>(cells: Map<C, usize>, wanted: Seq<C>) -> Map<C, usize>
    decreases wanted.len(),
{
    if wanted.len() == 0 {
        cells
    } else {
        let before = completed(cells, wanted.drop_last());
        if before.contains_key(wanted.last()) {
            before
        } else {
            before.insert(wanted.last(), 0)
        }
    }
}

/// Completing a mapping keeps its entries and adds exactly the wanted
/// cells that it lacks, each in state zero.
pub proof fn lemma_completed<C>(cells: Map<C, usize>, wanted: Seq<C>, c: C)
    ensures
        completed(cells, wanted).contains_key(c) <==> (cells.contains_key(c) || wanted.contains(c)),
        cells.contains_key(c) ==> completed(cells, wanted)[c] == cells[c],
        completed(cells, wanted).contains_key(c) && !cells.contains_key(c) ==> completed(
            cells,
            wanted,
        )[c] == 0,
    decreases wanted.len(),
{
    if wanted.len() > 0 {
        let front = wanted.drop_last();
        lemma_completed(cells, front, c);
        if front.contains(c) {
            let k = choose|k: int| 0 <= k < front.len() && front[k] == c;
            assert(wanted[k] == c);
        }
        if wanted.last() == c {
            assert(wanted[wanted.len() - 1] == c);
        }
        if wanted.contains(c) && wanted.last() != c {
            let k = choose|k: int| 0 <= k < wanted.len() && wanted[k] == c;
            assert(front[k] == c);
        }
    }
}

/// The states of the cells that lie at the offsets `offsets` from `coord`
/// and belong to `cells`, in the order of the offsets.
pub open spec fn states_around<C: Coordinate>(cells: Map<C, usize>, offsets: Seq<C>, coord: C) -> Seq<
    usize,
>
    decreases offsets.len(),
{
    if offsets.len() == 0 {
        Seq::empty()
    } else {
        let before = states_around(cells, offsets.drop_last(), coord);
        let by = offsets.last();
        let there = coord.translated(by.px(), by.py(), by.pz());
        if fits(coord.px() + by.px()) && fits(coord.py() + by.py()) && fits(coord.pz() + by.pz())
            && cells.contains_key(there) {
            before.push(cells[there])
        } else {
            before
        }
    }
}

fn position<C: Coordinate>(entries: &Vec<(C, usize)>, coord: C) -> (r: Option<usize>)
    ensures
        match r {
            Some(i) => i < entries@.len() && entries@[i as int].0 == coord,
            None => !has_cell(entries@, coord),
        },
{
    let mut i: usize = 0;
    while i < entries.len()
        invariant
            i <= entries.len(),
            forall|j: int| 0 <= j < i ==> entries@[j].0 != coord,
        decreases entries.len() - i,
    {
        if entries[i].0.same(&coord) {
            return Some(i);
        }
        i += 1;
    }
    None
}

fn store<C: Coordinate>(entries: &mut Vec<(C, usize)>, coord: C, state: usize)
    requires
        unique(old(entries)@),
    ensures
        unique(final(entries)@),
        grid_of(final(entries)@) == grid_of(old(entries)@).insert(coord, state),
{
    let ghost before = entries@;
    match position(entries, coord) {
        Some(i) => {
            entries[i] = (coord, state);
            proof {
                let after = entries@;
                lemma_grid_entry(before, i as int);
                assert forall|c: C| has_cell(after, c) == has_cell(before, c) by {
                    if has_cell(before, c) {
                        let k = cell_at(before, c);
                        assert(after[k].0 == c);
                    }
                    if has_cell(after, c) {
                        let k = cell_at(after, c);
                        assert(before[k].0 == c);
                    }
                }
                assert forall|c: C| has_cell(after, c) implies grid_of(after)[c] == (if c == coord {
                    state
                } else {
                    grid_of(before)[c]
                }) by {
                    let k = cell_at(after, c);
                    lemma_grid_entry(after, k);
                    lemma_grid_entry(before, k);
                }
                assert(grid_of(after) =~= grid_of(before).insert(coord, state));
            }
        },
        None => {
            entries.push((coord, state));
            proof {
                let after = entries@;
                assert(after[before.len() as int].0 == coord);
                assert forall|c: C| has_cell(after, c) == (c == coord || has_cell(before, c)) by {
                    if has_cell(before, c) {
                        let k = cell_at(before, c);
                        assert(after[k].0 == c);
                    }
                    if has_cell(after, c) && c != coord {
                        let k = cell_at(after, c);
                        assert(before[k].0 == c);
                    }
                }
                assert forall|c: C| has_cell(after, c) implies grid_of(after)[c] == (if c == coord {
                    state
                } else {
                    grid_of(before)[c]
                }) by {
                    let k = cell_at(after, c);
                    lemma_grid_entry(after, k);
                    if c != coord {
                        lemma_grid_entry(before, k);
                    }
                }
                assert(grid_of(after) =~= grid_of(before).insert(coord, state));
            }
        },
    }
}

/// A grid with a fixed set of cells and the same neighbourhood offsets
/// for every cell.
pub struct FixedGrid<C: Coordinate, CB: CoordinateBounds<C>> {
    current_tick: Vec<(C, usize)>,
    next_tick: Vec<(C, usize)>,
    neighborhood: Vec<C>,
    phantom: PhantomData<CB>,
}

impl<C: Coordinate, CB: CoordinateBounds<C>> FixedGrid<C, CB> {
    /// The offsets at which a cell has its neighbours.
    pub closed spec fn offsets(self) -> Seq<C> {
        self.neighborhood@
    }

    /// The state of each cell in the current tick.
    pub closed spec fn cells(self) -> Map<C, usize> {
        grid_of(self.current_tick@)
    }

    /// The states that are staged for the next tick.
    pub closed spec fn pending(self) -> Map<C, usize> {
        grid_of(self.next_tick@)
    }

    /// The invariant of a grid: no cell is held twice.
    pub closed spec fn wf(self) -> bool {
        unique(self.current_tick@) && unique(self.next_tick@)
    }

    /// The state that is staged for `coord` in the next tick, if one is.
    pub fn get_staged(&self, coord: C) -> (r: Option<usize>)
        requires
            self.wf(),
        ensures
            r == (if self.pending().contains_key(coord) {
                Some(self.pending()[coord])
            } else {
                None
            }),
    {
        match position(&self.next_tick, coord) {
            Some(i) => {
                proof {
                    lemma_grid_entry(self.next_tick@, i as int);
                }
                Some(self.next_tick[i].1)
            },
            None => None,
        }
    }

    /// The grid of the cells of `bounds`, every one in state zero, with
    /// neighbours at the offsets `neighborhood`.
    pub fn new(neighborhood: Box<[C]>, bounds: CB) -> (r: Self)
        requires
            bounds.enumerable(),
        ensures
            r.wf(),
            r.offsets() == neighborhood@,
            r.pending() == Map::<C, usize>::empty(),
            r.cells() == completed(Map::<C, usize>::empty(), bounds.cells()),
    {
        let none: Vec<(C, usize)> = Vec::new();
        FixedGrid::from_hashmap(neighborhood, none, bounds)
    }

    /// The grid of the cells of `bounds` and of `hashmap`: a cell of
    /// `hashmap` in its last state there, every other cell in state zero.
    pub fn from_hashmap(neighborhood: Box<[C]>, hashmap: Vec<(C, usize)>, bounds: CB) -> (r: Self)
        requires
            bounds.enumerable(),
        ensures
            r.wf(),
            r.offsets() == neighborhood@,
            r.pending() == Map::<C, usize>::empty(),
            r.cells() == completed(gathered(hashmap@), bounds.cells()),
    {
        let ghost wanted = bounds.cells();
        let mut current_tick: Vec<(C, usize)> = Vec::new();
        assert(grid_of(current_tick@) =~= Map::<C, usize>::empty());
        let mut i: usize = 0;
        while i < hashmap.len()
            invariant
                i <= hashmap.len(),
                unique(current_tick@),
                grid_of(current_tick@) == gathered(hashmap@.take(i as int)),
            decreases hashmap.len() - i,
        {
            let (c, s) = hashmap[i];
            proof {
                let next = hashmap@.take(i + 1);
                assert(next.drop_last() =~= hashmap@.take(i as int));
                assert(next.last() == hashmap@[i as int]);
            }
            store(&mut current_tick, c, s);
            i += 1;
        }
        assert(hashmap@.take(hashmap.len() as int) =~= hashmap@);
        let ghost seeded = grid_of(current_tick@);
        let cells = bounds.into_cells();
        let mut k: usize = 0;
        while k < cells.len()
            invariant
                k <= cells.len(),
                cells@ == wanted,
                unique(current_tick@),
                grid_of(current_tick@) == completed(seeded, cells@.take(k as int)),
            decreases cells.len() - k,
        {
            let c = cells[k];
            proof {
                let next = cells@.take(k + 1);
                assert(next.drop_last() =~= cells@.take(k as int));
                assert(next.last() == cells@[k as int]);
            }
            if position(&current_tick, c).is_none() {
                store(&mut current_tick, c, 0);
            }
            k += 1;
        }
        assert(cells@.take(cells.len() as int) =~= cells@);
        let next_tick: Vec<(C, usize)> = Vec::new();
        assert(grid_of(next_tick@) =~= Map::<C, usize>::empty());
        FixedGrid {
            current_tick,
            next_tick,
            neighborhood: neighborhood.into_vec(),
            phantom: PhantomData,
        }
    }
}

impl<C: Coordinate, CB: CoordinateBounds<C>> Environment<C, usize, Vec<usize>> for FixedGrid<C, CB> {
    open spec fn valid(&self) -> bool {
        self.wf()
    }

    open spec fn current(&self) -> Map<C, usize> {
        self.cells()
    }

    open spec fn staged(&self) -> Map<C, usize> {
        self.pending()
    }

    open spec fn census(&self, ident: C) -> spec_fn(usize) -> nat {
        |state: usize| tally_of(states_around(self.cells(), self.offsets(), ident), state)
    }

    /// A fixed grid has no schedule: every tick visits every cell.
    open spec fn schedulable(&self) -> bool {
        false
    }

    fn set_state(&mut self, coord: C, state: usize) {
        store(&mut self.next_tick, coord, state);
    }

    fn get_state(&self, coord: C) -> (r: Option<usize>) {
        match position(&self.current_tick, coord) {
            Some(i) => {
                proof {
                    lemma_grid_entry(self.current_tick@, i as int);
                }
                Some(self.current_tick[i].1)
            },
            None => None,
        }
    }

    fn get_neighborhood(&self, coord: C) -> (r: Option<Vec<usize>>) {
        if position(&self.current_tick, coord).is_none() {
            return None;
        }
        let mut out: Vec<usize> = Vec::new();
        let mut i: usize = 0;
        while i < self.neighborhood.len()
            invariant
                i <= self.neighborhood.len(),
                self.wf(),
                out@ == states_around(self.cells(), self.offsets().take(i as int), coord),
            decreases self.neighborhood.len() - i,
        {
            proof {
                let next = self.offsets().take(i + 1);
                assert(next.drop_last() =~= self.offsets().take(i as int));
                assert(next.last() == self.offsets()[i as int]);
            }
            match coord.try_plus(self.neighborhood[i]) {
                Some(there) => match self.get_state(there) {
                    Some(s) => {
                        out.push(s);
                    },
                    None => {},
                },
                None => {},
            }
            i += 1;
        }
        proof {
            assert(self.offsets().take(self.neighborhood.len() as int) =~= self.offsets());
            assert(tallies(&out) =~= self.census(coord));
        }
        Some(out)
    }

    /// A fixed grid has no schedule: this is never to be called.
    fn schedule(&mut self, ident: C) {
    }

    /// A fixed grid has no schedule: this is never to be called.
    fn deschedule(&mut self, ident: C) {
    }

    fn get_schedule(&self) -> (r: Vec<C>) {
        let mut out: Vec<C> = Vec::new();
        let mut i: usize = 0;
        while i < self.current_tick.len()
            invariant
                i <= self.current_tick.len(),
                out@.len() == i,
                forall|k: int| 0 <= k < i ==> #[trigger] out@[k] == self.current_tick@[k].0,
            decreases self.current_tick.len() - i,
        {
            out.push(self.current_tick[i].0);
            i += 1;
        }
        proof {
            assert forall|k: int| 0 <= k < out@.len() implies self.current().contains_key(
                #[trigger] out@[k],
            ) by {
                lemma_grid_entry(self.current_tick@, k);
            }
            assert forall|c: C| self.current().contains_key(c) implies #[trigger] out@.contains(
                c,
            ) by {
                let k = cell_at(self.current_tick@, c);
                assert(out@[k] == c);
            }
        }
        out
    }

    fn snapshot(&self) -> (r: Vec<(C, usize)>) {
        let mut out: Vec<(C, usize)> = Vec::new();
        let mut i: usize = 0;
        while i < self.current_tick.len()
            invariant
                i <= self.current_tick.len(),
                out@ == self.current_tick@.take(i as int),
            decreases self.current_tick.len() - i,
        {
            out.push(self.current_tick[i]);
            assert(out@ =~= self.current_tick@.take(i + 1));
            i += 1;
        }
        proof {
            assert(self.current_tick@.take(self.current_tick.len() as int) =~= self.current_tick@);
            assert forall|k: int| 0 <= k < out@.len() implies self.current().contains_key(
                (#[trigger] out@[k]).0,
            ) && self.current()[out@[k].0] == out@[k].1 by {
                lemma_grid_entry(self.current_tick@, k);
            }
            assert forall|c: C| self.current().contains_key(c) implies exists|k: int|
                0 <= k < out@.len() && (#[trigger] out@[k]).0 == c by {
                let k = cell_at(self.current_tick@, c);
                assert(out@[k].0 == c);
            }
        }
        out
    }

    fn tick(&mut self) {
        let ghost before = self.cells();
        let ghost staged = self.pending();
        let mut i: usize = 0;
        while i < self.current_tick.len()
            invariant
                i <= self.current_tick.len(),
                self.wf(),
                self.cells() == before,
                forall|c: C| #[trigger]
                    self.pending().contains_key(c) <==> (staged.contains_key(c) || has_cell(
                        self.current_tick@.take(i as int),
                        c,
                    )),
                forall|c: C| staged.contains_key(c) ==> #[trigger] self.pending()[c] == staged[c],
                forall|c: C|
                    #[trigger] self.pending().contains_key(c) && !staged.contains_key(c)
                        ==> self.pending()[c] == before[c],
            decreases self.current_tick.len() - i,
        {
            let (c, s) = self.current_tick[i];
            proof {
                lemma_grid_entry(self.current_tick@, i as int);
                let head = self.current_tick@.take(i as int);
                let next = self.current_tick@.take(i + 1);
                assert(next[i as int].0 == c);
                assert forall|x: C| has_cell(next, x) <==> (has_cell(head, x) || x == c) by {
                    if has_cell(head, x) {
                        let k = cell_at(head, x);
                        assert(next[k].0 == x);
                    }
                    if has_cell(next, x) && x != c {
                        let k = cell_at(next, x);
                        assert(head[k].0 == x);
                    }
                }
            }
            let ghost old_pending = self.pending();
            if position(&self.next_tick, c).is_none() {
                store(&mut self.next_tick, c, s);
            }
            proof {
                let new_pending = self.pending();
                assert(new_pending == old_pending || (!old_pending.contains_key(c) && new_pending
                    == old_pending.insert(c, s)));
                assert(new_pending.contains_key(c));
                assert forall|x: C| #[trigger]
                    new_pending.contains_key(x) <==> (staged.contains_key(x) || has_cell(
                        self.current_tick@.take(i + 1),
                        x,
                    )) by {
                    assert(old_pending.contains_key(x) <==> (staged.contains_key(x) || has_cell(
                        self.current_tick@.take(i as int),
                        x,
                    )));
                }
                assert forall|x: C| staged.contains_key(x) implies #[trigger] new_pending[x]
                    == staged[x] by {
                    assert(old_pending.contains_key(x));
                    assert(old_pending[x] == staged[x]);
                }
                assert forall|x: C| #[trigger]
                    new_pending.contains_key(x) && !staged.contains_key(x) implies new_pending[x]
                    == before[x] by {
                    if x != c {
                        assert(old_pending.contains_key(x));
                    } else if old_pending.contains_key(c) {
                        assert(old_pending[c] == before[c]);
                    }
                }
            }
            i += 1;
        }
        proof {
            assert(self.current_tick@.take(self.current_tick.len() as int) =~= self.current_tick@);
            assert(self.pending() =~= before.union_prefer_right(staged));
        }
        let mut merged: Vec<(C, usize)> = Vec::new();
        core::mem::swap(&mut merged, &mut self.next_tick);
        self.current_tick = merged;
        assert(grid_of(self.next_tick@) =~= Map::<C, usize>::empty());
    }
}

} // verus!
