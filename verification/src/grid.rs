//! The sparse grid store: the authoritative mapping from lattice coordinate
//! to cell.
//!
//! The grid is unbounded but storage is sparse: a coordinate is present
//! exactly when it has been touched (seeded live, lazily created as a dead
//! neighbor, or updated). Entries never leave implicitly — only the explicit
//! demote-to-absent operation removes one, and the core rule never uses it.
//! The store owns all cells; its abstract state is a `Map<Coord, Cell>`, and
//! a parallel duplicate-free list of coordinates fixes an iteration order
//! for the tick passes and the snapshot feed.
//!
//! Invariants: every stored cell sits under the key packed from its own
//! `position`, its fields lie in the conventional fixed-point ranges, and its
//! coordinate is far enough from the `i32` edge that a neighborhood scan
//! around it cannot overflow.

use crate::cell::{Cell, AGGREGATE_CAP, VITALITY_SCALE};
use crate::coord::{coord_key, lemma_coord_key_injective, Coord};
use crate::GridError;
use std::collections::HashMap;
use vstd::prelude::*;
use vstd::seq_lib::*;

verus! {

/// The coordinate-keyed reading of the raw `u64`-keyed cell map.
spec fn view_of(m: Map<u64, Cell>) -> Map<Coord, Cell> {
    Map::new(|c: Coord| m.contains_key(coord_key(c)), |c: Coord| m[coord_key(c)])
}

/// Packing a coordinate insertion through the key encoding commutes with
/// inserting in the coordinate-keyed reading.
proof fn lemma_view_of_insert(m: Map<u64, Cell>, c: Coord, v: Cell)
    ensures
        view_of(m.insert(coord_key(c), v)) =~= view_of(m).insert(c, v),
{
    assert forall|c2: Coord| c2 != c implies coord_key(c2) != coord_key(c) by {
        lemma_coord_key_injective(c2, c);
    }
}

/// What lazy creation does to the abstract grid: nothing when the
/// coordinate is present, otherwise one fresh dead cell under it.
pub open spec fn lazy_insert(m: Map<Coord, Cell>, c: Coord) -> Map<Coord, Cell> {
    if m.contains_key(c) {
        m
    } else {
        m.insert(c, Cell::spec_spawn_dead(c))
    }
}

/// Lazy-creation idempotence: creating a dead cell twice at the same absent
/// coordinate is the same as creating it once — the grid gains exactly one
/// entry for that coordinate, dead both times.
pub proof fn lemma_lazy_insert_idempotent(m: Map<Coord, Cell>, c: Coord)
    ensures
        lazy_insert(lazy_insert(m, c), c) == lazy_insert(m, c),
        lazy_insert(m, c).contains_key(c),
        !m.contains_key(c) ==> lazy_insert(m, c).dom() =~= m.dom().insert(c),
        !m.contains_key(c) ==> lazy_insert(m, c)[c].mortal_state == 0,
        lazy_insert(lazy_insert(m, c), c)[c] == lazy_insert(m, c)[c],
{
}

/// Removing through the key encoding commutes with removing in the
/// coordinate-keyed reading.
proof fn lemma_view_of_remove(m: Map<u64, Cell>, c: Coord)
    ensures
        view_of(m.remove(coord_key(c))) =~= view_of(m).remove(c),
{
    assert forall|c2: Coord| c2 != c implies coord_key(c2) != coord_key(c) by {
        lemma_coord_key_injective(c2, c);
    }
}

/// The sparse grid store.
pub struct Grid {
    cells: HashMap<u64, Cell>,
    coords: Vec<Coord>,
}

impl View for Grid {
    type V = Map<Coord, Cell>;

    closed spec fn view(&self) -> Map<Coord, Cell> {
        view_of(self.cells@)
    }
}

impl Grid {
    /// The coordinates ever touched, in insertion order, each exactly once.
    pub closed spec fn coord_seq(&self) -> Seq<Coord> {
        self.coords@
    }

    /// Well-formedness: cells sit under their own key, fields are in range,
    /// coordinates are scannable, and the coordinate list names the domain
    /// exactly, without duplicates.
    pub closed spec fn wf(&self) -> bool {
        &&& forall|k: u64| #[trigger] self.cells@.contains_key(k) ==> {
            &&& coord_key(self.cells@[k].position) == k
            &&& self.cells@[k].bounded()
            &&& self.cells@[k].position.in_scan_bounds()
        }
        &&& self.coords@.no_duplicates()
        &&& forall|i: int|
            0 <= i < self.coords@.len() ==> self.cells@.contains_key(
                coord_key(#[trigger] self.coords@[i]),
            )
        &&& forall|k: u64| #[trigger] self.cells@.contains_key(k) ==> self.coords@.contains(
            self.cells@[k].position,
        )
    }

    /// What well-formedness says of one present entry, in terms of the
    /// abstract map: the cell knows its own coordinate, its fields are in
    /// the conventional ranges, and its neighborhood can be scanned.
    pub proof fn lemma_wf_cell(&self, c: Coord)
        requires
            self.wf(),
            self@.contains_key(c),
        ensures
            self@[c].position == c,
            self@[c].bounded(),
            c.in_scan_bounds(),
    {
        lemma_coord_key_injective(self@[c].position, c);
    }

    /// Well-formedness makes the coordinate list an exact census of the
    /// abstract map's domain.
    pub proof fn lemma_coords_exact(&self)
        requires
            self.wf(),
        ensures
            self.coord_seq().no_duplicates(),
            forall|c: Coord| self@.contains_key(c) <==> #[trigger] self.coord_seq().contains(c),
            self@.dom().finite(),
            self@.dom().len() == self.coord_seq().len(),
    {
        assert forall|c: Coord| self@.contains_key(c) <==> #[trigger] self.coord_seq().contains(
            c,
        ) by {
            if self@.contains_key(c) {
                lemma_coord_key_injective(self.cells@[coord_key(c)].position, c);
            }
            if self.coord_seq().contains(c) {
                let i = choose|i: int|
                    0 <= i < self.coords@.len() && self.coords@[i] == c;
                assert(self.cells@.contains_key(coord_key(self.coords@[i])));
            }
        }
        self.coords@.unique_seq_to_set();
        assert(self@.dom() =~= self.coords@.to_set());
    }

    /// Builds an empty grid.
    pub fn new() -> (g: Grid)
        ensures
            g.wf(),
            g@ == Map::<Coord, Cell>::empty(),
            g.coord_seq() == Seq::<Coord>::empty(),
    {
        let g = Grid { cells: HashMap::new(), coords: Vec::new() };
        proof {
            assert(g@ =~= Map::<Coord, Cell>::empty());
        }
        g
    }

    /// How many cells the grid holds.
    pub fn len(&self) -> (n: usize)
        ensures
            n == self.coord_seq().len(),
    {
        self.coords.len()
    }

    /// The coordinate at position `i` of the iteration order.
    pub fn coord_at(&self, i: usize) -> (c: Coord)
        requires
            i < self.coord_seq().len(),
        ensures
            c == self.coord_seq()[i as int],
    {
        self.coords[i]
    }

    /// Read-only lookup; no side effect.
    pub fn get(&self, c: Coord) -> (r: Option<Cell>)
        ensures
            match r {
                Some(cell) => self@.contains_key(c) && cell == self@[c],
                None => !self@.contains_key(c),
            },
    {
        let k = c.key();
        match self.cells.get(&k) {
            Some(cell) => Some(*cell),
            None => None,
        }
    }

    /// The lazy-growth primitive: returns the existing cell, or inserts and
    /// returns a fresh dead cell if the coordinate is absent. Calling it
    /// twice on an absent coordinate creates exactly one entry: the second
    /// call finds the first's cell and changes nothing.
    pub fn get_or_create_dead(&mut self, c: Coord) -> (cell: Cell)
        requires
            old(self).wf(),
            c.in_scan_bounds(),
        ensures
            final(self).wf(),
            final(self)@ == lazy_insert(old(self)@, c),
            final(self)@.contains_key(c),
            cell == final(self)@[c],
            old(self)@.contains_key(c) ==> {
                &&& final(self)@ == old(self)@
                &&& final(self).coord_seq() == old(self).coord_seq()
                &&& cell == old(self)@[c]
            },
            !old(self)@.contains_key(c) ==> {
                &&& final(self)@ == old(self)@.insert(c, Cell::spec_spawn_dead(c))
                &&& final(self).coord_seq() == old(self).coord_seq().push(c)
                &&& cell == Cell::spec_spawn_dead(c)
            },
    {
        let k = c.key();
        match self.cells.get(&k) {
            Some(cell) => {
                proof {
                    lemma_coord_key_injective(self.cells@[k].position, c);
                }
                *cell
            },
            None => {
                let cell = Cell::spawn_dead(c);
                self.cells.insert(k, cell);
                self.coords.push(c);
                proof {
                    lemma_view_of_insert(old(self).cells@, c, cell);
                    assert forall|k2: u64| #[trigger] self.cells@.contains_key(k2) implies {
                        &&& coord_key(self.cells@[k2].position) == k2
                        &&& self.cells@[k2].bounded()
                        &&& self.cells@[k2].position.in_scan_bounds()
                        &&& self.coords@.contains(self.cells@[k2].position)
                    } by {
                        if k2 != k {
                            assert(old(self).cells@.contains_key(k2));
                            let p = old(self).cells@[k2].position;
                            let j = choose|j: int|
                                0 <= j < old(self).coords@.len() && old(self).coords@[j] == p;
                            assert(self.coords@[j] == p);
                        } else {
                            assert(self.coords@[self.coords@.len() - 1] == c);
                        }
                    }
                    assert forall|i: int| 0 <= i < self.coords@.len() implies self.cells@.contains_key(
                        coord_key(#[trigger] self.coords@[i]),
                    ) by {
                        if i < old(self).coords@.len() {
                            assert(old(self).cells@.contains_key(coord_key(old(self).coords@[i])));
                        }
                    }
                    if old(self).coords@.contains(c) {
                        let i = choose|i: int|
                            0 <= i < old(self).coords@.len() && old(self).coords@[i] == c;
                        assert(old(self).cells@.contains_key(coord_key(old(self).coords@[i])));
                    }
                }
                cell
            },
        }
    }

    /// Updates the vitality of an existing cell; fails with `NotFound` and
    /// leaves the grid untouched if the coordinate is absent.
    pub fn set_vitality(&mut self, c: Coord, value: u32) -> (r: Result<(), GridError>)
        requires
            old(self).wf(),
            value <= VITALITY_SCALE,
        ensures
            final(self).wf(),
            final(self).coord_seq() == old(self).coord_seq(),
            match r {
                Ok(u) => {
                    &&& old(self)@.contains_key(c)
                    &&& final(self)@ == old(self)@.insert(
                        c,
                        Cell { mortal_state: value, ..old(self)@[c] },
                    )
                },
                Err(e) => {
                    &&& e == GridError::NotFound
                    &&& !old(self)@.contains_key(c)
                    &&& final(self)@ == old(self)@
                },
            },
    {
        let k = c.key();
        match self.cells.get(&k) {
            Some(cell) => {
                let mut updated = *cell;
                updated.mortal_update(value);
                proof {
                    lemma_coord_key_injective(self.cells@[k].position, c);
                }
                self.cells.insert(k, updated);
                proof {
                    lemma_view_of_insert(old(self).cells@, c, updated);
                    self.lemma_set_preserves_wf(old(self), c, updated);
                }
                Ok(())
            },
            None => Err(GridError::NotFound),
        }
    }

    /// Updates the cached neighbor aggregate of an existing cell; fails with
    /// `NotFound` and leaves the grid untouched if the coordinate is absent.
    pub fn set_aggregate(&mut self, c: Coord, value: u32) -> (r: Result<(), GridError>)
        requires
            old(self).wf(),
            value <= AGGREGATE_CAP,
        ensures
            final(self).wf(),
            final(self).coord_seq() == old(self).coord_seq(),
            match r {
                Ok(u) => {
                    &&& old(self)@.contains_key(c)
                    &&& final(self)@ == old(self)@.insert(
                        c,
                        Cell { live_neighbors: value, ..old(self)@[c] },
                    )
                },
                Err(e) => {
                    &&& e == GridError::NotFound
                    &&& !old(self)@.contains_key(c)
                    &&& final(self)@ == old(self)@
                },
            },
    {
        let k = c.key();
        match self.cells.get(&k) {
            Some(cell) => {
                let mut updated = *cell;
                updated.neighborhood_update(value);
                proof {
                    lemma_coord_key_injective(self.cells@[k].position, c);
                }
                self.cells.insert(k, updated);
                proof {
                    lemma_view_of_insert(old(self).cells@, c, updated);
                    self.lemma_set_preserves_wf(old(self), c, updated);
                }
                Ok(())
            },
            None => Err(GridError::NotFound),
        }
    }

    /// Overwriting a present coordinate with an in-range cell that keeps its
    /// position preserves well-formedness and the coordinate list.
    proof fn lemma_set_preserves_wf(&self, pre: &Grid, c: Coord, v: Cell)
        requires
            pre.wf(),
            pre.cells@.contains_key(coord_key(c)),
            v.position == pre.cells@[coord_key(c)].position,
            v.bounded(),
            self.cells@ == pre.cells@.insert(coord_key(c), v),
            self.coords@ == pre.coords@,
        ensures
            self.wf(),
    {
        let k = coord_key(c);
        assert forall|k2: u64| #[trigger] self.cells@.contains_key(k2) implies {
            &&& coord_key(self.cells@[k2].position) == k2
            &&& self.cells@[k2].bounded()
            &&& self.cells@[k2].position.in_scan_bounds()
            &&& self.coords@.contains(self.cells@[k2].position)
        } by {
            assert(pre.cells@.contains_key(k2));
        }
    }

    /// The explicit demote-to-absent operation: removes the cell at `c`
    /// from the store and returns it. The core rule never removes cells —
    /// dead cells stay present with vitality zero so they can revive — so
    /// this is the only way an entry ever leaves the grid. Fails with
    /// `NotFound` and leaves the grid untouched if the coordinate is absent.
    pub fn demote(&mut self, c: Coord) -> (r: Result<Cell, GridError>)
        requires
            old(self).wf(),
        ensures
            final(self).wf(),
            match r {
                Ok(cell) => {
                    &&& old(self)@.contains_key(c)
                    &&& cell == old(self)@[c]
                    &&& final(self)@ == old(self)@.remove(c)
                },
                Err(e) => {
                    &&& e == GridError::NotFound
                    &&& !old(self)@.contains_key(c)
                    &&& final(self)@ == old(self)@
                    &&& final(self).coord_seq() == old(self).coord_seq()
                },
            },
    {
        let k = c.key();
        match self.cells.remove(&k) {
            Some(cell) => {
                proof {
                    lemma_coord_key_injective(old(self).cells@[k].position, c);
                    old(self).lemma_coords_exact();
                    assert(old(self).coords@.contains(c));
                }
                let ghost idx = choose|j: int|
                    0 <= j < old(self).coords@.len() && old(self).coords@[j] == c;
                let mut i: usize = 0;
                while i < self.coords.len() && !(self.coords[i].x == c.x && self.coords[i].y == c.y)
                    invariant
                        self.coords@ == old(self).coords@,
                        0 <= idx < self.coords@.len(),
                        self.coords@[idx] == c,
                        i <= idx,
                        forall|j: int| 0 <= j < i ==> self.coords@[j] != c,
                    decreases self.coords@.len() - i,
                {
                    i = i + 1;
                }
                proof {
                    assert(i <= idx);
                    assert(self.coords@[i as int] == c);
                }
                self.coords.remove(i);
                proof {
                    self.lemma_demote_wf(old(self), c, i as int);
                    lemma_view_of_remove(old(self).cells@, c);
                }
                Ok(cell)
            },
            None => Err(GridError::NotFound),
        }
    }

    /// Removing a present coordinate from both the cell map and the
    /// coordinate list preserves well-formedness.
    proof fn lemma_demote_wf(&self, pre: &Grid, c: Coord, i: int)
        requires
            pre.wf(),
            pre.cells@.contains_key(coord_key(c)),
            0 <= i < pre.coords@.len(),
            pre.coords@[i] == c,
            self.cells@ == pre.cells@.remove(coord_key(c)),
            self.coords@ == pre.coords@.remove(i),
        ensures
            self.wf(),
    {
        let k = coord_key(c);
        pre.coords@.remove_ensures(i);
        assert forall|p: int, q: int| 0 <= p < q < self.coords@.len() implies self.coords@[p]
            != self.coords@[q] by {
            let p0 = if p < i { p } else { p + 1 };
            let q0 = if q < i { q } else { q + 1 };
            assert(self.coords@[p] == pre.coords@[p0]);
            assert(self.coords@[q] == pre.coords@[q0]);
        }
        assert forall|j: int| 0 <= j < self.coords@.len() implies self.cells@.contains_key(
            coord_key(#[trigger] self.coords@[j]),
        ) by {
            let j0 = if j < i { j } else { j + 1 };
            assert(self.coords@[j] == pre.coords@[j0]);
            assert(pre.cells@.contains_key(coord_key(pre.coords@[j0])));
            assert(pre.coords@[j0] != c);
            lemma_coord_key_injective(pre.coords@[j0], c);
        }
        assert forall|k2: u64| #[trigger] self.cells@.contains_key(k2) implies {
            &&& coord_key(self.cells@[k2].position) == k2
            &&& self.cells@[k2].bounded()
            &&& self.cells@[k2].position.in_scan_bounds()
            &&& self.coords@.contains(self.cells@[k2].position)
        } by {
            assert(pre.cells@.contains_key(k2));
            let p = pre.cells@[k2].position;
            let j0 = choose|j0: int| 0 <= j0 < pre.coords@.len() && pre.coords@[j0] == p;
            assert(p != c) by {
                lemma_coord_key_injective(p, c);
            }
            assert(j0 != i);
            if j0 < i {
                assert(self.coords@[j0] == p);
            } else {
                assert(self.coords@[j0 - 1] == pre.coords@[j0]);
            }
        }
    }

    /// A read-only snapshot of every grid entry, in iteration order: what
    /// the display layer renders. The grid itself is inert with respect to
    /// display; it only hands out copies.
    pub fn snapshot(&self) -> (r: Vec<Cell>)
        requires
            self.wf(),
        ensures
            r@.len() == self.coord_seq().len(),
            forall|i: int|
                0 <= i < r@.len() ==> #[trigger] r@[i] == self@[self.coord_seq()[i]],
    {
        let n = self.coords.len();
        let mut r: Vec<Cell> = Vec::new();
        let mut i: usize = 0;
        while i < n
            invariant
                n == self.coord_seq().len(),
                self.wf(),
                i <= n,
                r@.len() == i,
                forall|j: int|
                    0 <= j < i ==> #[trigger] r@[j] == self@[self.coord_seq()[j]],
            decreases n - i,
        {
            let c = self.coords[i];
            proof {
                assert(self.cells@.contains_key(coord_key(self.coords@[i as int])));
            }
            match self.get(c) {
                Some(cell) => { r.push(cell) },
                None => {
                    proof {
                        assert(false);
                    }
                },
            }
            i = i + 1;
        }
        r
    }
}

} // verus!
