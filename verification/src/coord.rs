//! Lattice coordinates and neighbor-offset sets.
//!
//! A coordinate is a pair of signed integers, always a multiple of the fixed
//! cell width in the intended use, though the store does not depend on that.
//! Coordinates are the unique keys of the sparse grid; to let the grid sit in
//! a hash map with an integer key, each coordinate is packed into a `u64`, and
//! the packing is proved injective.

use vstd::prelude::*;

verus! {

/// The lattice step between a cell and its direct neighbor.
pub const CELL_WIDTH: i32 = 20;

/// An integer 2-D coordinate identifying one lattice cell.
#[derive(Clone, Copy, Debug, PartialEq, Eq, Structural, Hash)]
pub struct Coord {
    pub x: i32,
    pub y: i32,
}

/// The packed `u64` key of a coordinate, as a mathematical integer:
/// the `x` offset from `i32::MIN` in the high 32 bits, the `y` offset in the
/// low 32 bits.
pub open spec fn coord_key_int(c: Coord) -> int {
    (c.x - i32::MIN) * 0x1_0000_0000 + (c.y - i32::MIN)
}

/// The packed `u64` key of a coordinate.
pub open spec fn coord_key(c: Coord) -> u64 {
    coord_key_int(c) as u64
}

/// The packed key fits in a `u64`.
pub proof fn lemma_coord_key_in_range(c: Coord)
    ensures
        0 <= coord_key_int(c) < 0x1_0000_0000_0000_0000,
        coord_key(c) == coord_key_int(c),
{
}

/// Distinct coordinates pack to distinct keys.
pub proof fn lemma_coord_key_injective(a: Coord, b: Coord)
    ensures
        coord_key(a) == coord_key(b) ==> a == b,
{
    lemma_coord_key_in_range(a);
    lemma_coord_key_in_range(b);
}

impl Coord {
    /// Builds the coordinate `(x, y)`.
    pub fn new(x: i32, y: i32) -> (c: Coord)
        ensures
            c == (Coord { x, y }),
    {
        Coord { x, y }
    }

    /// Packs the coordinate into its `u64` grid key.
    pub fn key(&self) -> (k: u64)
        ensures
            k == coord_key(*self),
    {
        let xo: u64 = ((self.x as i64) - (i32::MIN as i64)) as u64;
        let yo: u64 = ((self.y as i64) - (i32::MIN as i64)) as u64;
        xo * 0x1_0000_0000 + yo
    }

    /// Whether both components can be shifted by `t` without leaving `i32`.
    pub open spec fn can_shift(self, t: (i32, i32)) -> bool {
        i32::MIN <= self.x + t.0 <= i32::MAX && i32::MIN <= self.y + t.1 <= i32::MAX
    }

    /// The coordinate shifted by the offset `t`.
    pub open spec fn shifted(self, t: (i32, i32)) -> Coord {
        Coord { x: (self.x + t.0) as i32, y: (self.y + t.1) as i32 }
    }

    /// Shifts the coordinate by the offset tuple `t`.
    pub fn add_tuple(&self, t: (i32, i32)) -> (r: Coord)
        requires
            self.can_shift(t),
        ensures
            r == self.shifted(t),
    {
        Coord { x: self.x + t.0, y: self.y + t.1 }
    }

    /// Whether every offset of one cell width stays inside `i32`, so that a
    /// neighborhood scan around this coordinate cannot overflow.
    pub open spec fn in_scan_bounds(self) -> bool {
        &&& i32::MIN + CELL_WIDTH <= self.x <= i32::MAX - CELL_WIDTH
        &&& i32::MIN + CELL_WIDTH <= self.y <= i32::MAX - CELL_WIDTH
    }

    /// Whether every neighbor of this coordinate is itself within scan
    /// bounds, so that a spawned neighborhood satisfies the grid invariant.
    pub open spec fn in_spawn_bounds(self) -> bool {
        &&& i32::MIN + 2 * CELL_WIDTH <= self.x <= i32::MAX - 2 * CELL_WIDTH
        &&& i32::MIN + 2 * CELL_WIDTH <= self.y <= i32::MAX - 2 * CELL_WIDTH
    }
}

/// Which neighbor-offset set a scan walks: the 4-connected star or the full
/// 8-connected neighborhood, each together with the self offset `(0, 0)`.
#[derive(Clone, Copy, Debug, PartialEq, Eq, Structural)]
pub enum OffsetSet {
    SmallStar,
    FullNeighborhood,
}

/// The offsets of a set, each one lattice step, with the self offset last.
pub open spec fn offset_seq(s: OffsetSet) -> Seq<(i32, i32)> {
    match s {
        OffsetSet::SmallStar => seq![
            (0i32, CELL_WIDTH),
            (CELL_WIDTH, 0i32),
            (0i32, ((-CELL_WIDTH) as i32)),
            (((-CELL_WIDTH) as i32), 0i32),
            (0i32, 0i32),
        ],
        OffsetSet::FullNeighborhood => seq![
            (((-CELL_WIDTH) as i32), CELL_WIDTH),
            (0i32, CELL_WIDTH),
            (CELL_WIDTH, CELL_WIDTH),
            (CELL_WIDTH, 0i32),
            (CELL_WIDTH, ((-CELL_WIDTH) as i32)),
            (0i32, ((-CELL_WIDTH) as i32)),
            (((-CELL_WIDTH) as i32), ((-CELL_WIDTH) as i32)),
            (((-CELL_WIDTH) as i32), 0i32),
            (0i32, 0i32),
        ],
    }
}

/// Whether `t` moves each component by at most one lattice step.
pub open spec fn small_offset(t: (i32, i32)) -> bool {
    -CELL_WIDTH <= t.0 <= CELL_WIDTH && -CELL_WIDTH <= t.1 <= CELL_WIDTH
}

/// Every offset of either set moves by at most one lattice step, the self
/// offset is the last entry of either set, and no offset repeats.
pub proof fn lemma_offset_seq_facts(s: OffsetSet)
    ensures
        forall|i: int|
            0 <= i < offset_seq(s).len() ==> #[trigger] small_offset(offset_seq(s)[i]),
        offset_seq(s).last() == (0i32, 0i32),
        offset_seq(s).no_duplicates(),
{
    assert forall|i: int| 0 <= i < offset_seq(s).len() implies #[trigger] small_offset(
        offset_seq(s)[i],
    ) by {
        match s {
            OffsetSet::SmallStar => {},
            OffsetSet::FullNeighborhood => {},
        }
    }
}

/// Materializes the offsets of `s` in their scan order.
pub fn offsets(s: OffsetSet) -> (v: Vec<(i32, i32)>)
    ensures
        v@ == offset_seq(s),
{
    let mut v: Vec<(i32, i32)> = Vec::new();
    match s {
        OffsetSet::SmallStar => {
            v.push((0, CELL_WIDTH));
            v.push((CELL_WIDTH, 0));
            v.push((0, -CELL_WIDTH));
            v.push((-CELL_WIDTH, 0));
            v.push((0, 0));
        },
        OffsetSet::FullNeighborhood => {
            v.push((-CELL_WIDTH, CELL_WIDTH));
            v.push((0, CELL_WIDTH));
            v.push((CELL_WIDTH, CELL_WIDTH));
            v.push((CELL_WIDTH, 0));
            v.push((CELL_WIDTH, -CELL_WIDTH));
            v.push((0, -CELL_WIDTH));
            v.push((-CELL_WIDTH, -CELL_WIDTH));
            v.push((-CELL_WIDTH, 0));
            v.push((0, 0));
        },
    }
    proof {
        assert(v@ =~= offset_seq(s));
    }
    v
}

/// For a coordinate within spawn bounds, distinct small offsets land on
/// distinct coordinates, and every landing spot is within scan bounds.
pub proof fn lemma_shifted_injective(c: Coord, t1: (i32, i32), t2: (i32, i32))
    requires
        c.in_spawn_bounds(),
        small_offset(t1),
        small_offset(t2),
    ensures
        c.can_shift(t1),
        c.shifted(t1).in_scan_bounds(),
        t1 != t2 ==> c.shifted(t1) != c.shifted(t2),
{
}

} // verus!
