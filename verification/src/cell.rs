//! A single lattice entry: its vitality, its own coordinate, and the cached
//! neighbor aggregate from the last aggregation pass.
//!
//! Vitality is a fixed-point intensity: `VITALITY_SCALE` milli-units stand for
//! full intensity 1.0, and 0 means dead/inert. Any nonzero value is "alive"
//! with that intensity. The cached aggregate is a sum of at most nine such
//! intensities, so it never exceeds [`AGGREGATE_CAP`].

use crate::coord::Coord;
use vstd::prelude::*;

verus! {

/// The fixed-point unit: this many milli-units stand for intensity 1.0.
pub const VITALITY_SCALE: u32 = 1000;

/// The largest cached neighbor aggregate: nine neighbors at full intensity.
pub const AGGREGATE_CAP: u32 = 9 * VITALITY_SCALE;

/// One lattice cell. `mortal_state` is the vitality in milli-units;
/// `live_neighbors` caches the neighborhood aggregate from the last
/// aggregation pass, also in milli-units.
#[derive(Clone, Copy, Debug, PartialEq, Eq, Structural)]
pub struct Cell {
    pub mortal_state: u32,
    pub position: Coord,
    pub live_neighbors: u32,
}

impl Cell {
    /// Whether the cell's fields lie in the conventional fixed-point ranges:
    /// vitality at most 1.0, aggregate at most nine full neighbors.
    pub open spec fn bounded(self) -> bool {
        self.mortal_state <= VITALITY_SCALE && self.live_neighbors <= AGGREGATE_CAP
    }

    /// Builds a cell from all three fields.
    pub fn new(mortal_state: u32, position: Coord, live_neighbors: u32) -> (c: Cell)
        ensures
            c == (Cell { mortal_state, position, live_neighbors }),
    {
        Cell { mortal_state, position, live_neighbors }
    }

    /// The cell a live seed starts as: full vitality, empty aggregate cache.
    pub open spec fn spec_spawn_live(position: Coord) -> Cell {
        Cell { mortal_state: VITALITY_SCALE, position, live_neighbors: 0 }
    }

    /// Builds a live seed cell at `position`.
    pub fn spawn_live(position: Coord) -> (c: Cell)
        ensures
            c == Cell::spec_spawn_live(position),
    {
        Cell { mortal_state: VITALITY_SCALE, position, live_neighbors: 0 }
    }

    /// The cell a lazily created placeholder starts as: dead, empty cache.
    pub open spec fn spec_spawn_dead(position: Coord) -> Cell {
        Cell { mortal_state: 0, position, live_neighbors: 0 }
    }

    /// Builds a dead placeholder cell at `position`.
    pub fn spawn_dead(position: Coord) -> (c: Cell)
        ensures
            c == Cell::spec_spawn_dead(position),
    {
        Cell { mortal_state: 0, position, live_neighbors: 0 }
    }

    /// Overwrites the vitality, leaving position and cache untouched.
    pub fn mortal_update(&mut self, mortal_state: u32)
        ensures
            *final(self) == (Cell { mortal_state, ..*old(self) }),
    {
        self.mortal_state = mortal_state;
    }

    /// Overwrites the cached neighbor aggregate, leaving the rest untouched.
    pub fn neighborhood_update(&mut self, neighbors: u32)
        ensures
            *final(self) == (Cell { live_neighbors: neighbors, ..*old(self) }),
    {
        self.live_neighbors = neighbors;
    }

    /// Whether the cell is dead (vitality exactly zero).
    pub fn is_dead(&self) -> (r: bool)
        ensures
            r == (self.mortal_state == 0),
    {
        self.mortal_state == 0
    }

    /// Whether the cell is alive (any nonzero vitality).
    pub fn is_alive(&self) -> (r: bool)
        ensures
            r == (self.mortal_state != 0),
    {
        self.mortal_state != 0
    }
}

} // verus!
