//! A simulation engine for a cellular automaton over an unbounded 2-D integer
//! lattice. Each cell carries a continuous "vitality" intensity rather than a
//! strict alive/dead bit; vitality is held in fixed-point milli-units, with
//! `cell::VITALITY_SCALE` standing for full intensity 1.0.
//!
//! The engine has three parts: a sparse grid store that lazily materializes
//! cells ([`grid::Grid`]), a neighborhood aggregator that sums neighbor
//! vitalities into a per-cell cache, and a transition engine that maps each
//! cell's cached aggregate to its next vitality under either a discrete
//! Game-of-Life-style rule or a smoothed continuous rule ([`rules`]).

use vstd::prelude::*;

pub mod cell;
pub mod config;
pub mod coord;
pub mod engine;
pub mod grid;
pub mod rules;

verus! {

/// Errors surfaced by the engine: mutating an absent coordinate, or naming an
/// unrecognized configuration option.
#[derive(Clone, Copy, Debug, PartialEq, Eq, Structural)]
pub enum GridError {
    /// A mutation named a coordinate with no cell in the grid store.
    NotFound,
    /// A configuration name did not match any recognized option.
    InvalidConfiguration,
}

} // verus!
