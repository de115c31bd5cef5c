//! The sparse grid store's contract on its own: lookups, guarded mutation,
//! the error taxonomy, and configuration parsing.

use vitagrid::cell::VITALITY_SCALE;
use vitagrid::config::config_from_names;
use vitagrid::coord::{Coord, OffsetSet};
use vitagrid::grid::Grid;
use vitagrid::rules::RuleKind;
use vitagrid::GridError;

#[test]
fn get_on_empty_grid() {
    let grid = Grid::new();
    assert_eq!(grid.len(), 0);
    assert!(grid.get(Coord::new(0, 0)).is_none());
}

#[test]
fn set_vitality_requires_existing_cell() {
    let mut grid = Grid::new();
    let c = Coord::new(20, 20);
    assert_eq!(grid.set_vitality(c, VITALITY_SCALE), Err(GridError::NotFound));
    grid.get_or_create_dead(c);
    assert_eq!(grid.set_vitality(c, 450), Ok(()));
    let cell = grid.get(c).expect("present after creation");
    assert_eq!(cell.mortal_state, 450);
    assert_eq!(cell.position, c);
}

#[test]
fn set_aggregate_requires_existing_cell() {
    let mut grid = Grid::new();
    let c = Coord::new(-40, 0);
    assert_eq!(grid.set_aggregate(c, 3000), Err(GridError::NotFound));
    grid.get_or_create_dead(c);
    assert_eq!(grid.set_aggregate(c, 3000), Ok(()));
    let cell = grid.get(c).expect("present after creation");
    assert_eq!(cell.live_neighbors, 3000);
    assert_eq!(cell.mortal_state, 0);
}

#[test]
fn get_or_create_keeps_existing_vitality() {
    let mut grid = Grid::new();
    let c = Coord::new(0, 60);
    grid.get_or_create_dead(c);
    grid.set_vitality(c, 800).expect("present");
    let again = grid.get_or_create_dead(c);
    assert_eq!(again.mortal_state, 800);
    assert_eq!(grid.len(), 1);
}

#[test]
fn snapshot_lists_every_entry() {
    let mut grid = Grid::new();
    let coords = [Coord::new(0, 0), Coord::new(20, 0), Coord::new(0, -20)];
    for c in coords {
        grid.get_or_create_dead(c);
    }
    let snap = grid.snapshot();
    assert_eq!(snap.len(), 3);
    for (i, cell) in snap.iter().enumerate() {
        assert_eq!(cell.position, coords[i]);
        assert_eq!(cell.mortal_state, 0);
    }
}

#[test]
fn demote_removes_single_entry() {
    let mut grid = Grid::new();
    let c = Coord::new(0, 0);
    let d = Coord::new(20, 0);
    grid.get_or_create_dead(c);
    grid.get_or_create_dead(d);
    grid.set_vitality(c, 600).expect("present");
    let removed = grid.demote(c).expect("present");
    assert_eq!(removed.mortal_state, 600);
    assert_eq!(grid.len(), 1);
    assert!(grid.get(c).is_none());
    assert!(grid.get(d).is_some());
    assert_eq!(grid.demote(c), Err(GridError::NotFound));
}

#[test]
fn config_names_recognized() {
    let cfg = config_from_names("small_star", "discrete", false).expect("recognized");
    assert_eq!(cfg.offset_set, OffsetSet::SmallStar);
    assert_eq!(cfg.rule, RuleKind::Discrete);
    assert!(!cfg.include_self);
    let cfg = config_from_names("full_neighborhood", "smoothed", true).expect("recognized");
    assert_eq!(cfg.offset_set, OffsetSet::FullNeighborhood);
    assert_eq!(cfg.rule, RuleKind::Smoothed);
    assert!(cfg.include_self);
}

#[test]
fn config_names_rejected() {
    assert_eq!(
        config_from_names("diagonal", "discrete", false),
        Err(GridError::InvalidConfiguration)
    );
    assert_eq!(
        config_from_names("small_star", "fuzzy", false),
        Err(GridError::InvalidConfiguration)
    );
    assert_eq!(
        config_from_names("", "", true),
        Err(GridError::InvalidConfiguration)
    );
}
