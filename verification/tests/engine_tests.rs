//! End-to-end scenarios for the simulation engine: lazy growth, the two
//! tick passes, both rule variants, and spawn/intent handling.

use vitagrid::cell::{Cell, VITALITY_SCALE};
use vitagrid::config::Config;
use vitagrid::coord::{Coord, OffsetSet, CELL_WIDTH};
use vitagrid::engine::Simulation;
use vitagrid::grid::Grid;
use vitagrid::rules::{discrete_transition, smoothed_transition, RuleKind};

fn lattice(x: i32, y: i32) -> Coord {
    Coord::new(x * CELL_WIDTH, y * CELL_WIDTH)
}

fn discrete_full() -> Config {
    Config::new(OffsetSet::FullNeighborhood, RuleKind::Discrete, false)
}

fn smoothed_full() -> Config {
    Config::new(OffsetSet::FullNeighborhood, RuleKind::Smoothed, false)
}

fn live_set(sim: &Simulation) -> Vec<(i32, i32)> {
    let mut live: Vec<(i32, i32)> = Vec::new();
    for cell in sim.snapshot() {
        if cell.mortal_state != 0 {
            live.push((cell.position.x / CELL_WIDTH, cell.position.y / CELL_WIDTH));
        }
    }
    live.sort();
    live
}

#[test]
fn lazy_creation_idempotent() {
    let mut grid = Grid::new();
    let c = lattice(3, -2);
    let first = grid.get_or_create_dead(c);
    assert_eq!(first.mortal_state, 0);
    assert_eq!(grid.len(), 1);
    let second = grid.get_or_create_dead(c);
    assert_eq!(second.mortal_state, 0);
    assert_eq!(grid.len(), 1);
    assert_eq!(second.position, c);
}

#[test]
fn aggregation_reads_pre_tick_row() {
    // A 3-cell row with vitalities [1.0, 0.0, 1.0] under the small star:
    // the middle cell's aggregate must come from the original values.
    let mut sim = Simulation::new(Config::new(OffsetSet::SmallStar, RuleKind::Smoothed, false));
    sim.spawn_intent(lattice(-1, 0));
    sim.spawn_intent(lattice(1, 0));
    // The middle cell exists (spawned as a dead neighbor) with vitality 0.
    let middle = sim.get(lattice(0, 0)).expect("middle cell present");
    assert_eq!(middle.mortal_state, 0);
    sim.step();
    let middle = sim.get(lattice(0, 0)).expect("middle cell present");
    // Exactly the two original full neighbors, never a value written by the
    // same tick: 2.0 in milli-units.
    assert_eq!(middle.live_neighbors, 2 * VITALITY_SCALE);
    let left = sim.get(lattice(-1, 0)).expect("left cell present");
    // The left end sees only the originally dead middle cell.
    assert_eq!(left.live_neighbors, 0);
}

#[test]
fn discrete_rule_counts() {
    // Live cell: survives on 2 or 3 live neighbors, dies otherwise.
    assert_eq!(discrete_transition(VITALITY_SCALE, 2 * VITALITY_SCALE), VITALITY_SCALE);
    assert_eq!(discrete_transition(VITALITY_SCALE, 3 * VITALITY_SCALE), VITALITY_SCALE);
    assert_eq!(discrete_transition(VITALITY_SCALE, 0), 0);
    assert_eq!(discrete_transition(VITALITY_SCALE, VITALITY_SCALE), 0);
    assert_eq!(discrete_transition(VITALITY_SCALE, 4 * VITALITY_SCALE), 0);
    assert_eq!(discrete_transition(VITALITY_SCALE, 8 * VITALITY_SCALE), 0);
    // Dead cell: born exactly on 3.
    assert_eq!(discrete_transition(0, 3 * VITALITY_SCALE), VITALITY_SCALE);
    assert_eq!(discrete_transition(0, 2 * VITALITY_SCALE), 0);
    assert_eq!(discrete_transition(0, 4 * VITALITY_SCALE), 0);
}

#[test]
fn glider_four_step_cycle() {
    let mut sim = Simulation::new(discrete_full());
    // Materialize a dead region wide enough for the glider's path.
    for x in -1..=4 {
        for y in -1..=4 {
            sim.spawn_dead_region(lattice(x, y));
        }
    }
    let gen0 = [(1, 0), (2, 1), (0, 2), (1, 2), (2, 2)];
    for (x, y) in gen0 {
        sim.spawn_intent(lattice(x, y));
    }
    let mut expected0: Vec<(i32, i32)> = gen0.to_vec();
    expected0.sort();
    assert_eq!(live_set(&sim), expected0);

    let steps: [Vec<(i32, i32)>; 4] = [
        vec![(0, 1), (2, 1), (1, 2), (2, 2), (1, 3)],
        vec![(2, 1), (0, 2), (2, 2), (1, 3), (2, 3)],
        vec![(1, 1), (2, 2), (3, 2), (1, 3), (2, 3)],
        vec![(2, 1), (3, 2), (1, 3), (2, 3), (3, 3)],
    ];
    for expected in steps {
        sim.step();
        let mut expected = expected;
        expected.sort();
        assert_eq!(live_set(&sim), expected);
    }
    // The canonical cycle: after 4 steps the glider is the original set
    // translated by one lattice step diagonally.
    let mut translated: Vec<(i32, i32)> = gen0.iter().map(|&(x, y)| (x + 1, y + 1)).collect();
    translated.sort();
    assert_eq!(live_set(&sim), translated);
}

#[test]
fn smoothed_rule_boundary_values() {
    // ratio = 0.10 (growth band): 0.10 + 0.10 * 0.1 == 0.11.
    assert_eq!(smoothed_transition(800), 110);
    // ratio = 0.20 (decay band): 0.20 - 0.20 * 0.3 == 0.14.
    assert_eq!(smoothed_transition(1600), 140);
    // ratio = 0.05 (pass-through): exactly 0.05.
    assert_eq!(smoothed_transition(400), 50);
}

#[test]
fn smoothed_step_through_grid() {
    // One live cell beside the target: aggregate 1.0, ratio 0.125 lies in
    // the growth band, so the new vitality is 125 + 12 milli-units.
    let mut sim = Simulation::new(smoothed_full());
    sim.spawn_intent(lattice(0, 0));
    sim.step();
    let target = sim.get(lattice(1, 0)).expect("neighbor present");
    assert_eq!(target.live_neighbors, VITALITY_SCALE);
    assert_eq!(target.mortal_state, 137);
}

#[test]
fn spawn_surrounds_with_dead_border() {
    let mut sim = Simulation::new(discrete_full());
    sim.spawn_intent(lattice(0, 0));
    assert_eq!(sim.cell_count(), 9);
    let mut live = 0;
    let mut dead = 0;
    for cell in sim.snapshot() {
        if cell.mortal_state == 0 {
            dead += 1;
        } else {
            live += 1;
            assert_eq!(cell.position, lattice(0, 0));
            assert_eq!(cell.mortal_state, VITALITY_SCALE);
        }
    }
    assert_eq!(live, 1);
    assert_eq!(dead, 8);
}

#[test]
fn spawn_small_star_creates_five() {
    let mut sim = Simulation::new(Config::new(OffsetSet::SmallStar, RuleKind::Discrete, false));
    sim.spawn_intent(lattice(0, 0));
    assert_eq!(sim.cell_count(), 5);
}

#[test]
fn idempotent_re_click() {
    let mut sim = Simulation::new(discrete_full());
    sim.spawn_intent(lattice(0, 0));
    assert_eq!(sim.cell_count(), 9);
    sim.spawn_intent(lattice(0, 0));
    assert_eq!(sim.cell_count(), 9);
    let target = sim.get(lattice(0, 0)).expect("target present");
    assert_eq!(target.mortal_state, VITALITY_SCALE);
}

#[test]
fn include_self_counts_own_vitality() {
    // With self-inclusion on, a lone live cell's aggregate contains its own
    // former vitality.
    let mut with_self = Simulation::new(Config::new(
        OffsetSet::FullNeighborhood,
        RuleKind::Smoothed,
        true,
    ));
    with_self.spawn_intent(lattice(0, 0));
    with_self.step();
    let cell = with_self.get(lattice(0, 0)).expect("present");
    assert_eq!(cell.live_neighbors, VITALITY_SCALE);

    let mut without = Simulation::new(smoothed_full());
    without.spawn_intent(lattice(0, 0));
    without.step();
    let cell = without.get(lattice(0, 0)).expect("present");
    assert_eq!(cell.live_neighbors, 0);
}

#[test]
fn scanning_never_grows_the_grid() {
    let mut sim = Simulation::new(discrete_full());
    sim.spawn_intent(lattice(0, 0));
    let before = sim.cell_count();
    sim.step();
    sim.step();
    assert_eq!(sim.cell_count(), before);
}

#[test]
fn cell_constructors_and_queries() {
    let c = Coord::new(40, -20);
    let live = Cell::spawn_live(c);
    assert_eq!(live.mortal_state, VITALITY_SCALE);
    assert_eq!(live.position, c);
    assert_eq!(live.live_neighbors, 0);
    assert!(live.is_alive());
    assert!(!live.is_dead());
    let dead = Cell::spawn_dead(c);
    assert_eq!(dead.mortal_state, 0);
    assert!(dead.is_dead());
    let mut cell = Cell::new(250, c, 700);
    assert!(cell.is_alive());
    cell.mortal_update(0);
    assert!(cell.is_dead());
    cell.neighborhood_update(1234);
    assert_eq!(cell.live_neighbors, 1234);
    assert_eq!(cell.position, c);
}

#[test]
fn add_tuple_shifts_coordinates() {
    let c = Coord::new(100, -60);
    let shifted = c.add_tuple((CELL_WIDTH, -CELL_WIDTH));
    assert_eq!(shifted, Coord::new(120, -80));
    let same = c.add_tuple((0, 0));
    assert_eq!(same, c);
}
