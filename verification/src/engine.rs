//! The neighborhood aggregator, the transition engine's tick passes, and
//! spawn/intent handling.
//!
//! A tick is two whole-grid passes. The aggregation pass reads the pre-tick
//! vitalities and writes each cell's neighbor aggregate into its cache; the
//! transition pass then maps each cached aggregate to a new vitality. The
//! separation is the key correctness invariant: every aggregate is computed
//! from the grid as it stood before the tick, never from a value written
//! earlier in the same pass, so the outcome does not depend on iteration
//! order.
//!
//! The spawn path is the only place cells are created lazily: a user intent
//! at a coordinate materializes the full neighborhood around it as
//! at-least-dead cells and promotes the target itself to live.

use crate::cell::{Cell, VITALITY_SCALE};
use crate::config::Config;
use crate::coord::{lemma_offset_seq_facts, lemma_shifted_injective, offset_seq, offsets,
    small_offset, Coord, OffsetSet};
use crate::grid::{lazy_insert, Grid};
use crate::rules::{apply_rule, lemma_rule_bounded, rule_applied};
use vstd::prelude::*;

verus! {

/// The vitality the aggregator reads at a coordinate: an absent neighbor
/// contributes zero and is not created by scanning.
pub open spec fn vitality_at(m: Map<Coord, Cell>, c: Coord) -> u32 {
    if m.contains_key(c) {
        m[c].mortal_state
    } else {
        0
    }
}

/// Whether an offset takes part in the aggregate: the self offset is
/// skipped unless the configuration includes it.
pub open spec fn counted_offset(t: (i32, i32), include_self: bool) -> bool {
    include_self || t != (0i32, 0i32)
}

/// The sum of the vitalities read through a sequence of offsets from `c`.
pub open spec fn aggregate_over(
    m: Map<Coord, Cell>,
    c: Coord,
    offs: Seq<(i32, i32)>,
    include_self: bool,
) -> int
    decreases offs.len(),
{
    if offs.len() == 0 {
        0
    } else {
        aggregate_over(m, c, offs.drop_last(), include_self) + if counted_offset(
            offs.last(),
            include_self,
        ) {
            vitality_at(m, c.shifted(offs.last())) as int
        } else {
            0
        }
    }
}

/// The neighborhood aggregate of `c` under the configuration's offset set.
pub open spec fn neighbor_aggregate(m: Map<Coord, Cell>, c: Coord, cfg: Config) -> int {
    aggregate_over(m, c, offset_seq(cfg.offset_set), cfg.include_self)
}

/// Whether two abstract grids hold the same coordinates with the same
/// vitalities; the aggregate caches may differ.
pub open spec fn same_vitalities(m1: Map<Coord, Cell>, m2: Map<Coord, Cell>) -> bool {
    &&& forall|c: Coord| #![trigger m1.contains_key(c)] #![trigger m2.contains_key(c)]
        m1.contains_key(c) <==> m2.contains_key(c)
    &&& forall|c: Coord| #[trigger] m1.contains_key(c) ==> m1[c].mortal_state
        == m2[c].mortal_state
}

/// Aggregation reads vitalities alone, so two grids with the same
/// vitalities aggregate alike.
pub proof fn lemma_aggregate_over_same(
    m1: Map<Coord, Cell>,
    m2: Map<Coord, Cell>,
    c: Coord,
    offs: Seq<(i32, i32)>,
    include_self: bool,
)
    requires
        same_vitalities(m1, m2),
    ensures
        aggregate_over(m1, c, offs, include_self) == aggregate_over(m2, c, offs, include_self),
    decreases offs.len(),
{
    if offs.len() > 0 {
        lemma_aggregate_over_same(m1, m2, c, offs.drop_last(), include_self);
    }
}

/// Computes the neighborhood aggregate of one coordinate from the grid as
/// it stands, walking the given offsets. Absent neighbors contribute zero
/// and are not created: the steady-state tick path never grows the grid.
pub fn compute_aggregate(grid: &Grid, c: Coord, offs: &Vec<(i32, i32)>, include_self: bool) -> (agg:
    u32)
    requires
        grid.wf(),
        c.in_scan_bounds(),
        offs@.len() <= 9,
        forall|i: int| 0 <= i < offs@.len() ==> #[trigger] small_offset(offs@[i]),
    ensures
        agg as int == aggregate_over(grid@, c, offs@, include_self),
        agg <= offs@.len() * VITALITY_SCALE,
{
    let n = offs.len();
    let mut agg: u32 = 0;
    let mut j: usize = 0;
    while j < n
        invariant
            grid.wf(),
            c.in_scan_bounds(),
            n == offs@.len(),
            n <= 9,
            forall|i: int| 0 <= i < offs@.len() ==> #[trigger] small_offset(offs@[i]),
            j <= n,
            agg as int == aggregate_over(grid@, c, offs@.take(j as int), include_self),
            agg <= j * VITALITY_SCALE,
        decreases n - j,
    {
        let t = offs[j];
        proof {
            assert(small_offset(offs@[j as int]));
        }
        if include_self || !(t.0 == 0 && t.1 == 0) {
            let neighbor = c.add_tuple(t);
            match grid.get(neighbor) {
                Some(cell) => {
                    proof {
                        grid.lemma_wf_cell(neighbor);
                    }
                    agg = agg + cell.mortal_state;
                },
                None => {},
            }
        }
        proof {
            assert(offs@.take(j + 1).drop_last() =~= offs@.take(j as int));
            assert(offs@.take(j + 1).last() == offs@[j as int]);
        }
        j = j + 1;
    }
    proof {
        assert(offs@.take(n as int) =~= offs@);
    }
    agg
}

/// The aggregation pass: writes into every cell's cache the neighborhood
/// aggregate computed from the grid as it stood when the pass began. It is
/// a pure read pass over the pre-tick vitalities — it changes no vitality
/// and creates no cell — so its outcome does not depend on the order the
/// cells are walked in.
pub fn aggregate_pass(grid: &mut Grid, cfg: &Config)
    requires
        old(grid).wf(),
    ensures
        final(grid).wf(),
        final(grid).coord_seq() == old(grid).coord_seq(),
        forall|c: Coord|
            #![trigger final(grid)@.contains_key(c)]
            #![trigger old(grid)@.contains_key(c)]
            final(grid)@.contains_key(c) <==> old(grid)@.contains_key(c),
        forall|c: Coord| #[trigger] old(grid)@.contains_key(c) ==> {
            &&& final(grid)@[c].position == old(grid)@[c].position
            &&& final(grid)@[c].mortal_state == old(grid)@[c].mortal_state
            &&& final(grid)@[c].live_neighbors as int == neighbor_aggregate(old(grid)@, c, *cfg)
        },
{
    let offs = offsets(cfg.offset_set);
    proof {
        lemma_offset_seq_facts(cfg.offset_set);
    }
    let n = grid.len();
    let mut i: usize = 0;
    while i < n
        invariant
            grid.wf(),
            offs@ == offset_seq(cfg.offset_set),
            offs@.len() <= 9,
            forall|k: int| 0 <= k < offs@.len() ==> #[trigger] small_offset(offs@[k]),
            n == grid.coord_seq().len(),
            grid.coord_seq() == old(grid).coord_seq(),
            i <= n,
            same_vitalities(old(grid)@, grid@),
            forall|c: Coord| #[trigger] old(grid)@.contains_key(c) ==> grid@[c].position == old(
                grid,
            )@[c].position,
            forall|j: int|
                0 <= j < i ==> grid@[#[trigger] grid.coord_seq()[j]].live_neighbors as int
                    == neighbor_aggregate(old(grid)@, grid.coord_seq()[j], *cfg),
        decreases n - i,
    {
        let c = grid.coord_at(i);
        proof {
            assert(grid.coord_seq().contains(c));
            grid.lemma_coords_exact();
            grid.lemma_wf_cell(c);
        }
        let agg = compute_aggregate(grid, c, &offs, cfg.include_self);
        proof {
            lemma_aggregate_over_same(old(grid)@, grid@, c, offs@, cfg.include_self);
        }
        let ghost pre = *grid;
        match grid.set_aggregate(c, agg) {
            Ok(u) => {},
            Err(e) => {
                proof {
                    assert(false);
                }
            },
        }
        proof {
            pre.lemma_coords_exact();
            assert forall|j: int| 0 <= j < i + 1 implies grid@[
                #[trigger] grid.coord_seq()[j]
            ].live_neighbors as int == neighbor_aggregate(old(grid)@, grid.coord_seq()[j], *cfg) by {
                if j < i {
                    assert(pre.coord_seq()[j] != c);
                }
            }
        }
        i = i + 1;
    }
    proof {
        grid.lemma_coords_exact();
        assert forall|c: Coord| #[trigger] old(grid)@.contains_key(c) implies {
            &&& grid@[c].position == old(grid)@[c].position
            &&& grid@[c].mortal_state == old(grid)@[c].mortal_state
            &&& grid@[c].live_neighbors as int == neighbor_aggregate(old(grid)@, c, *cfg)
        } by {
            assert(grid@.contains_key(c));
            assert(grid.coord_seq().contains(c));
            let j = choose|j: int|
                0 <= j < grid.coord_seq().len() && grid.coord_seq()[j] == c;
            assert(grid@[grid.coord_seq()[j]].live_neighbors as int == neighbor_aggregate(
                old(grid)@,
                grid.coord_seq()[j],
                *cfg,
            ));
        }
    }
}

/// The transition pass: maps every cell's cached aggregate through the
/// configured rule and writes the result back as the cell's vitality. It
/// reads only each cell's own fields, so it too is order-independent.
pub fn transition_pass(grid: &mut Grid, cfg: &Config)
    requires
        old(grid).wf(),
    ensures
        final(grid).wf(),
        final(grid).coord_seq() == old(grid).coord_seq(),
        forall|c: Coord|
            #![trigger final(grid)@.contains_key(c)]
            #![trigger old(grid)@.contains_key(c)]
            final(grid)@.contains_key(c) <==> old(grid)@.contains_key(c),
        forall|c: Coord| #[trigger] old(grid)@.contains_key(c) ==> {
            &&& final(grid)@[c].position == old(grid)@[c].position
            &&& final(grid)@[c].live_neighbors == old(grid)@[c].live_neighbors
            &&& final(grid)@[c].mortal_state as int == rule_applied(
                cfg.rule,
                old(grid)@[c].mortal_state,
                old(grid)@[c].live_neighbors,
            )
        },
{
    let n = grid.len();
    let mut i: usize = 0;
    while i < n
        invariant
            grid.wf(),
            n == grid.coord_seq().len(),
            grid.coord_seq() == old(grid).coord_seq(),
            i <= n,
            forall|c: Coord|
                #![trigger grid@.contains_key(c)]
                #![trigger old(grid)@.contains_key(c)]
                grid@.contains_key(c) <==> old(grid)@.contains_key(c),
            forall|c: Coord| #[trigger] old(grid)@.contains_key(c) ==> {
                &&& grid@[c].position == old(grid)@[c].position
                &&& grid@[c].live_neighbors == old(grid)@[c].live_neighbors
            },
            forall|j: int|
                i <= j < n ==> grid@[#[trigger] grid.coord_seq()[j]].mortal_state == old(
                    grid,
                )@[grid.coord_seq()[j]].mortal_state,
            forall|j: int|
                0 <= j < i ==> grid@[#[trigger] grid.coord_seq()[j]].mortal_state as int
                    == rule_applied(
                    cfg.rule,
                    old(grid)@[grid.coord_seq()[j]].mortal_state,
                    old(grid)@[grid.coord_seq()[j]].live_neighbors,
                ),
        decreases n - i,
    {
        let c = grid.coord_at(i);
        proof {
            assert(grid.coord_seq().contains(c));
            grid.lemma_coords_exact();
            grid.lemma_wf_cell(c);
        }
        let cell = match grid.get(c) {
            Some(cell) => cell,
            None => {
                proof {
                    assert(false);
                }
                Cell::spawn_dead(c)
            },
        };
        let newv = apply_rule(cfg.rule, cell.mortal_state, cell.live_neighbors);
        proof {
            lemma_rule_bounded(cfg.rule, cell.mortal_state, cell.live_neighbors);
        }
        let ghost pre = *grid;
        match grid.set_vitality(c, newv) {
            Ok(u) => {},
            Err(e) => {
                proof {
                    assert(false);
                }
            },
        }
        proof {
            pre.lemma_coords_exact();
            assert forall|j: int| 0 <= j < i + 1 implies grid@[
                #[trigger] grid.coord_seq()[j]
            ].mortal_state as int == rule_applied(
                cfg.rule,
                old(grid)@[grid.coord_seq()[j]].mortal_state,
                old(grid)@[grid.coord_seq()[j]].live_neighbors,
            ) by {
                if j < i {
                    assert(pre.coord_seq()[j] != c);
                }
            }
            assert forall|j: int| i + 1 <= j < n implies grid@[
                #[trigger] grid.coord_seq()[j]
            ].mortal_state == old(grid)@[grid.coord_seq()[j]].mortal_state by {
                assert(pre.coord_seq()[j] != c);
            }
        }
        i = i + 1;
    }
    proof {
        grid.lemma_coords_exact();
        assert forall|c: Coord| #[trigger] old(grid)@.contains_key(c) implies grid@[
            c
        ].mortal_state as int == rule_applied(
            cfg.rule,
            old(grid)@[c].mortal_state,
            old(grid)@[c].live_neighbors,
        ) by {
            assert(grid@.contains_key(c));
            assert(grid.coord_seq().contains(c));
            let j = choose|j: int|
                0 <= j < grid.coord_seq().len() && grid.coord_seq()[j] == c;
            assert(grid@[grid.coord_seq()[j]].mortal_state as int == rule_applied(
                cfg.rule,
                old(grid)@[grid.coord_seq()[j]].mortal_state,
                old(grid)@[grid.coord_seq()[j]].live_neighbors,
            ));
        }
    }
}

/// One whole tick: a full aggregation pass over the pre-tick grid, then a
/// full transition pass over the cached aggregates. Every new vitality is
/// the configured rule applied to the cell's pre-tick vitality and the
/// aggregate of its neighbors' pre-tick vitalities; the grid neither grows
/// nor shrinks.
pub fn tick(grid: &mut Grid, cfg: &Config)
    requires
        old(grid).wf(),
    ensures
        final(grid).wf(),
        final(grid).coord_seq() == old(grid).coord_seq(),
        forall|c: Coord|
            #![trigger final(grid)@.contains_key(c)]
            #![trigger old(grid)@.contains_key(c)]
            final(grid)@.contains_key(c) <==> old(grid)@.contains_key(c),
        forall|c: Coord| #[trigger] old(grid)@.contains_key(c) ==> {
            &&& final(grid)@[c].position == old(grid)@[c].position
            &&& final(grid)@[c].live_neighbors as int == neighbor_aggregate(old(grid)@, c, *cfg)
            &&& final(grid)@[c].mortal_state as int == rule_applied(
                cfg.rule,
                old(grid)@[c].mortal_state,
                final(grid)@[c].live_neighbors,
            )
        },
{
    aggregate_pass(grid, cfg);
    transition_pass(grid, cfg);
}

/// What materializing a whole neighborhood does to the abstract grid:
/// lazily insert a dead cell at each offset of `offs` from `c`, in order.
pub open spec fn materialized(m: Map<Coord, Cell>, c: Coord, offs: Seq<(i32, i32)>) -> Map<
    Coord,
    Cell,
>
    decreases offs.len(),
{
    if offs.len() == 0 {
        m
    } else {
        lazy_insert(materialized(m, c, offs.drop_last()), c.shifted(offs.last()))
    }
}

/// What promoting a clicked target does: a present dead cell comes to full
/// vitality; an alive cell, or an absent coordinate, is left untouched.
pub open spec fn promoted(m: Map<Coord, Cell>, c: Coord) -> Map<Coord, Cell> {
    if m.contains_key(c) && m[c].mortal_state == 0 {
        m.insert(c, Cell { mortal_state: VITALITY_SCALE, ..m[c] })
    } else {
        m
    }
}

/// What a user intent at `c` does to the abstract grid: materialize the
/// neighborhood, then promote the target.
pub open spec fn spawn_result(m: Map<Coord, Cell>, c: Coord, offs: Seq<(i32, i32)>) -> Map<
    Coord,
    Cell,
> {
    promoted(materialized(m, c, offs), c)
}

/// Materialization, read entry by entry: a coordinate is present afterwards
/// exactly when it was present before or is reached by one of the offsets;
/// cells already present are untouched, and the new ones are dead.
pub proof fn lemma_materialized_pointwise(
    m: Map<Coord, Cell>,
    c: Coord,
    offs: Seq<(i32, i32)>,
    c2: Coord,
)
    ensures
        materialized(m, c, offs).contains_key(c2) <==> (m.contains_key(c2) || exists|i: int|
            0 <= i < offs.len() && c.shifted(offs[i]) == c2),
        m.contains_key(c2) ==> materialized(m, c, offs)[c2] == m[c2],
        materialized(m, c, offs).contains_key(c2) && !m.contains_key(c2) ==> materialized(
            m,
            c,
            offs,
        )[c2] == Cell::spec_spawn_dead(c2),
    decreases offs.len(),
{
    if offs.len() > 0 {
        let prev = materialized(m, c, offs.drop_last());
        lemma_materialized_pointwise(m, c, offs.drop_last(), c2);
        if materialized(m, c, offs).contains_key(c2) {
            if prev.contains_key(c2) {
                if !m.contains_key(c2) {
                    let i = choose|i: int|
                        0 <= i < offs.drop_last().len() && c.shifted(offs.drop_last()[i]) == c2;
                    assert(c.shifted(offs[i]) == c2);
                }
            } else {
                assert(c.shifted(offs[offs.len() - 1]) == c2);
            }
        }
        if exists|i: int| 0 <= i < offs.len() && c.shifted(offs[i]) == c2 {
            let i = choose|i: int| 0 <= i < offs.len() && c.shifted(offs[i]) == c2;
            if i < offs.len() - 1 {
                assert(c.shifted(offs.drop_last()[i]) == c2);
            }
        }
    }
}

/// Materializing a neighborhood whose coordinates are all already present
/// changes nothing.
pub proof fn lemma_materialized_absorbed(m: Map<Coord, Cell>, c: Coord, offs: Seq<(i32, i32)>)
    requires
        forall|i: int| 0 <= i < offs.len() ==> m.contains_key(#[trigger] c.shifted(offs[i])),
    ensures
        materialized(m, c, offs) == m,
    decreases offs.len(),
{
    if offs.len() > 0 {
        lemma_materialized_absorbed(m, c, offs.drop_last());
    }
}

/// Idempotent re-click: a second intent at the same coordinate changes
/// nothing — the target keeps its vitality and no entry is duplicated.
pub proof fn lemma_spawn_idempotent(m: Map<Coord, Cell>, c: Coord, offs: Seq<(i32, i32)>)
    ensures
        spawn_result(spawn_result(m, c, offs), c, offs) == spawn_result(m, c, offs),
{
    let m1 = materialized(m, c, offs);
    let s = promoted(m1, c);
    assert forall|i: int| 0 <= i < offs.len() implies s.contains_key(
        #[trigger] c.shifted(offs[i]),
    ) by {
        lemma_materialized_pointwise(m, c, offs, c.shifted(offs[i]));
    }
    lemma_materialized_absorbed(s, c, offs);
}

/// Spawning into an empty grid creates exactly one entry per offset of the
/// active set: the full 8-neighborhood yields nine cells, the small star
/// five — the live target and a border of dead cells.
pub proof fn lemma_spawn_border_count(c: Coord, s: OffsetSet)
    requires
        c.in_spawn_bounds(),
    ensures
        spawn_result(Map::<Coord, Cell>::empty(), c, offset_seq(s)).dom().finite(),
        spawn_result(Map::<Coord, Cell>::empty(), c, offset_seq(s)).dom().len() == offset_seq(
            s,
        ).len(),
{
    let offs = offset_seq(s);
    lemma_offset_seq_facts(s);
    let f = |t: (i32, i32)| c.shifted(t);
    let mapped = offs.map_values(f);
    assert forall|i: int, j: int| 0 <= i < j < mapped.len() implies mapped[i] != mapped[j] by {
        assert(small_offset(offs[i]));
        assert(small_offset(offs[j]));
        lemma_shifted_injective(c, offs[i], offs[j]);
    }
    assert(mapped.no_duplicates());
    mapped.unique_seq_to_set();
    let empty = Map::<Coord, Cell>::empty();
    let m1 = materialized(empty, c, offs);
    assert forall|c2: Coord| m1.contains_key(c2) <==> mapped.to_set().contains(c2) by {
        lemma_materialized_pointwise(empty, c, offs, c2);
        if m1.contains_key(c2) {
            let i = choose|i: int| 0 <= i < offs.len() && c.shifted(offs[i]) == c2;
            assert(mapped[i] == c2);
        }
        if mapped.to_set().contains(c2) {
            let i = choose|i: int| 0 <= i < mapped.len() && mapped[i] == c2;
            assert(c.shifted(offs[i]) == c2);
        }
    }
    assert(m1.dom() =~= mapped.to_set());
    assert(spawn_result(empty, c, offs).dom() =~= m1.dom());
}

/// What an intent does to the target cell itself, provided the offset set
/// ends with the self offset: the target is present and alive afterwards —
/// fresh at full vitality if it was absent, promoted to full vitality if it
/// was dead, and untouched if it was already alive.
pub proof fn lemma_spawn_result_target(m: Map<Coord, Cell>, c: Coord, offs: Seq<(i32, i32)>)
    requires
        offs.len() > 0,
        offs.last() == (0i32, 0i32),
    ensures
        spawn_result(m, c, offs).contains_key(c),
        spawn_result(m, c, offs)[c].mortal_state != 0,
        m.contains_key(c) && m[c].mortal_state != 0 ==> spawn_result(m, c, offs)[c] == m[c],
        !(m.contains_key(c) && m[c].mortal_state != 0) ==> spawn_result(m, c, offs)[c].mortal_state
            == VITALITY_SCALE,
{
    assert(c.shifted((0i32, 0i32)) == c);
    assert(c.shifted(offs[offs.len() - 1]) == c);
    lemma_materialized_pointwise(m, c, offs, c);
}

/// Materializes the neighborhood around `c` as at-least-dead cells without
/// promoting anything: the lazy-growth path on its own.
pub fn spawn_space(grid: &mut Grid, cfg: &Config, c: Coord)
    requires
        old(grid).wf(),
        c.in_spawn_bounds(),
    ensures
        final(grid).wf(),
        final(grid)@ == materialized(old(grid)@, c, offset_seq(cfg.offset_set)),
{
    let offs = offsets(cfg.offset_set);
    proof {
        lemma_offset_seq_facts(cfg.offset_set);
    }
    let n = offs.len();
    let mut j: usize = 0;
    while j < n
        invariant
            grid.wf(),
            c.in_spawn_bounds(),
            offs@ == offset_seq(cfg.offset_set),
            n == offs@.len(),
            forall|k: int| 0 <= k < offs@.len() ==> #[trigger] small_offset(offs@[k]),
            j <= n,
            grid@ == materialized(old(grid)@, c, offs@.take(j as int)),
        decreases n - j,
    {
        proof {
            assert(small_offset(offs@[j as int]));
            lemma_shifted_injective(c, offs@[j as int], offs@[j as int]);
        }
        let neighbor = c.add_tuple(offs[j]);
        let _ = grid.get_or_create_dead(neighbor);
        proof {
            assert(offs@.take(j + 1).drop_last() =~= offs@.take(j as int));
            assert(offs@.take(j + 1).last() == offs@[j as int]);
        }
        j = j + 1;
    }
    proof {
        assert(offs@.take(n as int) =~= offs@);
    }
}

/// Handles a user intent at `c`: materializes the whole active neighborhood
/// around the target (the target included) as at-least-dead cells, then
/// promotes the target to live if it is dead. Clicking an already-live cell
/// changes nothing.
pub fn spawn_cell(grid: &mut Grid, cfg: &Config, c: Coord)
    requires
        old(grid).wf(),
        c.in_spawn_bounds(),
    ensures
        final(grid).wf(),
        final(grid)@ == spawn_result(old(grid)@, c, offset_seq(cfg.offset_set)),
{
    spawn_space(grid, cfg, c);
    proof {
        lemma_offset_seq_facts(cfg.offset_set);
        let offs = offset_seq(cfg.offset_set);
        assert(c.shifted((0i32, 0i32)) == c);
        assert(c.shifted(offs[offs.len() - 1]) == c);
        lemma_materialized_pointwise(old(grid)@, c, offs, c);
    }
    match grid.get(c) {
        Some(cell) => {
            if cell.mortal_state == 0 {
                match grid.set_vitality(c, VITALITY_SCALE) {
                    Ok(u) => {},
                    Err(e) => {
                        proof {
                            assert(false);
                        }
                    },
                }
            }
        },
        None => {
            proof {
                assert(false);
            }
        },
    }
}

/// The one explicitly owned simulation-state object: the authoritative grid
/// together with the configuration it runs under. Ticks are driven
/// externally, one synchronous call at a time; the display layer only reads
/// snapshots from it and feeds intents into it.
pub struct Simulation {
    grid: Grid,
    config: Config,
}

impl View for Simulation {
    type V = Map<Coord, Cell>;

    closed spec fn view(&self) -> Map<Coord, Cell> {
        self.grid@
    }
}

impl Simulation {
    /// The configuration the simulation was built with; it never changes.
    pub closed spec fn spec_config(&self) -> Config {
        self.config
    }

    /// The simulation is well-formed exactly when its grid is.
    pub closed spec fn wf(&self) -> bool {
        self.grid.wf()
    }

    /// Builds a simulation with an empty grid.
    pub fn new(config: Config) -> (s: Simulation)
        ensures
            s.wf(),
            s@ == Map::<Coord, Cell>::empty(),
            s.spec_config() == config,
    {
        Simulation { grid: Grid::new(), config }
    }

    /// The configuration in force.
    pub fn config(&self) -> (cfg: Config)
        ensures
            cfg == self.spec_config(),
    {
        self.config
    }

    /// How many cells have ever been touched.
    pub fn cell_count(&self) -> (n: usize)
        requires
            self.wf(),
        ensures
            n == self@.dom().len(),
    {
        proof {
            self.grid.lemma_coords_exact();
        }
        self.grid.len()
    }

    /// Read-only lookup of one cell.
    pub fn get(&self, c: Coord) -> (r: Option<Cell>)
        ensures
            match r {
                Some(cell) => self@.contains_key(c) && cell == self@[c],
                None => !self@.contains_key(c),
            },
    {
        self.grid.get(c)
    }

    /// A user intent at `c`: materialize the active neighborhood and promote
    /// the target to live.
    pub fn spawn_intent(&mut self, c: Coord)
        requires
            old(self).wf(),
            c.in_spawn_bounds(),
        ensures
            final(self).wf(),
            final(self).spec_config() == old(self).spec_config(),
            final(self)@ == spawn_result(old(self)@, c, offset_seq(old(self).spec_config().offset_set)),
    {
        let cfg = self.config;
        spawn_cell(&mut self.grid, &cfg, c);
    }

    /// Materializes the neighborhood around `c` as dead cells, promoting
    /// nothing.
    pub fn spawn_dead_region(&mut self, c: Coord)
        requires
            old(self).wf(),
            c.in_spawn_bounds(),
        ensures
            final(self).wf(),
            final(self).spec_config() == old(self).spec_config(),
            final(self)@ == materialized(old(self)@, c, offset_seq(old(self).spec_config().offset_set)),
    {
        let cfg = self.config;
        spawn_space(&mut self.grid, &cfg, c);
    }

    /// Runs one whole tick: the aggregation pass over the pre-tick grid,
    /// then the transition pass over the cached aggregates.
    pub fn step(&mut self)
        requires
            old(self).wf(),
        ensures
            final(self).wf(),
            final(self).spec_config() == old(self).spec_config(),
            forall|c: Coord|
                #![trigger final(self)@.contains_key(c)]
                #![trigger old(self)@.contains_key(c)]
                final(self)@.contains_key(c) <==> old(self)@.contains_key(c),
            forall|c: Coord| #[trigger] old(self)@.contains_key(c) ==> {
                &&& final(self)@[c].position == old(self)@[c].position
                &&& final(self)@[c].live_neighbors as int == neighbor_aggregate(
                    old(self)@,
                    c,
                    old(self).spec_config(),
                )
                &&& final(self)@[c].mortal_state as int == rule_applied(
                    old(self).spec_config().rule,
                    old(self)@[c].mortal_state,
                    final(self)@[c].live_neighbors,
                )
            },
    {
        let cfg = self.config;
        tick(&mut self.grid, &cfg);
    }

    /// The snapshot feed for the display layer: a read-only copy of every
    /// grid entry.
    pub fn snapshot(&self) -> (r: Vec<Cell>)
        requires
            self.wf(),
        ensures
            r@.len() == self@.dom().len(),
            forall|i: int| 0 <= i < r@.len() ==> self@.contains_key(#[trigger] r@[i].position)
                && self@[r@[i].position] == r@[i],
            forall|i: int, j: int| 0 <= i < j < r@.len() ==> r@[i].position != r@[j].position,
    {
        proof {
            self.grid.lemma_coords_exact();
            assert forall|i: int| 0 <= i < self.grid.coord_seq().len() implies self
                .grid@.contains_key(#[trigger] self.grid.coord_seq()[i]) by {
                assert(self.grid.coord_seq().contains(self.grid.coord_seq()[i]));
            }
        }
        let r = self.grid.snapshot();
        proof {
            assert forall|i: int| 0 <= i < r@.len() implies self@.contains_key(
                #[trigger] r@[i].position,
            ) && self@[r@[i].position] == r@[i] && r@[i].position == self.grid.coord_seq()[i] by {
                let c = self.grid.coord_seq()[i];
                self.grid.lemma_wf_cell(c);
            }
        }
        r
    }
}

} // verus!
