//! The transition engine's two rule variants.
//!
//! Both are pure functions from `(current vitality, neighbor aggregate)` to
//! the next vitality, in fixed-point milli-units (`VITALITY_SCALE` = 1.0).
//!
//! The discrete rule is Game-of-Life-style over the 8-neighbor aggregate `n`:
//! a live cell with `1.0 < n < 4.0` stays at full vitality, a dead cell with
//! `n == 3.0` comes to full vitality, and every other cell dies.
//!
//! The smoothed rule relaxes this to a continuous intensity over
//! `ratio = n / 8`: inside the growth band it returns `ratio * 1.1`, above it
//! `ratio * 0.7`, and otherwise `ratio` itself, each product rendered in
//! fixed point with truncating division.

use crate::cell::{AGGREGATE_CAP, VITALITY_SCALE};
use vstd::prelude::*;

verus! {

/// Lower edge of the smoothed rule's growth band: ratio 0.07 in milli-units.
pub const GROWTH_BAND_LOW: u32 = 7 * VITALITY_SCALE / 100;

/// Upper edge of the smoothed rule's growth band: ratio 0.15 in milli-units.
pub const GROWTH_BAND_HIGH: u32 = 15 * VITALITY_SCALE / 100;

/// Which transition rule a tick applies.
#[derive(Clone, Copy, Debug, PartialEq, Eq, Structural)]
pub enum RuleKind {
    Discrete,
    Smoothed,
}

/// The discrete rule: full vitality for a live cell whose aggregate lies
/// strictly between 1.0 and 4.0, or a dead cell whose aggregate is exactly
/// 3.0; death otherwise.
pub open spec fn discrete_rule(vitality: u32, aggregate: u32) -> u32 {
    if vitality != 0 && VITALITY_SCALE < aggregate < 4 * VITALITY_SCALE {
        VITALITY_SCALE
    } else if vitality == 0 && aggregate == 3 * VITALITY_SCALE {
        VITALITY_SCALE
    } else {
        0
    }
}

/// The smoothed rule over `ratio = aggregate / 8`: `ratio + ratio * 0.1`
/// inside the growth band, `ratio - ratio * 0.3` above it, `ratio` itself
/// otherwise, with each product truncated to milli-units.
pub open spec fn smoothed_rule(aggregate: u32) -> int {
    let ratio = aggregate as int / 8;
    if GROWTH_BAND_LOW < ratio < GROWTH_BAND_HIGH {
        ratio + ratio / 10
    } else if ratio > GROWTH_BAND_HIGH {
        ratio - (3 * ratio) / 10
    } else {
        ratio
    }
}

/// The configured rule, dispatched on `kind`. The smoothed variant reads only
/// the aggregate; the current vitality takes part only in the discrete rule.
pub open spec fn rule_applied(kind: RuleKind, vitality: u32, aggregate: u32) -> int {
    match kind {
        RuleKind::Discrete => discrete_rule(vitality, aggregate) as int,
        RuleKind::Smoothed => smoothed_rule(aggregate),
    }
}

/// Applies the discrete rule.
pub fn discrete_transition(vitality: u32, aggregate: u32) -> (r: u32)
    ensures
        r == discrete_rule(vitality, aggregate),
        r == 0 || r == VITALITY_SCALE,
{
    if vitality != 0 && aggregate > VITALITY_SCALE && aggregate < 4 * VITALITY_SCALE {
        VITALITY_SCALE
    } else if vitality == 0 && aggregate == 3 * VITALITY_SCALE {
        VITALITY_SCALE
    } else {
        0
    }
}

/// Applies the smoothed rule.
pub fn smoothed_transition(aggregate: u32) -> (r: u32)
    ensures
        r as int == smoothed_rule(aggregate),
{
    let ratio: u32 = aggregate / 8;
    if ratio > GROWTH_BAND_LOW && ratio < GROWTH_BAND_HIGH {
        ratio + ratio / 10
    } else if ratio > GROWTH_BAND_HIGH {
        ratio - (3 * ratio) / 10
    } else {
        ratio
    }
}

/// Applies the rule selected by `kind`.
pub fn apply_rule(kind: RuleKind, vitality: u32, aggregate: u32) -> (r: u32)
    ensures
        r as int == rule_applied(kind, vitality, aggregate),
{
    match kind {
        RuleKind::Discrete => discrete_transition(vitality, aggregate),
        RuleKind::Smoothed => smoothed_transition(aggregate),
    }
}

/// Every rule output lies back inside the conventional vitality range,
/// provided the aggregate is itself a sum of at most nine full neighbors.
/// This is what lets the grid's bounded-cell invariant survive a tick.
pub proof fn lemma_rule_bounded(kind: RuleKind, vitality: u32, aggregate: u32)
    requires
        aggregate <= AGGREGATE_CAP,
    ensures
        0 <= rule_applied(kind, vitality, aggregate) <= VITALITY_SCALE,
{
}

/// The discrete rule in terms of whole live neighbors: with `k` live
/// 8-neighbors at full vitality, a live cell survives exactly when `k` is 2
/// or 3, and a dead cell revives exactly when `k` is 3.
pub proof fn lemma_discrete_rule_live_counts(vitality: u32, k: u32)
    requires
        k <= 8,
    ensures
        discrete_rule(vitality, (k * VITALITY_SCALE) as u32) == if (vitality != 0 && (k == 2 || k
            == 3)) || (vitality == 0 && k == 3) {
            VITALITY_SCALE as u32
        } else {
            0u32
        },
{
}

} // verus!
