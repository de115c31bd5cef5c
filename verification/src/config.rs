//! Engine configuration: which neighbor-offset set a scan walks, which
//! transition rule a tick applies, and whether the aggregate counts the
//! cell's own former vitality.
//!
//! The offset set and the rule can also be chosen by name, as recognized
//! option strings; an unrecognized name is rejected with
//! `InvalidConfiguration` rather than silently defaulted.

use crate::coord::OffsetSet;
use crate::rules::RuleKind;
use crate::GridError;
use vstd::prelude::*;
use vstd::string::StrSliceExecFns;

verus! {

/// The options a simulation is built with. `include_self` selects whether
/// the neighborhood aggregate includes the cell's own former vitality; the
/// conventional cellular-automaton reading excludes it.
#[derive(Clone, Copy, Debug, PartialEq, Eq, Structural)]
pub struct Config {
    pub offset_set: OffsetSet,
    pub rule: RuleKind,
    pub include_self: bool,
}

impl Config {
    /// Builds a configuration from already-typed options.
    pub fn new(offset_set: OffsetSet, rule: RuleKind, include_self: bool) -> (cfg: Config)
        ensures
            cfg == (Config { offset_set, rule, include_self }),
    {
        Config { offset_set, rule, include_self }
    }
}

/// Character-exact string comparison, used to recognize option names.
fn str_equal(a: &str, b: &str) -> (r: bool)
    ensures
        r == (a@ == b@),
{
    let n = a.unicode_len();
    let m = b.unicode_len();
    if n != m {
        return false;
    }
    let mut i: usize = 0;
    while i < n
        invariant
            i <= n,
            n == a@.len(),
            n == b@.len(),
            forall|j: int| 0 <= j < i ==> a@[j] == b@[j],
        decreases n - i,
    {
        if a.get_char(i) != b.get_char(i) {
            return false;
        }
        i = i + 1;
    }
    proof {
        assert(a@ =~= b@);
    }
    true
}

/// Whether `name` names one of the two recognized offset sets.
pub open spec fn recognized_offset_name(name: Seq<char>) -> bool {
    name == "small_star"@ || name == "full_neighborhood"@
}

/// Whether `name` names one of the two recognized rules.
pub open spec fn recognized_rule_name(name: Seq<char>) -> bool {
    name == "discrete"@ || name == "smoothed"@
}

/// Builds a configuration from option names. Returns
/// `Err(InvalidConfiguration)` exactly when either name is unrecognized;
/// otherwise the returned configuration carries the named options.
pub fn config_from_names(offset_name: &str, rule_name: &str, include_self: bool) -> (r: Result<
    Config,
    GridError,
>)
    ensures
        match r {
            Ok(cfg) => {
                &&& recognized_offset_name(offset_name@)
                &&& recognized_rule_name(rule_name@)
                &&& cfg.offset_set == (if offset_name@ == "small_star"@ {
                    OffsetSet::SmallStar
                } else {
                    OffsetSet::FullNeighborhood
                })
                &&& cfg.rule == (if rule_name@ == "discrete"@ {
                    RuleKind::Discrete
                } else {
                    RuleKind::Smoothed
                })
                &&& cfg.include_self == include_self
            },
            Err(e) => {
                &&& e == GridError::InvalidConfiguration
                &&& !(recognized_offset_name(offset_name@) && recognized_rule_name(rule_name@))
            },
        },
{
    let offset_set = if str_equal(offset_name, "small_star") {
        OffsetSet::SmallStar
    } else if str_equal(offset_name, "full_neighborhood") {
        OffsetSet::FullNeighborhood
    } else {
        return Err(GridError::InvalidConfiguration);
    };
    let rule = if str_equal(rule_name, "discrete") {
        RuleKind::Discrete
    } else if str_equal(rule_name, "smoothed") {
        RuleKind::Smoothed
    } else {
        return Err(GridError::InvalidConfiguration);
    };
    Ok(Config { offset_set, rule, include_self })
}

} // verus!
