//! Loyalty tiers: a membership level derived purely from a points balance
//! and three configured thresholds, evaluated from the highest downward.

use vstd::prelude::*;

verus! {

/// A loyalty level. `Bronze` is the base tier for balances below every
/// threshold.
#[derive(Clone, Copy, Debug, PartialEq, Eq, Structural)]
pub enum Tier {
    Bronze,
    Silver,
    Gold,
    Diamond,
}

/// Minimum points for each named tier. Read fresh from configuration at
/// every resolution; absent or unparsable entries fall back to the
/// documented defaults.
#[derive(Clone, Copy, Debug, PartialEq, Eq, Structural)]
pub struct TierThresholds {
    pub silver: i64,
    pub gold: i64,
    pub diamond: i64,
}

/// The tier a balance maps to: diamond first, then gold, then silver,
/// else the base tier.
pub open spec fn spec_resolve_tier(points: i64, t: TierThresholds) -> Tier {
    if points >= t.diamond {
        Tier::Diamond
    } else if points >= t.gold {
        Tier::Gold
    } else if points >= t.silver {
        Tier::Silver
    } else {
        Tier::Bronze
    }
}

impl TierThresholds {
    /// The defaults used when configuration entries are missing or do not
    /// parse.
    pub fn defaults() -> (t: TierThresholds)
        ensures
            t == (TierThresholds { silver: 1000i64, gold: 5000i64, diamond: 10000i64 }),
    {
        TierThresholds { silver: 1000, gold: 5000, diamond: 10000 }
    }
}

/// The name under which each tier is stored on the user row.
pub open spec fn spec_tier_text(t: Tier) -> Seq<char> {
    match t {
        Tier::Bronze => "BRONZE"@,
        Tier::Silver => "SILVER"@,
        Tier::Gold => "GOLD"@,
        Tier::Diamond => "DIAMOND"@,
    }
}

impl Tier {
    /// The stored name of this tier.
    pub fn as_text(&self) -> (r: String)
        ensures
            r@ == spec_tier_text(*self),
    {
        match self {
            Tier::Bronze => String::from_str("BRONZE"),
            Tier::Silver => String::from_str("SILVER"),
            Tier::Gold => String::from_str("GOLD"),
            Tier::Diamond => String::from_str("DIAMOND"),
        }
    }
}

/// Maps a points balance to a membership tier, highest threshold first.
pub fn resolve_tier(points: i64, t: &TierThresholds) -> (r: Tier)
    ensures
        r == spec_resolve_tier(points, *t),
{
    if points >= t.diamond {
        Tier::Diamond
    } else if points >= t.gold {
        Tier::Gold
    } else if points >= t.silver {
        Tier::Silver
    } else {
        Tier::Bronze
    }
}

} // verus!
