//! The scoring engine: a pure function from registry signals to a bounded
//! maintenance score and a risk tier.

use vstd::prelude::*;

verus! {

/// Risk classification derived from the maintenance score.
#[derive(Clone, Copy, Debug, PartialEq, Eq, Structural)]
pub enum RiskTier {
    Low,
    Medium,
    High,
}

/// Step function rewarding recent publication: the fewer days since the
/// last publish, the larger the component. Each boundary is inclusive of
/// the lower (more active) tier.
pub open spec fn spec_inactivity_score(days_inactive: int) -> int {
    if days_inactive <= 30 {
        80
    } else if days_inactive <= 90 {
        70
    } else if days_inactive <= 180 {
        60
    } else if days_inactive <= 365 {
        40
    } else if days_inactive <= 730 {
        20
    } else {
        0
    }
}

/// Step function rewarding popularity: heavily downloaded packages get a
/// bonus, on the heuristic that a large user base notices abandonment.
pub open spec fn spec_popularity_bonus(recent_downloads: int) -> int {
    if recent_downloads > 50_000_000 {
        20
    } else if recent_downloads > 10_000_000 {
        15
    } else if recent_downloads > 1_000_000 {
        10
    } else if recent_downloads > 100_000 {
        5
    } else {
        0
    }
}

/// The combined maintenance score: inactivity component plus popularity
/// bonus, clamped to 100.
pub open spec fn spec_score(days_inactive: int, recent_downloads: int) -> int {
    let total = spec_inactivity_score(days_inactive) + spec_popularity_bonus(recent_downloads);
    if total > 100 {
        100
    } else {
        total
    }
}

/// Tier classification of a score. The boundaries are closed: a score of
/// exactly 70 is Low and a score of exactly 40 is Medium.
pub open spec fn spec_risk_tier(score: int) -> RiskTier {
    if score >= 70 {
        RiskTier::Low
    } else if score >= 40 {
        RiskTier::Medium
    } else {
        RiskTier::High
    }
}

/// Maps the registry signals for one dependency to its maintenance score
/// in [0, 100] and the risk tier of that score.
pub fn calculate_score(days_inactive: i64, recent_downloads: u64) -> (r: (u8, RiskTier))
    ensures
        r.0 as int == spec_score(days_inactive as int, recent_downloads as int),
        r.1 == spec_risk_tier(r.0 as int),
        0 <= r.0 <= 100,
{
    let inactivity_score: u8 = if days_inactive <= 30 {
        80
    } else if days_inactive <= 90 {
        70
    } else if days_inactive <= 180 {
        60
    } else if days_inactive <= 365 {
        40
    } else if days_inactive <= 730 {
        20
    } else {
        0
    };

    let popularity_bonus: u8 = if recent_downloads > 50_000_000 {
        20
    } else if recent_downloads > 10_000_000 {
        15
    } else if recent_downloads > 1_000_000 {
        10
    } else if recent_downloads > 100_000 {
        5
    } else {
        0
    };

    let total_score: u8 = if inactivity_score + popularity_bonus > 100 {
        100
    } else {
        inactivity_score + popularity_bonus
    };

    let risk = if total_score >= 70 {
        RiskTier::Low
    } else if total_score >= 40 {
        RiskTier::Medium
    } else {
        RiskTier::High
    };

    (total_score, risk)
}

/// The inactivity component never increases as the days since the last
/// publish grow: staleness can only make a dependency look riskier.
pub proof fn lemma_inactivity_score_monotonic(d1: int, d2: int)
    requires
        d1 <= d2,
    ensures
        spec_inactivity_score(d1) >= spec_inactivity_score(d2),
{
}

/// The popularity bonus never decreases as the recent download count
/// grows: popularity can only make a dependency look safer.
pub proof fn lemma_popularity_bonus_monotonic(n1: int, n2: int)
    requires
        n1 <= n2,
    ensures
        spec_popularity_bonus(n1) <= spec_popularity_bonus(n2),
{
}

/// The combined score is bounded: every input yields a score in [0, 100].
pub proof fn lemma_score_bounded(days_inactive: int, recent_downloads: int)
    ensures
        0 <= spec_score(days_inactive, recent_downloads) <= 100,
{
}

/// The tier boundaries are closed as specified: 70 is the lowest Low
/// score, 40 the lowest Medium score, and 39 the highest High score.
pub proof fn lemma_risk_tier_boundaries()
    ensures
        spec_risk_tier(70) == RiskTier::Low,
        spec_risk_tier(40) == RiskTier::Medium,
        spec_risk_tier(39) == RiskTier::High,
{
}

} // verus!
