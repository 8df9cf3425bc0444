use maintenance_score::RiskTier;
use maintenance_score::calculate_score;

#[test]
fn fresh_and_unknown_scores_eighty_low() {
    let (score, tier) = calculate_score(10, 0);
    assert_eq!(score, 80);
    assert_eq!(tier, RiskTier::Low);
}

#[test]
fn stale_but_popular_scores_thirty_high() {
    let (score, tier) = calculate_score(400, 2_000_000);
    assert_eq!(score, 30);
    assert_eq!(tier, RiskTier::High);
}

#[test]
fn abandoned_and_unknown_scores_zero_high() {
    let (score, tier) = calculate_score(1000, 0);
    assert_eq!(score, 0);
    assert_eq!(tier, RiskTier::High);
}

#[test]
fn recent_and_very_popular_scores_ninety_low() {
    let (score, tier) = calculate_score(45, 60_000_000);
    assert_eq!(score, 90);
    assert_eq!(tier, RiskTier::Low);
}

#[test]
fn clamp_is_reached_when_both_components_are_maximal() {
    let (score, tier) = calculate_score(0, 60_000_000);
    assert_eq!(score, 100);
    assert_eq!(tier, RiskTier::Low);
}

#[test]
fn inactivity_boundaries_are_inclusive_of_the_lower_tier() {
    assert_eq!(calculate_score(30, 0).0, 80);
    assert_eq!(calculate_score(31, 0).0, 70);
    assert_eq!(calculate_score(90, 0).0, 70);
    assert_eq!(calculate_score(91, 0).0, 60);
    assert_eq!(calculate_score(180, 0).0, 60);
    assert_eq!(calculate_score(181, 0).0, 40);
    assert_eq!(calculate_score(365, 0).0, 40);
    assert_eq!(calculate_score(366, 0).0, 20);
    assert_eq!(calculate_score(730, 0).0, 20);
    assert_eq!(calculate_score(731, 0).0, 0);
}

#[test]
fn popularity_boundaries_are_strict() {
    assert_eq!(calculate_score(1000, 100_000).0, 0);
    assert_eq!(calculate_score(1000, 100_001).0, 5);
    assert_eq!(calculate_score(1000, 1_000_000).0, 5);
    assert_eq!(calculate_score(1000, 1_000_001).0, 10);
    assert_eq!(calculate_score(1000, 10_000_000).0, 10);
    assert_eq!(calculate_score(1000, 10_000_001).0, 15);
    assert_eq!(calculate_score(1000, 50_000_000).0, 15);
    assert_eq!(calculate_score(1000, 50_000_001).0, 20);
}

#[test]
fn inactivity_score_never_increases_with_days() {
    let days = [0i64, 30, 31, 90, 91, 180, 181, 365, 366, 730, 731, 10_000];
    let mut previous = u8::MAX;
    for d in days {
        let (score, _) = calculate_score(d, 0);
        assert!(score <= previous);
        previous = score;
    }
}

#[test]
fn popularity_bonus_never_decreases_with_downloads() {
    let downloads = [
        0u64,
        100_000,
        100_001,
        1_000_000,
        1_000_001,
        10_000_000,
        10_000_001,
        50_000_000,
        50_000_001,
        u64::MAX,
    ];
    let mut previous = 0u8;
    for n in downloads {
        let (score, _) = calculate_score(1000, n);
        assert!(score >= previous);
        previous = score;
    }
}

#[test]
fn every_score_stays_within_bounds() {
    let days = [i64::MIN, -1, 0, 30, 365, 731, i64::MAX];
    let downloads = [0u64, 100_001, 50_000_001, u64::MAX];
    for d in days {
        for n in downloads {
            let (score, _) = calculate_score(d, n);
            assert!(score <= 100);
        }
    }
}

#[test]
fn tier_boundaries_are_closed() {
    // 70 is exactly reachable (90 days inactive, no bonus) and is Low.
    let (score, tier) = calculate_score(90, 0);
    assert_eq!(score, 70);
    assert_eq!(tier, RiskTier::Low);
    // 40 is exactly reachable and is Medium.
    let (score, tier) = calculate_score(365, 0);
    assert_eq!(score, 40);
    assert_eq!(tier, RiskTier::Medium);
    // The highest reachable score under 40 is High.
    let (score, tier) = calculate_score(400, 2_000_000);
    assert_eq!(score, 30);
    assert_eq!(tier, RiskTier::High);
}

#[test]
fn tier_is_a_function_of_the_score_alone() {
    // Different signal pairs with the same score land in the same tier.
    let (s1, t1) = calculate_score(91, 0);
    let (s2, t2) = calculate_score(181, 50_000_001);
    assert_eq!(s1, 60);
    assert_eq!(s2, 60);
    assert_eq!(t1, t2);
}

#[test]
fn scoring_is_total_on_signed_day_counts() {
    // The assessment pipeline never passes a negative day count, but the
    // scoring function is total on its signed input and treats one as
    // maximally fresh.
    let (score, tier) = calculate_score(-5, 0);
    assert_eq!(score, 80);
    assert_eq!(tier, RiskTier::Low);
}
