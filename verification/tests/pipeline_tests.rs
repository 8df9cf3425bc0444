use maintenance_score::CrateInfo;
use maintenance_score::FetchError;
use maintenance_score::FetchOutcome;
use maintenance_score::NameOrder;
use maintenance_score::ReportAggregator;
use maintenance_score::RiskTier;
use maintenance_score::assess;
use maintenance_score::assess_now;
use maintenance_score::classify_status;
use maintenance_score::compare_names;
use maintenance_score::days_between;
use maintenance_score::effective_score;
use maintenance_score::extract_names;

fn names(raw: &[&str]) -> Vec<String> {
    raw.iter().map(|s| s.to_string()).collect()
}

// Seconds of 2024-01-01T00:00:00Z since the Unix epoch.
const JAN_2024: i64 = 1_704_067_200;

#[test]
fn extractor_sorts_and_deduplicates() {
    let out = extract_names(names(&["serde", "anyhow", "serde", "clap", "anyhow"]));
    assert_eq!(out, names(&["anyhow", "clap", "serde"]));
}

#[test]
fn extractor_is_order_independent() {
    let a = extract_names(names(&["tokio", "clap", "serde", "clap"]));
    let b = extract_names(names(&["clap", "serde", "serde", "tokio"]));
    assert_eq!(a, b);
}

#[test]
fn extractor_is_idempotent() {
    let once = extract_names(names(&["b", "a", "c", "a"]));
    let twice = extract_names(once.clone());
    assert_eq!(once, twice);
}

#[test]
fn extractor_accepts_empty_input() {
    let out = extract_names(Vec::new());
    assert!(out.is_empty());
}

#[test]
fn extractor_orders_by_code_point() {
    let out = extract_names(names(&["zebra", "Zebra", "zebr", ""]));
    assert_eq!(out, names(&["", "Zebra", "zebr", "zebra"]));
}

#[test]
fn name_comparison_decides_all_three_ways() {
    assert_eq!(compare_names("abc", "abd"), NameOrder::Before);
    assert_eq!(compare_names("abc", "abc"), NameOrder::Equal);
    assert_eq!(compare_names("abd", "abc"), NameOrder::After);
    assert_eq!(compare_names("ab", "abc"), NameOrder::Before);
    assert_eq!(compare_names("", "a"), NameOrder::Before);
}

#[test]
fn status_404_means_not_found() {
    assert_eq!(classify_status(404), Some(FetchError::NotFound));
}

#[test]
fn non_success_statuses_carry_their_code() {
    assert_eq!(classify_status(500), Some(FetchError::Http(500)));
    assert_eq!(classify_status(302), Some(FetchError::Http(302)));
    assert_eq!(classify_status(199), Some(FetchError::Http(199)));
}

#[test]
fn success_statuses_pass_through() {
    assert_eq!(classify_status(200), None);
    assert_eq!(classify_status(299), None);
}

#[test]
fn assessment_counts_whole_days_since_the_publish() {
    let info = CrateInfo {
        updated_at: String::from("2024-01-01T00:00:00Z"),
        recent_downloads: Some(0),
        max_version: String::from("1.2.3"),
    };
    let now = JAN_2024 + 10 * 86_400 + 3600;
    let m = assess(&info, now).unwrap();
    assert_eq!(m.days_since_update, 10);
    assert_eq!(m.recent_downloads, 0);
    assert_eq!(m.max_version, "1.2.3");
    assert_eq!(m.score, 80);
    assert_eq!(m.risk_level, RiskTier::Low);
}

#[test]
fn assessment_reads_the_timestamp_as_an_absolute_instant() {
    // The same instant written with a +05:30 offset.
    let info = CrateInfo {
        updated_at: String::from("2024-01-01T05:30:00+05:30"),
        recent_downloads: Some(2_000_000),
        max_version: String::from("0.9"),
    };
    let now = JAN_2024 + 400 * 86_400;
    let m = assess(&info, now).unwrap();
    assert_eq!(m.days_since_update, 400);
    assert_eq!(m.score, 30);
    assert_eq!(m.risk_level, RiskTier::High);
}

#[test]
fn missing_download_count_means_zero() {
    let info = CrateInfo {
        updated_at: String::from("2024-01-01T00:00:00Z"),
        recent_downloads: None,
        max_version: String::from("2.0.0"),
    };
    let m = assess(&info, JAN_2024).unwrap();
    assert_eq!(m.recent_downloads, 0);
    assert_eq!(m.days_since_update, 0);
}

#[test]
fn unparseable_timestamp_is_a_parse_failure() {
    let info = CrateInfo {
        updated_at: String::from("yesterday-ish"),
        recent_downloads: Some(5),
        max_version: String::from("1.0.0"),
    };
    assert_eq!(assess(&info, JAN_2024).unwrap_err(), FetchError::Parse);
    assert_eq!(assess_now(&info).unwrap_err(), FetchError::Parse);
}

#[test]
fn future_publish_counts_as_zero_days_old() {
    // The record claims a publish nine days after the clock reading.
    let info = CrateInfo {
        updated_at: String::from("2024-01-10T00:00:00Z"),
        recent_downloads: Some(0),
        max_version: String::from("1.0.0"),
    };
    let m = assess(&info, JAN_2024).unwrap();
    assert_eq!(m.days_since_update, 0);
    assert_eq!(m.score, 80);
    assert_eq!(m.risk_level, RiskTier::Low);
}

#[test]
fn assessment_against_the_clock_is_consistent() {
    let info = CrateInfo {
        updated_at: String::from("2024-01-01T00:00:00Z"),
        recent_downloads: Some(123),
        max_version: String::from("3.1.4"),
    };
    let m = assess_now(&info).unwrap();
    assert_eq!(m.recent_downloads, 123);
    assert_eq!(m.max_version, "3.1.4");
    assert!(m.score <= 100);
}

#[test]
fn day_counting_truncates_toward_zero() {
    assert_eq!(days_between(0, 86_399), 0);
    assert_eq!(days_between(0, 86_400), 1);
    assert_eq!(days_between(86_400, 0), -1);
    assert_eq!(days_between(1, 0), 0);
    assert_eq!(days_between(i64::MIN, i64::MAX), 213_503_982_334_601);
}

fn assessment(days: i64, downloads: u64, score: u8, tier: RiskTier) -> FetchOutcome {
    FetchOutcome::Success(maintenance_score::CrateMaintenance {
        days_since_update: days,
        recent_downloads: downloads,
        max_version: String::from("1.0.0"),
        score,
        risk_level: tier,
    })
}

#[test]
fn report_orders_riskiest_first_and_tallies_tiers() {
    let mut agg = ReportAggregator::new();
    agg.push(String::from("alpha"), assessment(10, 0, 80, RiskTier::Low));
    agg.push(
        String::from("beta"),
        FetchOutcome::Failure(FetchError::NotFound),
    );
    agg.push(String::from("gamma"), assessment(400, 2_000_000, 30, RiskTier::High));
    agg.push(String::from("delta"), assessment(181, 0, 40, RiskTier::Medium));
    let report = agg.finalize(1234);

    // The failed lookup surfaces first, and effective scores never decrease.
    assert_eq!(report.entries[0].0, "beta");
    let scores: Vec<u8> = report.entries.iter().map(|e| effective_score(&e.1)).collect();
    assert_eq!(scores, vec![0, 30, 40, 80]);
    for pair in scores.windows(2) {
        assert!(pair[0] <= pair[1]);
    }

    // Failures count toward no tier.
    assert_eq!(report.high, 1);
    assert_eq!(report.medium, 1);
    assert_eq!(report.low, 1);
    assert_eq!(report.elapsed_ms, 1234);
}

#[test]
fn report_keeps_every_entry_exactly_once() {
    let mut agg = ReportAggregator::new();
    agg.push(String::from("one"), assessment(10, 0, 80, RiskTier::Low));
    agg.push(String::from("two"), assessment(10, 0, 80, RiskTier::Low));
    agg.push(String::from("three"), FetchOutcome::Failure(FetchError::Transport));
    let report = agg.finalize(0);
    assert_eq!(report.entries.len(), 3);
    let mut seen: Vec<&str> = report.entries.iter().map(|e| e.0.as_str()).collect();
    seen.sort();
    assert_eq!(seen, vec!["one", "three", "two"]);
}

#[test]
fn empty_batch_yields_an_empty_report() {
    let report = ReportAggregator::new().finalize(7);
    assert!(report.entries.is_empty());
    assert_eq!(report.high, 0);
    assert_eq!(report.medium, 0);
    assert_eq!(report.low, 0);
    assert_eq!(report.elapsed_ms, 7);
}

#[test]
fn every_failure_kind_sorts_as_maximally_risky() {
    let failures = [
        FetchError::Manifest,
        FetchError::NotFound,
        FetchError::Http(503),
        FetchError::Transport,
        FetchError::Parse,
    ];
    for f in failures {
        assert_eq!(effective_score(&FetchOutcome::Failure(f)), 0);
    }
}
