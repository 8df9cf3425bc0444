//! Audits a project's third-party dependencies for maintenance risk.
//!
//! The pipeline: a build-graph reader supplies the declared dependency
//! names; the extractor canonicalizes them into a deduplicated,
//! lexicographically ordered working set; the registry client turns one
//! metadata record per name into a [`FetchOutcome`]; the scoring engine
//! maps the signals (days since the last publish, recent download count)
//! to a bounded score and a risk tier; and the aggregator collects the
//! outcomes into a riskiest-first, tier-counted [`Report`].
//!
//! Network access, argument handling and rendering live outside this
//! crate; everything here works on plain values and is verified.

mod extractor;
mod registry;
mod report;
mod scoring;

pub use extractor::NameOrder;
pub use extractor::compare_names;
pub use extractor::extract_names;
pub use extractor::lemma_canonical_order_unique;
pub use extractor::lemma_lex_irreflexive;
pub use extractor::lemma_lex_transitive;
pub use extractor::lex_lt;
pub use extractor::strictly_sorted;
pub use extractor::views_of;
pub use registry::ApiResponse;
pub use registry::CrateInfo;
pub use registry::CrateMaintenance;
pub use registry::FetchError;
pub use registry::FetchOutcome;
pub use registry::assess;
pub use registry::assess_now;
pub use registry::classify_status;
pub use registry::days_between;
pub use registry::rfc3339_epoch_seconds;
pub use registry::spec_classify_status;
pub use registry::spec_days_between;
pub use registry::spec_days_since_update;
pub use registry::spec_effective_score;
pub use report::Report;
pub use report::ReportAggregator;
pub use report::ReportEntry;
pub use report::effective_score;
pub use report::sorted_by_risk;
pub use report::spec_tier_count;
pub use scoring::RiskTier;
pub use scoring::calculate_score;
pub use scoring::lemma_inactivity_score_monotonic;
pub use scoring::lemma_popularity_bonus_monotonic;
pub use scoring::lemma_score_bounded;
pub use scoring::lemma_risk_tier_boundaries;
pub use scoring::spec_inactivity_score;
pub use scoring::spec_popularity_bonus;
pub use scoring::spec_score;
pub use scoring::spec_risk_tier;
