//! The registry client's decision logic: classifying HTTP outcomes and
//! turning one registry metadata record into a maintenance assessment.
//!
//! The network exchange itself lives outside the crate; everything here
//! works on the plain values it hands over (status code, decoded record,
//! clock reading) and is verified against them.

use vstd::prelude::*;
use crate::scoring::RiskTier;
use crate::scoring::calculate_score;
use crate::scoring::spec_score;
use crate::scoring::spec_risk_tier;

verus! {

/// The envelope of the registry's per-crate metadata endpoint: the record
/// itself sits under a `crate` key in the JSON body.
#[derive(Debug)]
pub struct ApiResponse {
    pub crate_info: CrateInfo,
}

/// Raw metadata the registry returns for one dependency: the timestamp of
/// the most recent publish (RFC 3339 text, any offset), the download
/// count over the registry's rolling window (absent means zero), and the
/// newest version string (display-only, never interpreted).
#[derive(Debug)]
pub struct CrateInfo {
    pub updated_at: String,
    pub recent_downloads: Option<u64>,
    pub max_version: String,
}

/// The derived assessment for one dependency, immutable once computed.
#[derive(Debug)]
pub struct CrateMaintenance {
    pub days_since_update: i64,
    pub recent_downloads: u64,
    pub max_version: String,
    pub score: u8,
    pub risk_level: RiskTier,
}

impl CrateMaintenance {
    /// Internal consistency: the recorded age is never negative, the
    /// score derives from the two signals, and the tier derives from the
    /// score.
    pub open spec fn wf(self) -> bool {
        &&& self.days_since_update >= 0
        &&& self.score as int == spec_score(
            self.days_since_update as int,
            self.recent_downloads as int,
        )
        &&& self.risk_level == spec_risk_tier(self.score as int)
    }
}

/// Why a run, or one dependency within it, could not be assessed.
#[derive(Clone, Copy, Debug, PartialEq, Eq, Structural)]
pub enum FetchError {
    /// The project manifest could not be located or parsed. The only
    /// fatal error: it aborts the run before any fetch begins.
    Manifest,
    /// The registry has no record under the requested name.
    NotFound,
    /// A response status that is neither success nor not-found, carrying
    /// the status code.
    Http(u16),
    /// Connection, DNS resolution or timeout failure.
    Transport,
    /// Malformed response body or an unparseable publish timestamp.
    Parse,
}

/// The result recorded for one dependency: its assessment, or the reason
/// none could be made. Exactly one outcome exists per name in a run.
#[derive(Debug)]
pub enum FetchOutcome {
    Success(CrateMaintenance),
    Failure(FetchError),
}

/// The sort key of an outcome in the report: a failed dependency's state
/// is unknown, so it ranks as maximally risky, with score zero.
pub open spec fn spec_effective_score(o: FetchOutcome) -> int {
    match o {
        FetchOutcome::Success(m) => m.score as int,
        FetchOutcome::Failure(_) => 0,
    }
}

/// How a response status is judged before the body is read: 404 means the
/// registry has no such crate, any other non-2xx status is a generic HTTP
/// failure, and a 2xx status lets the assessment proceed.
pub open spec fn spec_classify_status(status: u16) -> Option<FetchError> {
    if status == 404 {
        Some(FetchError::NotFound)
    } else if status < 200 || status >= 300 {
        Some(FetchError::Http(status))
    } else {
        None
    }
}

/// Judges an HTTP status code: `None` means success and the body may be
/// decoded; `Some` carries the error to record for this dependency.
pub fn classify_status(status: u16) -> (r: Option<FetchError>)
    ensures
        r == spec_classify_status(status),
{
    if status == 404 {
        Some(FetchError::NotFound)
    } else if status < 200 || status >= 300 {
        Some(FetchError::Http(status))
    } else {
        None
    }
}

/// The instant an RFC 3339 timestamp denotes, as non-leap seconds since
/// the Unix epoch, or nothing where the text does not parse. The value
/// depends on the characters alone.
pub uninterp spec fn rfc3339_epoch_seconds(s: Seq<char>) -> Option<i64>;

/// Relies on chrono's `DateTime::parse_from_rfc3339` and
/// `DateTime::timestamp`: the first parses RFC 3339 text into an absolute
/// instant (returning `Err` rather than panicking on bad input), the
/// second converts it to seconds since the Unix epoch by plain date
/// arithmetic. Both depend only on the string.
#[verifier::external_body]
fn parse_rfc3339_epoch(s: &str) -> (r: Option<i64>)
    ensures
        r == rfc3339_epoch_seconds(s@),
{
    chrono::DateTime::parse_from_rfc3339(s).ok().map(|t| t.timestamp())
}

/// Relies on std's `SystemTime::now`: the wall clock at the moment of
/// the call, converted to seconds since the Unix epoch (zero where the
/// clock reads before the epoch, so the read never panics). The value
/// depends on when the call happens, so nothing is claimed of it.
#[verifier::external_body]
fn now_epoch_seconds() -> i64 {
    match std::time::SystemTime::now().duration_since(std::time::UNIX_EPOCH) {
        Ok(d) => d.as_secs() as i64,
        Err(_) => 0,
    }
}

/// Whole days elapsed from `updated_epoch` to `now_epoch` (both seconds
/// since the Unix epoch), truncated toward zero; negative when the
/// update lies a full day or more in the future of `now_epoch`.
pub open spec fn spec_days_between(updated_epoch: int, now_epoch: int) -> int {
    if now_epoch >= updated_epoch {
        (now_epoch - updated_epoch) / 86400
    } else {
        -((updated_epoch - now_epoch) / 86400)
    }
}

/// Counts the whole days from one instant to another, truncating toward
/// zero, without overflow for any pair of instants.
pub fn days_between(updated_epoch: i64, now_epoch: i64) -> (r: i64)
    ensures
        r as int == spec_days_between(updated_epoch as int, now_epoch as int),
{
    if now_epoch >= updated_epoch {
        let diff: u128 = (now_epoch as i128 - updated_epoch as i128) as u128;
        (diff / 86400) as i64
    } else {
        let diff: u128 = (updated_epoch as i128 - now_epoch as i128) as u128;
        -((diff / 86400) as i64)
    }
}

/// The recorded age of an assessment: the whole days elapsed since the
/// publish, and zero where the publish timestamp lies in the future of
/// the clock reading — an assessment's age is never negative.
pub open spec fn spec_days_since_update(updated_epoch: int, now_epoch: int) -> int {
    if spec_days_between(updated_epoch, now_epoch) >= 0 {
        spec_days_between(updated_epoch, now_epoch)
    } else {
        0
    }
}

/// Derives the maintenance assessment for one dependency from its decoded
/// registry record and the current instant. An unparseable publish
/// timestamp is the one error left at this stage, recorded for the
/// dependency and never aborting the run; every record with a readable
/// timestamp is owed a successful assessment. A publish dated in the
/// future of `now_epoch` counts as zero days old.
pub fn assess(info: &CrateInfo, now_epoch: i64) -> (r: Result<CrateMaintenance, FetchError>)
    ensures
        match r {
            Ok(m) => {
                &&& rfc3339_epoch_seconds(info.updated_at@) is Some
                &&& m.days_since_update as int == spec_days_since_update(
                    rfc3339_epoch_seconds(info.updated_at@).unwrap() as int,
                    now_epoch as int,
                )
                &&& m.recent_downloads == (match info.recent_downloads {
                    Some(d) => d,
                    None => 0u64,
                })
                &&& m.max_version@ == info.max_version@
                &&& m.wf()
            },
            Err(e) => {
                &&& e == FetchError::Parse
                &&& rfc3339_epoch_seconds(info.updated_at@) is None
            },
        },
{
    let updated_epoch = match parse_rfc3339_epoch(info.updated_at.as_str()) {
        Some(t) => t,
        None => {
            return Err(FetchError::Parse);
        },
    };
    let elapsed_days = days_between(updated_epoch, now_epoch);
    let days_since_update: i64 = if elapsed_days < 0 {
        0
    } else {
        elapsed_days
    };
    let recent_downloads = match info.recent_downloads {
        Some(d) => d,
        None => 0,
    };
    let (score, risk_level) = calculate_score(days_since_update, recent_downloads);
    Ok(CrateMaintenance {
        days_since_update,
        recent_downloads,
        max_version: info.max_version.clone(),
        score,
        risk_level,
    })
}

/// Assesses a record against the clock, read once per call. Whatever
/// instant the clock reports, the result is a consistent assessment of
/// the record; only an unparseable publish timestamp fails.
pub fn assess_now(info: &CrateInfo) -> (r: Result<CrateMaintenance, FetchError>)
    ensures
        match r {
            Ok(m) => {
                &&& rfc3339_epoch_seconds(info.updated_at@) is Some
                &&& m.recent_downloads == (match info.recent_downloads {
                    Some(d) => d,
                    None => 0u64,
                })
                &&& m.max_version@ == info.max_version@
                &&& m.wf()
            },
            Err(e) => {
                &&& e == FetchError::Parse
                &&& rfc3339_epoch_seconds(info.updated_at@) is None
            },
        },
{
    let now_epoch = now_epoch_seconds();
    assess(info, now_epoch)
}

} // verus!
