//! The report aggregator: collects one fetch outcome per dependency in
//! fetch order, then orders the batch riskiest-first, tallies the tiers
//! of the successful assessments, and exposes the immutable report.

use vstd::prelude::*;
use vstd::multiset::Multiset;
use crate::registry::FetchOutcome;
use crate::registry::spec_effective_score;
use crate::scoring::RiskTier;
use crate::scoring::spec_risk_tier;

verus! {

/// One row of the report: a dependency name and what the fetch made of it.
pub type ReportEntry = (String, FetchOutcome);

/// Riskiest first: effective scores are non-decreasing left to right, with
/// failed lookups (effective score zero) surfacing at the front.
pub open spec fn sorted_by_risk(s: Seq<ReportEntry>) -> bool {
    forall|i: int, j: int|
        0 <= i <= j < s.len() ==> spec_effective_score(s[i].1) <= spec_effective_score(s[j].1)
}

/// How many entries of the sequence are successful assessments whose
/// score falls in the given tier. Failures count toward no tier: their
/// state is unknown, not confirmed risky.
pub open spec fn spec_tier_count(s: Seq<ReportEntry>, tier: RiskTier) -> nat
    decreases s.len(),
{
    if s.len() == 0 {
        0
    } else {
        spec_tier_count(s.drop_last(), tier) + (match s.last().1 {
            FetchOutcome::Success(m) => if spec_risk_tier(m.score as int) == tier {
                1nat
            } else {
                0nat
            },
            FetchOutcome::Failure(_) => 0nat,
        })
    }
}

/// The finished report, read-only once constructed: every accumulated
/// outcome exactly once, ordered riskiest-first, with the tier tallies of
/// the successful assessments and the batch's elapsed wall-clock time.
pub struct Report {
    pub entries: Vec<ReportEntry>,
    pub high: usize,
    pub medium: usize,
    pub low: usize,
    pub elapsed_ms: u64,
}

/// The effective sort key of one outcome: the score of a successful
/// assessment, zero for a failure.
pub fn effective_score(o: &FetchOutcome) -> (r: u8)
    ensures
        r as int == spec_effective_score(*o),
{
    match o {
        FetchOutcome::Success(m) => m.score,
        FetchOutcome::Failure(_) => 0,
    }
}

/// Orders a batch of entries by effective score, ascending, keeping every
/// entry: the result is a permutation of the input.
fn sort_by_effective_score(v: Vec<ReportEntry>) -> (r: Vec<ReportEntry>)
    ensures
        sorted_by_risk(r@),
        r@.to_multiset() == v@.to_multiset(),
{
    let ghost total = v@.to_multiset();
    let mut rest = v;
    let mut out: Vec<ReportEntry> = Vec::new();
    proof {
        broadcast use vstd::multiset::group_multiset_axioms;

        out@.to_multiset_ensures();
        assert(out@.to_multiset() =~= Multiset::<ReportEntry>::empty());
        assert(rest@.to_multiset().add(out@.to_multiset()) =~= rest@.to_multiset());
    }
    while rest.len() > 0
        invariant
            sorted_by_risk(out@),
            rest@.to_multiset().add(out@.to_multiset()) == total,
        decreases rest.len(),
    {
        let ghost rest0 = rest@;
        let ghost out0 = out@;
        let x = match rest.pop() {
            Some(x) => x,
            None => {
                return out;
            },
        };
        proof {
            broadcast use vstd::multiset::group_multiset_axioms;

            assert(rest0 =~= rest@.push(x));
            vstd::seq_lib::to_multiset_build(rest@, x);
            assert(rest0.to_multiset() == rest@.to_multiset().insert(x));
        }
        let key = effective_score(&x.1);
        let mut pos: usize = 0;
        while pos < out.len() && effective_score(&out[pos].1) <= key
            invariant
                0 <= pos <= out.len(),
                key as int == spec_effective_score(x.1),
                forall|k: int|
                    0 <= k < pos ==> spec_effective_score(out@[k].1) <= spec_effective_score(x.1),
            decreases out.len() - pos,
        {
            pos = pos + 1;
        }
        out.insert(pos, x);
        proof {
            broadcast use vstd::multiset::group_multiset_axioms;

            assert(out@ == out0.insert(pos as int, x));
            vstd::seq_lib::to_multiset_insert(out0, pos as int, x);
            assert(out@.to_multiset() == out0.to_multiset().insert(x));
            assert(rest@.to_multiset().add(out@.to_multiset()) =~= rest0.to_multiset().add(
                out0.to_multiset(),
            ));
            assert forall|i: int, j: int| 0 <= i <= j < out@.len() implies spec_effective_score(
                out@[i].1,
            ) <= spec_effective_score(out@[j].1) by {
                if i < pos && j < pos {
                    assert(spec_effective_score(out0[i].1) <= spec_effective_score(out0[j].1));
                } else if j == pos {
                    if i < pos {
                        assert(spec_effective_score(out0[i].1) <= spec_effective_score(x.1));
                    }
                } else if i < pos && j > pos {
                    assert(spec_effective_score(out0[i].1) <= spec_effective_score(out0[j - 1].1));
                } else if i == pos && j > pos {
                    assert(spec_effective_score(x.1) < spec_effective_score(out0[pos as int].1));
                    assert(spec_effective_score(out0[pos as int].1) <= spec_effective_score(
                        out0[j - 1].1,
                    ));
                } else {
                    assert(spec_effective_score(out0[i - 1].1) <= spec_effective_score(
                        out0[j - 1].1,
                    ));
                }
            }
        }
    }
    proof {
        broadcast use vstd::multiset::group_multiset_axioms;

        rest@.to_multiset_ensures();
        assert(rest@.to_multiset() =~= Multiset::<ReportEntry>::empty());
        assert(rest@.to_multiset().add(out@.to_multiset()) =~= out@.to_multiset());
    }
    out
}

/// Accumulates outcomes as the registry client produces them, strictly in
/// extraction order; the presentation order is fixed only on completion.
pub struct ReportAggregator {
    entries: Vec<ReportEntry>,
}

impl View for ReportAggregator {
    type V = Seq<ReportEntry>;

    closed spec fn view(&self) -> Seq<ReportEntry> {
        self.entries@
    }
}

impl ReportAggregator {
    /// An empty accumulator: no outcomes yet.
    pub fn new() -> (r: ReportAggregator)
        ensures
            r@ == Seq::<ReportEntry>::empty(),
    {
        ReportAggregator { entries: Vec::new() }
    }

    /// Records the outcome for one dependency, appended after everything
    /// recorded so far.
    pub fn push(&mut self, name: String, outcome: FetchOutcome)
        ensures
            final(self)@ == old(self)@.push((name, outcome)),
    {
        self.entries.push((name, outcome));
    }

    /// Closes the batch: orders the accumulated outcomes riskiest-first,
    /// tallies the successful assessments into tiers, and seals the
    /// report together with the batch's elapsed wall-clock time.
    pub fn finalize(self, elapsed_ms: u64) -> (r: Report)
        ensures
            sorted_by_risk(r.entries@),
            r.entries@.to_multiset() == self@.to_multiset(),
            r.high as nat == spec_tier_count(r.entries@, RiskTier::High),
            r.medium as nat == spec_tier_count(r.entries@, RiskTier::Medium),
            r.low as nat == spec_tier_count(r.entries@, RiskTier::Low),
            r.elapsed_ms == elapsed_ms,
    {
        let entries = sort_by_effective_score(self.entries);
        let mut high: usize = 0;
        let mut medium: usize = 0;
        let mut low: usize = 0;
        let mut i: usize = 0;
        while i < entries.len()
            invariant
                0 <= i <= entries.len(),
                high + medium + low <= i,
                high as nat == spec_tier_count(entries@.take(i as int), RiskTier::High),
                medium as nat == spec_tier_count(entries@.take(i as int), RiskTier::Medium),
                low as nat == spec_tier_count(entries@.take(i as int), RiskTier::Low),
            decreases entries.len() - i,
        {
            match &entries[i].1 {
                FetchOutcome::Success(m) => {
                    if m.score < 40 {
                        high = high + 1;
                    } else if m.score < 70 {
                        medium = medium + 1;
                    } else {
                        low = low + 1;
                    }
                },
                FetchOutcome::Failure(_) => {},
            }
            proof {
                assert(entries@.take(i + 1).drop_last() =~= entries@.take(i as int));
                assert(entries@.take(i + 1).last() == entries@[i as int]);
            }
            i = i + 1;
        }
        proof {
            assert(entries@.take(entries@.len() as int) =~= entries@);
        }
        Report { entries, high, medium, low, elapsed_ms }
    }
}

} // verus!
