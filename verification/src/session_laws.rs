//! What holds of every scan: the laws of the coordinator, stated over the
//! mathematical content of a session and proved from its definition.

use crate::errors::RadarErrorView;
use crate::range::dotted_quad;
use crate::session::first_failure_from;
use crate::session::frontier_from;
use crate::session::is_settled;
use crate::session::not_found_note;
use crate::session::pending_upto;
use crate::session::ProbeReportView;
use crate::session::ScanActionView;
use crate::session::ScanPhase;
use crate::session::ScanSessionView;
use vstd::prelude::*;

verus! {

/// Every host between `from` and the frontier is settled, and the host at
/// the frontier is not.
pub proof fn lemma_frontier_bounds(reports: Seq<Option<ProbeReportView>>, from: int)
    requires
        0 <= from <= reports.len(),
    ensures
        from <= frontier_from(reports, from) <= reports.len(),
        forall|i: int|
            from <= i < frontier_from(reports, from) ==> is_settled(#[trigger] reports[i]),
        frontier_from(reports, from) < reports.len() ==> !is_settled(
            reports[frontier_from(reports, from)],
        ),
    decreases reports.len() - from,
{
    if from < reports.len() && is_settled(reports[from]) {
        lemma_frontier_bounds(reports, from + 1);
    }
}

/// The frontier is the only place with settled hosts before it and none at it.
pub proof fn lemma_frontier_unique(reports: Seq<Option<ProbeReportView>>, from: int, at: int)
    requires
        0 <= from <= at <= reports.len(),
        forall|i: int| from <= i < at ==> is_settled(#[trigger] reports[i]),
        at < reports.len() ==> !is_settled(reports[at]),
    ensures
        frontier_from(reports, from) == at,
    decreases at - from,
{
    if from < at {
        assert(is_settled(reports[from]));
        lemma_frontier_unique(reports, from + 1, at);
    }
}

/// No more hosts are pending among the first `n` than there are.
pub proof fn lemma_pending_bounded(reports: Seq<Option<ProbeReportView>>, n: int)
    requires
        0 <= n,
    ensures
        pending_upto(reports, n) <= n,
    decreases n,
{
    if n > 0 {
        lemma_pending_bounded(reports, n - 1);
    }
}

/// A host that has not reported is counted as pending.
pub proof fn lemma_pending_counts(reports: Seq<Option<ProbeReportView>>, n: int, at: int)
    requires
        0 <= at < n,
        reports[at] is None,
    ensures
        pending_upto(reports, n) >= 1,
    decreases n,
{
    if at < n - 1 {
        lemma_pending_counts(reports, n - 1, at);
    }
}

/// A report that comes in takes one from the pending hosts it is among, and
/// leaves the count before it alone.
pub proof fn lemma_pending_after_report(
    reports: Seq<Option<ProbeReportView>>,
    n: int,
    at: int,
    report: ProbeReportView,
)
    requires
        0 <= at < reports.len(),
        0 <= n <= reports.len(),
        reports[at] is None,
    ensures
        at < n ==> pending_upto(reports.update(at, Some(report)), n) + 1 == pending_upto(
            reports,
            n,
        ),
        at >= n ==> pending_upto(reports.update(at, Some(report)), n) == pending_upto(reports, n),
    decreases n,
{
    if n > 0 {
        lemma_pending_after_report(reports, n - 1, at, report);
    }
}

/// The first failure is the failure of the first host that failed.
pub proof fn lemma_first_failure_found(
    reports: Seq<Option<ProbeReportView>>,
    from: int,
    at: int,
    note: Seq<char>,
)
    requires
        0 <= from <= at < reports.len(),
        reports[at] == Some(ProbeReportView::Failed(note)),
        forall|j: int|
            from <= j < at ==> !((#[trigger] reports[j]) matches Some(ProbeReportView::Failed(_))),
    ensures
        first_failure_from(reports, from) == Some(note),
    decreases at - from,
{
    if from < at {
        assert(!(reports[from] matches Some(ProbeReportView::Failed(_))));
        lemma_first_failure_found(reports, from + 1, at, note);
    }
}

/// There is no first failure where no host failed.
pub proof fn lemma_first_failure_absent(reports: Seq<Option<ProbeReportView>>, from: int)
    requires
        0 <= from <= reports.len(),
        forall|j: int|
            from <= j < reports.len() ==> !((#[trigger] reports[j]) matches Some(
                ProbeReportView::Failed(_),
            )),
    ensures
        first_failure_from(reports, from) is None,
    decreases reports.len() - from,
{
    if from < reports.len() {
        assert(!(reports[from] matches Some(ProbeReportView::Failed(_))));
        lemma_first_failure_absent(reports, from + 1);
    }
}

/// Once the outcome of a scan is decided, no later report changes it.
pub proof fn lemma_verdict_settles(s: ScanSessionView, index: int, report: ProbeReportView)
    requires
        s.verdict() is Some,
    ensures
        s.record(index, report).verdict() == s.verdict(),
{
    let at = s.frontier();
    lemma_frontier_bounds(s.reports, 0);
    if s.awaits(index) {
        let after = s.reports.update(index, Some(report));
        if at >= s.reports.len() {
            assert(is_settled(s.reports[index]));
        } else {
            if index < at {
                assert(is_settled(s.reports[index]));
            }
            assert forall|i: int| 0 <= i < at implies is_settled(#[trigger] after[i]) by {
                assert(is_settled(s.reports[i]));
            }
            lemma_frontier_unique(after, 0, at);
        }
    }
}

/// An outcome that is decided is final: however the probes that have not
/// reported yet turn out, the outcome is the same. So it does not matter for
/// the outcome when the coordinator is asked, nor which probe ends first.
pub proof fn lemma_decided_outcome_is_final(s: ScanSessionView, later: ScanSessionView)
    requires
        s.verdict() is Some,
        later.target == s.target,
        later.hosts == s.hosts,
        later.reports.len() == s.reports.len(),
        forall|i: int|
            0 <= i < s.reports.len() && s.reports[i] is Some ==> #[trigger] later.reports[i]
                == s.reports[i],
    ensures
        later.verdict() == s.verdict(),
{
    let at = s.frontier();
    lemma_frontier_bounds(s.reports, 0);
    if at >= s.reports.len() {
        assert forall|i: int| 0 <= i < s.reports.len() implies later.reports[i]
            == s.reports[i] by {
            assert(is_settled(s.reports[i]));
        }
        assert(later.reports =~= s.reports);
    } else {
        assert forall|i: int| 0 <= i < at implies is_settled(#[trigger] later.reports[i]) by {
            assert(is_settled(s.reports[i]));
        }
        lemma_frontier_unique(later.reports, 0, at);
    }
}

/// A step keeps a scan well formed. In particular, never more probes are in
/// flight than the capacity admits.
pub proof fn lemma_step_keeps_well_formed(s: ScanSessionView)
    requires
        s.wf(),
    ensures
        s.step().0.wf(),
        s.step().0.in_flight() <= s.capacity,
        s.step().0.capacity == s.capacity,
{
}

/// A report keeps a scan well formed, and the probes in flight within the
/// capacity. A report that was due frees one permit.
pub proof fn lemma_record_keeps_well_formed(
    s: ScanSessionView,
    index: int,
    report: ProbeReportView,
)
    requires
        s.wf(),
    ensures
        s.record(index, report).wf(),
        s.record(index, report).in_flight() <= s.capacity,
        s.awaits(index) ==> s.record(index, report).in_flight() + 1 == s.in_flight(),
{
    if s.awaits(index) {
        lemma_pending_after_report(s.reports, s.launched as int, index, report);
        if s.verdict() is Some {
            lemma_verdict_settles(s, index, report);
        }
    }
}

/// The coordinator waits only while a probe is in flight: a scan cannot
/// stall.
pub proof fn lemma_wait_has_probe_in_flight(s: ScanSessionView)
    requires
        s.wf(),
        s.step().1 is Wait,
    ensures
        s.in_flight() >= 1,
{
    lemma_frontier_bounds(s.reports, 0);
    let at = s.frontier();
    if s.launched >= s.hosts.len() {
        lemma_pending_counts(s.reports, s.launched as int, at);
    }
}

/// A finished scan stays finished: asked again, it gives the same outcome
/// and launches nothing.
pub proof fn lemma_finished_stays_finished(s: ScanSessionView)
    requires
        s.wf(),
        s.phase == ScanPhase::Succeeded || s.phase == ScanPhase::Failed,
    ensures
        s.step().0 == s,
        s.step().1 == ScanActionView::Finish(s.verdict()->0),
{
}

/// The scan returns the first host in launch order that reported a match,
/// as soon as every host before it has reported, whatever those reported and
/// whatever the hosts after it do.
pub proof fn lemma_first_match_wins(s: ScanSessionView, at: int)
    requires
        s.reports.len() == s.hosts.len(),
        0 <= at < s.reports.len(),
        s.reports[at] == Some(ProbeReportView::Match),
        forall|j: int| 0 <= j < at ==> is_settled(#[trigger] s.reports[j]),
    ensures
        s.verdict() == Some(Ok::<Seq<char>, RadarErrorView>(dotted_quad(s.hosts[at]))),
{
    lemma_frontier_unique(s.reports, 0, at);
}

/// If exactly one host reports a match, the scan returns that host, whether
/// the others answered without a match or failed in whatever way.
pub proof fn lemma_single_match_found(s: ScanSessionView, at: int)
    requires
        s.reports.len() == s.hosts.len(),
        0 <= at < s.reports.len(),
        s.reports[at] == Some(ProbeReportView::Match),
        forall|j: int| 0 <= j < s.reports.len() && j != at ==> is_settled(#[trigger] s.reports[j]),
    ensures
        s.verdict() == Some(Ok::<Seq<char>, RadarErrorView>(dotted_quad(s.hosts[at]))),
{
    lemma_first_match_wins(s, at);
}

/// If two hosts report a match, the scan returns the one that comes first in
/// launch order.
pub proof fn lemma_earlier_match_wins(s: ScanSessionView, first: int, second: int)
    requires
        s.reports.len() == s.hosts.len(),
        0 <= first < second < s.reports.len(),
        s.reports[first] == Some(ProbeReportView::Match),
        s.reports[second] == Some(ProbeReportView::Match),
        forall|j: int|
            0 <= j < s.reports.len() && j != first && j != second ==> is_settled(
                #[trigger] s.reports[j],
            ),
    ensures
        s.verdict() == Some(Ok::<Seq<char>, RadarErrorView>(dotted_quad(s.hosts[first]))),
{
    lemma_first_match_wins(s, first);
}

/// If no host matches and some probe failed, the scan ends as not found and
/// carries the failure of the first failed host in launch order, not that of
/// a later one.
pub proof fn lemma_not_found_carries_first_failure(s: ScanSessionView, at: int, note: Seq<char>)
    requires
        forall|j: int| 0 <= j < s.reports.len() ==> is_settled(#[trigger] s.reports[j]),
        0 <= at < s.reports.len(),
        s.reports[at] == Some(ProbeReportView::Failed(note)),
        forall|j: int|
            0 <= j < at ==> !((#[trigger] s.reports[j]) matches Some(ProbeReportView::Failed(_))),
    ensures
        s.verdict() == Some(
            Err::<Seq<char>, RadarErrorView>(
                RadarErrorView::MacNotFound(s.target + "\n\nFirst error: "@ + note),
            ),
        ),
{
    lemma_frontier_unique(s.reports, 0, s.reports.len() as int);
    lemma_first_failure_found(s.reports, 0, at, note);
}

/// If every host answered and none matched, the scan ends as not found and
/// names the target address alone. So does a scan of no hosts at all.
pub proof fn lemma_not_found_without_failure(s: ScanSessionView)
    requires
        forall|j: int|
            0 <= j < s.reports.len() ==> (#[trigger] s.reports[j]) == Some(
                ProbeReportView::NoMatch,
            ),
    ensures
        s.verdict() == Some(
            Err::<Seq<char>, RadarErrorView>(RadarErrorView::MacNotFound(s.target)),
        ),
{
    assert forall|j: int| 0 <= j < s.reports.len() implies is_settled(#[trigger] s.reports[j]) by {
        assert(s.reports[j] == Some(ProbeReportView::NoMatch));
    }
    lemma_frontier_unique(s.reports, 0, s.reports.len() as int);
    lemma_first_failure_absent(s.reports, 0);
}

/// The order in which two probes end does not matter: the reports of two
/// hosts may be filed in either order.
pub proof fn lemma_reports_commute(
    s: ScanSessionView,
    i: int,
    a: ProbeReportView,
    j: int,
    b: ProbeReportView,
)
    requires
        i != j,
    ensures
        s.record(i, a).record(j, b) == s.record(j, b).record(i, a),
{
    let left = s.record(i, a).record(j, b);
    let right = s.record(j, b).record(i, a);
    assert(left.reports =~= right.reports);
}

/// The errors of single hosts never reach the caller. A scan that ends in an
/// error ends as not found.
pub proof fn lemma_host_errors_stay_inside(s: ScanSessionView)
    ensures
        s.step().1 matches ScanActionView::Finish(Err(e)) ==> e is MacNotFound && !e.is_per_host(),
{
}

/// What is left to do in a scan: two steps for each host that is not
/// launched, its launch and its report, and one for each probe in flight.
pub open spec fn remaining_work(s: ScanSessionView) -> int {
    2 * (s.hosts.len() - s.launched) + s.in_flight()
}

/// Every launch and every report that was due brings a scan one step closer
/// to its end, and nothing else changes what is left to do. So the scan of
/// `n` hosts sees at most `n` launches and `n` reports.
pub proof fn lemma_scan_makes_progress(s: ScanSessionView, index: int, report: ProbeReportView)
    requires
        s.wf(),
    ensures
        0 <= remaining_work(s) <= 2 * s.hosts.len(),
        s.step().1 is Launch ==> remaining_work(s.step().0) == remaining_work(s) - 1,
        !(s.step().1 is Launch) ==> remaining_work(s.step().0) == remaining_work(s),
        s.awaits(index) ==> remaining_work(s.record(index, report)) == remaining_work(s) - 1,
        !s.awaits(index) ==> remaining_work(s.record(index, report)) == remaining_work(s),
{
    lemma_pending_bounded(s.reports, s.launched as int);
    if s.awaits(index) {
        lemma_pending_after_report(s.reports, s.launched as int, index, report);
    }
}

} // verus!
