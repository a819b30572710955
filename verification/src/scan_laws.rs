//! What holds of every scan as a whole: the laws that tie what the transport
//! brings back from the hosts to the outcome of the scan.

use crate::errors::RadarErrorView;
use crate::range::dotted_quad;
use crate::scanner::failure_note;
use crate::scanner::found_in;
use crate::scanner::judged;
use crate::session::ProbeReportView;
use crate::session::ScanPhase;
use crate::session::ScanSessionView;
use crate::session_laws::lemma_decided_outcome_is_final;
use crate::session_laws::lemma_first_match_wins;
use crate::session_laws::lemma_frontier_bounds;
use crate::session_laws::lemma_not_found_carries_first_failure;
use crate::session_laws::lemma_not_found_without_failure;
use crate::ssh_client::addresses_of;
use crate::ssh_client::lemma_found_group_is_listed;
use crate::ssh_client::lemma_listed_comes_from_group;
use crate::ssh_client::listed_addresses;
use crate::text::lower;
use vstd::prelude::*;

verus! {

/// The case that the target address is given in does not matter: two targets
/// with the same lowercase form are judged alike on every host.
pub proof fn lemma_judged_ignores_case(
    target: Seq<char>,
    other: Seq<char>,
    ip: Seq<char>,
    outcome: Result<Seq<char>, RadarErrorView>,
)
    requires
        lower(target) == lower(other),
    ensures
        judged(target, ip, outcome) == judged(other, ip, outcome),
{
}

/// A host whose listing holds the target address in any mix of cases is
/// reported as a match: the listed addresses are in lowercase, and so is the
/// target when it is compared.
pub proof fn lemma_listed_target_matches(
    target: Seq<char>,
    ip: Seq<char>,
    output: Seq<char>,
    at: int,
)
    requires
        listed_addresses(output) is Some,
        0 <= at < listed_addresses(output)->0.len(),
        listed_addresses(output)->0[at] == lower(target),
    ensures
        judged(target, ip, Ok(output)) == ProbeReportView::Match,
{
}

/// A probe that failed is never a match, and its note begins with the host.
pub proof fn lemma_failure_is_no_match(target: Seq<char>, ip: Seq<char>, error: RadarErrorView)
    ensures
        judged(target, ip, Err(error)) == ProbeReportView::Failed(
            ip + ": "@ + error.message(),
        ),
{
}

/// A host is a match exactly if one of the groups found in its listing
/// equals the target address when both are taken in lowercase: the case of
/// the listing matters as little as that of the target.
pub proof fn lemma_match_ignores_case(target: Seq<char>, groups: Seq<Option<Seq<char>>>)
    ensures
        found_in(target, addresses_of(groups)) <==> exists|k: int|
            0 <= k < groups.len() && #[trigger] groups[k] == Some(groups[k]->0) && lower(
                groups[k]->0,
            ) == lower(target),
{
    let listed = addresses_of(groups);
    if found_in(target, listed) {
        let at = choose|at: int| 0 <= at < listed.len() && listed[at] == lower(target);
        lemma_listed_comes_from_group(groups, at);
    }
    if exists|k: int|
        0 <= k < groups.len() && #[trigger] groups[k] == Some(groups[k]->0) && lower(groups[k]->0)
            == lower(target) {
        let k = choose|k: int|
            0 <= k < groups.len() && #[trigger] groups[k] == Some(groups[k]->0) && lower(
                groups[k]->0,
            ) == lower(target);
        lemma_found_group_is_listed(groups, k);
    }
}

/// Whether the transport's outcome for a host shows that the host carries
/// the target address.
pub open spec fn carries_target(
    target: Seq<char>,
    outcome: Result<Seq<char>, RadarErrorView>,
) -> bool {
    outcome matches Ok(output) && listed_addresses(output) matches Some(mac_list) && found_in(
        target,
        mac_list,
    )
}

/// Whether the transport brought a listing from a host, and the listing could
/// be read.
pub open spec fn brought_listing(outcome: Result<Seq<char>, RadarErrorView>) -> bool {
    outcome matches Ok(output) && listed_addresses(output) is Some
}

/// The reports of a scan in which the transport came back with `outcomes`,
/// one for each host.
pub open spec fn judged_reports(
    target: Seq<char>,
    hosts: Seq<u32>,
    outcomes: Seq<Result<Seq<char>, RadarErrorView>>,
) -> Seq<Option<ProbeReportView>> {
    Seq::new(
        hosts.len(),
        |i: int| Some(judged(target, dotted_quad(hosts[i]), outcomes[i])),
    )
}

/// The outcome of a scan of `hosts` in which the transport came back with
/// `outcomes`, one for each host.
pub open spec fn scan_outcome(
    target: Seq<char>,
    hosts: Seq<u32>,
    outcomes: Seq<Result<Seq<char>, RadarErrorView>>,
) -> Result<Seq<char>, RadarErrorView> {
    (ScanSessionView {
        target,
        hosts,
        capacity: 1,
        launched: hosts.len(),
        reports: judged_reports(target, hosts, outcomes),
        phase: ScanPhase::Running,
    }).verdict()->0
}

/// A scan whose outcome is decided has the outcome of the whole scan: the
/// probes that have not reported cannot change it, in whatever order they
/// end.
pub proof fn lemma_decided_scan_has_the_outcome(
    s: ScanSessionView,
    outcomes: Seq<Result<Seq<char>, RadarErrorView>>,
)
    requires
        s.reports.len() == s.hosts.len(),
        s.verdict() is Some,
        forall|i: int|
            0 <= i < s.reports.len() && s.reports[i] is Some ==> (#[trigger] s.reports[i])
                == Some(judged(s.target, dotted_quad(s.hosts[i]), outcomes[i])),
    ensures
        s.verdict() == Some(scan_outcome(s.target, s.hosts, outcomes)),
{
    let whole = ScanSessionView {
        target: s.target,
        hosts: s.hosts,
        capacity: 1,
        launched: s.hosts.len(),
        reports: judged_reports(s.target, s.hosts, outcomes),
        phase: ScanPhase::Running,
    };
    lemma_decided_outcome_is_final(s, whole);
    lemma_frontier_bounds(whole.reports, 0);
}

/// If exactly one host carries the target address, in whatever case the
/// address is given and listed, the scan returns that host, however the
/// probes of the other hosts fail or answer.
pub proof fn lemma_scan_finds_the_single_carrier(
    target: Seq<char>,
    hosts: Seq<u32>,
    outcomes: Seq<Result<Seq<char>, RadarErrorView>>,
    at: int,
)
    requires
        0 <= at < hosts.len(),
        carries_target(target, outcomes[at]),
        forall|j: int| 0 <= j < hosts.len() && j != at ==> !carries_target(target, outcomes[j]),
    ensures
        scan_outcome(target, hosts, outcomes) == Ok::<Seq<char>, RadarErrorView>(
            dotted_quad(hosts[at]),
        ),
{
    let whole = ScanSessionView {
        target,
        hosts,
        capacity: 1,
        launched: hosts.len(),
        reports: judged_reports(target, hosts, outcomes),
        phase: ScanPhase::Running,
    };
    lemma_first_match_wins(whole, at);
}

/// If several hosts carry the target address, the scan returns the first of
/// them in launch order.
pub proof fn lemma_scan_returns_the_first_carrier(
    target: Seq<char>,
    hosts: Seq<u32>,
    outcomes: Seq<Result<Seq<char>, RadarErrorView>>,
    first: int,
)
    requires
        0 <= first < hosts.len(),
        carries_target(target, outcomes[first]),
        forall|j: int| 0 <= j < first ==> !carries_target(target, outcomes[j]),
    ensures
        scan_outcome(target, hosts, outcomes) == Ok::<Seq<char>, RadarErrorView>(
            dotted_quad(hosts[first]),
        ),
{
    let whole = ScanSessionView {
        target,
        hosts,
        capacity: 1,
        launched: hosts.len(),
        reports: judged_reports(target, hosts, outcomes),
        phase: ScanPhase::Running,
    };
    lemma_first_match_wins(whole, first);
}

/// If no host carries the target address and the transport failed on some
/// host, the scan ends as not found and carries the failure of the first
/// such host in launch order.
pub proof fn lemma_scan_reports_the_first_failure(
    target: Seq<char>,
    hosts: Seq<u32>,
    outcomes: Seq<Result<Seq<char>, RadarErrorView>>,
    at: int,
    error: RadarErrorView,
)
    requires
        forall|j: int| 0 <= j < hosts.len() ==> !carries_target(target, outcomes[j]),
        0 <= at < hosts.len(),
        outcomes[at] == Err::<Seq<char>, RadarErrorView>(error),
        forall|j: int| 0 <= j < at ==> brought_listing(#[trigger] outcomes[j]),
    ensures
        scan_outcome(target, hosts, outcomes) == Err::<Seq<char>, RadarErrorView>(
            RadarErrorView::MacNotFound(
                target + "\n\nFirst error: "@ + failure_note(dotted_quad(hosts[at]), error),
            ),
        ),
{
    let whole = ScanSessionView {
        target,
        hosts,
        capacity: 1,
        launched: hosts.len(),
        reports: judged_reports(target, hosts, outcomes),
        phase: ScanPhase::Running,
    };
    assert forall|j: int| 0 <= j < at implies !((#[trigger] whole.reports[j]) matches Some(
        ProbeReportView::Failed(_),
    )) by {
        assert(brought_listing(outcomes[j]));
    }
    lemma_not_found_carries_first_failure(
        whole,
        at,
        failure_note(dotted_quad(hosts[at]), error),
    );
}

/// If the transport brought a listing from every host and none carries the
/// target address, the scan ends as not found and names the target alone.
pub proof fn lemma_scan_without_carrier_is_not_found(
    target: Seq<char>,
    hosts: Seq<u32>,
    outcomes: Seq<Result<Seq<char>, RadarErrorView>>,
)
    requires
        forall|j: int|
            0 <= j < hosts.len() ==> !carries_target(target, outcomes[j]) && brought_listing(
                #[trigger] outcomes[j],
            ),
    ensures
        scan_outcome(target, hosts, outcomes) == Err::<Seq<char>, RadarErrorView>(
            RadarErrorView::MacNotFound(target),
        ),
{
    let whole = ScanSessionView {
        target,
        hosts,
        capacity: 1,
        launched: hosts.len(),
        reports: judged_reports(target, hosts, outcomes),
        phase: ScanPhase::Running,
    };
    assert forall|j: int| 0 <= j < whole.reports.len() implies (#[trigger] whole.reports[j])
        == Some(ProbeReportView::NoMatch) by {
        assert(!carries_target(target, outcomes[j]) && brought_listing(outcomes[j]));
    }
    lemma_not_found_without_failure(whole);
}

} // verus!
