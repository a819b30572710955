//! The state of one scan, as a machine that is told what the probes found and
//! says what to do next: launch the probe of a host, wait for one in flight,
//! or finish with the outcome of the scan.
//!
//! Probes may end in any order. Their reports are filed under the host's
//! place in the launch order and read in that order, so the outcome does not
//! depend on which probe ended first.

use crate::admission::permits_for;
use crate::admission::permits_of;
use crate::admission::AdmissionSemaphore;
use crate::errors::RadarError;
use crate::errors::RadarErrorView;
use crate::range::dotted_quad;
use crate::range::format_ipv4;
use crate::session_laws::lemma_frontier_unique;
use crate::session_laws::lemma_pending_counts;
use crate::session_laws::lemma_record_keeps_well_formed;
use crate::session_laws::lemma_step_keeps_well_formed;
use crate::session_laws::lemma_wait_has_probe_in_flight;
use vstd::prelude::*;
use vstd::string::StringExecFns;

verus! {

/// What the probe of one host reports to the coordinator.
#[derive(Debug, Clone)]
pub enum ProbeReport {
    /// The host carries the target hardware address.
    Match,
    /// The host answered and does not carry it.
    NoMatch,
    /// The probe failed; the text names the host and the failure.
    Failed(String),
}

/// The mathematical content of a [`ProbeReport`].
pub enum ProbeReportView {
    Match,
    NoMatch,
    Failed(Seq<char>),
}

impl View for ProbeReport {
    type V = ProbeReportView;

    open spec fn view(&self) -> ProbeReportView {
        match self {
            ProbeReport::Match => ProbeReportView::Match,
            ProbeReport::NoMatch => ProbeReportView::NoMatch,
            ProbeReport::Failed(note) => ProbeReportView::Failed(note@),
        }
    }
}

impl ProbeReport {
    /// The report to file for a probe that ended without one, its worker
    /// having died: the host counts as one without a match, and leaves no
    /// note.
    pub fn lost() -> (r: ProbeReport)
        ensures
            r@ == ProbeReportView::NoMatch,
    {
        ProbeReport::NoMatch
    }
}

/// Where a scan stands.
#[derive(Debug, Clone, Copy, PartialEq, Eq, Structural)]
pub enum ScanPhase {
    /// Nothing has been asked of the scan yet.
    Initialized,
    /// Probes are being launched and awaited.
    Running,
    /// A host with the target address was found.
    Succeeded,
    /// Every host was probed and none carries the target address.
    Failed,
}

/// What the coordinator asks of its driver.
#[derive(Debug)]
pub enum ScanAction {
    /// Start the probe of the host with this place in the launch order.
    Launch { index: usize, ip: String },
    /// Nothing can be done before a probe in flight has ended.
    Wait,
    /// The scan is over, with this outcome.
    Finish(Result<String, RadarError>),
}

/// The mathematical content of a [`ScanAction`].
pub enum ScanActionView {
    Launch { index: nat, ip: Seq<char> },
    Wait,
    Finish(Result<Seq<char>, RadarErrorView>),
}

impl View for ScanAction {
    type V = ScanActionView;

    open spec fn view(&self) -> ScanActionView {
        match self {
            ScanAction::Launch { index, ip } => ScanActionView::Launch {
                index: *index as nat,
                ip: ip@,
            },
            ScanAction::Wait => ScanActionView::Wait,
            ScanAction::Finish(Ok(ip)) => ScanActionView::Finish(Ok(ip@)),
            ScanAction::Finish(Err(e)) => ScanActionView::Finish(Err(e@)),
        }
    }
}

/// Whether the probe of a host has reported, and reported no match. The
/// coordinator reads past such a host.
pub open spec fn is_settled(entry: Option<ProbeReportView>) -> bool {
    entry is Some && entry != Some(ProbeReportView::Match)
}

/// The first place at or after `from` whose host is not settled: its probe
/// has not reported yet, or has reported a match. The number of hosts if
/// there is no such place.
pub open spec fn frontier_from(reports: Seq<Option<ProbeReportView>>, from: int) -> int
    decreases reports.len() - from,
{
    if from < 0 || from >= reports.len() {
        reports.len() as int
    } else if is_settled(reports[from]) {
        frontier_from(reports, from + 1)
    } else {
        from
    }
}

/// How many of the first `n` hosts have not reported.
pub open spec fn pending_upto(reports: Seq<Option<ProbeReportView>>, n: int) -> nat
    decreases n,
{
    if n <= 0 {
        0
    } else {
        pending_upto(reports, n - 1) + if reports[n - 1] is None {
            1nat
        } else {
            0nat
        }
    }
}

/// The text of the first failure at or after `from`, in launch order.
pub open spec fn first_failure_from(reports: Seq<Option<ProbeReportView>>, from: int) -> Option<
    Seq<char>,
>
    decreases reports.len() - from,
{
    if from < 0 || from >= reports.len() {
        None
    } else {
        match reports[from] {
            Some(ProbeReportView::Failed(note)) => Some(note),
            _ => first_failure_from(reports, from + 1),
        }
    }
}

/// What a scan without a match reports as not found: the target address, and
/// after it the first failure in launch order, if any probe failed.
pub open spec fn not_found_note(target: Seq<char>, reports: Seq<Option<ProbeReportView>>) -> Seq<
    char,
> {
    match first_failure_from(reports, 0) {
        Some(note) => target + "\n\nFirst error: "@ + note,
        None => target,
    }
}

/// The mathematical content of a [`ScanSession`].
pub struct ScanSessionView {
    /// The hardware address that is looked for, as it was given.
    pub target: Seq<char>,
    /// The hosts in launch order.
    pub hosts: Seq<u32>,
    /// How many probes may be in flight at once.
    pub capacity: nat,
    /// How many hosts have been launched: those at the places below.
    pub launched: nat,
    /// What each host's probe reported, if it has.
    pub reports: Seq<Option<ProbeReportView>>,
    /// Where the scan stands.
    pub phase: ScanPhase,
}

impl ScanSessionView {
    /// How many probes are in flight: launched, and not reported.
    pub open spec fn in_flight(self) -> nat {
        pending_upto(self.reports, self.launched as int)
    }

    /// The place the coordinator is waiting at.
    pub open spec fn frontier(self) -> int {
        frontier_from(self.reports, 0)
    }

    /// The outcome of the scan, as far as it is decided: the address of the
    /// first host in launch order that reported a match, once every host
    /// before it has reported; not found, once every host has reported and
    /// none matched.
    pub open spec fn verdict(self) -> Option<Result<Seq<char>, RadarErrorView>> {
        let at = self.frontier();
        if at >= self.reports.len() {
            Some(Err(RadarErrorView::MacNotFound(not_found_note(self.target, self.reports))))
        } else if self.reports[at] == Some(ProbeReportView::Match) {
            Some(Ok(dotted_quad(self.hosts[at])))
        } else {
            None
        }
    }

    /// What holds of every scan: there is a report slot for each host, only
    /// launched hosts have reported, there is at least one permit, the probes
    /// in flight are within the capacity, and the phase agrees with the
    /// verdict.
    pub open spec fn wf(self) -> bool {
        &&& self.reports.len() == self.hosts.len()
        &&& self.launched <= self.hosts.len()
        &&& forall|i: int| self.launched <= i < self.reports.len() ==> self.reports[i] is None
        &&& self.capacity >= 1
        &&& self.in_flight() <= self.capacity
        &&& self.phase == ScanPhase::Initialized ==> self.launched == 0
        &&& self.phase == ScanPhase::Succeeded ==> self.verdict() is Some && self.verdict()->0 is Ok
        &&& self.phase == ScanPhase::Failed ==> self.verdict() is Some && self.verdict()->0 is Err
    }

    /// One step of the coordinator: the state after it and the action asked.
    /// A decided scan finishes. Otherwise the next host is launched if there
    /// is one and a permit is free. Otherwise the coordinator waits.
    pub open spec fn step(self) -> (ScanSessionView, ScanActionView) {
        match self.verdict() {
            Some(Ok(ip)) => (
                ScanSessionView { phase: ScanPhase::Succeeded, ..self },
                ScanActionView::Finish(Ok(ip)),
            ),
            Some(Err(e)) => (
                ScanSessionView { phase: ScanPhase::Failed, ..self },
                ScanActionView::Finish(Err(e)),
            ),
            None => if self.launched < self.hosts.len() && self.in_flight() < self.capacity {
                (
                    ScanSessionView {
                        phase: ScanPhase::Running,
                        launched: self.launched + 1,
                        ..self
                    },
                    ScanActionView::Launch {
                        index: self.launched,
                        ip: dotted_quad(self.hosts[self.launched as int]),
                    },
                )
            } else {
                (ScanSessionView { phase: ScanPhase::Running, ..self }, ScanActionView::Wait)
            },
        }
    }

    /// Whether a report for the host at `index` is due: the host was
    /// launched and has not reported.
    pub open spec fn awaits(self, index: int) -> bool {
        0 <= index < self.launched && index < self.reports.len() && self.reports[index] is None
    }

    /// The state after the probe of the host at `index` has reported. A
    /// report that is not due changes nothing.
    pub open spec fn record(self, index: int, report: ProbeReportView) -> ScanSessionView {
        if self.awaits(index) {
            ScanSessionView { reports: self.reports.update(index, Some(report)), ..self }
        } else {
            self
        }
    }
}

/// The mathematical content of a table of reports.
pub open spec fn reports_view(reports: Seq<Option<ProbeReport>>) -> Seq<Option<ProbeReportView>> {
    Seq::new(
        reports.len(),
        |i: int|
            match reports[i] {
                Some(report) => Some(report@),
                None => None,
            },
    )
}

/// The state of a scan: the hosts in launch order, the permits, and what the
/// probes have reported so far.
#[derive(Debug)]
struct SessionState {
    target: String,
    hosts: Vec<u32>,
    permits: AdmissionSemaphore,
    launched: usize,
    reports: Vec<Option<ProbeReport>>,
    cursor: usize,
    phase: ScanPhase,
}

impl View for SessionState {
    type V = ScanSessionView;

    closed spec fn view(&self) -> ScanSessionView {
        ScanSessionView {
            target: self.target@,
            hosts: self.hosts@,
            capacity: self.permits.spec_capacity() as nat,
            launched: self.launched as nat,
            reports: reports_view(self.reports@),
            phase: self.phase,
        }
    }
}

impl SessionState {
    /// The content is well formed, the permits held are the probes in
    /// flight, and the hosts that the coordinator has read past are settled.
    spec fn wf(&self) -> bool {
        &&& self@.wf()
        &&& self.permits.spec_in_use() == self@.in_flight()
        &&& self.cursor <= self.reports.len()
        &&& forall|i: int| 0 <= i < self.cursor ==> is_settled(#[trigger] self@.reports[i])
    }

    /// The state of a scan before anything is launched.
    fn new(target: String, hosts: Vec<u32>, capacity: usize) -> (r: SessionState)
        ensures
            r.wf(),
            r@ == (ScanSessionView {
                target: target@,
                hosts: hosts@,
                capacity: permits_for(capacity) as nat,
                launched: 0,
                reports: Seq::new(hosts@.len(), |i: int| None::<ProbeReportView>),
                phase: ScanPhase::Initialized,
            }),
    {
        let mut reports: Vec<Option<ProbeReport>> = Vec::new();
        let mut i: usize = 0;
        while i < hosts.len()
            invariant
                i <= hosts.len(),
                reports.len() == i,
                forall|k: int| 0 <= k < i ==> reports[k] is None,
            decreases hosts.len() - i,
        {
            reports.push(None);
            i = i + 1;
        }
        let session = SessionState {
            target,
            hosts,
            permits: AdmissionSemaphore::new(permits_of(capacity)),
            launched: 0,
            reports,
            cursor: 0,
            phase: ScanPhase::Initialized,
        };
        assert(session@.reports =~= Seq::new(hosts@.len(), |i: int| None::<ProbeReportView>));
        session
    }

    /// A state without hosts, to stand in for the state of a session while
    /// that is worked on.
    fn vacant() -> (r: SessionState)
        ensures
            r.wf(),
    {
        SessionState::new(String::new(), Vec::new(), 0)
    }

    /// What the scan reports as not found, from the reports as they stand.
    fn not_found_note(&self) -> (r: String)
        ensures
            r@ == not_found_note(self@.target, self@.reports),
    {
        let mut i: usize = 0;
        while i < self.reports.len()
            invariant
                i <= self.reports.len(),
                first_failure_from(self@.reports, 0) == first_failure_from(self@.reports, i as int),
            decreases self.reports.len() - i,
        {
            match &self.reports[i] {
                Some(ProbeReport::Failed(note)) => {
                    let mut text = self.target.clone();
                    text.append("\n\nFirst error: ");
                    text.append(note.as_str());
                    return text;
                },
                _ => {},
            }
            i = i + 1;
        }
        self.target.clone()
    }

    /// One step of the coordinator.
    fn next_action(&mut self) -> (action: ScanAction)
        requires
            old(self).wf(),
        ensures
            final(self).wf(),
            final(self)@ == old(self)@.step().0,
            action@ == old(self)@.step().1,
    {
        let count = self.reports.len();
        let mut cursor = self.cursor;
        while cursor < count && is_settled_entry(&self.reports[cursor])
            invariant
                self == old(self),
                count == self.reports.len(),
                cursor <= count,
                forall|i: int| 0 <= i < cursor ==> is_settled(#[trigger] self@.reports[i]),
            decreases count - cursor,
        {
            cursor = cursor + 1;
        }
        proof {
            lemma_frontier_unique(self@.reports, 0, cursor as int);
            lemma_step_keeps_well_formed(self@);
        }
        self.cursor = cursor;
        if cursor >= count {
            let note = self.not_found_note();
            self.phase = ScanPhase::Failed;
            return ScanAction::Finish(Err(RadarError::MacNotFound(note)));
        }
        if is_match_entry(&self.reports[cursor]) {
            self.phase = ScanPhase::Succeeded;
            return ScanAction::Finish(Ok(format_ipv4(self.hosts[cursor])));
        }
        self.phase = ScanPhase::Running;
        if self.launched < count && self.permits.try_acquire() {
            let index = self.launched;
            self.launched = index + 1;
            return ScanAction::Launch { index, ip: format_ipv4(self.hosts[index]) };
        }
        ScanAction::Wait
    }

    /// Files a report if it is due, and gives its permit back.
    fn record(&mut self, index: usize, report: ProbeReport) -> (accepted: bool)
        requires
            old(self).wf(),
        ensures
            final(self).wf(),
            accepted == old(self)@.awaits(index as int),
            final(self)@ == old(self)@.record(index as int, report@),
    {
        if index < self.launched && self.reports[index].is_none() {
            proof {
                lemma_record_keeps_well_formed(self@, index as int, report@);
                lemma_pending_counts(self@.reports, self.launched as int, index as int);
            }
            let ghost filed = report@;
            self.reports.set(index, Some(report));
            self.permits.release();
            assert(self@.reports =~= old(self)@.reports.update(index as int, Some(filed)));
            true
        } else {
            false
        }
    }
}

/// One scan: the hosts in launch order, the permits, and what the probes
/// have reported so far.
///
/// A session is well formed from its making on, and every step and every
/// report keeps it so. In particular, never more probes are in flight than
/// its capacity admits.
#[derive(Debug)]
pub struct ScanSession {
    state: SessionState,
}

impl View for ScanSession {
    type V = ScanSessionView;

    closed spec fn view(&self) -> ScanSessionView {
        self.state@
    }
}

impl ScanSession {
    #[verifier::type_invariant]
    spec fn in_order(&self) -> bool {
        self.state.wf()
    }

    /// A scan of these hosts, in this order, for the target address, with at
    /// most `capacity` probes in flight. No probe is launched yet. A scan
    /// always has a permit: a capacity of zero is taken as one, so that the
    /// scan comes to its end.
    pub fn new(target: String, hosts: Vec<u32>, capacity: usize) -> (r: ScanSession)
        ensures
            r@.wf(),
            r@ == (ScanSessionView {
                target: target@,
                hosts: hosts@,
                capacity: permits_for(capacity) as nat,
                launched: 0,
                reports: Seq::new(hosts@.len(), |i: int| None::<ProbeReportView>),
                phase: ScanPhase::Initialized,
            }),
    {
        ScanSession { state: SessionState::new(target, hosts, capacity) }
    }

    /// Where the scan stands.
    pub fn phase(&self) -> (r: ScanPhase)
        ensures
            r == self@.phase,
    {
        self.state.phase
    }

    /// How many hosts the scan covers.
    pub fn host_count(&self) -> (r: usize)
        ensures
            r == self@.hosts.len(),
    {
        self.state.hosts.len()
    }

    /// How many hosts have been launched.
    pub fn launched(&self) -> (r: usize)
        ensures
            r == self@.launched,
            r <= self@.hosts.len(),
    {
        proof {
            use_type_invariant(self);
        }
        self.state.launched
    }

    /// How many probes may be in flight at once: at least one.
    pub fn capacity(&self) -> (r: usize)
        ensures
            r == self@.capacity,
            r >= 1,
    {
        proof {
            use_type_invariant(self);
        }
        self.state.permits.capacity()
    }

    /// How many probes are in flight. It never exceeds the capacity.
    pub fn in_flight(&self) -> (r: usize)
        ensures
            r == self@.in_flight(),
            r <= self@.capacity,
    {
        proof {
            use_type_invariant(self);
        }
        self.state.permits.in_use()
    }

    /// Asks the coordinator what to do next. It reads the reports in launch
    /// order as far as they have come in. If that decides the scan, it
    /// finishes. Otherwise it launches the next host, provided there is one
    /// and fewer probes are in flight than the capacity admits, and else
    /// waits.
    ///
    /// It never waits in vain: when it waits, a probe is in flight whose
    /// report will let the scan go on.
    pub fn next_action(&mut self) -> (action: ScanAction)
        ensures
            final(self)@.wf(),
            final(self)@ == old(self)@.step().0,
            action@ == old(self)@.step().1,
            action@ is Wait ==> final(self)@.in_flight() >= 1,
    {
        proof {
            use_type_invariant(&*self);
            if self@.step().1 is Wait {
                lemma_wait_has_probe_in_flight(self@);
            }
        }
        let mut state = SessionState::vacant();
        core::mem::swap(&mut self.state, &mut state);
        let action = state.next_action();
        self.state = state;
        action
    }

    /// Files what the probe of the host at `index` reported, and gives its
    /// permit back. A report that is not due, for a host that was not
    /// launched or has reported already, is refused and changes nothing.
    pub fn record(&mut self, index: usize, report: ProbeReport) -> (accepted: bool)
        ensures
            final(self)@.wf(),
            accepted == old(self)@.awaits(index as int),
            final(self)@ == old(self)@.record(index as int, report@),
    {
        proof {
            use_type_invariant(&*self);
        }
        let mut state = SessionState::vacant();
        core::mem::swap(&mut self.state, &mut state);
        let accepted = state.record(index, report);
        self.state = state;
        accepted
    }
}

/// Whether the probe behind an entry has reported, and reported no match.
fn is_settled_entry(entry: &Option<ProbeReport>) -> (r: bool)
    ensures
        r == is_settled(
            match entry {
                Some(report) => Some(report@),
                None => None,
            },
        ),
{
    match entry {
        Some(ProbeReport::Match) => false,
        Some(_) => true,
        None => false,
    }
}

/// Whether the probe behind an entry has reported a match.
fn is_match_entry(entry: &Option<ProbeReport>) -> (r: bool)
    ensures
        r == (entry matches Some(report) && report@ == ProbeReportView::Match),
{
    match entry {
        Some(ProbeReport::Match) => true,
        _ => false,
    }
}

} // verus!
