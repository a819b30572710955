//! The scan coordinator: what is looked for, with which configuration, and
//! how the outcome of one probe is judged.

use crate::admission::permits_for;
use crate::admission::permits_of;
use crate::errors::RadarError;
use crate::errors::RadarErrorView;
use crate::range::expand_range;
use crate::range::hosts_of;
use crate::session::ProbeReport;
use crate::session::ProbeReportView;
use crate::session::ScanPhase;
use crate::session::ScanSession;
use crate::session::ScanSessionView;
use crate::ssh_client::listed_addresses;
use crate::ssh_client::DeviceIdentity;
use crate::ssh_client::SshConfig;
use crate::ssh_client::SshConfigView;
use crate::ssh_client::PATTERN_REFUSED;
use crate::text::lower;
use crate::text::to_lower;
use vstd::prelude::*;
use vstd::string::StringExecFns;

verus! {

/// Maximum number of concurrent probes, unless a scanner is told otherwise.
pub const MAX_CONCURRENT: usize = 50;

/// Scans an IP range and looks for a specific hardware address.
#[derive(Debug)]
pub struct Scanner {
    config: SshConfig,
    target_mac: String,
    max_concurrent: usize,
}

/// The mathematical content of a [`Scanner`].
pub struct ScannerView {
    pub config: SshConfigView,
    pub target_mac: Seq<char>,
    pub max_concurrent: usize,
}

impl View for Scanner {
    type V = ScannerView;

    closed spec fn view(&self) -> ScannerView {
        ScannerView {
            config: self.config@,
            target_mac: self.target_mac@,
            max_concurrent: self.max_concurrent,
        }
    }
}

/// Whether a list of hardware addresses, held in lowercase, has the target
/// address in whatever case that was given.
pub open spec fn found_in(target: Seq<char>, mac_list: Seq<Seq<char>>) -> bool {
    mac_list.contains(lower(target))
}

/// What is kept of a failed probe: the host, a colon, the error's text.
pub open spec fn failure_note(ip: Seq<char>, error: RadarErrorView) -> Seq<char> {
    ip + ": "@ + error.message()
}

/// The report on a host whose listing was read.
pub open spec fn examined(target: Seq<char>, mac_list: Seq<Seq<char>>) -> ProbeReportView {
    if found_in(target, mac_list) {
        ProbeReportView::Match
    } else {
        ProbeReportView::NoMatch
    }
}

/// The report on the host at `ip`, given what the transport came back with:
/// the listing of the host, or the error that kept it from getting one. An
/// error never ends the scan; it is kept as a note on that host.
pub open spec fn judged(
    target: Seq<char>,
    ip: Seq<char>,
    outcome: Result<Seq<char>, RadarErrorView>,
) -> ProbeReportView {
    match outcome {
        Ok(output) => match listed_addresses(output) {
            Some(mac_list) => examined(target, mac_list),
            None => ProbeReportView::Failed(
                failure_note(ip, RadarErrorView::CommandExecution(ip, PATTERN_REFUSED@)),
            ),
        },
        Err(error) => ProbeReportView::Failed(failure_note(ip, error)),
    }
}

/// The mathematical content of what the transport came back with.
pub open spec fn outcome_view(outcome: Result<String, RadarError>) -> Result<
    Seq<char>,
    RadarErrorView,
> {
    match outcome {
        Ok(output) => Ok(output@),
        Err(error) => Err(error@),
    }
}

impl Clone for Scanner {
    fn clone(&self) -> (r: Self)
        ensures
            r@ == self@,
    {
        proof {
            use_type_invariant(self);
        }
        Scanner {
            config: self.config.clone(),
            target_mac: self.target_mac.clone(),
            max_concurrent: self.max_concurrent,
        }
    }
}

impl Scanner {
    #[verifier::type_invariant]
    spec fn has_a_permit(&self) -> bool {
        self.max_concurrent >= 1
    }

    /// Create a new scanner.
    pub fn new(config: SshConfig, target_mac: String) -> (r: Self)
        ensures
            r@ == (ScannerView {
                config: config@,
                target_mac: target_mac@,
                max_concurrent: MAX_CONCURRENT,
            }),
    {
        Self { config, target_mac, max_concurrent: MAX_CONCURRENT }
    }

    /// The same scanner with another bound on the probes in flight. A scan
    /// needs a permit to go on: a bound of zero is taken as one.
    pub fn with_max_concurrent(self, max_concurrent: usize) -> (r: Self)
        ensures
            r@ == (ScannerView { max_concurrent: permits_for(max_concurrent), ..self@ }),
    {
        Self {
            config: self.config,
            target_mac: self.target_mac,
            max_concurrent: permits_of(max_concurrent),
        }
    }

    /// The connection configuration that every probe is made with.
    pub fn config(&self) -> (r: &SshConfig)
        ensures
            r@ == self@.config,
    {
        &self.config
    }

    /// The hardware address that is looked for, as it was given.
    pub fn target_mac(&self) -> (r: &str)
        ensures
            r@ == self@.target_mac,
    {
        self.target_mac.as_str()
    }

    /// The bound on the probes in flight: at least one.
    pub fn max_concurrent(&self) -> (r: usize)
        ensures
            r == self@.max_concurrent,
            r >= 1,
    {
        proof {
            use_type_invariant(self);
        }
        self.max_concurrent
    }

    /// Starts a scan of every host in `cidr` (e.g. `"192.168.1.0/24"`).
    ///
    /// A text that is no IPv4 network is refused at once, and no session
    /// comes to be that could launch a probe. Otherwise the session covers
    /// the usable hosts of the network in ascending order, and has launched
    /// nothing yet.
    pub fn scan(&self, cidr: &str) -> (r: Result<ScanSession, RadarError>)
        ensures
            match r {
                Ok(session) => {
                    &&& hosts_of(cidr@) is Some
                    &&& session@.wf()
                    &&& session@ == (ScanSessionView {
                        target: self@.target_mac,
                        hosts: hosts_of(cidr@)->0,
                        capacity: self@.max_concurrent as nat,
                        launched: 0,
                        reports: Seq::new(
                            hosts_of(cidr@)->0.len(),
                            |i: int| None::<ProbeReportView>,
                        ),
                        phase: ScanPhase::Initialized,
                    })
                },
                Err(e) => hosts_of(cidr@) is None && e@ == RadarErrorView::InvalidIpRange(cidr@),
            },
    {
        proof {
            use_type_invariant(self);
        }
        match expand_range(cidr) {
            Ok(hosts) => Ok(ScanSession::new(self.target_mac.clone(), hosts, self.max_concurrent)),
            Err(e) => Err(e),
        }
    }

    /// Reports whether a host carries the target address. The target is
    /// compared in lowercase, so the case it was given in does not matter.
    pub fn examine(&self, identity: &DeviceIdentity) -> (r: ProbeReport)
        ensures
            r@ == examined(self@.target_mac, identity@.mac_list),
    {
        let wanted = to_lower(self.target_mac.as_str());
        if identity.has_mac(wanted.as_str()) {
            ProbeReport::Match
        } else {
            ProbeReport::NoMatch
        }
    }

    /// The report on a host whose probe failed.
    pub fn failure_report(ip: &str, error: &RadarError) -> (r: ProbeReport)
        ensures
            r@ == ProbeReportView::Failed(failure_note(ip@, error@)),
    {
        let mut note = String::from_str(ip);
        note.append(": ");
        let message = error.message();
        note.append(message.as_str());
        ProbeReport::Failed(note)
    }

    /// Judges what the transport came back with for the host at `ip`.
    pub fn judge(&self, ip: &str, outcome: Result<String, RadarError>) -> (r: ProbeReport)
        ensures
            r@ == judged(self@.target_mac, ip@, outcome_view(outcome)),
    {
        match outcome {
            Ok(output) => match self.config.fetch_macs(ip, output.as_str()) {
                Ok(identity) => self.examine(&identity),
                Err(error) => Self::failure_report(ip, &error),
            },
            Err(error) => Self::failure_report(ip, &error),
        }
    }
}

} // verus!
