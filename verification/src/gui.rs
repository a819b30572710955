//! The state behind the graphical front end: the form, the device profiles
//! that fill it in, and what the form shows of a scan.

use crate::errors::RadarError;
use crate::errors::RadarErrorView;
use crate::scanner::outcome_view;
use crate::scanner::Scanner;
use crate::scanner::ScannerView;
use crate::scanner::MAX_CONCURRENT;
use crate::ssh_client::AuthenticationMethod;
use crate::ssh_client::AuthenticationView;
use crate::ssh_client::SshConfig;
use crate::ssh_client::SshConfigView;
use crate::ssh_client::DEFAULT_SSH_PORT;
use crate::text::trimmed;
use vstd::prelude::*;
use vstd::string::StringExecFns;

verus! {

/// Timeout of each probe that the form starts, in seconds.
pub const PROBE_TIMEOUT_SECS: u64 = 3;

/// Deadline of a whole scan that the form starts, in seconds.
pub const SCAN_DEADLINE_SECS: u64 = 15;

/// What the form shows of a scan that ran into its deadline.
pub const SCAN_TIMED_OUT: &'static str = "Scan timed out after 15 seconds";

/// The supported device profiles.
#[derive(Debug, Clone, Copy, PartialEq, Eq, Structural)]
pub enum DeviceProfile {
    HC,
    AI2,
    AI3,
}

impl DeviceProfile {
    /// Environment variable name that holds the private key for this profile.
    pub open spec fn spec_env_key_name(self) -> Seq<char> {
        match self {
            DeviceProfile::HC => "HC_PRIVATE_KEY"@,
            DeviceProfile::AI2 => "AI3_PRIVATE_KEY"@,
            DeviceProfile::AI3 => "AI3_PRIVATE_KEY"@,
        }
    }

    /// Default IP range for this device type.
    pub open spec fn spec_default_ip_range(self) -> Seq<char> {
        match self {
            DeviceProfile::HC => "10.8.0.0/24"@,
            DeviceProfile::AI2 => "10.8.0.0/24"@,
            DeviceProfile::AI3 => "192.168.255.0/24"@,
        }
    }

    /// Default SSH username for this device type.
    pub open spec fn spec_default_user(self) -> Seq<char> {
        match self {
            DeviceProfile::HC => "root"@,
            DeviceProfile::AI2 => "nano"@,
            DeviceProfile::AI3 => "pi"@,
        }
    }

    /// Environment variable name that holds the private key for this profile.
    pub fn env_key_name(self) -> (r: &'static str)
        ensures
            r@ == self.spec_env_key_name(),
    {
        match self {
            DeviceProfile::HC => "HC_PRIVATE_KEY",
            DeviceProfile::AI2 => "AI3_PRIVATE_KEY",
            DeviceProfile::AI3 => "AI3_PRIVATE_KEY",
        }
    }

    /// Default IP range for this device type.
    pub fn default_ip_range(self) -> (r: &'static str)
        ensures
            r@ == self.spec_default_ip_range(),
    {
        match self {
            DeviceProfile::HC => "10.8.0.0/24",
            DeviceProfile::AI2 => "10.8.0.0/24",
            DeviceProfile::AI3 => "192.168.255.0/24",
        }
    }

    /// Default SSH username for this device type.
    pub fn default_user(self) -> (r: &'static str)
        ensures
            r@ == self.spec_default_user(),
    {
        match self {
            DeviceProfile::HC => "root",
            DeviceProfile::AI2 => "nano",
            DeviceProfile::AI3 => "pi",
        }
    }
}

/// Possible scan states.
#[derive(Debug, Clone)]
pub enum ScanState {
    Idle,
    Scanning,
    Found(String),
    Error(String),
}

/// The mathematical content of a [`ScanState`].
pub enum ScanStateView {
    Idle,
    Scanning,
    Found(Seq<char>),
    Error(Seq<char>),
}

impl View for ScanState {
    type V = ScanStateView;

    open spec fn view(&self) -> ScanStateView {
        match self {
            ScanState::Idle => ScanStateView::Idle,
            ScanState::Scanning => ScanStateView::Scanning,
            ScanState::Found(ip) => ScanStateView::Found(ip@),
            ScanState::Error(message) => ScanStateView::Error(message@),
        }
    }
}

/// What the form shows once a scan is over: the address found, or the text of
/// the error it ended in, or, where it ran into its deadline and has no
/// outcome, that it timed out.
pub open spec fn shown_outcome(
    outcome: Option<Result<Seq<char>, RadarErrorView>>,
) -> ScanStateView {
    match outcome {
        Some(Ok(ip)) => ScanStateView::Found(ip),
        Some(Err(error)) => ScanStateView::Error(error.message()),
        None => ScanStateView::Error(SCAN_TIMED_OUT@),
    }
}

/// What the form shows when the private key of a profile is not to be had.
pub open spec fn missing_key_message(profile: DeviceProfile) -> Seq<char> {
    "Private key not found in environment variable '"@ + profile.spec_env_key_name()
        + "'.\nMake sure .env is present and contains "@ + profile.spec_env_key_name() + "."@
}

/// Main application state.
#[derive(Debug, Clone)]
pub struct RadarApp {
    /// The hardware address as typed.
    pub mac_input: String,
    /// The range as typed, or as filled in from the profile.
    pub ip_range: String,
    /// The profile that is selected.
    pub profile: DeviceProfile,
    /// The profile that the form was last filled in from.
    pub prev_profile: DeviceProfile,
    /// What the form shows of the scan.
    pub scan_state: ScanState,
    /// The passphrase of the private keys.
    pub ssh_password: String,
    /// The user to log in as, filled in from the profile.
    pub ssh_user: String,
}

/// The mathematical content of a [`RadarApp`].
pub struct RadarAppView {
    pub mac_input: Seq<char>,
    pub ip_range: Seq<char>,
    pub profile: DeviceProfile,
    pub prev_profile: DeviceProfile,
    pub scan_state: ScanStateView,
    pub ssh_password: Seq<char>,
    pub ssh_user: Seq<char>,
}

impl View for RadarApp {
    type V = RadarAppView;

    open spec fn view(&self) -> RadarAppView {
        RadarAppView {
            mac_input: self.mac_input@,
            ip_range: self.ip_range@,
            profile: self.profile,
            prev_profile: self.prev_profile,
            scan_state: self.scan_state@,
            ssh_password: self.ssh_password@,
            ssh_user: self.ssh_user@,
        }
    }
}

impl RadarAppView {
    /// The form after it has caught up with the selected profile: a newly
    /// selected profile fills in its range and its user.
    pub open spec fn sync_profile(self) -> RadarAppView {
        if self.profile != self.prev_profile {
            RadarAppView {
                ip_range: self.profile.spec_default_ip_range(),
                ssh_user: self.profile.spec_default_user(),
                prev_profile: self.profile,
                ..self
            }
        } else {
            self
        }
    }

    /// Whether a press of the scan button starts a scan for the hardware
    /// address `mac`: no scan is running, and the address is not empty.
    pub open spec fn may_scan(self, clicked: bool, mac: Seq<char>) -> bool {
        clicked && !(self.scan_state is Scanning) && mac.len() > 0
    }

    /// Whether a press of the scan button starts a scan: no scan is running,
    /// and the hardware address typed is more than whitespace.
    pub open spec fn scan_requested(self, clicked: bool) -> bool {
        self.may_scan(clicked, trimmed(self.mac_input))
    }

    /// The scanner that the form asks for, given the private key and the
    /// hardware address to look for.
    pub open spec fn scanner(self, key_data: Seq<char>, mac: Seq<char>) -> ScannerView {
        ScannerView {
            config: SshConfigView {
                user: self.ssh_user,
                port: DEFAULT_SSH_PORT,
                auth: AuthenticationView::PrivateKeyMemory {
                    key_data,
                    passphrase: Some(self.ssh_password),
                },
                timeout: PROBE_TIMEOUT_SECS,
            },
            target_mac: mac,
            max_concurrent: MAX_CONCURRENT,
        }
    }

    /// The form after a scan for `mac` was asked for, and the scanner handed
    /// out. With a key that is there and not empty, the form shows the scan
    /// as running. Without, it shows which key is missing, and no scanner is
    /// handed out.
    pub open spec fn begin_scan(self, key_data: Option<Seq<char>>, mac: Seq<char>) -> (
        RadarAppView,
        Option<ScannerView>,
    ) {
        match key_data {
            Some(key) if key.len() > 0 => (
                RadarAppView { scan_state: ScanStateView::Scanning, ..self },
                Some(self.scanner(key, mac)),
            ),
            _ => (
                RadarAppView {
                    scan_state: ScanStateView::Error(missing_key_message(self.profile)),
                    ..self
                },
                None,
            ),
        }
    }
}

impl RadarApp {
    /// The form as it opens: the first profile with its range and its user,
    /// no hardware address, no scan.
    pub fn new(ssh_password: String) -> (r: Self)
        ensures
            r@ == (RadarAppView {
                mac_input: Seq::empty(),
                ip_range: DeviceProfile::HC.spec_default_ip_range(),
                profile: DeviceProfile::HC,
                prev_profile: DeviceProfile::HC,
                scan_state: ScanStateView::Idle,
                ssh_password: ssh_password@,
                ssh_user: DeviceProfile::HC.spec_default_user(),
            }),
    {
        let default_profile = DeviceProfile::HC;
        Self {
            mac_input: String::new(),
            ip_range: String::from_str(default_profile.default_ip_range()),
            profile: default_profile,
            prev_profile: default_profile,
            scan_state: ScanState::Idle,
            ssh_password,
            ssh_user: String::from_str(default_profile.default_user()),
        }
    }

    /// Fills in range and user when the profile was switched.
    pub fn sync_profile(&mut self)
        ensures
            final(self)@ == old(self)@.sync_profile(),
    {
        if self.profile != self.prev_profile {
            self.ip_range = String::from_str(self.profile.default_ip_range());
            self.ssh_user = String::from_str(self.profile.default_user());
            self.prev_profile = self.profile;
        }
    }

    /// Whether a press of the scan button starts a scan for the hardware
    /// address `mac`.
    pub fn may_scan(&self, clicked: bool, mac: &str) -> (r: bool)
        ensures
            r == self@.may_scan(clicked, mac@),
    {
        let scanning = match &self.scan_state {
            ScanState::Scanning => true,
            _ => false,
        };
        clicked && !scanning && !mac.is_empty()
    }

    /// Whether a press of the scan button starts a scan: the hardware
    /// address is taken as typed, without the whitespace around it.
    pub fn scan_requested(&self, clicked: bool) -> (r: bool)
        ensures
            r == self@.scan_requested(clicked),
    {
        self.may_scan(clicked, self.mac_input.as_str().trim())
    }

    /// Starts a scan for the hardware address `mac`. `key_data` is the
    /// private key of the selected profile, if it is to be had.
    pub fn begin_scan(&mut self, key_data: Option<String>, mac: String) -> (r: Option<Scanner>)
        ensures
            final(self)@ == old(self)@.begin_scan(key_data.deep_view(), mac@).0,
            match r {
                Some(scanner) => old(self)@.begin_scan(key_data.deep_view(), mac@).1 == Some(
                    scanner@,
                ),
                None => old(self)@.begin_scan(key_data.deep_view(), mac@).1 is None,
            },
    {
        let key = match key_data {
            Some(key) => key,
            None => String::new(),
        };
        if key.as_str().is_empty() {
            let name = self.profile.env_key_name();
            let mut message = String::from_str("Private key not found in environment variable '");
            message.append(name);
            message.append("'.\nMake sure .env is present and contains ");
            message.append(name);
            message.append(".");
            self.scan_state = ScanState::Error(message);
            return None;
        }
        self.scan_state = ScanState::Scanning;
        let config = SshConfig {
            user: self.ssh_user.clone(),
            port: DEFAULT_SSH_PORT,
            auth: AuthenticationMethod::PrivateKeyMemory {
                key_data: key,
                passphrase: Some(self.ssh_password.clone()),
            },
            timeout: PROBE_TIMEOUT_SECS,
        };
        Some(Scanner::new(config, mac))
    }

    /// Starts a scan from the form: for the hardware address as typed,
    /// without the whitespace around it, over the range as typed, without
    /// the whitespace around it. Hands out the scanner and the range, or
    /// nothing where the key is missing.
    pub fn start_scan(&mut self, key_data: Option<String>) -> (r: Option<(Scanner, String)>)
        ensures
            final(self)@ == old(self)@.begin_scan(
                key_data.deep_view(),
                trimmed(old(self)@.mac_input),
            ).0,
            match r {
                Some((scanner, range)) => {
                    &&& old(self)@.begin_scan(
                        key_data.deep_view(),
                        trimmed(old(self)@.mac_input),
                    ).1 == Some(scanner@)
                    &&& range@ == trimmed(old(self)@.ip_range)
                },
                None => old(self)@.begin_scan(
                    key_data.deep_view(),
                    trimmed(old(self)@.mac_input),
                ).1 is None,
            },
    {
        let mac = String::from_str(self.mac_input.as_str().trim());
        let range = String::from_str(self.ip_range.as_str().trim());
        match self.begin_scan(key_data, mac) {
            Some(scanner) => Some((scanner, range)),
            None => None,
        }
    }

    /// Takes in how the scan ended: with its outcome, or with none where it
    /// ran into its deadline.
    pub fn finish_scan(&mut self, outcome: Option<Result<String, RadarError>>)
        ensures
            final(self)@ == (RadarAppView {
                scan_state: shown_outcome(
                    match outcome {
                        Some(result) => Some(outcome_view(result)),
                        None => None,
                    },
                ),
                ..old(self)@
            }),
    {
        self.scan_state = match outcome {
            Some(Ok(ip)) => ScanState::Found(ip),
            Some(Err(error)) => ScanState::Error(error.message()),
            None => ScanState::Error(String::from_str(SCAN_TIMED_OUT)),
        };
    }
}

/// A scan that ran into its deadline is never shown as any of the errors
/// that a scan can end in: not as not found, and not as any other.
pub proof fn lemma_timeout_is_told_apart(error: RadarErrorView)
    ensures
        shown_outcome(None) != shown_outcome(Some(Err(error))),
        error.message() != SCAN_TIMED_OUT@,
{
    reveal_strlit("Scan timed out after 15 seconds");
    reveal_strlit("SSH connection error to ");
    reveal_strlit("SSH command execution error on ");
    reveal_strlit("Invalid IP range: '");
    reveal_strlit("Private key authentication error: ");
    reveal_strlit("Password authentication error: ");
    reveal_strlit("MAC address '");
    let message = error.message();
    let second = message[1];
    assert(second != 'c');
    assert(SCAN_TIMED_OUT@[1] == 'c');
}

} // verus!
