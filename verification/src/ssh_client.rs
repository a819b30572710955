//! The probe of one host: how to connect, what the transport may report, and
//! how the hardware addresses are read out of the listing it brings back.
//!
//! The session itself is opened outside this library. What is decided here is
//! what is handed to it (the socket address, the key in its normal form) and
//! what its outcome means.

use crate::errors::RadarError;
use crate::errors::RadarErrorView;
use crate::keys::normalize_key;
use crate::keys::normalized_key;
use crate::text::decimal;
use crate::text::lemma_lower_idempotent;
use crate::text::lower;
use crate::text::push_decimal;
use crate::text::to_lower;
use regex::Regex;
use vstd::prelude::*;
use vstd::string::StringExecFns;

verus! {

/// The port that both front ends connect to.
pub const DEFAULT_SSH_PORT: u16 = 22;

/// The command whose output lists the interfaces of a host.
pub const INSPECTION_COMMAND: &'static str = "ip link show";

/// Finds each hardware address in a text, wherever it stands and whatever
/// stands around it: six groups of two hexadecimal digits, in either case,
/// with colons between them. The address is the first group.
pub const MAC_PATTERN: &'static str = "(?i)([0-9a-f]{2}(?::[0-9a-f]{2}){5})";

/// The detail of the error that is returned should the pattern be refused.
pub const PATTERN_REFUSED: &'static str = "the hardware address pattern was refused";

/// SSH authentication method.
#[derive(Debug)]
pub enum AuthenticationMethod {
    /// Authenticate with a username/password pair.
    Password(String),
    /// Authenticate with a private key file and an optional passphrase.
    PrivateKey { path: String, passphrase: Option<String> },
    /// Authenticate with a private key held in memory.
    PrivateKeyMemory { key_data: String, passphrase: Option<String> },
}

/// The mathematical content of an [`AuthenticationMethod`].
pub enum AuthenticationView {
    Password(Seq<char>),
    PrivateKey { path: Seq<char>, passphrase: Option<Seq<char>> },
    PrivateKeyMemory { key_data: Seq<char>, passphrase: Option<Seq<char>> },
}

impl View for AuthenticationMethod {
    type V = AuthenticationView;

    open spec fn view(&self) -> AuthenticationView {
        match self {
            AuthenticationMethod::Password(password) => AuthenticationView::Password(password@),
            AuthenticationMethod::PrivateKey { path, passphrase } =>
                AuthenticationView::PrivateKey {
                    path: path@,
                    passphrase: passphrase.deep_view(),
                },
            AuthenticationMethod::PrivateKeyMemory { key_data, passphrase } =>
                AuthenticationView::PrivateKeyMemory {
                    key_data: key_data@,
                    passphrase: passphrase.deep_view(),
                },
        }
    }
}

/// A copy of a text that may be absent.
pub(crate) fn clone_text(text: &Option<String>) -> (r: Option<String>)
    ensures
        r.deep_view() == text.deep_view(),
{
    match text {
        Some(text) => Some(text.clone()),
        None => None,
    }
}

impl Clone for AuthenticationMethod {
    fn clone(&self) -> (r: Self)
        ensures
            r@ == self@,
    {
        match self {
            AuthenticationMethod::Password(password) => AuthenticationMethod::Password(
                password.clone(),
            ),
            AuthenticationMethod::PrivateKey { path, passphrase } =>
                AuthenticationMethod::PrivateKey {
                    path: path.clone(),
                    passphrase: clone_text(passphrase),
                },
            AuthenticationMethod::PrivateKeyMemory { key_data, passphrase } =>
                AuthenticationMethod::PrivateKeyMemory {
                    key_data: key_data.clone(),
                    passphrase: clone_text(passphrase),
                },
        }
    }
}

impl AuthenticationView {
    /// The key to be staged for the transport: the key held in memory, in its
    /// normal form. The other methods stage nothing.
    pub open spec fn staged_key(self) -> Option<Seq<char>> {
        match self {
            AuthenticationView::PrivateKeyMemory { key_data, .. } => Some(
                normalized_key(key_data),
            ),
            _ => None,
        }
    }
}

impl AuthenticationMethod {
    /// The key that has to be staged in a short-lived file before the
    /// transport can authenticate with it, in its normal form.
    pub fn staged_key(&self) -> (r: Option<String>)
        ensures
            r.deep_view() == self@.staged_key(),
    {
        match self {
            AuthenticationMethod::PrivateKeyMemory { key_data, .. } => Some(
                normalize_key(key_data.as_str()),
            ),
            _ => None,
        }
    }
}

/// SSH connection configuration.
#[derive(Debug)]
pub struct SshConfig {
    /// Remote username.
    pub user: String,
    /// Remote port (typically 22).
    pub port: u16,
    /// Authentication method.
    pub auth: AuthenticationMethod,
    /// Timeout of connecting and authenticating, in seconds.
    pub timeout: u64,
}

/// The mathematical content of an [`SshConfig`].
pub struct SshConfigView {
    pub user: Seq<char>,
    pub port: u16,
    pub auth: AuthenticationView,
    pub timeout: u64,
}

impl View for SshConfig {
    type V = SshConfigView;

    open spec fn view(&self) -> SshConfigView {
        SshConfigView { user: self.user@, port: self.port, auth: self.auth@, timeout: self.timeout }
    }
}

impl Clone for SshConfig {
    fn clone(&self) -> (r: Self)
        ensures
            r@ == self@,
    {
        SshConfig {
            user: self.user.clone(),
            port: self.port,
            auth: self.auth.clone(),
            timeout: self.timeout,
        }
    }
}

/// Information gathered from a single device.
#[derive(Debug, Clone)]
pub struct DeviceIdentity {
    /// The IP address that was probed.
    pub ip: String,
    /// All hardware addresses found on that host, in lowercase.
    pub mac_list: Vec<String>,
}

/// The mathematical content of a [`DeviceIdentity`].
pub struct DeviceIdentityView {
    pub ip: Seq<char>,
    pub mac_list: Seq<Seq<char>>,
}

impl View for DeviceIdentity {
    type V = DeviceIdentityView;

    open spec fn view(&self) -> DeviceIdentityView {
        DeviceIdentityView { ip: self.ip@, mac_list: self.mac_list.deep_view() }
    }
}

/// The error of the regex crate: a pattern that is no regular expression, or
/// one that compiles to more than the crate's size limit.
#[verifier::external_type_specification]
#[verifier::external_body]
pub struct ExRegexError(regex::Error);

/// What the regex crate finds with a pattern in a text: for each match, from
/// left to right and without overlap, the part of the text that the first
/// group took, or nothing where the group took no part in the match. The
/// whole is nothing where the crate refuses the pattern.
pub uninterp spec fn regex_first_groups(pattern: Seq<char>, text: Seq<char>) -> Option<
    Seq<Option<Seq<char>>>,
>;

/// regex's `Regex::new` on the pattern, then `Regex::captures_iter` on the
/// text, with `Captures::get(1)` of each match handed out as a string.
#[verifier::external_body]
fn find_first_groups(pattern: &str, text: &str) -> (r: Result<Vec<Option<String>>, regex::Error>)
    ensures
        match r {
            Ok(groups) => regex_first_groups(pattern@, text@) == Some(groups.deep_view()),
            Err(_) => regex_first_groups(pattern@, text@) is None,
        },
{
    let re = Regex::new(pattern)?;
    Ok(re.captures_iter(text).map(|found| found.get(1).map(|m| m.as_str().to_string())).collect())
}

/// The hardware addresses that a list of found groups stands for: the groups
/// that are there, each in lowercase, in the order found.
pub open spec fn addresses_of(groups: Seq<Option<Seq<char>>>) -> Seq<Seq<char>>
    decreases groups.len(),
{
    if groups.len() == 0 {
        Seq::empty()
    } else {
        match groups.last() {
            Some(group) => addresses_of(groups.drop_last()).push(lower(group)),
            None => addresses_of(groups.drop_last()),
        }
    }
}

/// The hardware addresses that a listing reports, or nothing where the
/// pattern is refused.
pub open spec fn listed_addresses(output: Seq<char>) -> Option<Seq<Seq<char>>> {
    match regex_first_groups(MAC_PATTERN@, output) {
        Some(groups) => Some(addresses_of(groups)),
        None => None,
    }
}

impl DeviceIdentityView {
    /// Whether the host carries the hardware address.
    pub open spec fn has_mac(self, mac: Seq<char>) -> bool {
        self.mac_list.contains(mac)
    }
}

impl DeviceIdentity {
    /// The identity of the host at `ip` whose listing gave these groups.
    pub fn from_captures(ip: &str, groups: Vec<Option<String>>) -> (r: DeviceIdentity)
        ensures
            r@ == (DeviceIdentityView { ip: ip@, mac_list: addresses_of(groups.deep_view()) }),
    {
        let mut mac_list: Vec<String> = Vec::new();
        let mut i: usize = 0;
        while i < groups.len()
            invariant
                i <= groups.len(),
                mac_list.deep_view() == addresses_of(groups.deep_view().take(i as int)),
            decreases groups.len() - i,
        {
            assert(groups.deep_view().take(i + 1).drop_last() =~= groups.deep_view().take(
                i as int,
            ));
            match &groups[i] {
                Some(group) => {
                    let mac = to_lower(group.as_str());
                    mac_list.push(mac);
                },
                None => {},
            }
            i = i + 1;
        }
        assert(groups.deep_view().take(groups.len() as int) =~= groups.deep_view());
        DeviceIdentity { ip: String::from_str(ip), mac_list }
    }

    /// Reads the listing that the host at `ip` gave with a pattern whose
    /// first group is the hardware address. A pattern that the regex crate
    /// refuses is an error; a listing in which it finds nothing is not.
    pub fn read_listing(ip: &str, output: &str, pattern: &str) -> (r: Result<
        DeviceIdentity,
        RadarError,
    >)
        ensures
            match r {
                Ok(identity) => regex_first_groups(pattern@, output@) matches Some(groups)
                    && identity@ == (DeviceIdentityView {
                    ip: ip@,
                    mac_list: addresses_of(groups),
                }),
                Err(e) => regex_first_groups(pattern@, output@) is None && e@
                    == RadarErrorView::CommandExecution(ip@, PATTERN_REFUSED@),
            },
    {
        match find_first_groups(pattern, output) {
            Ok(groups) => Ok(DeviceIdentity::from_captures(ip, groups)),
            Err(_) => Err(
                RadarError::CommandExecution(
                    String::from_str(ip),
                    String::from_str(PATTERN_REFUSED),
                ),
            ),
        }
    }

    /// Whether the host carries the hardware address, written exactly as
    /// the list holds it.
    pub fn has_mac(&self, mac: &str) -> (r: bool)
        ensures
            r == self@.has_mac(mac@),
    {
        let wanted = String::from_str(mac);
        let mut i: usize = 0;
        while i < self.mac_list.len()
            invariant
                i <= self.mac_list.len(),
                wanted@ == mac@,
                forall|k: int| 0 <= k < i ==> self.mac_list.deep_view()[k] != mac@,
            decreases self.mac_list.len() - i,
        {
            assert(self.mac_list.deep_view()[i as int] == self.mac_list[i as int]@);
            if self.mac_list[i] == wanted {
                return true;
            }
            i = i + 1;
        }
        false
    }
}

/// What the transport may report instead of a listing.
#[derive(Debug, Clone)]
pub enum TransportFailure {
    /// The address of the host resolved to nothing.
    Unresolved,
    /// Resolving, connecting, arming the timeout, opening the session or the
    /// handshake failed, with the transport's own words.
    Connection(String),
    /// The short-lived key file could not be created.
    KeyFileCreate(String),
    /// The key could not be written into the short-lived file.
    KeyFileWrite(String),
    /// The short-lived key file could not be flushed.
    KeyFileFlush(String),
    /// The host refused the credentials, with the transport's own words.
    Authentication(String),
    /// The credentials were taken, and yet the session is not authenticated.
    NotAuthenticated,
    /// Opening the channel, starting the command or reading its output failed.
    Command(String),
}

/// The mathematical content of a [`TransportFailure`].
pub enum TransportFailureView {
    Unresolved,
    Connection(Seq<char>),
    KeyFileCreate(Seq<char>),
    KeyFileWrite(Seq<char>),
    KeyFileFlush(Seq<char>),
    Authentication(Seq<char>),
    NotAuthenticated,
    Command(Seq<char>),
}

impl View for TransportFailure {
    type V = TransportFailureView;

    open spec fn view(&self) -> TransportFailureView {
        match self {
            TransportFailure::Unresolved => TransportFailureView::Unresolved,
            TransportFailure::Connection(detail) => TransportFailureView::Connection(detail@),
            TransportFailure::KeyFileCreate(detail) => TransportFailureView::KeyFileCreate(
                detail@,
            ),
            TransportFailure::KeyFileWrite(detail) => TransportFailureView::KeyFileWrite(detail@),
            TransportFailure::KeyFileFlush(detail) => TransportFailureView::KeyFileFlush(detail@),
            TransportFailure::Authentication(detail) => TransportFailureView::Authentication(
                detail@,
            ),
            TransportFailure::NotAuthenticated => TransportFailureView::NotAuthenticated,
            TransportFailure::Command(detail) => TransportFailureView::Command(detail@),
        }
    }
}

impl SshConfigView {
    /// The text of the socket address of a host: the host, a colon, the port.
    pub open spec fn socket_address(self, ip: Seq<char>) -> Seq<char> {
        ip.push(':') + decimal(self.port as nat)
    }

    /// The error that a failure of the transport on the host at `ip` is
    /// reported as. A refusal of the credentials is laid to the password or
    /// to the private key, whichever the configuration authenticates with.
    pub open spec fn failure(self, ip: Seq<char>, failure: TransportFailureView) -> RadarErrorView {
        match failure {
            TransportFailureView::Unresolved => RadarErrorView::SshConnection(
                ip,
                "could not resolve address"@,
            ),
            TransportFailureView::Connection(detail) => RadarErrorView::SshConnection(ip, detail),
            TransportFailureView::KeyFileCreate(detail) => RadarErrorView::PrivateKey(
                "temp file: "@ + detail,
            ),
            TransportFailureView::KeyFileWrite(detail) => RadarErrorView::PrivateKey(
                "write temp: "@ + detail,
            ),
            TransportFailureView::KeyFileFlush(detail) => RadarErrorView::PrivateKey(
                "flush temp: "@ + detail,
            ),
            TransportFailureView::Authentication(detail) => if self.auth is Password {
                RadarErrorView::Password(detail)
            } else {
                RadarErrorView::PrivateKey(detail)
            },
            TransportFailureView::NotAuthenticated => RadarErrorView::SshConnection(
                ip,
                "authentication failed"@,
            ),
            TransportFailureView::Command(detail) => RadarErrorView::CommandExecution(ip, detail),
        }
    }
}

impl SshConfig {
    /// The text of the socket address to connect to for the host at `ip`.
    pub fn socket_address(&self, ip: &str) -> (r: String)
        ensures
            r@ == self@.socket_address(ip@),
    {
        let mut out = String::from_str(ip);
        out.push(':');
        push_decimal(&mut out, self.port as u32);
        out
    }

    /// The error that a failure of the transport on the host at `ip` is
    /// reported as.
    pub fn failure(&self, ip: &str, failure: TransportFailure) -> (r: RadarError)
        ensures
            r@ == self@.failure(ip@, failure@),
    {
        match failure {
            TransportFailure::Unresolved => RadarError::SshConnection(
                String::from_str(ip),
                String::from_str("could not resolve address"),
            ),
            TransportFailure::Connection(detail) => RadarError::SshConnection(
                String::from_str(ip),
                detail,
            ),
            TransportFailure::KeyFileCreate(detail) => RadarError::PrivateKey(
                String::from_str("temp file: ").concat(detail.as_str()),
            ),
            TransportFailure::KeyFileWrite(detail) => RadarError::PrivateKey(
                String::from_str("write temp: ").concat(detail.as_str()),
            ),
            TransportFailure::KeyFileFlush(detail) => RadarError::PrivateKey(
                String::from_str("flush temp: ").concat(detail.as_str()),
            ),
            TransportFailure::Authentication(detail) => match &self.auth {
                AuthenticationMethod::Password(_) => RadarError::Password(detail),
                _ => RadarError::PrivateKey(detail),
            },
            TransportFailure::NotAuthenticated => RadarError::SshConnection(
                String::from_str(ip),
                String::from_str("authentication failed"),
            ),
            TransportFailure::Command(detail) => RadarError::CommandExecution(
                String::from_str(ip),
                detail,
            ),
        }
    }

    /// Reads the hardware addresses out of what the host at `ip` answered:
    /// every part of the text that is a hardware address, whatever stands
    /// before or after it, in lowercase and in the order found. A text
    /// without any address gives an identity with an empty list. Only a
    /// refusal of the pattern itself is an error.
    pub fn fetch_macs(&self, ip: &str, output: &str) -> (r: Result<DeviceIdentity, RadarError>)
        ensures
            match r {
                Ok(identity) => listed_addresses(output@) == Some(identity@.mac_list)
                    && identity@.ip == ip@,
                Err(e) => listed_addresses(output@) is None && e@
                    == RadarErrorView::CommandExecution(ip@, PATTERN_REFUSED@),
            },
    {
        DeviceIdentity::read_listing(ip, output, MAC_PATTERN)
    }
}

/// Every group that was found gives an address: its lowercase form is
/// listed.
pub proof fn lemma_found_group_is_listed(groups: Seq<Option<Seq<char>>>, at: int)
    requires
        0 <= at < groups.len(),
        groups[at] is Some,
    ensures
        addresses_of(groups).contains(lower(groups[at]->0)),
    decreases groups.len(),
{
    let init = addresses_of(groups.drop_last());
    if at == groups.len() - 1 {
        assert(addresses_of(groups) == init.push(lower(groups[at]->0)));
        assert(addresses_of(groups).last() == lower(groups[at]->0));
    } else {
        lemma_found_group_is_listed(groups.drop_last(), at);
        let k = choose|k: int| 0 <= k < init.len() && init[k] == lower(groups[at]->0);
        assert(addresses_of(groups)[k] == lower(groups[at]->0));
    }
}

/// Every listed address is the lowercase form of a group that was found, and
/// is in lowercase itself.
pub proof fn lemma_listed_comes_from_group(groups: Seq<Option<Seq<char>>>, at: int)
    requires
        0 <= at < addresses_of(groups).len(),
    ensures
        exists|k: int|
            0 <= k < groups.len() && #[trigger] groups[k] == Some(groups[k]->0) && lower(
                groups[k]->0,
            ) == addresses_of(groups)[at],
        lower(addresses_of(groups)[at]) == addresses_of(groups)[at],
    decreases groups.len(),
{
    let init = addresses_of(groups.drop_last());
    let last = groups.len() - 1;
    if groups[last] is Some && at == addresses_of(groups).len() - 1 {
        assert(groups[last] == Some(groups[last]->0));
        lemma_lower_idempotent(groups[last]->0);
    } else {
        lemma_listed_comes_from_group(groups.drop_last(), at);
        let k = choose|k: int|
            0 <= k < groups.drop_last().len() && #[trigger] groups.drop_last()[k] == Some(
                groups.drop_last()[k]->0,
            ) && lower(groups.drop_last()[k]->0) == init[at];
        assert(groups[k] == Some(groups[k]->0));
    }
}

} // verus!
