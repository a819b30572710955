//! The errors a scan can end in, and the text each one is shown as.

use vstd::prelude::*;
use vstd::string::StringExecFns;

verus! {

/// All domain-level errors of the scanner.
#[derive(Debug, Clone)]
pub enum RadarError {
    /// The connection to a host could not be set up: host, then detail.
    SshConnection(String, String),
    /// The inspection command could not be run on a host: host, then detail.
    CommandExecution(String, String),
    /// The given text is not an IPv4 network in CIDR notation.
    InvalidIpRange(String),
    /// Authentication with a private key was refused.
    PrivateKey(String),
    /// Authentication with a password was refused.
    Password(String),
    /// No host of the scanned range carries the hardware address.
    MacNotFound(String),
}

/// The mathematical content of a [`RadarError`]: the variant and its texts.
pub enum RadarErrorView {
    SshConnection(Seq<char>, Seq<char>),
    CommandExecution(Seq<char>, Seq<char>),
    InvalidIpRange(Seq<char>),
    PrivateKey(Seq<char>),
    Password(Seq<char>),
    MacNotFound(Seq<char>),
}

impl View for RadarError {
    type V = RadarErrorView;

    open spec fn view(&self) -> RadarErrorView {
        match self {
            RadarError::SshConnection(host, detail) => RadarErrorView::SshConnection(
                host@,
                detail@,
            ),
            RadarError::CommandExecution(host, detail) => RadarErrorView::CommandExecution(
                host@,
                detail@,
            ),
            RadarError::InvalidIpRange(range) => RadarErrorView::InvalidIpRange(range@),
            RadarError::PrivateKey(detail) => RadarErrorView::PrivateKey(detail@),
            RadarError::Password(detail) => RadarErrorView::Password(detail@),
            RadarError::MacNotFound(mac) => RadarErrorView::MacNotFound(mac@),
        }
    }
}

impl RadarErrorView {
    /// The text the error is shown as.
    pub open spec fn message(self) -> Seq<char> {
        match self {
            RadarErrorView::SshConnection(host, detail) => "SSH connection error to "@ + host
                + ": "@ + detail,
            RadarErrorView::CommandExecution(host, detail) =>
                "SSH command execution error on "@ + host + ": "@ + detail,
            RadarErrorView::InvalidIpRange(range) => "Invalid IP range: '"@ + range + "'"@,
            RadarErrorView::PrivateKey(detail) => "Private key authentication error: "@ + detail,
            RadarErrorView::Password(detail) => "Password authentication error: "@ + detail,
            RadarErrorView::MacNotFound(mac) => "MAC address '"@ + mac
                + "' not found on any host in the scanned range"@,
        }
    }

    /// Whether the error belongs to one host only and leaves the scan running:
    /// a connection, authentication or command failure.
    pub open spec fn is_per_host(self) -> bool {
        !(self is InvalidIpRange) && !(self is MacNotFound)
    }
}

impl RadarError {
    /// The text the error is shown as.
    pub fn message(&self) -> (r: String)
        ensures
            r@ == self@.message(),
    {
        match self {
            RadarError::SshConnection(host, detail) => {
                let mut s = String::from_str("SSH connection error to ");
                s.append(host.as_str());
                s.append(": ");
                s.append(detail.as_str());
                s
            },
            RadarError::CommandExecution(host, detail) => {
                let mut s = String::from_str("SSH command execution error on ");
                s.append(host.as_str());
                s.append(": ");
                s.append(detail.as_str());
                s
            },
            RadarError::InvalidIpRange(range) => {
                let mut s = String::from_str("Invalid IP range: '");
                s.append(range.as_str());
                s.append("'");
                s
            },
            RadarError::PrivateKey(detail) => {
                let mut s = String::from_str("Private key authentication error: ");
                s.append(detail.as_str());
                s
            },
            RadarError::Password(detail) => {
                let mut s = String::from_str("Password authentication error: ");
                s.append(detail.as_str());
                s
            },
            RadarError::MacNotFound(mac) => {
                let mut s = String::from_str("MAC address '");
                s.append(mac.as_str());
                s.append("' not found on any host in the scanned range");
                s
            },
        }
    }

    /// Whether the error belongs to one host only and leaves the scan running.
    pub fn is_per_host(&self) -> (r: bool)
        ensures
            r == self@.is_per_host(),
    {
        match self {
            RadarError::InvalidIpRange(_) => false,
            RadarError::MacNotFound(_) => false,
            _ => true,
        }
    }
}

} // verus!
