//! What the command line gives, and the connection configuration it stands
//! for.

use crate::ssh_client::clone_text;
use crate::ssh_client::AuthenticationMethod;
use crate::ssh_client::AuthenticationView;
use crate::ssh_client::SshConfig;
use crate::ssh_client::SshConfigView;
use crate::ssh_client::DEFAULT_SSH_PORT;
use vstd::prelude::*;

verus! {

/// What the command line answers when it is given neither a key nor a
/// password.
pub const MISSING_CREDENTIALS: &'static str =
    "Error: you must provide either --password or --key for SSH authentication.";

/// CLI arguments for the radar-ip tool.
#[derive(Debug, Clone)]
pub struct CliArgs {
    /// Target MAC address to search for (e.g. aa:bb:cc:dd:ee:ff)
    pub target_mac: String,
    /// IP range in CIDR notation (e.g. 192.168.1.0/24)
    pub ip_range: String,
    /// Path to private key file for SSH authentication
    pub key_path: Option<String>,
    /// Password for SSH authentication (also used as key passphrase when a
    /// key is given)
    pub password: Option<String>,
    /// SSH username
    pub user: String,
    /// SSH connection timeout in seconds
    pub timeout_sec: u64,
}

/// The mathematical content of [`CliArgs`].
pub struct CliArgsView {
    pub target_mac: Seq<char>,
    pub ip_range: Seq<char>,
    pub key_path: Option<Seq<char>>,
    pub password: Option<Seq<char>>,
    pub user: Seq<char>,
    pub timeout_sec: u64,
}

impl View for CliArgs {
    type V = CliArgsView;

    open spec fn view(&self) -> CliArgsView {
        CliArgsView {
            target_mac: self.target_mac@,
            ip_range: self.ip_range@,
            key_path: self.key_path.deep_view(),
            password: self.password.deep_view(),
            user: self.user@,
            timeout_sec: self.timeout_sec,
        }
    }
}

impl CliArgsView {
    /// How to authenticate: with the key file if one is given, the password
    /// then being its passphrase; else with the password; with neither, not
    /// at all.
    pub open spec fn auth_method(self) -> Option<AuthenticationView> {
        match (self.key_path, self.password) {
            (Some(path), passphrase) => Some(AuthenticationView::PrivateKey { path, passphrase }),
            (None, Some(password)) => Some(AuthenticationView::Password(password)),
            (None, None) => None,
        }
    }

    /// The connection configuration, where there is a way to authenticate.
    pub open spec fn ssh_config(self) -> Option<SshConfigView> {
        match self.auth_method() {
            Some(auth) => Some(
                SshConfigView {
                    user: self.user,
                    port: DEFAULT_SSH_PORT,
                    auth,
                    timeout: self.timeout_sec,
                },
            ),
            None => None,
        }
    }
}

impl CliArgs {
    /// How to authenticate, or nothing where neither a key nor a password
    /// was given.
    pub fn auth_method(&self) -> (r: Option<AuthenticationMethod>)
        ensures
            match r {
                Some(auth) => self@.auth_method() == Some(auth@),
                None => self@.auth_method() is None,
            },
    {
        match &self.key_path {
            Some(path) => Some(
                AuthenticationMethod::PrivateKey {
                    path: path.clone(),
                    passphrase: clone_text(&self.password),
                },
            ),
            None => match &self.password {
                Some(password) => Some(AuthenticationMethod::Password(password.clone())),
                None => None,
            },
        }
    }

    /// The connection configuration, or nothing where neither a key nor a
    /// password was given.
    pub fn ssh_config(&self) -> (r: Option<SshConfig>)
        ensures
            match r {
                Some(config) => self@.ssh_config() == Some(config@),
                None => self@.ssh_config() is None,
            },
    {
        match self.auth_method() {
            Some(auth) => Some(
                SshConfig {
                    user: self.user.clone(),
                    port: DEFAULT_SSH_PORT,
                    auth,
                    timeout: self.timeout_sec,
                },
            ),
            None => None,
        }
    }
}

} // verus!
