//! The settings of mail accounts, and what they decide about a connection.

use vstd::prelude::*;
use crate::client::{ClientConfig, Plain};

verus! {

/// All settings.
#[derive(Clone, Debug)]
pub struct Config {
    pub version: String,
    /// The directory that mail is stored in.
    pub mail_dir: String,
    /// The path of the database.
    pub db_path: String,
    /// The accounts, by name.
    pub mail_accounts: Vec<(String, MailAccountConfig)>,
}

/// The settings of one account.
#[derive(Clone, Debug)]
pub struct MailAccountConfig {
    pub imap: ImapConfig,
}

/// The settings of an IMAP server.
#[derive(Clone, Debug)]
pub struct ImapConfig {
    /// The host of the server; a host name where TLS is used.
    pub server: String,
    pub port: u16,
    pub tls: TlsMethod,
    pub auth: ImapAuth,
}

/// How to authenticate.
#[derive(Clone, Debug)]
pub enum ImapAuth {
    /// A user name and password.
    Plain { username: String, password: String },
}

/// When the TLS handshake happens.
#[derive(Clone, Copy, Debug, PartialEq, Eq)]
pub enum TlsMethod {
    /// Upon connecting.
    On,
    /// After the STARTTLS command.
    Starttls,
    /// Never.
    Off,
}

impl ImapConfig {
    /// Where and how to connect: TLS at connection time only for [`TlsMethod::On`].
    pub fn client_config(&self) -> (r: ClientConfig)
        ensures
            r.hostname@ == self.server@,
            r.port == self.port,
            r.tls == (self.tls == TlsMethod::On),
    {
        ClientConfig {
            hostname: self.server.clone(),
            port: self.port,
            tls: match self.tls {
                TlsMethod::On => true,
                _ => false,
            },
        }
    }

    /// Whether the connection is upgraded with STARTTLS after the greeting.
    pub fn wants_starttls(&self) -> (r: bool)
        ensures
            r == (self.tls == TlsMethod::Starttls),
    {
        match self.tls {
            TlsMethod::Starttls => true,
            _ => false,
        }
    }

    /// The credentials to log in with.
    pub fn credentials(&self) -> (r: Plain)
        ensures
            (self.auth matches ImapAuth::Plain { username, password } && r.username@ == username@
                && r.password@ == password@),
    {
        match &self.auth {
            ImapAuth::Plain { username, password } => Plain {
                username: username.clone(),
                password: password.clone(),
            },
        }
    }
}

} // verus!
