//! The settings of one account.
use vstd::prelude::*;
use std::path::PathBuf;
use crate::config::auth::AuthConfig;

verus! {

/// Where the account's server is, and the certificate to trust it by.
pub struct Connection {
    host: String,
    port: u16,
    server_certificate_file: Option<PathBuf>,
}

impl Connection {
    pub closed spec fn spec_host(&self) -> Seq<char> {
        self.host@
    }

    pub closed spec fn spec_port(&self) -> u16 {
        self.port
    }

    pub closed spec fn spec_server_certificate_file(&self) -> Option<PathBuf> {
        self.server_certificate_file
    }

    pub fn new(host: String, port: u16, server_certificate_file: Option<PathBuf>) -> (r: Self)
        ensures
            r.spec_host() == host@,
            r.spec_port() == port,
            r.spec_server_certificate_file() == server_certificate_file,
    {
        Connection { host, port, server_certificate_file }
    }

    pub fn host(&self) -> (r: &String)
        ensures
            r@ == self.spec_host(),
    {
        &self.host
    }

    pub fn port(&self) -> (r: u16)
        ensures
            r == self.spec_port(),
    {
        self.port
    }

    pub fn server_certificate_file(&self) -> (r: &Option<PathBuf>)
        ensures
            *r == self.spec_server_certificate_file(),
    {
        &self.server_certificate_file
    }
}

/// An account: how to log in, where the server is, which mailboxes to
/// synchronise, and where to keep mail and state.
pub struct Account {
    auth: AuthConfig,
    connection: Connection,
    mailboxes: Vec<String>,
    maildir_base_path: PathBuf,
    state_dir: PathBuf,
}

impl Account {
    pub closed spec fn spec_mailboxes(&self) -> Seq<String> {
        self.mailboxes@
    }

    pub closed spec fn spec_auth(&self) -> &AuthConfig {
        &self.auth
    }

    pub closed spec fn spec_connection(&self) -> &Connection {
        &self.connection
    }

    pub closed spec fn spec_maildir_base_path(&self) -> PathBuf {
        self.maildir_base_path
    }

    pub closed spec fn spec_state_dir(&self) -> PathBuf {
        self.state_dir
    }

    pub fn new(
        auth: AuthConfig,
        host: String,
        port: u16,
        server_certificate_file: Option<PathBuf>,
        mailboxes: Vec<String>,
        maildir_base_path: PathBuf,
        state_dir: PathBuf,
    ) -> (r: Self)
        ensures
            r.spec_mailboxes() == mailboxes@,
            *r.spec_auth() == auth,
            r.spec_connection().spec_host() == host@,
            r.spec_connection().spec_port() == port,
            r.spec_connection().spec_server_certificate_file() == server_certificate_file,
            r.spec_maildir_base_path() == maildir_base_path,
            r.spec_state_dir() == state_dir,
    {
        Account {
            auth,
            connection: Connection::new(host, port, server_certificate_file),
            mailboxes,
            maildir_base_path,
            state_dir,
        }
    }

    pub fn auth(&self) -> (r: &AuthConfig)
        ensures
            *r == *self.spec_auth(),
    {
        &self.auth
    }

    pub fn connection(&self) -> (r: &Connection)
        ensures
            *r == *self.spec_connection(),
    {
        &self.connection
    }

    pub fn mailboxes(&self) -> (r: &Vec<String>)
        ensures
            r@ == self.spec_mailboxes(),
    {
        &self.mailboxes
    }

    pub fn maildir_base_path(&self) -> (r: &PathBuf)
        ensures
            *r == self.spec_maildir_base_path(),
    {
        &self.maildir_base_path
    }

    pub fn state_dir(&self) -> (r: &PathBuf)
        ensures
            *r == self.spec_state_dir(),
    {
        &self.state_dir
    }
}

/// The name of the settings file of an account: its name and `.toml`.
pub fn account_file_name(account: &str) -> (r: String)
    ensures
        r@ == account@ + ".toml"@,
{
    let mut name = String::from_str(account);
    name.append(".toml");
    name
}

} // verus!
