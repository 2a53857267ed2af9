//! The settings of the program.
use vstd::prelude::*;
use std::path::PathBuf;
use crate::text::{has_no_space, join_with_spaces, split_on_spaces, trim_end, trimmed_end_len};

pub mod account;
pub mod auth;
pub mod imapmaildir;

verus! {

/// A filesystem path, carried through unread.
#[verifier::external_type_specification]
#[verifier::external_body]
pub struct ExPathBuf(PathBuf);

/// The program and the arguments of a command line: its words, split at
/// every single space (two spaces in a row give an empty word).
pub fn command_line(cmd: &str) -> (r: (String, Vec<String>))
    ensures
        is_split_command(cmd@, r.0@, r.1@.map_values(|p: String| p@)),
{
    let mut words = split_on_spaces(cmd);
    let ghost all = words@.map_values(|p: String| p@);
    let program = words.remove(0);
    proof {
        assert(all =~= seq![program@] + words@.map_values(|p: String| p@));
        let args = words@.map_values(|p: String| p@);
        assert forall|i: int| 0 <= i < args.len() implies has_no_space(#[trigger] args[i]) by {
            assert(args[i] == all[i + 1]);
        }
    }
    (program, words)
}

/// Whether a program and arguments are the words of a command line: words
/// without spaces that, joined with single spaces, give the line.
pub open spec fn is_split_command(cmd: Seq<char>, program: Seq<char>, args: Seq<Seq<char>>) -> bool {
    &&& join_with_spaces(seq![program] + args) == cmd
    &&& has_no_space(program)
    &&& forall|i: int| 0 <= i < args.len() ==> has_no_space(#[trigger] args[i])
}

/// The password that a password command printed: its output without
/// trailing white space.
pub fn password_from_output(output: &str) -> (r: String)
    ensures
        r@ == output@.subrange(0, trimmed_end_len(output@) as int),
{
    trim_end(output)
}

/// The settings: where state and mail are kept, the account, and the
/// mailboxes to synchronise.
pub struct Config {
    statedir: PathBuf,
    maildir: PathBuf,
    user: String,
    password_cmd: String,
    host: String,
    port: u16,
    mailboxes: Vec<String>,
}

impl Config {
    pub closed spec fn spec_statedir(&self) -> PathBuf {
        self.statedir
    }

    pub closed spec fn spec_maildir(&self) -> PathBuf {
        self.maildir
    }

    pub closed spec fn spec_user(&self) -> Seq<char> {
        self.user@
    }

    pub closed spec fn spec_password_cmd(&self) -> Seq<char> {
        self.password_cmd@
    }

    pub closed spec fn spec_host(&self) -> Seq<char> {
        self.host@
    }

    pub closed spec fn spec_port(&self) -> u16 {
        self.port
    }

    pub closed spec fn spec_mailboxes(&self) -> Seq<String> {
        self.mailboxes@
    }

    /// The settings made of the given parts.
    pub fn new(
        statedir: PathBuf,
        maildir: PathBuf,
        user: String,
        password_cmd: String,
        host: String,
        port: u16,
        mailboxes: Vec<String>,
    ) -> (r: Self)
        ensures
            r.spec_statedir() == statedir,
            r.spec_maildir() == maildir,
            r.spec_user() == user@,
            r.spec_password_cmd() == password_cmd@,
            r.spec_host() == host@,
            r.spec_port() == port,
            r.spec_mailboxes() == mailboxes@,
    {
        Config { statedir, maildir, user, password_cmd, host, port, mailboxes }
    }

    pub fn statedir(&self) -> (r: &PathBuf)
        ensures
            *r == self.spec_statedir(),
    {
        &self.statedir
    }

    pub fn maildir(&self) -> (r: &PathBuf)
        ensures
            *r == self.spec_maildir(),
    {
        &self.maildir
    }

    pub fn user(&self) -> (r: &String)
        ensures
            r@ == self.spec_user(),
    {
        &self.user
    }

    pub fn host(&self) -> (r: &String)
        ensures
            r@ == self.spec_host(),
    {
        &self.host
    }

    pub fn port(&self) -> (r: &u16)
        ensures
            *r == self.spec_port(),
    {
        &self.port
    }

    pub fn mailboxes(&self) -> (r: &Vec<String>)
        ensures
            r@ == self.spec_mailboxes(),
    {
        &self.mailboxes
    }

    /// The program to run for the password, and its arguments.
    pub fn password_command(&self) -> (r: (String, Vec<String>))
        ensures
            is_split_command(self.spec_password_cmd(), r.0@, r.1@.map_values(|p: String| p@)),
    {
        command_line(self.password_cmd.as_str())
    }
}

} // verus!
