//! Where the program keeps its state, its accounts and the mail.
use vstd::prelude::*;
use std::path::PathBuf;

verus! {

/// The directories of the program.
pub struct Config {
    statedir: PathBuf,
    accountsdir: PathBuf,
    maildir: PathBuf,
}

impl Config {
    pub closed spec fn spec_statedir(&self) -> PathBuf {
        self.statedir
    }

    pub closed spec fn spec_accountsdir(&self) -> PathBuf {
        self.accountsdir
    }

    pub closed spec fn spec_maildir(&self) -> PathBuf {
        self.maildir
    }

    /// The settings made of the given directories.
    pub fn new(statedir: PathBuf, accountsdir: PathBuf, maildir: PathBuf) -> (r: Self)
        ensures
            r.spec_statedir() == statedir,
            r.spec_accountsdir() == accountsdir,
            r.spec_maildir() == maildir,
    {
        Config { statedir, accountsdir, maildir }
    }

    pub fn statedir(&self) -> (r: &PathBuf)
        ensures
            *r == self.spec_statedir(),
    {
        &self.statedir
    }

    pub fn accountsdir(&self) -> (r: &PathBuf)
        ensures
            *r == self.spec_accountsdir(),
    {
        &self.accountsdir
    }

    pub fn maildir(&self) -> (r: &PathBuf)
        ensures
            *r == self.spec_maildir(),
    {
        &self.maildir
    }
}

} // verus!
