//! The command line: what the user asks the program to do.
use vstd::prelude::*;
use log::LevelFilter;
use crate::text::{chars_of, str_eq};

verus! {

/// A log level, carried through unread.
#[verifier::external_type_specification]
#[verifier::external_body]
pub struct ExLevelFilter(LevelFilter);

/// The parsed command line.
pub struct Cli {
    command: Command,
    account: String,
    log_level: LevelFilter,
}

/// What to do.
pub enum Command {
    /// `rm -rf` the configured account (WARNING: includes all mails)
    Nuke(NukeArgs),
    Sync(SyncArgs),
}

/// The options of `nuke`.
pub struct NukeArgs {
    yes: bool,
}

/// The options of `sync`.
pub struct SyncArgs {
    mailbox: Option<String>,
    idle: bool,
}

impl Cli {
    pub closed spec fn spec_account(&self) -> Seq<char> {
        self.account@
    }

    pub closed spec fn spec_command(&self) -> &Command {
        &self.command
    }

    pub closed spec fn spec_log_level(&self) -> LevelFilter {
        self.log_level
    }

    pub fn new(command: Command, account: String, log_level: LevelFilter) -> (r: Self)
        ensures
            r.spec_account() == account@,
            *r.spec_command() == command,
            r.spec_log_level() == log_level,
    {
        Cli { command, account, log_level }
    }

    pub fn command(&self) -> (r: &Command)
        ensures
            *r == *self.spec_command(),
    {
        &self.command
    }

    pub fn account(&self) -> (r: &String)
        ensures
            r@ == self.spec_account(),
    {
        &self.account
    }

    pub fn log_level(&self) -> (r: &LevelFilter)
        ensures
            *r == self.spec_log_level(),
    {
        &self.log_level
    }
}

impl NukeArgs {
    pub closed spec fn spec_yes(&self) -> bool {
        self.yes
    }

    pub fn new(yes: bool) -> (r: Self)
        ensures
            r.spec_yes() == yes,
    {
        NukeArgs { yes }
    }

    /// Whether the user confirmed on the command line already.
    pub fn yes(&self) -> (r: bool)
        ensures
            r == self.spec_yes(),
    {
        self.yes
    }
}

impl SyncArgs {
    pub closed spec fn spec_mailbox(&self) -> Option<String> {
        self.mailbox
    }

    pub closed spec fn spec_idle(&self) -> bool {
        self.idle
    }

    pub fn new(mailbox: Option<String>, idle: bool) -> (r: Self)
        ensures
            r.spec_mailbox() == mailbox,
            r.spec_idle() == idle,
    {
        SyncArgs { mailbox, idle }
    }

    /// The one mailbox to synchronise, if not all.
    pub fn mailbox(&self) -> (r: &Option<String>)
        ensures
            *r == self.spec_mailbox(),
    {
        &self.mailbox
    }

    /// Whether to wait for changes after synchronising.
    pub fn idle(&self) -> (r: bool)
        ensures
            r == self.spec_idle(),
    {
        self.idle
    }
}

/// The ASCII lowercase of a character.
pub open spec fn ascii_lower(c: char) -> char {
    if 'A' <= c <= 'Z' {
        ((c as u32) + 32) as char
    } else {
        c
    }
}

/// Whether an answer to `[Y]es/[N]o?` says yes: `y` or `yes` in any case of
/// ASCII letters, followed by the line break that ends the answer.
pub open spec fn says_yes(answer: Seq<char>) -> bool {
    let line = if answer.len() > 0 && answer.last() == '\n' {
        answer.drop_last()
    } else {
        answer
    };
    let line = if line.len() > 0 && line.last() == '\r' {
        line.drop_last()
    } else {
        line
    };
    let lower = line.map_values(|c: char| ascii_lower(c));
    lower == "y"@ || lower == "yes"@
}

/// Whether the user's answer confirms that the account is to be nuked.
pub fn is_nuke_confirmation(answer: &str) -> (r: bool)
    ensures
        r == says_yes(answer@),
{
    let chars = chars_of(answer);
    let mut end = chars.len();
    if end > 0 && chars[end - 1] == '\n' {
        end = end - 1;
    }
    if end > 0 && chars[end - 1] == '\r' {
        end = end - 1;
    }
    let mut lower = String::new();
    let mut k: usize = 0;
    while k < end
        invariant
            k <= end <= chars@.len(),
            lower@ == chars@.subrange(0, k as int).map_values(|c: char| ascii_lower(c)),
        decreases end - k,
    {
        let c = chars[k];
        let l = if 'A' <= c && c <= 'Z' {
            (((c as u32) + 32) as u8) as char
        } else {
            c
        };
        assert(l == ascii_lower(c));
        crate::text::string_push(&mut lower, l);
        k = k + 1;
        assert(lower@ =~= chars@.subrange(0, k as int).map_values(|c: char| ascii_lower(c)));
    }
    proof {
        let a = answer@;
        let line1 = if a.len() > 0 && a.last() == '\n' {
            a.drop_last()
        } else {
            a
        };
        let line2 = if line1.len() > 0 && line1.last() == '\r' {
            line1.drop_last()
        } else {
            line1
        };
        assert(line2 =~= chars@.subrange(0, end as int));
    }
    str_eq(lower.as_str(), "y") || str_eq(lower.as_str(), "yes")
}

} // verus!
