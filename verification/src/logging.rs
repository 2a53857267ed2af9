//! The text of log records and panic reports.
use vstd::prelude::*;

use crate::text::{decimal, decimal_string, string_push};

verus! {

/// What a captured backtrace turned out to be.
pub enum BacktraceNote {
    /// Backtraces cannot be taken on this machine.
    Unsupported,
    /// Backtraces are switched off.
    Disabled,
    /// A backtrace was taken; its text.
    Captured(String),
    /// Any other state: nothing to add.
    Other,
}

/// Where a panic happened.
pub struct PanicLocation {
    pub file: String,
    pub line: u32,
    pub column: u32,
}

/// The severity of a log record.
#[derive(Clone, Copy, Debug, PartialEq, Eq, Structural)]
pub enum LogLevel {
    Error,
    Warn,
    Info,
    Debug,
    Trace,
}

/// The thread's name and a space, or nothing for a thread without a name.
pub open spec fn thread_prefix_text(name: Option<Seq<char>>) -> Seq<char> {
    match name {
        Some(n) => n + " "@,
        None => Seq::empty(),
    }
}

/// `file:line:column`.
pub open spec fn location_text(file: Seq<char>, line: u32, column: u32) -> Seq<char> {
    file + ":"@ + decimal(line as nat) + ":"@ + decimal(column as nat)
}

/// The line that says how to get a backtrace, or the backtrace itself.
pub open spec fn backtrace_text(note: BacktraceNote) -> Seq<char> {
    match note {
        BacktraceNote::Unsupported => "\nnote: backtraces unsupported on this machine"@,
        BacktraceNote::Disabled =>
            "\nnote: run with `RUST_BACKTRACE=1` environment variable to display a backtrace"@,
        BacktraceNote::Captured(t) => "\n"@ + t@,
        BacktraceNote::Other => Seq::empty(),
    }
}

/// The whole panic report: `{thread}panicked at {location}:{payload}{backtrace}`.
pub open spec fn panic_report_text(
    thread_name: Option<Seq<char>>,
    location: Option<(Seq<char>, u32, u32)>,
    payload: Option<Seq<char>>,
    backtrace: BacktraceNote,
) -> Seq<char> {
    let loc = match location {
        Some((f, l, c)) => location_text(f, l, c),
        None => "unknown location"@,
    };
    let pay = match payload {
        Some(p) => "\n"@ + p,
        None => Seq::empty(),
    };
    thread_prefix_text(thread_name) + "panicked at "@ + loc + ":"@ + pay + backtrace_text(
        backtrace,
    )
}

pub open spec fn opt_view(s: Option<&str>) -> Option<Seq<char>> {
    match s {
        Some(t) => Some(t@),
        None => None,
    }
}

pub open spec fn location_view(l: Option<&PanicLocation>) -> Option<(Seq<char>, u32, u32)> {
    match l {
        Some(loc) => Some((loc.file@, loc.line, loc.column)),
        None => None,
    }
}

/// The thread's name followed by a space; empty when the thread has no name.
pub fn thread_prefix(name: Option<&str>) -> (r: String)
    ensures
        r@ == thread_prefix_text(opt_view(name)),
{
    match name {
        Some(n) => {
            let mut s = String::from_str(n);
            string_push(&mut s, ' ');
            proof {
                reveal_strlit(" ");
                assert(s@ =~= n@ + " "@);
            }
            s
        },
        None => String::new(),
    }
}

/// The report written when a thread panics.
pub fn format_panic_info(
    thread_name: Option<&str>,
    location: Option<&PanicLocation>,
    payload: Option<&str>,
    backtrace: &BacktraceNote,
) -> (r: String)
    ensures
        r@ == panic_report_text(
            opt_view(thread_name),
            location_view(location),
            opt_view(payload),
            *backtrace,
        ),
{
    proof {
        reveal_strlit(":");
        reveal_strlit("\n");
    }
    let mut s = thread_prefix(thread_name);
    s.append("panicked at ");
    let ghost head = s@;
    match location {
        Some(loc) => {
            s.append(loc.file.as_str());
            string_push(&mut s, ':');
            let l = decimal_string(loc.line as u64);
            s.append(l.as_str());
            string_push(&mut s, ':');
            let c = decimal_string(loc.column as u64);
            s.append(c.as_str());
            assert(s@ =~= head + location_text(loc.file@, loc.line, loc.column));
        },
        None => {
            s.append("unknown location");
        },
    }
    let ghost loc = match location {
        Some(l) => location_text(l.file@, l.line, l.column),
        None => "unknown location"@,
    };
    assert(s@ =~= head + loc);
    string_push(&mut s, ':');
    let ghost mid = s@;
    if let Some(p) = payload {
        string_push(&mut s, '\n');
        s.append(p);
        assert(s@ =~= mid + ("\n"@ + p@));
    }
    let ghost pay = match payload {
        Some(p) => "\n"@ + p@,
        None => Seq::<char>::empty(),
    };
    assert(s@ =~= mid + pay);
    let ghost before_trace = s@;
    match backtrace {
        BacktraceNote::Unsupported => {
            s.append("\nnote: backtraces unsupported on this machine");
        },
        BacktraceNote::Disabled => {
            s.append(
                "\nnote: run with `RUST_BACKTRACE=1` environment variable to display a backtrace",
            );
        },
        BacktraceNote::Captured(t) => {
            string_push(&mut s, '\n');
            s.append(t.as_str());
            assert(s@ =~= before_trace + ("\n"@ + t@));
        },
        BacktraceNote::Other => {},
    }
    proof {
        reveal_strlit("panicked at ");
        reveal_strlit("unknown location");
        reveal_strlit("\nnote: backtraces unsupported on this machine");
        reveal_strlit(
            "\nnote: run with `RUST_BACKTRACE=1` environment variable to display a backtrace",
        );
        assert(s@ =~= before_trace + backtrace_text(*backtrace));
        assert(head =~= thread_prefix_text(opt_view(thread_name)) + "panicked at "@);
    }
    s
}

/// The syslog priority the journal gives a record of `level`.
pub open spec fn journal_priority_spec(level: LogLevel) -> u8 {
    match level {
        LogLevel::Error => 3,
        LogLevel::Warn => 4,
        LogLevel::Info => 6,
        LogLevel::Debug | LogLevel::Trace => 7,
    }
}

/// The syslog priority of a record of `level`: error 3, warning 4, info 6, the rest 7.
pub fn journal_priority(level: LogLevel) -> (r: u8)
    ensures
        r == journal_priority_spec(level),
{
    match level {
        LogLevel::Error => 3,
        LogLevel::Warn => 4,
        LogLevel::Info => 6,
        LogLevel::Debug | LogLevel::Trace => 7,
    }
}

/// A record as the journal takes it: `<priority>{thread }target: message`.
pub fn journal_record(
    level: LogLevel,
    thread_name: Option<&str>,
    target: &str,
    message: &str,
) -> (r: String)
    ensures
        r@ == "<"@ + decimal(journal_priority_spec(level) as nat) + ">"@ + thread_prefix_text(
            opt_view(thread_name),
        ) + target@ + ": "@ + message@,
{
    proof {
        reveal_strlit("<");
        reveal_strlit(">");
    }
    let mut s = String::new();
    string_push(&mut s, '<');
    let p = decimal_string(journal_priority(level) as u64);
    s.append(p.as_str());
    string_push(&mut s, '>');
    let t = thread_prefix(thread_name);
    s.append(t.as_str());
    s.append(target);
    s.append(": ");
    s.append(message);
    proof {
        reveal_strlit(": ");
    }
    s
}

} // verus!
