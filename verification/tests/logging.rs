use imapmaildir::logging::{
    format_panic_info, journal_priority, journal_record, thread_prefix, BacktraceNote, LogLevel,
    PanicLocation,
};

#[test]
fn thread_prefix_adds_a_space() {
    assert_eq!(thread_prefix(Some("INBOX")), "INBOX ");
    assert_eq!(thread_prefix(None), "");
}

#[test]
fn panic_report_with_everything_known() {
    let location = PanicLocation { file: "src/main.rs".to_string(), line: 12, column: 5 };
    let report = format_panic_info(
        Some("INBOX"),
        Some(&location),
        Some("boom"),
        &BacktraceNote::Disabled,
    );
    assert_eq!(
        report,
        "INBOX panicked at src/main.rs:12:5:\nboom\nnote: run with `RUST_BACKTRACE=1` environment variable to display a backtrace"
    );
}

#[test]
fn panic_report_with_nothing_known() {
    let report = format_panic_info(None, None, None, &BacktraceNote::Other);
    assert_eq!(report, "panicked at unknown location:");
}

#[test]
fn panic_report_with_backtrace() {
    let unsupported = format_panic_info(None, None, Some("x"), &BacktraceNote::Unsupported);
    assert_eq!(
        unsupported,
        "panicked at unknown location:\nx\nnote: backtraces unsupported on this machine"
    );
    let captured = format_panic_info(
        None,
        None,
        None,
        &BacktraceNote::Captured("0: main".to_string()),
    );
    assert_eq!(captured, "panicked at unknown location:\n0: main");
}

#[test]
fn journal_priorities() {
    assert_eq!(journal_priority(LogLevel::Error), 3);
    assert_eq!(journal_priority(LogLevel::Warn), 4);
    assert_eq!(journal_priority(LogLevel::Info), 6);
    assert_eq!(journal_priority(LogLevel::Debug), 7);
    assert_eq!(journal_priority(LogLevel::Trace), 7);
}

#[test]
fn journal_record_text() {
    assert_eq!(
        journal_record(LogLevel::Warn, Some("INBOX"), "imapmaildir::sync", "hello"),
        "<4>INBOX imapmaildir::sync: hello"
    );
    assert_eq!(journal_record(LogLevel::Error, None, "t", "m"), "<3>t: m");
}
