use imapmaildir::cli::is_nuke_confirmation;
use imapmaildir::config::account::account_file_name;
use imapmaildir::config::auth::PlainAuthConfig;
use imapmaildir::config::{command_line, password_from_output};
use imapmaildir::text::{decimal_string, hex4_string, split_on_spaces, str_eq, trim_end};

#[test]
fn decimal_and_hex_notation() {
    assert_eq!(decimal_string(0), "0");
    assert_eq!(decimal_string(1_234_214), "1234214");
    assert_eq!(decimal_string(u64::MAX), "18446744073709551615");
    assert_eq!(hex4_string(0), "0000");
    assert_eq!(hex4_string(0xbeef), "beef");
    assert_eq!(hex4_string(10), "000a");
}

#[test]
fn trimming_removes_trailing_white_space_only() {
    assert_eq!(trim_end("  secret \n\t"), "  secret");
    assert_eq!(trim_end("secret\u{3000}\u{a0}"), "secret");
    assert_eq!(trim_end(""), "");
    assert_eq!(trim_end("x y"), "x y");
    assert_eq!(password_from_output("hunter2\n"), "hunter2");
}

#[test]
fn splitting_on_spaces_keeps_empty_pieces() {
    assert_eq!(split_on_spaces("pass show mail"), vec!["pass", "show", "mail"]);
    assert_eq!(split_on_spaces("a  b"), vec!["a", "", "b"]);
    assert_eq!(split_on_spaces(""), vec![""]);
    assert_eq!(split_on_spaces(" "), vec!["", ""]);
}

#[test]
fn password_command_is_program_and_arguments() {
    let (program, args) = command_line("pass show mail/account");
    assert_eq!(program, "pass");
    assert_eq!(args, vec!["show", "mail/account"]);
    let config = PlainAuthConfig::new("me".to_string(), "echo secret".to_string());
    assert_eq!(config.user(), "me");
    let (program, args) = config.password_command();
    assert_eq!(program, "echo");
    assert_eq!(args, vec!["secret"]);
}

#[test]
fn text_equality() {
    assert!(str_eq("IDLE", "IDLE"));
    assert!(!str_eq("IDLE", "IDLEX"));
    assert!(!str_eq("idle", "IDLE"));
}

#[test]
fn nuke_needs_a_yes() {
    assert!(is_nuke_confirmation("y\n"));
    assert!(is_nuke_confirmation("Yes\n"));
    assert!(is_nuke_confirmation("YES"));
    assert!(!is_nuke_confirmation("n\n"));
    assert!(!is_nuke_confirmation("yess\n"));
    assert!(!is_nuke_confirmation("\n"));
}

#[test]
fn account_settings_file_name() {
    assert_eq!(account_file_name("work"), "work.toml");
}
