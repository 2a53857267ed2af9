use imapmaildir::client::can_idle;
use imapmaildir::client::tag_generator::TagGenerator as ByteTags;
use imapmaildir::imap::client::auth::client::{login_command, login_outcome, LoginError};
use imapmaildir::imap::client::capability::{
    AuthCapabilities, AuthCapability, Capabilities, Capability,
};
use imapmaildir::imap::client::mail::fetch::{content, fetch_command};
use imapmaildir::imap::client::mail::idle::IdleData;
use imapmaildir::config::auth::PlainAuthConfig;
use imapmaildir::imap::client::authenticated::has_sync_capabilities;
use imapmaildir::imap::client::not_authenticated::{
    plain_login_command, take_greeting, take_login_answer, update_capabilities,
};
use imapmaildir::imap::imap_state::ImapState;
use imapmaildir::imap::response::{
    AttributeValue, MailboxDatum, Response, ResponseCode, ResponseStatus, ServerCapability,
};

fn atom(name: &str) -> ServerCapability {
    ServerCapability::Atom(name.to_string())
}

fn auth(name: &str) -> ServerCapability {
    ServerCapability::Auth(name.to_string())
}

fn done(status: ResponseStatus, code: Option<ResponseCode>, information: &str) -> Response {
    Response::Done {
        tag: "0000".to_string(),
        status,
        code,
        information: Some(information.to_string()),
    }
}

#[test]
fn should_return_session_when_login_ok() {
    let response = done(
        ResponseStatus::Okay,
        Some(ResponseCode::Capabilities(vec![ServerCapability::Imap4rev1])),
        "Logged in",
    );
    assert!(matches!(login_outcome(&response), Ok(())));
}

#[test]
fn should_return_login_error_when_login_no() {
    let response = done(
        ResponseStatus::No,
        None,
        "[AUTHENTICATIONFAILED] Authentication failed.",
    );
    assert!(matches!(login_outcome(&response), Err(LoginError)));
}

#[test]
fn login_error_message() {
    assert_eq!(LoginError.to_string(), "username or password rejected");
}

#[test]
fn login_command_text() {
    assert_eq!(login_command("name", "password"), "LOGIN name password");
}

#[test]
fn idle_should_return_data() {
    let responses = vec![
        Response::Continue { information: Some("idling".to_string()) },
        Response::MailboxData(MailboxDatum::Exists(6081)),
        Response::Fetch(6081, vec![AttributeValue::Flags(vec!["Junk".to_string()])]),
        Response::MailboxData(MailboxDatum::Recent(1)),
        Response::Done {
            tag: "0002".to_string(),
            status: ResponseStatus::Okay,
            code: None,
            information: Some("Idle completed (17.100 + 17.096 + 17.099 secs).".to_string()),
        },
    ];
    let mut idle_data = IdleData::default();
    let mut done_sent = 0;
    for response in &responses {
        if idle_data.take_response(response) {
            done_sent += 1;
        }
    }
    assert_eq!(idle_data.exists_count(), 6081);
    assert_eq!(idle_data.expunge(), 0);
    assert_eq!(idle_data.recent(), 1);
    assert_eq!(done_sent, 1);
}

#[test]
fn idle_records_expunge() {
    let mut idle_data = IdleData::default();
    assert!(!idle_data.take_response(&Response::Expunge(17)));
    assert_eq!(idle_data.expunge(), 17);
}

#[test]
fn capabilities_insert_known_atoms_only() {
    let mut caps = Capabilities::default();
    caps.insert(&atom("CONDSTORE"));
    caps.insert(&atom("XLIST"));
    caps.insert(&ServerCapability::Imap4rev1);
    assert!(caps.contains(Capability::Condstore));
    assert!(caps.contains(Capability::Imap4rev1));
    assert!(!caps.contains(Capability::Idle));
    assert!(!caps.contains(Capability::QResync));
    assert!(!caps.contains(Capability::Enable));
}

#[test]
fn auth_capabilities_insert_plain() {
    let mut caps = AuthCapabilities::default();
    assert!(!caps.contains(AuthCapability::Plain));
    caps.insert(&auth("XOAUTH2"));
    assert!(!caps.contains(AuthCapability::Plain));
    caps.insert(&auth("PLAIN"));
    assert!(caps.contains(AuthCapability::Plain));
}

#[test]
fn update_capabilities_sorts_auth_apart() {
    let mut caps = Capabilities::default();
    let mut auths = AuthCapabilities::default();
    update_capabilities(
        &mut caps,
        &mut auths,
        &[ServerCapability::Imap4rev1, auth("PLAIN"), atom("IDLE"), atom("ENABLE")],
    );
    assert!(caps.contains(Capability::Imap4rev1));
    assert!(caps.contains(Capability::Idle));
    assert!(caps.contains(Capability::Enable));
    assert!(!caps.contains(Capability::Condstore));
    assert!(auths.contains(AuthCapability::Plain));
}

#[test]
fn greeting_with_capabilities_is_taken_in() {
    let mut caps = Capabilities::default();
    let mut auths = AuthCapabilities::default();
    let greeting = Response::Data {
        status: ResponseStatus::Okay,
        code: Some(ResponseCode::Capabilities(vec![atom("QRESYNC"), auth("PLAIN")])),
        information: Some("ready".to_string()),
    };
    assert!(take_greeting(&greeting, &mut caps, &mut auths));
    assert!(caps.contains(Capability::QResync));
    assert!(auths.contains(AuthCapability::Plain));
    let bare = Response::Data { status: ResponseStatus::Okay, code: None, information: None };
    assert!(!take_greeting(&bare, &mut caps, &mut auths));
}

#[test]
fn imap_state_passes_over_auth() {
    let mut state = ImapState::default();
    state.update_capabilities(&[auth("PLAIN"), atom("IDLE")]);
    state.handle_untagged_response(&Response::Capabilities(vec![atom("CONDSTORE")]));
    state.handle_untagged_response(&Response::Data {
        status: ResponseStatus::Okay,
        code: Some(ResponseCode::Capabilities(vec![atom("QRESYNC")])),
        information: None,
    });
    state.handle_untagged_response(&Response::Continue { information: None });
}

#[test]
fn greeting_announcing_idle() {
    let greeting = Response::Data {
        status: ResponseStatus::Okay,
        code: Some(ResponseCode::Capabilities(vec![ServerCapability::Imap4rev1, atom("IDLE")])),
        information: None,
    };
    assert!(can_idle(&greeting));
    let without = Response::Data {
        status: ResponseStatus::Okay,
        code: Some(ResponseCode::Capabilities(vec![atom("IDLEX"), auth("IDLE")])),
        information: None,
    };
    assert!(!can_idle(&without));
}

#[test]
fn byte_tags_start_at_zero_and_count_in_hex() {
    let mut tags = ByteTags::default();
    assert_eq!(tags.next(), b"0000".to_vec());
    assert_eq!(tags.next(), b"0001".to_vec());
    for _ in 0..8 {
        tags.next();
    }
    assert_eq!(tags.next(), b"000a".to_vec());
}

#[test]
fn fetch_whole_messages() {
    let attributes = vec![
        AttributeValue::Flags(vec![]),
        AttributeValue::Rfc822(None),
        AttributeValue::Rfc822(Some(b"first".to_vec())),
        AttributeValue::Rfc822(Some(b"second".to_vec())),
    ];
    assert_eq!(content(&attributes), &b"first".to_vec());
    assert_eq!(fetch_command("1:3"), "FETCH 1:3 (RFC822)");
}

#[test]
fn plain_login_and_its_answer() {
    let mut auths = AuthCapabilities::default();
    auths.insert(&auth("PLAIN"));
    let config = PlainAuthConfig::new("me".to_string(), "echo pw".to_string());
    assert_eq!(plain_login_command(&auths, &config, "pw"), "LOGIN me pw");
    let mut caps = Capabilities::default();
    let answer = done(
        ResponseStatus::Okay,
        Some(ResponseCode::Capabilities(vec![atom("CONDSTORE"), atom("ENABLE"), atom("QRESYNC")])),
        "Logged in",
    );
    assert!(take_login_answer(&answer, &mut caps, &mut auths));
    assert!(has_sync_capabilities(&caps));
    let bare = done(ResponseStatus::Okay, None, "Logged in");
    let mut fresh = Capabilities::default();
    assert!(!take_login_answer(&bare, &mut fresh, &mut auths));
    assert!(!has_sync_capabilities(&fresh));
}

#[test]
fn inserting_a_capability_twice_changes_nothing() {
    let mut caps = Capabilities::default();
    caps.insert(&atom("ENABLE"));
    caps.insert(&atom("ENABLE"));
    caps.insert(&atom("NOTHING"));
    assert!(caps.contains(Capability::Enable));
    assert!(!caps.contains(Capability::Idle));
}
