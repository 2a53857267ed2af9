use imapmaildir::client::parser::parse_greeting;
use imapmaildir::imap::mailbox::UidValidity;
use imapmaildir::client::parser::spec::{
    greeting, response_data, response_done, zone, Capability, ResponseLine, ResponseText,
    ResponseTextCode, Revision, Status,
};

const OK_GREETING: &str = "* OK [CAPABILITY IMAP4rev1 SASL-IR LOGIN-REFERRALS ID ENABLE IDLE LITERAL+ AUTH=PLAIN] Dovecot (Debian) ready.\r\n";

fn expected_greeting() -> ResponseText {
    ResponseText {
        code: Some(ResponseTextCode::Capability(vec![
            Capability::Revision(Revision::FourRev1),
            Capability::Custom("SASL-IR".to_string()),
            Capability::Custom("LOGIN-REFERRALS".to_string()),
            Capability::Custom("ID".to_string()),
            Capability::Custom("ENABLE".to_string()),
            Capability::Custom("IDLE".to_string()),
            Capability::Custom("LITERAL+".to_string()),
            Capability::AuthType("PLAIN".to_string()),
        ])),
        text: "Dovecot (Debian) ready.".to_string(),
    }
}

#[test]
fn parser_parse_ok_greeting() {
    let (rest, response) = greeting(OK_GREETING).expect("response should be parseable");
    assert_eq!(response, expected_greeting());
    assert_eq!(rest, "")
}

#[test]
fn spec_parse_ok_greeting() {
    let (rest, response) = greeting(OK_GREETING).expect("response should be parseable");
    assert_eq!(response, expected_greeting());
    assert_eq!(rest, "")
}

#[test]
fn parse_greeting_keeps_capabilities() {
    let parsed = parse_greeting(OK_GREETING).expect("greeting should parse");
    let caps = parsed.capabilities().as_ref().expect("greeting lists capabilities");
    assert_eq!(caps.len(), 8);
    assert_eq!(caps[0], Capability::Revision(Revision::FourRev1));
    assert_eq!(caps[7], Capability::AuthType("PLAIN".to_string()));
}

#[test]
fn parse_greeting_without_code_has_no_capabilities() {
    let parsed = parse_greeting("* OK ready\r\n").expect("greeting should parse");
    assert!(parsed.capabilities().is_none());
}

#[test]
fn parse_greeting_rejects_garbage() {
    assert!(parse_greeting("hello\r\n").is_err());
    assert!(parse_greeting("* OK ready").is_err());
}

#[test]
fn greeting_leaves_what_follows() {
    let (rest, response) = greeting("* OK hi\r\nmore").expect("greeting should parse");
    assert_eq!(rest, "more");
    assert_eq!(response.text, "hi");
    assert!(response.code.is_none());
}

#[test]
fn response_done_reads_tagged_status() {
    let (rest, line) = response_done("0001 NO [UIDNEXT 17] nope\r\n").expect("should parse");
    assert_eq!(rest, "");
    match line {
        ResponseLine::Tagged(tagged) => {
            assert_eq!(tagged.tag.0, "0001");
            // NO and BAD conditions are read with the status OK
            assert_eq!(tagged.state.status, Status::Okay);
            assert_eq!(tagged.state.text.code, Some(ResponseTextCode::UidNext(17)));
            assert_eq!(tagged.state.text.text, "nope");
        }
        other => panic!("unexpected {other:?}"),
    }
}

#[test]
fn response_data_reads_capability_list() {
    let (rest, line) = response_data("* CAPABILITY IDLE IMAP4rev1\r\n").expect("should parse");
    assert_eq!(rest, "");
    assert_eq!(
        line,
        ResponseLine::CapabilityData(vec![
            Capability::Custom("IDLE".to_string()),
            Capability::Revision(Revision::FourRev1),
        ])
    );
}

#[test]
fn atom_runs_over_control_characters() {
    // an atom stops only at atom specials, so a final atom swallows the line break
    assert!(response_data("* CAPABILITY IMAP4rev1 IDLE\r\n").is_err());
}

#[test]
fn response_data_rejects_unknown_line() {
    assert!(response_data("* FOO\r\n").is_err());
}

#[test]
fn zone_takes_plus_west_and_minus_east() {
    let plus: Vec<char> = "+0130 rest".chars().collect();
    let (end, offset) = zone(&plus, 0).expect("zone should parse");
    assert_eq!(end, 5);
    assert_eq!(offset.seconds_east(), -5400);
    let minus: Vec<char> = "-0200".chars().collect();
    let (end, offset) = zone(&minus, 0).expect("zone should parse");
    assert_eq!(end, 5);
    assert_eq!(offset.seconds_east(), 7200);
    let bad: Vec<char> = "+01x0".chars().collect();
    assert!(zone(&bad, 0).is_none());
}

#[test]
fn written_numbers_read_back() {
    for n in [1u32, 9, 10, 4321, 1_234_214, u32::MAX] {
        let text = format!("0001 OK [UIDVALIDITY {}] ok\r\n", UidValidity::new(n).to_string());
        let (_, line) = response_done(&text).expect("should parse");
        match line {
            ResponseLine::Tagged(tagged) => {
                assert_eq!(tagged.state.text.code, Some(ResponseTextCode::UidValidity(n)))
            }
            other => panic!("unexpected {other:?}"),
        }
    }
}
