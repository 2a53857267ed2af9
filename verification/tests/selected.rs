use imapmaildir::imap::client::authenticated::{
    condstore_select_command, enable_qresync_command, SelectionCollector,
};
use imapmaildir::imap::client::capability::{Capabilities, Capability};
use imapmaildir::imap::client::selected::{
    append_command, append_message, append_messages_command, expunge_command, fetch_all_command, fetch_mail_command,
    fetch_since_command, pair_appended_uids, react, store_flag_command, Reaction, Task,
};
use imapmaildir::imap::mailbox::sequence_set::SequenceSetBuilder;
use imapmaildir::imap::mailbox::{ModSeq, UidValidity};
use imapmaildir::imap::response::{
    AttributeValue, MailboxDatum, Response, ResponseCode, ResponseStatus, ServerCapability,
    UidSetMember,
};

fn set_of(nums: &[u32]) -> imapmaildir::imap::mailbox::sequence_set::SequenceSet {
    let mut builder = SequenceSetBuilder::new();
    for n in nums {
        builder.add(*n);
    }
    builder.build().expect("not empty")
}

fn modseq(n: u64) -> ModSeq {
    ModSeq::try_from_u64(n).expect("nonzero")
}

#[test]
fn fetch_commands() {
    let set = set_of(&[1, 2, 3, 7]);
    assert_eq!(fetch_mail_command(&set), "UID FETCH 1:3,7 (UID, ModSeq, FLAGS, BODY.PEEK[])");
    assert_eq!(fetch_all_command(), "UID FETCH 1:* (UID, ModSeq, FLAGS, BODY.PEEK[])");
    assert_eq!(
        fetch_since_command(modseq(42)),
        "UID FETCH 1:* (UID, ModSeq, FLAGS, BODY.PEEK[]) (CHANGEDSINCE 42)"
    );
}

#[test]
fn store_and_expunge_commands() {
    let set = set_of(&[5]);
    assert_eq!(
        store_flag_command(true, modseq(9), "\\Seen", &set),
        "UID STORE 5 (UNCHANGEDSINCE 9) +FLAGS.SILENT (\\Seen)"
    );
    assert_eq!(
        store_flag_command(false, modseq(9), "\\Seen", &set),
        "UID STORE 5 (UNCHANGEDSINCE 9) -FLAGS.SILENT (\\Seen)"
    );
    assert_eq!(expunge_command(&set_of(&[4, 5, 9])), "UID EXPUNGE 4:5,9");
}

#[test]
fn append_frames_each_message() {
    let mut command = append_command("INBOX");
    append_message(&mut command, Some("\\Seen \\Flagged"), b"Hello");
    append_message(&mut command, None, b"");
    assert_eq!(
        command,
        b"APPEND INBOX (\\Seen \\Flagged) {5+}\r\nHello {0+}\r\n".to_vec()
    );
}

#[test]
fn append_takes_any_utf8_mailbox_and_flags() {
    let mut command = append_command("Entwürfe");
    append_message(&mut command, Some("\\Seen für"), b"x");
    let mut expected = "APPEND Entwürfe (\\Seen für) {1+}\r\n".as_bytes().to_vec();
    expected.push(b'x');
    assert_eq!(command, expected);
}

#[test]
fn append_all_messages_in_one_command() {
    let messages = vec![(Some("\\Seen".to_string()), b"ab".to_vec()), (None, b"c".to_vec())];
    let command = append_messages_command("INBOX", &messages).expect("messages to append");
    assert_eq!(command, b"APPEND INBOX (\\Seen) {2+}\r\nab {1+}\r\nc".to_vec());
    assert!(append_messages_command("INBOX", &vec![]).is_none());
}

#[test]
fn appended_uids_pair_in_order() {
    let members = vec![UidSetMember::UidRange(10, 12), UidSetMember::Uid(20)];
    let pairs = pair_appended_uids(&members, vec!["a", "b", "c", "d", "e"]);
    let got: Vec<(u32, &str)> = pairs.iter().map(|(u, m)| (u.get(), *m)).collect();
    assert_eq!(got, vec![(10, "a"), (11, "b"), (12, "c"), (20, "d")]);
    let fewer = pair_appended_uids(&members, vec!["x"]);
    assert_eq!(fewer.len(), 1);
    assert_eq!(fewer[0].0.get(), 10);
}

#[test]
fn whole_message_fetch_becomes_new_mail() {
    let mut idling = false;
    let response = Response::Fetch(
        3,
        vec![
            AttributeValue::Uid(17),
            AttributeValue::ModSeq(99),
            AttributeValue::Flags(vec!["\\Seen".to_string()]),
            AttributeValue::BodySection { data: Some(b"body".to_vec()) },
        ],
    );
    match react(response, &mut idling) {
        Reaction::Send(Task::NewMail { metadata, content }) => {
            assert_eq!(metadata.uid().get(), 17);
            assert_eq!(metadata.modseq().get(), 99);
            assert_eq!(metadata.flags(), &vec!["\\Seen".to_string()]);
            assert_eq!(content, b"body".to_vec());
        }
        other => panic!("unexpected {other:?}"),
    }
    assert!(!idling);
}

#[test]
fn short_fetches_become_updates() {
    let mut idling = true;
    match react(Response::Fetch(1, vec![AttributeValue::Uid(4), AttributeValue::ModSeq(8)]), &mut idling) {
        Reaction::Send(Task::UpdateModseq(uid, m)) => {
            assert_eq!(uid.get(), 4);
            assert_eq!(m.get(), 8);
        }
        other => panic!("unexpected {other:?}"),
    }
    match react(
        Response::Fetch(
            1,
            vec![AttributeValue::Uid(4), AttributeValue::ModSeq(8), AttributeValue::Flags(vec![])],
        ),
        &mut idling,
    ) {
        Reaction::Send(Task::UpdateFlags(m)) => assert!(m.flags().is_empty()),
        other => panic!("unexpected {other:?}"),
    }
    assert!(idling);
}

#[test]
fn vanished_becomes_delete() {
    let mut idling = false;
    match react(Response::Vanished { earlier: false, uids: vec![3..=5, 9..=9] }, &mut idling) {
        Reaction::Send(Task::Delete(set)) => assert_eq!(set.to_string(), "3:5,9:9"),
        other => panic!("unexpected {other:?}"),
    }
}

#[test]
fn mailbox_change_stops_idle_once() {
    let mut idling = true;
    assert!(matches!(react(Response::Expunge(3), &mut idling), Reaction::StopIdle));
    assert!(!idling);
    assert!(matches!(
        react(Response::MailboxData(MailboxDatum::Exists(4)), &mut idling),
        Reaction::Ignore
    ));
    idling = true;
    assert!(matches!(
        react(Response::MailboxData(MailboxDatum::Recent(1)), &mut idling),
        Reaction::StopIdle
    ));
    assert!(matches!(
        react(Response::MailboxData(MailboxDatum::Flags(vec![])), &mut idling),
        Reaction::Ignore
    ));
}

#[test]
fn authenticated_select_commands() {
    assert_eq!(condstore_select_command("INBOX"), "SELECT INBOX (CONDSTORE)");
    assert_eq!(enable_qresync_command(), "ENABLE QRESYNC");
}

#[test]
fn selection_collects_state_changes_and_capabilities() {
    let mut collector = SelectionCollector::new(Capabilities::default());
    let cached = Some(UidValidity::new(77));
    collector.handle_response(
        Response::Capabilities(vec![
            ServerCapability::Atom("IDLE".to_string()),
            ServerCapability::Imap4rev1,
        ]),
        cached,
    );
    collector.handle_response(
        Response::Data { status: ResponseStatus::Okay, code: Some(ResponseCode::UidValidity(77)), information: None },
        cached,
    );
    collector.handle_response(
        Response::Data { status: ResponseStatus::Okay, code: Some(ResponseCode::HighestModSeq(500)), information: None },
        cached,
    );
    collector.handle_response(
        Response::Fetch(
            1,
            vec![
                AttributeValue::Flags(vec!["\\Seen".to_string()]),
                AttributeValue::Uid(12),
                AttributeValue::ModSeq(450),
            ],
        ),
        cached,
    );
    collector.handle_response(Response::Vanished { earlier: true, uids: vec![1..=3] }, cached);
    let (updates, deletions, mailbox, capabilities) = collector.into_parts();
    assert_eq!(updates.len(), 1);
    assert_eq!(updates[0].uid().get(), 12);
    assert_eq!(updates[0].modseq().get(), 450);
    assert_eq!(deletions.expect("vanished").to_string(), "1:3");
    let mailbox = mailbox.build().expect("complete");
    assert_eq!(mailbox.uid_validity().get(), 77);
    assert_eq!(mailbox.highest_modseq().get(), 500);
    assert!(capabilities.contains(Capability::Idle));
    assert!(!capabilities.contains(Capability::Imap4rev1));
}
