use imapmaildir::client::session::Session;
use imapmaildir::imap::client::mail::mailbox::MailboxBuilder;
use imapmaildir::imap::client::mail::select::{take_select_response as take_full, SelectProgress as FullProgress};
use imapmaildir::imap::client::mailbox::{MailboxBuilder as PairBuilder, UidBuilder};
use imapmaildir::imap::response::{MailboxDatum, Response, ResponseCode, ResponseStatus};
use imapmaildir::imap_old::client::mail::select::{
    qresync_select_command, select_command, take_select_response, SelectProgress,
};
use imapmaildir::imap::mailbox::{ModSeq, UidValidity};
use imapmaildir::imap::remote_mail::RemoteMailMetadataBuilder;

fn flags(names: &[&str]) -> Vec<String> {
    names.iter().map(|s| s.to_string()).collect()
}

fn select_responses(exists: u32, recent: u32, uid_validity: u32, uid_next: u32, modseq: u64) -> Vec<Response> {
    vec![
        Response::MailboxData(MailboxDatum::Flags(flags(&[
            "\\Answered", "\\Flagged", "\\Deleted", "\\Seen", "\\Draft",
        ]))),
        Response::Data {
            status: ResponseStatus::Okay,
            code: Some(ResponseCode::PermanentFlags(flags(&[
                "\\Answered", "\\Flagged", "\\Deleted", "\\Seen", "\\Draft", "\\*",
            ]))),
            information: Some("Flags permitted.".to_string()),
        },
        Response::MailboxData(MailboxDatum::Exists(exists)),
        Response::MailboxData(MailboxDatum::Recent(recent)),
        Response::Data {
            status: ResponseStatus::Okay,
            code: Some(ResponseCode::UidValidity(uid_validity)),
            information: Some("UIDs valid".to_string()),
        },
        Response::Data {
            status: ResponseStatus::Okay,
            code: Some(ResponseCode::UidNext(uid_next)),
            information: Some("Predicted next UID".to_string()),
        },
        Response::Data {
            status: ResponseStatus::Okay,
            code: Some(ResponseCode::HighestModSeq(modseq)),
            information: Some("".to_string()),
        },
        Response::Done {
            tag: "0001".to_string(),
            status: ResponseStatus::Okay,
            code: Some(ResponseCode::ReadWrite),
            information: Some("Select completed (0.001 + 0.000 secs).".to_string()),
        },
    ]
}

#[test]
fn select_should_return_data() {
    let exists = 6084;
    let recent = 4;
    let uid_validity = 1_234_214;
    let uid_next = 4321;
    let expected_highest_modseq = 70500;
    let mailbox_name = "foo";

    let mut builder = MailboxBuilder::default();
    builder.name(mailbox_name.to_string());
    let mut selected = false;
    for response in select_responses(exists, recent, uid_validity, uid_next, expected_highest_modseq) {
        match take_select_response(&mut builder, mailbox_name, response) {
            SelectProgress::Pending => {}
            SelectProgress::Selected => {
                selected = true;
                break;
            }
            SelectProgress::Refused(_) => panic!("select should not be refused"),
        }
    }
    assert!(selected);
    let mailbox = builder.build().expect("mailbox data should be all available at this point");
    assert_eq!(mailbox.name(), mailbox_name);
    assert_eq!(mailbox.highest_modseq(), expected_highest_modseq);
    assert!(!mailbox.readonly());
    assert_eq!(mailbox.flags(), &vec!["\\Answered", "\\Flagged", "\\Deleted", "\\Seen", "\\Draft",]);
    assert_eq!(*mailbox.exists_count(), exists);
    assert_eq!(*mailbox.recent(), recent);
    assert!(mailbox.unseen().is_none());
    assert_eq!(
        mailbox.permanent_flags(),
        &vec!["\\Answered", "\\Flagged", "\\Deleted", "\\Seen", "\\Draft", "\\*",]
    );
    assert_eq!(mailbox.uid_validity().get(), UidValidity::new(uid_validity).get());
    assert_eq!(mailbox.uid_next().get(), uid_next);
}

#[test]
fn should() {
    let exists = 6084;
    let recent = 4;
    let uid_validity = 1234214;
    let uid_next = 4321;
    let mailbox_name = "foo";

    let mut builder = PairBuilder::default();
    builder.name(mailbox_name.to_string());
    let mut uid = UidBuilder::default();
    for response in select_responses(exists, recent, uid_validity, uid_next, 70500) {
        match take_full(&mut builder, &mut uid, mailbox_name, response) {
            FullProgress::Pending => {}
            FullProgress::Selected => break,
            FullProgress::Refused(_) => panic!("select should not be refused"),
        }
    }
    let mailbox = builder.build().expect("mailbox data should be all available at this point");
    assert_eq!(mailbox.name(), mailbox_name);
    assert_eq!(mailbox.readonly(), &false);
    assert_eq!(mailbox.flags(), &vec!["\\Answered", "\\Flagged", "\\Deleted", "\\Seen", "\\Draft",]);
    assert_eq!(mailbox.exists_count(), &exists);
    assert_eq!(mailbox.recent(), &recent);
    assert!(mailbox.unseen().is_none());
    assert_eq!(
        mailbox.permanent_flags(),
        &vec!["\\Answered", "\\Flagged", "\\Deleted", "\\Seen", "\\Draft", "\\*",]
    );
    assert!(mailbox.uid().is_some());
    if let Some(uid) = mailbox.uid() {
        assert_eq!(uid.validity(), &uid_validity);
        assert_eq!(uid.next(), &uid_next);
    }
}

#[test]
fn refused_select_names_the_mailbox() {
    let mut builder = MailboxBuilder::default();
    let response = Response::Done {
        tag: "0001".to_string(),
        status: ResponseStatus::No,
        code: None,
        information: Some("Mailbox doesn't exist".to_string()),
    };
    match take_select_response(&mut builder, "INBOX.missing", response) {
        SelectProgress::Refused(e) => assert_eq!(
            e.to_string(),
            "cannot select mailbox INBOX.missing. Going back to unselected."
        ),
        other => panic!("unexpected {other:?}"),
    }
}

#[test]
fn read_only_completion_marks_mailbox_read_only() {
    let mut builder = MailboxBuilder::default();
    builder.name("foo".to_string());
    for response in select_responses(1, 0, 7, 2, 3) {
        let response = match response {
            Response::Done { tag, status, information, .. } => Response::Done {
                tag,
                status,
                code: Some(ResponseCode::ReadOnly),
                information,
            },
            other => other,
        };
        take_select_response(&mut builder, "foo", response);
    }
    let mailbox = builder.build().expect("complete");
    assert!(*mailbox.readonly());
}

#[test]
fn incomplete_select_names_missing_part() {
    let mut builder = MailboxBuilder::default();
    builder.name("foo".to_string());
    take_select_response(&mut builder, "foo", Response::MailboxData(MailboxDatum::Exists(3)));
    let error = builder.build().expect_err("flags are missing");
    assert_eq!(error.field, "flags");
}

#[test]
fn unseen_code_is_recorded() {
    let mut builder = MailboxBuilder::default();
    builder.name("foo".to_string());
    for response in select_responses(1, 0, 7, 2, 3) {
        take_select_response(&mut builder, "foo", response);
    }
    take_select_response(
        &mut builder,
        "foo",
        Response::Data { status: ResponseStatus::Okay, code: Some(ResponseCode::Unseen(12)), information: None },
    );
    let mailbox = builder.build().expect("complete");
    assert_eq!(*mailbox.unseen(), Some(12));
}

#[test]
fn select_commands() {
    assert_eq!(select_command("INBOX"), "SELECT INBOX");
    let validity = UidValidity::new(1_234_214);
    let modseq = ModSeq::try_from_u64(70500).expect("nonzero");
    assert_eq!(
        qresync_select_command("INBOX", validity, modseq),
        "SELECT INBOX (QRESYNC (1234214 70500))"
    );
}

#[test]
fn refused_select_with_uid_names_the_mailbox() {
    let mut builder = PairBuilder::default();
    let mut uid = UidBuilder::default();
    let response = Response::Done {
        tag: "0001".to_string(),
        status: ResponseStatus::No,
        code: None,
        information: None,
    };
    match take_full(&mut builder, &mut uid, "Archive", response) {
        FullProgress::Refused(e) => assert_eq!(
            e.to_string(),
            "cannot select mailbox Archive. Going back to unselected."
        ),
        other => panic!("unexpected {other:?}"),
    }
}

#[test]
fn identifier_pair_needs_both_parts() {
    let mut builder = PairBuilder::default();
    builder.name("foo".to_string());
    let mut uid = UidBuilder::default();
    let responses = vec![
        Response::MailboxData(MailboxDatum::Flags(vec![])),
        Response::MailboxData(MailboxDatum::Exists(1)),
        Response::MailboxData(MailboxDatum::Recent(0)),
        Response::Data { status: ResponseStatus::Okay, code: Some(ResponseCode::UidNext(5)), information: None },
        Response::Done { tag: "0001".to_string(), status: ResponseStatus::Okay, code: None, information: None },
    ];
    for response in responses {
        take_full(&mut builder, &mut uid, "foo", response);
    }
    let mailbox = builder.build().expect("complete");
    assert!(mailbox.uid().is_none());
}

#[test]
fn metadata_builder_names_missing_part() {
    let mut builder = RemoteMailMetadataBuilder::default();
    builder.uid(imapmaildir::imap::mailbox::Uid::try_from_u32(3).expect("nonzero"));
    let error = builder.build().expect_err("flags are missing");
    assert_eq!(error.field, "flags");
    let mut complete = RemoteMailMetadataBuilder::default();
    complete.uid(imapmaildir::imap::mailbox::Uid::try_from_u32(3).expect("nonzero"));
    complete.flags(vec!["\\Seen".to_string()]);
    complete.modseq(ModSeq::try_from_u64(8).expect("nonzero"));
    let metadata = complete.build().expect("complete");
    assert_eq!(metadata.uid().get(), 3);
    assert_eq!(metadata.modseq().get(), 8);
}

#[test]
fn session_keeps_the_selected_mailbox_and_clears_it_on_refusal() {
    let mut session = Session::new();
    assert!(session.selected_mailbox().is_none());
    let mut builder = PairBuilder::default();
    builder.name("foo".to_string());
    let mut uid = UidBuilder::default();
    for response in select_responses(3, 1, 9, 10, 70500) {
        session
            .take_select_response(&mut builder, &mut uid, "foo", response)
            .expect("select should succeed");
    }
    let selected = session.selected_mailbox().as_ref().expect("a mailbox is selected");
    assert_eq!(selected.name(), "foo");
    assert_eq!(selected.exists_count(), &3);
    let refusal = Response::Done {
        tag: "0002".to_string(),
        status: ResponseStatus::No,
        code: None,
        information: None,
    };
    let mut builder = PairBuilder::default();
    let error = session
        .take_select_response(&mut builder, &mut uid, "bar", refusal)
        .expect_err("select should be refused");
    assert_eq!(error.to_string(), "cannot select mailbox bar. Going back to unselected.");
    assert!(session.selected_mailbox().is_none());
}
