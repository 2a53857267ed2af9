use imapmaildir::imap::connection::response_stream::{PollAction, ResponseStream};
use imapmaildir::imap::connection::tag_generator::TagGenerator as ConnectionTags;
use imapmaildir::imap::connection::{route_response, Routed, TaggedResponseError};
use imapmaildir::imap::response::{MailboxDatum, Response, ResponseStatus};
use imapmaildir::imap::tag_generator::TagGenerator;
use imapmaildir::imap::transport::connection::{
    route_response as transport_route, Routed as TransportRouted,
    TaggedResponseError as TransportError,
};

fn done(status: ResponseStatus, information: Option<&str>) -> Response {
    Response::Done {
        tag: "0003".to_string(),
        status,
        code: None,
        information: information.map(|s| s.to_string()),
    }
}

#[test]
fn ok_completion_goes_to_the_command() {
    match route_response(done(ResponseStatus::Okay, Some("done"))) {
        Routed::Answer(Response::Done { tag, .. }) => assert_eq!(tag, "0003"),
        other => panic!("unexpected {other:?}"),
    }
}

#[test]
fn no_completion_is_a_refusal_with_information() {
    match route_response(done(ResponseStatus::No, Some("nope"))) {
        Routed::Refusal(TaggedResponseError::No { information }) => {
            assert_eq!(information.as_deref(), Some("nope"))
        }
        other => panic!("unexpected {other:?}"),
    }
    match route_response(done(ResponseStatus::Bad, None)) {
        Routed::Refusal(TaggedResponseError::Bad { information }) => assert!(information.is_none()),
        other => panic!("unexpected {other:?}"),
    }
}

#[test]
fn continuation_goes_to_the_command_and_data_is_untagged() {
    assert!(matches!(
        route_response(Response::Continue { information: None }),
        Routed::Answer(Response::Continue { .. })
    ));
    assert!(matches!(
        route_response(Response::MailboxData(MailboxDatum::Exists(3))),
        Routed::Untagged(Response::MailboxData(MailboxDatum::Exists(3)))
    ));
    assert!(matches!(route_response(Response::Expunge(2)), Routed::Untagged(Response::Expunge(2))));
}

#[test]
fn transport_routes_refusals_without_information() {
    assert!(matches!(
        transport_route(done(ResponseStatus::No, Some("nope"))),
        TransportRouted::Refusal(TransportError::No {})
    ));
    assert!(matches!(
        transport_route(done(ResponseStatus::Bad, Some("bad"))),
        TransportRouted::Refusal(TransportError::Bad {})
    ));
    assert!(matches!(
        transport_route(done(ResponseStatus::Okay, None)),
        TransportRouted::Answer(_)
    ));
    assert!(matches!(
        transport_route(Response::Other),
        TransportRouted::Untagged(Response::Other)
    ));
}

#[test]
fn tags_start_at_zero_and_wrap() {
    let mut tags = TagGenerator::default();
    assert_eq!(tags.next(), "0000");
    assert_eq!(tags.next(), "0001");
    for _ in 2..0xffff {
        tags.next();
    }
    assert_eq!(tags.next(), "ffff");
    assert_eq!(tags.next(), "0000");
}

#[test]
fn connection_tags_count_in_lowercase_hex() {
    let mut tags = ConnectionTags::default();
    for _ in 0..0xab {
        tags.next();
    }
    assert_eq!(tags.next(), "00ab");
}

#[test]
fn tags_of_one_generator_differ() {
    let mut tags = TagGenerator::default();
    let mut seen = std::collections::HashSet::new();
    for _ in 0..70_000 {
        let tag = tags.next();
        if seen.len() < 65_536 {
            assert!(seen.insert(tag));
        }
    }
}

#[test]
fn response_stream_goes_through_its_states() {
    let mut tags = ConnectionTags::default();
    let mut stream = ResponseStream::new("NOOP".to_string());
    assert_eq!(stream.poll_action(), PollAction::SinkReady);
    let tag = stream.start_sending(&mut tags);
    assert_eq!(tag, "0000");
    assert_eq!(stream.tag(), "0000");
    assert_eq!(stream.command(), "NOOP");
    assert_eq!(stream.poll_action(), PollAction::Flush);
    stream.flushed();
    assert_eq!(stream.poll_action(), PollAction::Response);
    stream.received(None);
    assert_eq!(stream.poll_action(), PollAction::Response);
    stream.received(Some("0000"));
    assert_eq!(stream.poll_action(), PollAction::End);
}
