//! Working in a selected mailbox: the commands, and what the untagged
//! responses the server sends meanwhile call for.
use vstd::prelude::*;
use core::ops::RangeInclusive;
use crate::imap::mailbox::modseq::ModSeq;
use crate::imap::mailbox::sequence_set::{member_range, numbers, set_text, SequenceSet};
use crate::imap::mailbox::uid::Uid;
use crate::imap::remote_mail::{MetadataView, RemoteMailMetadata};
use crate::imap::client::mail::mailbox::texts;
use crate::imap::response::{AttributeValue, MailboxDatum, Response, UidSetMember};
use crate::text::{decimal, decimal_string};
use vstd::utf8::encode_utf8;
use vstd::slice::slice_to_vec;

verus! {

broadcast use {
    crate::imap::mailbox::uid::lemma_spec_uid_view,
    crate::imap::mailbox::modseq::lemma_spec_modseq_view,
};

/// Why waiting in IDLE ended; `C` describes changes made locally.
#[derive(Debug)]
pub enum IdleStopReason<C> {
    Timeout,
    Remote,
    Local { changes: C },
}

/// The command that fetches the messages of `set` whole.
pub fn fetch_mail_command(set: &SequenceSet) -> (r: String)
    ensures
        r@ == "UID FETCH "@ + set_text(set@) + " (UID, ModSeq, FLAGS, BODY.PEEK[])"@,
{
    let mut s = String::from_str("UID FETCH ");
    let text = set.to_string();
    s.append(text.as_str());
    s.append(" (UID, ModSeq, FLAGS, BODY.PEEK[])");
    s
}

/// The command that fetches every message whole.
pub fn fetch_all_command() -> (r: String)
    ensures
        r@ == "UID FETCH 1:* (UID, ModSeq, FLAGS, BODY.PEEK[])"@,
{
    String::from_str("UID FETCH 1:* (UID, ModSeq, FLAGS, BODY.PEEK[])")
}

/// The command that fetches whole every message changed since `modseq`.
pub fn fetch_since_command(modseq: ModSeq) -> (r: String)
    ensures
        r@ == "UID FETCH 1:* (UID, ModSeq, FLAGS, BODY.PEEK[]) (CHANGEDSINCE "@ + decimal(
            modseq@ as nat,
        ) + ")"@,
{
    let mut s = String::from_str("UID FETCH 1:* (UID, ModSeq, FLAGS, BODY.PEEK[]) (CHANGEDSINCE ");
    let text = modseq.to_string();
    s.append(text.as_str());
    s.append(")");
    s
}

/// The command that adds (`add`) or removes a flag on the messages of
/// `set`, unless they changed after `highest_modseq`:
/// `UID STORE set (UNCHANGEDSINCE m) ±FLAGS.SILENT (flag)`.
pub fn store_flag_command(add: bool, highest_modseq: ModSeq, flag: &str, set: &SequenceSet) -> (r: String)
    ensures
        r@ == "UID STORE "@ + set_text(set@) + " (UNCHANGEDSINCE "@ + decimal(highest_modseq@ as nat)
            + ") "@ + (if add {
            "+"@
        } else {
            "-"@
        }) + "FLAGS.SILENT ("@ + flag@ + ")"@,
{
    let mut s = String::from_str("UID STORE ");
    let text = set.to_string();
    s.append(text.as_str());
    s.append(" (UNCHANGEDSINCE ");
    let m = highest_modseq.to_string();
    s.append(m.as_str());
    s.append(") ");
    if add {
        s.append("+");
    } else {
        s.append("-");
    }
    s.append("FLAGS.SILENT (");
    s.append(flag);
    s.append(")");
    s
}

/// The command that removes the messages of `set` that are flagged deleted.
pub fn expunge_command(set: &SequenceSet) -> (r: String)
    ensures
        r@ == "UID EXPUNGE "@ + set_text(set@),
{
    let mut s = String::from_str("UID EXPUNGE ");
    let text = set.to_string();
    s.append(text.as_str());
    s
}

/// Adds the UTF-8 bytes of a text to a command.
fn push_text(command: &mut Vec<u8>, text: &str)
    ensures
        final(command)@ == old(command)@ + encode_utf8(text@),
{
    let mut bytes = text.as_bytes_vec();
    command.append(&mut bytes);
}

/// The bytes that start an APPEND of messages to `mailbox`: `APPEND ` and
/// the mailbox's name, in UTF-8.
pub fn append_command(mailbox: &str) -> (r: Vec<u8>)
    ensures
        r@ == encode_utf8("APPEND "@) + encode_utf8(mailbox@),
{
    let mut r: Vec<u8> = Vec::new();
    push_text(&mut r, "APPEND ");
    push_text(&mut r, mailbox);
    r
}

/// The bytes a message adds to an APPEND command: ` (flags)` when it has
/// flags, then the length as a non-synchronising literal, ` {n+}` and a line
/// break, then the content; texts in UTF-8.
pub open spec fn appended_message(flags: Option<Seq<char>>, content: Seq<u8>) -> Seq<u8> {
    (match flags {
        Some(f) => encode_utf8(" ("@) + encode_utf8(f) + encode_utf8(")"@),
        None => Seq::empty(),
    }) + encode_utf8(" {"@) + encode_utf8(decimal(content.len())) + encode_utf8("+}\r\n"@) + content
}

/// Adds a message to an APPEND command.
pub fn append_message(command: &mut Vec<u8>, flags: Option<&str>, content: &[u8])
    ensures
        final(command)@ == old(command)@ + appended_message(
            match flags {
                Some(f) => Some(f@),
                None => None,
            },
            content@,
        ),
{
    let ghost start = command@;
    if let Some(f) = flags {
        push_text(command, " (");
        push_text(command, f);
        push_text(command, ")");
    }
    let ghost with_flags = command@;
    push_text(command, " {");
    let length = decimal_string(content.len() as u64);
    push_text(command, length.as_str());
    push_text(command, "+}\r\n");
    let mut body = slice_to_vec(content);
    command.append(&mut body);
    proof {
        let fl = match flags {
            Some(f) => Some(f@),
            None => None,
        };
        assert(with_flags == start + (match fl {
            Some(f) => encode_utf8(" ("@) + encode_utf8(f) + encode_utf8(")"@),
            None => Seq::<u8>::empty(),
        }));
        assert(command@ =~= start + appended_message(fl, content@));
    }
}

/// The messages of an APPEND command, in order, each as `appended_message`
/// gives it.
pub open spec fn appended_messages(messages: Seq<(Option<Seq<char>>, Seq<u8>)>) -> Seq<u8>
    decreases messages.len(),
{
    if messages.len() == 0 {
        Seq::empty()
    } else {
        appended_messages(messages.drop_last()) + appended_message(messages.last().0, messages.last().1)
    }
}

/// A message to append, as plain values: its flags' text, if any, and its
/// content.
pub open spec fn message_view(m: (Option<String>, Vec<u8>)) -> (Option<Seq<char>>, Seq<u8>) {
    (
        match m.0 {
            Some(f) => Some(f@),
            None => None,
        },
        m.1@,
    )
}

/// The one command that appends `messages` to `mailbox`, all in one: none
/// when there is no message to append.
pub fn append_messages_command(mailbox: &str, messages: &Vec<(Option<String>, Vec<u8>)>) -> (r: Option<Vec<u8>>)
    ensures
        messages@.len() == 0 <==> r is None,
        r matches Some(c) ==> c@ == encode_utf8("APPEND "@) + encode_utf8(mailbox@) + appended_messages(
            messages@.map_values(|m: (Option<String>, Vec<u8>)| message_view(m)),
        ),
{
    if messages.len() == 0 {
        return None;
    }
    let mut command = append_command(mailbox);
    let ghost start = command@;
    let mut k: usize = 0;
    while k < messages.len()
        invariant
            k <= messages@.len(),
            command@ == start + appended_messages(
                messages@.subrange(0, k as int).map_values(|m: (Option<String>, Vec<u8>)| message_view(m)),
            ),
        decreases messages@.len() - k,
    {
        let message = &messages[k];
        let flags = match &message.0 {
            Some(f) => Some(f.as_str()),
            None => None,
        };
        let ghost before = command@;
        append_message(&mut command, flags, message.1.as_slice());
        proof {
            let done = messages@.subrange(0, k as int).map_values(|m: (Option<String>, Vec<u8>)| message_view(m));
            let now = messages@.subrange(0, k + 1).map_values(|m: (Option<String>, Vec<u8>)| message_view(m));
            assert(now.drop_last() =~= done);
            assert(now.last() == message_view(messages@[k as int]));
            assert(command@ =~= start + appended_messages(now));
        }
        k = k + 1;
    }
    assert(messages@.subrange(0, k as int) =~= messages@);
    Some(command)
}

/// The identifiers that an APPENDUID code lists, in order.
pub open spec fn appended_uids(members: Seq<UidSetMember>) -> Seq<u32> {
    numbers(Seq::new(members.len(), |k: int| member_range(members[k])))
}

/// Pairs the identifiers the server gave the appended messages with what
/// the client knows of those messages, in order, as far as both go.
pub fn pair_appended_uids<M>(members: &Vec<UidSetMember>, metadatas: Vec<M>) -> (r: Vec<(Uid, M)>)
    requires
        forall|k: int| 0 <= k < members@.len() ==> #[trigger] member_range(members@[k]).0 != 0,
    ensures
        r@.len() == if appended_uids(members@).len() < metadatas@.len() {
            appended_uids(members@).len()
        } else {
            metadatas@.len()
        },
        forall|k: int| 0 <= k < r@.len() ==> (#[trigger] r@[k]).0@ == appended_uids(members@)[k]
            && r@[k].1 == metadatas@[k],
{
    let set = SequenceSet::from_members(members);
    let ghost full = appended_uids(members@);
    let ghost items = metadatas@;
    assert(set@ == Seq::new(members@.len(), |k: int| member_range(members@[k])));
    let mut uids = set.iter();
    let mut r: Vec<(Uid, M)> = Vec::new();
    for m in it: metadatas.into_iter()
        invariant
            it.seq() == items,
            full == appended_uids(members@),
            items == metadatas@,
            r@.len() == it.index(),
            r@.len() <= full.len(),
            uids.remaining() == full.subrange(r@.len() as int, full.len() as int),
            forall|k: int| 0 <= k < r@.len() ==> (#[trigger] r@[k]).0@ == full[k] && r@[k].1 == items[k],
    {
        let ghost before = uids.remaining();
        match uids.next() {
            Some(uid) => {
                assert(uid@ == full[r@.len() as int]);
                r.push((uid, m));
                assert(uids.remaining() =~= full.subrange(r@.len() as int, full.len() as int));
            },
            None => {
                assert(r@.len() == full.len());
                return r;
            },
        }
    }
    r
}

/// Work for the synchroniser that a response calls for.
#[derive(Debug)]
pub enum Task {
    /// A message arrived whole.
    NewMail { metadata: RemoteMailMetadata, content: Vec<u8> },
    /// A message's modification sequence changed.
    UpdateModseq(Uid, ModSeq),
    /// A message's flags changed.
    UpdateFlags(RemoteMailMetadata),
    /// Messages were removed.
    Delete(SequenceSet),
}

/// A task, as plain values.
pub enum TaskView {
    NewMail(MetadataView, Seq<u8>),
    UpdateModseq(u32, u64),
    UpdateFlags(MetadataView),
    Delete(Seq<(u32, Option<u32>)>),
}

impl View for Task {
    type V = TaskView;

    closed spec fn view(&self) -> TaskView {
        match self {
            Task::NewMail { metadata, content } => TaskView::NewMail(metadata@, content@),
            Task::UpdateModseq(u, m) => TaskView::UpdateModseq(u@, m@),
            Task::UpdateFlags(m) => TaskView::UpdateFlags(m@),
            Task::Delete(set) => TaskView::Delete(set@),
        }
    }
}

/// What an untagged response in a selected mailbox calls for.
#[derive(Debug)]
pub enum Reaction {
    /// Hand a task to the synchroniser.
    Send(Task),
    /// Stop waiting in IDLE: the mailbox changed on the server.
    StopIdle,
    /// Nothing.
    Ignore,
}

/// Whether the attributes of a FETCH are, in this order, an identifier, a
/// modification sequence, flags, and a body section with content, with
/// neither number zero.
pub open spec fn is_whole_message(attrs: Seq<AttributeValue>) -> bool {
    &&& attrs.len() == 4
    &&& attrs[0] matches AttributeValue::Uid(u) && u != 0
    &&& attrs[1] matches AttributeValue::ModSeq(m) && m != 0
    &&& attrs[2] is Flags
    &&& attrs[3] matches AttributeValue::BodySection { data } && data is Some
}

/// Whether the attributes of a FETCH are an identifier and a modification
/// sequence, with neither zero.
pub open spec fn is_modseq_change(attrs: Seq<AttributeValue>) -> bool {
    &&& attrs.len() == 2
    &&& attrs[0] matches AttributeValue::Uid(u) && u != 0
    &&& attrs[1] matches AttributeValue::ModSeq(m) && m != 0
}

/// Whether the attributes of a FETCH are an identifier, a modification
/// sequence and flags, with neither number zero.
pub open spec fn is_flags_change(attrs: Seq<AttributeValue>) -> bool {
    &&& attrs.len() == 3
    &&& attrs[0] matches AttributeValue::Uid(u) && u != 0
    &&& attrs[1] matches AttributeValue::ModSeq(m) && m != 0
    &&& attrs[2] is Flags
}

/// Whether the client cannot go on from an untagged response in a selected
/// mailbox: a FETCH of any other shape than the three the client asks for.
pub open spec fn is_unacceptable_untagged(response: Response) -> bool {
    response matches Response::Fetch(_, attrs) && !is_whole_message(attrs@) && !is_modseq_change(attrs@)
        && !is_flags_change(attrs@)
}

/// The metadata of the first three attributes of a FETCH.
pub open spec fn metadata_from(attrs: Seq<AttributeValue>) -> MetadataView {
    MetadataView {
        uid: attrs[0]->Uid_0,
        flags: texts(attrs[2]->Flags_0@),
        modseq: attrs[1]->ModSeq_0,
    }
}

/// The task a FETCH in an acceptable shape calls for.
pub open spec fn fetch_task(attrs: Seq<AttributeValue>) -> TaskView {
    if is_whole_message(attrs) {
        TaskView::NewMail(metadata_from(attrs), attrs[3]->BodySection_data->0@)
    } else if is_modseq_change(attrs) {
        TaskView::UpdateModseq(attrs[0]->Uid_0, attrs[1]->ModSeq_0)
    } else {
        TaskView::UpdateFlags(metadata_from(attrs))
    }
}

/// Whether a response tells that the mailbox changed in a way that ends an
/// IDLE: EXPUNGE, EXISTS or RECENT.
pub open spec fn ends_idle(response: Response) -> bool {
    ||| response is Expunge
    ||| response matches Response::MailboxData(MailboxDatum::Exists(_))
    ||| response matches Response::MailboxData(MailboxDatum::Recent(_))
}

/// What `react` does: with `idle_before` and `idle_after` whether the client
/// waits in IDLE before and after, `r` is the reaction to `response`.
pub open spec fn reacts(response: Response, idle_before: bool, r: Reaction, idle_after: bool) -> bool {
    match response {
        Response::Fetch(_, attrs) => r matches Reaction::Send(t) && t@ == fetch_task(attrs@)
            && idle_after == idle_before,
        Response::Vanished { uids, .. } => r matches Reaction::Send(t) && t@ == TaskView::Delete(
            Seq::new(uids@.len(), |k: int| (uids@[k]@.start, Some(uids@[k]@.end))),
        ) && idle_after == idle_before,
        _ => if ends_idle(response) && idle_before {
            r is StopIdle && !idle_after
        } else {
            r is Ignore && idle_after == idle_before
        },
    }
}

/// A change of the mailbox on the server (EXPUNGE, EXISTS or RECENT) ends a
/// wait in IDLE once: while waiting, the reaction is to stop and the wait is
/// over; when not waiting, nothing happens and nothing changes; no task is
/// handed out either way. So of two such changes in a row, only the first
/// stops the wait.
pub proof fn lemma_remote_change_ends_idle(
    first: Response,
    idle_before: bool,
    r1: Reaction,
    idle_between: bool,
    second: Response,
    r2: Reaction,
    idle_after: bool,
)
    requires
        ends_idle(first),
        ends_idle(second),
        reacts(first, idle_before, r1, idle_between),
        reacts(second, idle_between, r2, idle_after),
    ensures
        r1 is StopIdle <==> idle_before,
        !idle_before ==> r1 is Ignore,
        !idle_between,
        !(r1 is Send),
        r2 is Ignore,
        !idle_after,
{
}

/// A FETCH of an identifier, a modification sequence and flags, with
/// neither number zero, hands out a flag update of that message: its
/// identifier, its modification sequence, and the flags of the FLAGS
/// attribute, in their order.
pub proof fn lemma_flags_fetch_updates_flags(
    n: u32,
    attrs: Vec<AttributeValue>,
    u: u32,
    m: u64,
    f: Vec<String>,
    idle_before: bool,
    r: Reaction,
    idle_after: bool,
)
    requires
        attrs@ == seq![AttributeValue::Uid(u), AttributeValue::ModSeq(m), AttributeValue::Flags(f)],
        u != 0,
        m != 0,
        reacts(Response::Fetch(n, attrs), idle_before, r, idle_after),
    ensures
        r matches Reaction::Send(t) && t@ == TaskView::UpdateFlags(
            MetadataView { uid: u, flags: f@.map_values(|s: String| s@), modseq: m },
        ),
        idle_after == idle_before,
{
    assert(!is_whole_message(attrs@));
    assert(!is_modseq_change(attrs@));
    assert(texts(f@) =~= f@.map_values(|s: String| s@));
}

/// A FETCH of an identifier and a modification sequence, neither zero,
/// hands out a change of that message's modification sequence to that value.
pub proof fn lemma_modseq_fetch_updates_modseq(
    n: u32,
    attrs: Vec<AttributeValue>,
    u: u32,
    m: u64,
    idle_before: bool,
    r: Reaction,
    idle_after: bool,
)
    requires
        attrs@ == seq![AttributeValue::Uid(u), AttributeValue::ModSeq(m)],
        u != 0,
        m != 0,
        reacts(Response::Fetch(n, attrs), idle_before, r, idle_after),
    ensures
        r matches Reaction::Send(t) && t@ == TaskView::UpdateModseq(u, m),
        idle_after == idle_before,
{
    assert(!is_whole_message(attrs@));
    assert(is_modseq_change(attrs@));
}

/// A FETCH of an identifier, a modification sequence, flags and a body
/// with content, neither number zero, hands out that message as new mail:
/// its identifier, flags and modification sequence, and the content as sent.
pub proof fn lemma_whole_fetch_is_new_mail(
    n: u32,
    attrs: Vec<AttributeValue>,
    u: u32,
    m: u64,
    f: Vec<String>,
    content: Vec<u8>,
    idle_before: bool,
    r: Reaction,
    idle_after: bool,
)
    requires
        attrs@ == seq![
            AttributeValue::Uid(u),
            AttributeValue::ModSeq(m),
            AttributeValue::Flags(f),
            AttributeValue::BodySection { data: Some(content) },
        ],
        u != 0,
        m != 0,
        reacts(Response::Fetch(n, attrs), idle_before, r, idle_after),
    ensures
        r matches Reaction::Send(t) && t@ == TaskView::NewMail(
            MetadataView { uid: u, flags: f@.map_values(|s: String| s@), modseq: m },
            content@,
        ),
        idle_after == idle_before,
{
    assert(is_whole_message(attrs@));
    assert(texts(f@) =~= f@.map_values(|s: String| s@));
}

/// VANISHED hands out the deletion of exactly the ranges it names, in their
/// order, each from its first to its last identifier; whether the client
/// waits in IDLE does not change.
pub proof fn lemma_vanished_deletes_its_ranges(
    earlier: bool,
    uids: Vec<RangeInclusive<u32>>,
    idle_before: bool,
    r: Reaction,
    idle_after: bool,
)
    requires
        reacts(Response::Vanished { earlier, uids }, idle_before, r, idle_after),
    ensures
        r matches Reaction::Send(Task::Delete(set)) && set@.len() == uids@.len() && (forall|k: int|
            0 <= k < uids@.len() ==> (#[trigger] set@[k]) == (uids@[k]@.start, Some(uids@[k]@.end))),
        idle_after == idle_before,
{
}

/// The identifier for a number that is not zero.
fn nonzero_uid(value: u32) -> (r: Uid)
    requires
        value != 0,
    ensures
        r@ == value,
{
    match Uid::try_from_u32(value) {
        Ok(uid) => uid,
        Err(_) => Uid::max_value(),
    }
}

/// The modification sequence for a number that is not zero.
fn nonzero_modseq(value: u64) -> (r: ModSeq)
    requires
        value != 0,
    ensures
        r@ == value,
{
    match ModSeq::try_from_u64(value) {
        Ok(modseq) => modseq,
        Err(_) => ModSeq::max_value(),
    }
}

/// Decides what an untagged response in a selected mailbox calls for;
/// `idling` tells whether the client waits in IDLE, and is cleared when the
/// response ends the wait.
pub fn react(response: Response, idling: &mut bool) -> (r: Reaction)
    requires
        !is_unacceptable_untagged(response),
    ensures
        reacts(response, *old(idling), r, *final(idling)),
{
    match response {
        Response::Fetch(_, mut attrs) => {
            let ghost all = attrs@;
            let n = attrs.len();
            let body = if n == 4 {
                attrs.pop()
            } else {
                None
            };
            let flags = if n >= 3 {
                attrs.pop()
            } else {
                None
            };
            let modseq = attrs.pop();
            let uid = attrs.pop();
            match (uid, modseq) {
                (Some(AttributeValue::Uid(u)), Some(AttributeValue::ModSeq(m))) => {
                    let uid = nonzero_uid(u);
                    let modseq = nonzero_modseq(m);
                    match (flags, body) {
                        (Some(AttributeValue::Flags(f)), Some(AttributeValue::BodySection { data: Some(content) })) => {
                            let metadata = RemoteMailMetadata::new(uid, f, modseq);
                            Reaction::Send(Task::NewMail { metadata, content })
                        },
                        (Some(AttributeValue::Flags(f)), _) => {
                            Reaction::Send(Task::UpdateFlags(RemoteMailMetadata::new(uid, f, modseq)))
                        },
                        _ => Reaction::Send(Task::UpdateModseq(uid, modseq)),
                    }
                },
                _ => Reaction::Ignore,
            }
        },
        Response::Vanished { uids, .. } => Reaction::Send(Task::Delete(SequenceSet::from_ranges(&uids))),
        Response::Expunge(_) | Response::MailboxData(MailboxDatum::Exists(_)) | Response::MailboxData(MailboxDatum::Recent(_)) => {
            if *idling {
                *idling = false;
                Reaction::StopIdle
            } else {
                Reaction::Ignore
            }
        },
        _ => Reaction::Ignore,
    }
}

} // verus!
