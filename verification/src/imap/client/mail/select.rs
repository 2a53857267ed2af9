//! Selecting a mailbox: what the responses to SELECT tell.
use vstd::prelude::*;
use crate::imap::client::mail::mailbox::texts;
use crate::imap::client::mailbox::{built, MailboxBuilder, MailboxDraft, UidBuilder};
use crate::imap::response::{MailboxDatum, Response, ResponseCode, ResponseStatus};

verus! {

/// The server refused to select a mailbox.
#[derive(Debug)]
pub struct SelectError {
    mailbox: String,
}

impl View for SelectError {
    type V = Seq<char>;

    /// The name of the mailbox.
    closed spec fn view(&self) -> Seq<char> {
        self.mailbox@
    }
}

impl SelectError {
    /// The message that describes the error.
    pub fn to_string(&self) -> (r: String)
        ensures
            r@ == "cannot select mailbox "@ + self@ + ". Going back to unselected."@,
    {
        let mut s = String::from_str("cannot select mailbox ");
        s.append(self.mailbox.as_str());
        s.append(". Going back to unselected.");
        s
    }
}

/// Where a SELECT stands after a response.
#[derive(Debug)]
pub enum SelectProgress {
    /// More responses are to come.
    Pending,
    /// The server completed the command: the mailbox is selected.
    Selected,
    /// The server refused the command.
    Refused(SelectError),
}

/// Whether a response to SELECT is one the client cannot go on from: a
/// completion with a status other than OK or NO.
pub open spec fn is_unacceptable_select_response(response: Response) -> bool {
    match response {
        Response::Done { status, .. } => status != ResponseStatus::Okay && status != ResponseStatus::No,
        _ => false,
    }
}

/// What a response to SELECT adds to the identifier pair collected so far.
pub open spec fn uid_update(u: (Option<u32>, Option<u32>), response: Response) -> (Option<u32>, Option<u32>) {
    match response {
        Response::Data { status: ResponseStatus::Okay, code: Some(ResponseCode::UidNext(n)), .. } => (u.0, Some(n)),
        Response::Data { status: ResponseStatus::Okay, code: Some(ResponseCode::UidValidity(n)), .. } => (Some(n), u.1),
        _ => u,
    }
}

/// What a response to SELECT adds to the description of the mailbox, given
/// the identifier pair collected so far.
pub open spec fn select_update(d: MailboxDraft, u: (Option<u32>, Option<u32>), response: Response) -> MailboxDraft {
    match response {
        Response::MailboxData(MailboxDatum::Flags(v)) => MailboxDraft { flags: Some(texts(v@)), ..d },
        Response::MailboxData(MailboxDatum::Exists(n)) => MailboxDraft { exists: Some(n), ..d },
        Response::MailboxData(MailboxDatum::Recent(n)) => MailboxDraft { recent: Some(n), ..d },
        Response::Data { status: ResponseStatus::Okay, code: Some(code), .. } => match code {
            ResponseCode::Unseen(n) => MailboxDraft { unseen: Some(n), ..d },
            ResponseCode::PermanentFlags(v) => MailboxDraft { permanent_flags: Some(texts(v@)), ..d },
            _ => d,
        },
        Response::Done { status: ResponseStatus::Okay, code, .. } => {
            let d1 = if code == Some(ResponseCode::ReadOnly) {
                MailboxDraft { readonly: Some(true), ..d }
            } else {
                d
            };
            match u {
                (Some(validity), Some(next)) => MailboxDraft { uid: Some((validity, next)), ..d1 },
                _ => d1,
            }
        },
        _ => d,
    }
}

/// An OK completion with the code READ-ONLY marks the mailbox read-only,
/// and the mailbox built from the description is read-only; its other
/// parts but the identifier pair stay as they were.
pub proof fn lemma_read_only_completion(
    d: MailboxDraft,
    u: (Option<u32>, Option<u32>),
    tag: String,
    information: Option<String>,
)
    ensures
        ({
            let e = select_update(
                d,
                u,
                Response::Done {
                    tag,
                    status: ResponseStatus::Okay,
                    code: Some(ResponseCode::ReadOnly),
                    information,
                },
            );
            &&& e.readonly == Some(true)
            &&& built(e).readonly
            &&& e.name == d.name
            &&& e.flags == d.flags
            &&& e.exists == d.exists
            &&& e.recent == d.recent
            &&& e.unseen == d.unseen
            &&& e.permanent_flags == d.permanent_flags
        }),
{
}

/// An OK completion with any other code, or none, leaves whether the
/// mailbox is read-only, and all its parts but the identifier pair, as they
/// were.
pub proof fn lemma_other_completion_keeps_access(
    d: MailboxDraft,
    u: (Option<u32>, Option<u32>),
    tag: String,
    code: Option<ResponseCode>,
    information: Option<String>,
)
    requires
        code != Some(ResponseCode::ReadOnly),
    ensures
        ({
            let e = select_update(
                d,
                u,
                Response::Done { tag, status: ResponseStatus::Okay, code, information },
            );
            &&& e.readonly == d.readonly
            &&& e.name == d.name
            &&& e.flags == d.flags
            &&& e.exists == d.exists
            &&& e.recent == d.recent
            &&& e.unseen == d.unseen
            &&& e.permanent_flags == d.permanent_flags
        }),
{
}

/// On an OK completion the identifier pair goes into the description when
/// both UIDVALIDITY and UIDNEXT arrived, as (validity, next); otherwise the
/// description keeps the pair it had.
pub proof fn lemma_completion_records_uid_pair(
    d: MailboxDraft,
    u: (Option<u32>, Option<u32>),
    tag: String,
    code: Option<ResponseCode>,
    information: Option<String>,
)
    ensures
        ({
            let e = select_update(
                d,
                u,
                Response::Done { tag, status: ResponseStatus::Okay, code, information },
            );
            &&& (u.0 is Some && u.1 is Some) ==> e.uid == Some((u.0->0, u.1->0))
            &&& !(u.0 is Some && u.1 is Some) ==> e.uid == d.uid
        }),
{
}

/// FLAGS, EXISTS and RECENT set the flags (by name, in their order), the
/// number of messages and the number of recent messages; nothing else
/// changes, and the identifier pair collected so far neither.
pub proof fn lemma_mailbox_data_sets_parts(
    d: MailboxDraft,
    u: (Option<u32>, Option<u32>),
    n: u32,
    v: Vec<String>,
)
    ensures
        ({
            let exists = Response::MailboxData(MailboxDatum::Exists(n));
            let recent = Response::MailboxData(MailboxDatum::Recent(n));
            let flags = Response::MailboxData(MailboxDatum::Flags(v));
            &&& select_update(d, u, exists) == (MailboxDraft { exists: Some(n), ..d })
            &&& select_update(d, u, recent) == (MailboxDraft { recent: Some(n), ..d })
            &&& select_update(d, u, flags) == (MailboxDraft {
                flags: Some(v@.map_values(|s: String| s@)),
                ..d
            })
            &&& uid_update(u, exists) == u
            &&& uid_update(u, recent) == u
            &&& uid_update(u, flags) == u
        }),
{
    assert(texts(v@) =~= v@.map_values(|s: String| s@));
}

/// Untagged OK responses with UNSEEN or PERMANENTFLAGS set those parts;
/// with UIDVALIDITY or UIDNEXT they set that half of the identifier pair and
/// leave the description as it is.
pub proof fn lemma_status_data_sets_parts(
    d: MailboxDraft,
    u: (Option<u32>, Option<u32>),
    n: u32,
    v: Vec<String>,
    information: Option<String>,
)
    ensures
        ({
            let ok = ResponseStatus::Okay;
            let unseen = Response::Data { status: ok, code: Some(ResponseCode::Unseen(n)), information };
            let permanent = Response::Data {
                status: ok,
                code: Some(ResponseCode::PermanentFlags(v)),
                information,
            };
            let validity = Response::Data {
                status: ok,
                code: Some(ResponseCode::UidValidity(n)),
                information,
            };
            let next = Response::Data { status: ok, code: Some(ResponseCode::UidNext(n)), information };
            &&& select_update(d, u, unseen) == (MailboxDraft { unseen: Some(n), ..d })
            &&& select_update(d, u, permanent) == (MailboxDraft {
                permanent_flags: Some(v@.map_values(|s: String| s@)),
                ..d
            })
            &&& select_update(d, u, validity) == d
            &&& select_update(d, u, next) == d
            &&& uid_update(u, validity) == (Some(n), u.1)
            &&& uid_update(u, next) == (u.0, Some(n))
            &&& uid_update(u, unseen) == u
        }),
{
    assert(texts(v@) =~= v@.map_values(|s: String| s@));
}

/// Takes in one response to `SELECT mailbox`: records what it tells of the
/// mailbox and says whether the command is complete, refused, or goes on.
/// On completion, the identifier pair goes into the mailbox if both its
/// parts arrived.
pub fn take_select_response(
    builder: &mut MailboxBuilder,
    uid: &mut UidBuilder,
    mailbox: &str,
    response: Response,
) -> (r: SelectProgress)
    requires
        !is_unacceptable_select_response(response),
    ensures
        final(builder)@ == select_update(old(builder)@, old(uid)@, response),
        final(uid)@ == uid_update(old(uid)@, response),
        match response {
            Response::Done { status: ResponseStatus::Okay, .. } => r is Selected,
            Response::Done { status: ResponseStatus::No, .. } => r matches SelectProgress::Refused(e) && e@ == mailbox@,
            _ => r is Pending,
        },
{
    match response {
        Response::MailboxData(datum) => {
            match datum {
                MailboxDatum::Flags(v) => builder.flags(v),
                MailboxDatum::Exists(n) => builder.exists_count(n),
                MailboxDatum::Recent(n) => builder.recent(n),
                MailboxDatum::Other => {},
            }
            SelectProgress::Pending
        },
        Response::Data { status: ResponseStatus::Okay, code: Some(code), .. } => {
            match code {
                ResponseCode::Unseen(n) => builder.unseen(n),
                ResponseCode::PermanentFlags(v) => builder.permanent_flags(v),
                ResponseCode::UidNext(n) => uid.next(n),
                ResponseCode::UidValidity(n) => uid.validity(n),
                _ => {},
            }
            SelectProgress::Pending
        },
        Response::Done { status: ResponseStatus::Okay, code, .. } => {
            if let Some(ResponseCode::ReadOnly) = code {
                builder.readonly(true);
            }
            if let Some(pair) = uid.build() {
                builder.uid(pair);
            }
            SelectProgress::Selected
        },
        Response::Done { .. } => {
            SelectProgress::Refused(SelectError { mailbox: String::from_str(mailbox) })
        },
        _ => SelectProgress::Pending,
    }
}

} // verus!
