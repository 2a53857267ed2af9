//! Selecting a mailbox: the commands, and what their responses tell.
use vstd::prelude::*;
use crate::imap::client::mail::mailbox::{built, first_missing, texts, MailboxBuilder, MailboxDraft};
use crate::imap::mailbox::modseq::ModSeq;
use crate::imap::mailbox::uid::Uid;
use crate::imap::mailbox::uid_validity::UidValidity;
use crate::imap::response::{MailboxDatum, Response, ResponseCode, ResponseStatus};
use crate::text::decimal;

verus! {

/// The server refused to select a mailbox.
#[derive(Debug)]
pub struct SelectError {
    mailbox: String,
}

impl View for SelectError {
    type V = Seq<char>;

    /// The name of the mailbox.
    closed spec fn view(&self) -> Seq<char> {
        self.mailbox@
    }
}

impl SelectError {
    /// The message that describes the error.
    pub fn to_string(&self) -> (r: String)
        ensures
            r@ == "cannot select mailbox "@ + self@ + ". Going back to unselected."@,
    {
        let mut s = String::from_str("cannot select mailbox ");
        s.append(self.mailbox.as_str());
        s.append(". Going back to unselected.");
        s
    }
}

/// The command that selects `mailbox`: `SELECT mailbox`.
pub fn select_command(mailbox: &str) -> (r: String)
    ensures
        r@ == "SELECT "@ + mailbox@,
{
    let mut s = String::from_str("SELECT ");
    s.append(mailbox);
    s
}

/// The command that selects `mailbox` and asks for the changes since the
/// given state: `SELECT mailbox (QRESYNC (validity modseq))`.
pub fn qresync_select_command(mailbox: &str, uid_validity: UidValidity, highest_modseq: ModSeq) -> (r: String)
    ensures
        r@ == "SELECT "@ + mailbox@ + " (QRESYNC ("@ + decimal(uid_validity@ as nat) + " "@ + decimal(
            highest_modseq@ as nat,
        ) + "))"@,
{
    let mut s = select_command(mailbox);
    s.append(" (QRESYNC (");
    let validity = uid_validity.to_string();
    s.append(validity.as_str());
    s.append(" ");
    let modseq = highest_modseq.to_string();
    s.append(modseq.as_str());
    s.append("))");
    s
}

/// Where a SELECT stands after a response.
#[derive(Debug)]
pub enum SelectProgress {
    /// More responses are to come.
    Pending,
    /// The server completed the command: the mailbox is selected.
    Selected,
    /// The server refused the command.
    Refused(SelectError),
}

/// Whether a response to SELECT is one the client cannot go on from: an
/// UIDNEXT or HIGHESTMODSEQ of zero, or a completion with a status other
/// than OK or NO.
pub open spec fn is_unacceptable_select_response(response: Response) -> bool {
    match response {
        Response::Data { status: ResponseStatus::Okay, code: Some(ResponseCode::UidNext(n)), .. } => n == 0,
        Response::Data { status: ResponseStatus::Okay, code: Some(ResponseCode::HighestModSeq(m)), .. } => m == 0,
        Response::Done { status, .. } => status != ResponseStatus::Okay && status != ResponseStatus::No,
        _ => false,
    }
}

/// What a response to SELECT adds to the description of the mailbox.
pub open spec fn select_update(d: MailboxDraft, response: Response) -> MailboxDraft {
    match response {
        Response::MailboxData(MailboxDatum::Flags(v)) => MailboxDraft { flags: Some(texts(v@)), ..d },
        Response::MailboxData(MailboxDatum::Exists(n)) => MailboxDraft { exists: Some(n), ..d },
        Response::MailboxData(MailboxDatum::Recent(n)) => MailboxDraft { recent: Some(n), ..d },
        Response::Data { status: ResponseStatus::Okay, code: Some(code), .. } => match code {
            ResponseCode::Unseen(n) => MailboxDraft { unseen: Some(n), ..d },
            ResponseCode::PermanentFlags(v) => MailboxDraft { permanent_flags: Some(texts(v@)), ..d },
            ResponseCode::UidNext(n) => MailboxDraft { uid_next: Some(n), ..d },
            ResponseCode::UidValidity(n) => MailboxDraft { uid_validity: Some(n), ..d },
            ResponseCode::HighestModSeq(m) => MailboxDraft { highest_modseq: Some(m), ..d },
            _ => d,
        },
        Response::Done { status: ResponseStatus::Okay, code: Some(ResponseCode::ReadOnly), .. } =>
            MailboxDraft { readonly: Some(true), ..d },
        _ => d,
    }
}

/// Once every part of the mailbox has arrived, no response to SELECT takes
/// one away: the description stays complete.
pub proof fn lemma_select_update_stays_complete(d: MailboxDraft, response: Response)
    requires
        first_missing(d) is None,
    ensures
        first_missing(select_update(d, response)) is None,
{
}

/// An OK completion with the code READ-ONLY marks the mailbox read-only, and
/// the mailbox built from the description is read-only; any other OK
/// completion leaves that as it was. No completion changes another part.
pub proof fn lemma_completion_sets_access(
    d: MailboxDraft,
    tag: String,
    code: Option<ResponseCode>,
    information: Option<String>,
)
    ensures
        ({
            let e = select_update(
                d,
                Response::Done { tag, status: ResponseStatus::Okay, code, information },
            );
            &&& code == Some(ResponseCode::ReadOnly) ==> e.readonly == Some(true) && built(e).readonly
            &&& code != Some(ResponseCode::ReadOnly) ==> e.readonly == d.readonly
            &&& e == (MailboxDraft { readonly: e.readonly, ..d })
        }),
{
}

/// FLAGS, EXISTS and RECENT set the flags (by name, in their order), the
/// number of messages and the number of recent messages; nothing else
/// changes.
pub proof fn lemma_mailbox_data_sets_parts(d: MailboxDraft, n: u32, v: Vec<String>)
    ensures
        ({
            let exists = Response::MailboxData(MailboxDatum::Exists(n));
            let recent = Response::MailboxData(MailboxDatum::Recent(n));
            let flags = Response::MailboxData(MailboxDatum::Flags(v));
            &&& select_update(d, exists) == (MailboxDraft { exists: Some(n), ..d })
            &&& select_update(d, recent) == (MailboxDraft { recent: Some(n), ..d })
            &&& select_update(d, flags) == (MailboxDraft {
                flags: Some(v@.map_values(|s: String| s@)),
                ..d
            })
        }),
{
    assert(texts(v@) =~= v@.map_values(|s: String| s@));
}

/// Untagged OK responses with UNSEEN, PERMANENTFLAGS, UIDNEXT, UIDVALIDITY or
/// HIGHESTMODSEQ set that part of the description to the number or flags
/// they carry, and nothing else.
pub proof fn lemma_status_data_sets_parts(
    d: MailboxDraft,
    n: u32,
    m: u64,
    v: Vec<String>,
    information: Option<String>,
)
    ensures
        ({
            let ok = ResponseStatus::Okay;
            let unseen = Response::Data { status: ok, code: Some(ResponseCode::Unseen(n)), information };
            let permanent = Response::Data {
                status: ok,
                code: Some(ResponseCode::PermanentFlags(v)),
                information,
            };
            let validity = Response::Data {
                status: ok,
                code: Some(ResponseCode::UidValidity(n)),
                information,
            };
            let next = Response::Data { status: ok, code: Some(ResponseCode::UidNext(n)), information };
            let modseq = Response::Data {
                status: ok,
                code: Some(ResponseCode::HighestModSeq(m)),
                information,
            };
            &&& select_update(d, unseen) == (MailboxDraft { unseen: Some(n), ..d })
            &&& select_update(d, permanent) == (MailboxDraft {
                permanent_flags: Some(v@.map_values(|s: String| s@)),
                ..d
            })
            &&& select_update(d, validity) == (MailboxDraft { uid_validity: Some(n), ..d })
            &&& select_update(d, next) == (MailboxDraft { uid_next: Some(n), ..d })
            &&& select_update(d, modseq) == (MailboxDraft { highest_modseq: Some(m), ..d })
        }),
{
    assert(texts(v@) =~= v@.map_values(|s: String| s@));
}

/// Takes in one response to `SELECT mailbox`: records what it tells of the
/// mailbox and says whether the command is complete, refused, or goes on.
pub fn take_select_response(builder: &mut MailboxBuilder, mailbox: &str, response: Response) -> (r: SelectProgress)
    requires
        !is_unacceptable_select_response(response),
    ensures
        final(builder)@ == select_update(old(builder)@, response),
        match response {
            Response::Done { status: ResponseStatus::Okay, .. } => r is Selected,
            Response::Done { status: ResponseStatus::No, .. } => r matches SelectProgress::Refused(e) && e@ == mailbox@,
            _ => r is Pending,
        },
{
    broadcast use crate::imap::mailbox::uid::lemma_spec_uid_view;

    match response {
        Response::MailboxData(datum) => {
            match datum {
                MailboxDatum::Flags(v) => builder.flags(v),
                MailboxDatum::Exists(n) => builder.exists_count(n),
                MailboxDatum::Recent(n) => builder.recent(n),
                MailboxDatum::Other => {},
            }
            SelectProgress::Pending
        },
        Response::Data { status: ResponseStatus::Okay, code: Some(code), .. } => {
            match code {
                ResponseCode::Unseen(n) => builder.unseen(n),
                ResponseCode::PermanentFlags(v) => builder.permanent_flags(v),
                ResponseCode::UidNext(n) => {
                    let uid = Uid::try_from_u32(n);
                    match uid {
                        Ok(uid) => builder.uid_next(uid),
                        Err(_) => {},
                    }
                },
                ResponseCode::UidValidity(n) => builder.uid_validity(UidValidity::new(n)),
                ResponseCode::HighestModSeq(m) => builder.highest_modseq(m),
                _ => {},
            }
            SelectProgress::Pending
        },
        Response::Done { status: ResponseStatus::Okay, code, .. } => {
            if let Some(ResponseCode::ReadOnly) = code {
                builder.readonly(true);
            }
            SelectProgress::Selected
        },
        Response::Done { .. } => {
            SelectProgress::Refused(SelectError { mailbox: String::from_str(mailbox) })
        },
        _ => SelectProgress::Pending,
    }
}

} // verus!
