//! Selecting a mailbox once authenticated: the commands, and what the
//! untagged responses that come before the completion tell.
use vstd::prelude::*;
use crate::imap::client::capability::{atom_capability, Capabilities, Capability};
use crate::imap::client::mail::mailbox::texts;
use crate::imap::mailbox::mailbox::MailboxBuilder;
use crate::imap::mailbox::modseq::ModSeq;
use crate::imap::mailbox::sequence_set::SequenceSet;
use crate::imap::mailbox::uid::Uid;
use crate::imap::mailbox::uid_validity::UidValidity;
use crate::imap::remote_mail::{
    first_missing, MetadataDraft, MetadataView, RemoteMailMetadata, RemoteMailMetadataBuilder,
    UninitializedFieldError,
};
use crate::imap::response::{
    AttributeValue, Response, ResponseCode, ResponseStatus, ServerCapability,
};

verus! {

broadcast use {
    crate::imap::mailbox::uid::lemma_spec_uid_view,
    crate::imap::mailbox::modseq::lemma_spec_modseq_view,
};

/// The command that selects `mailbox` with modification sequences
/// enabled: `SELECT mailbox (CONDSTORE)`.
pub fn condstore_select_command(mailbox: &str) -> (r: String)
    ensures
        r@ == "SELECT "@ + mailbox@ + " (CONDSTORE)"@,
{
    let mut s = String::from_str("SELECT ");
    s.append(mailbox);
    s.append(" (CONDSTORE)");
    s
}

/// The command that turns quick resynchronisation on.
pub fn enable_qresync_command() -> (r: String)
    ensures
        r@ == "ENABLE QRESYNC"@,
{
    String::from_str("ENABLE QRESYNC")
}

/// Whether a server offers what resynchronisation needs: CONDSTORE, ENABLE
/// and QRESYNC.
pub fn has_sync_capabilities(capabilities: &Capabilities) -> (r: bool)
    ensures
        r == (capabilities@.contains(Capability::Condstore) && capabilities@.contains(
            Capability::Enable,
        ) && capabilities@.contains(Capability::QResync)),
{
    capabilities.contains(Capability::Condstore) && capabilities.contains(Capability::Enable)
        && capabilities.contains(Capability::QResync)
}

/// What one attribute of a FETCH response adds to a message's metadata.
pub open spec fn attribute_update(d: MetadataDraft, a: AttributeValue) -> MetadataDraft {
    match a {
        AttributeValue::Flags(v) => MetadataDraft { flags: Some(texts(v@)), ..d },
        AttributeValue::ModSeq(m) => MetadataDraft { modseq: Some(m), ..d },
        AttributeValue::Uid(u) => MetadataDraft { uid: Some(u), ..d },
        _ => d,
    }
}

/// The metadata that the attributes of a FETCH response give, in order.
pub open spec fn fetched_metadata(attrs: Seq<AttributeValue>) -> MetadataDraft
    decreases attrs.len(),
{
    if attrs.len() == 0 {
        MetadataDraft { uid: None, flags: None, modseq: None }
    } else {
        attribute_update(fetched_metadata(attrs.drop_last()), attrs.last())
    }
}

/// Whether the attributes of a FETCH response describe a message fully:
/// no identifier or modification sequence is zero, and the identifier,
/// flags and modification sequence are all there.
pub open spec fn is_complete_fetch(attrs: Seq<AttributeValue>) -> bool {
    &&& forall|i: int| 0 <= i < attrs.len() ==> !((#[trigger] attrs[i]) == AttributeValue::ModSeq(0u64))
    &&& forall|i: int| 0 <= i < attrs.len() ==> !((#[trigger] attrs[i]) == AttributeValue::Uid(0u32))
    &&& first_missing(fetched_metadata(attrs)) is None
}

/// The known capabilities among the atoms of a list of announcements; other
/// announcements are passed over.
pub open spec fn announced_atoms(caps: Seq<ServerCapability>) -> Set<Capability> {
    Set::new(|c: Capability| exists|i: int| 0 <= i < caps.len() && (#[trigger] caps[i]) is Atom && atom_capability(caps[i]->Atom_0@) == Some(c))
}

/// What the untagged responses to a SELECT have told so far, as plain
/// values.
pub struct SelectionView {
    pub uid_validity: Option<u32>,
    pub highest_modseq: Option<u64>,
    pub updates: Seq<MetadataView>,
    pub deletions: Option<Seq<(u32, Option<u32>)>>,
    pub capabilities: Set<Capability>,
}

/// Whether the client cannot go on from a response to SELECT: a UIDVALIDITY
/// other than the one known from before, a HIGHESTMODSEQ of zero, or a
/// FETCH that does not describe a message fully.
pub open spec fn is_unacceptable_response(response: Response, cached: Option<u32>) -> bool {
    match response {
        Response::Data { status: ResponseStatus::Okay, code: Some(ResponseCode::UidValidity(v)), .. } =>
            cached is Some && cached->0 != v,
        Response::Data { status: ResponseStatus::Okay, code: Some(ResponseCode::HighestModSeq(m)), .. } => m == 0,
        Response::Fetch(_, attrs) => !is_complete_fetch(attrs@),
        _ => false,
    }
}

/// The metadata a complete FETCH gives, as plain values.
pub open spec fn fetched_view(attrs: Seq<AttributeValue>) -> MetadataView {
    MetadataView {
        uid: fetched_metadata(attrs).uid->0,
        flags: fetched_metadata(attrs).flags->0,
        modseq: fetched_metadata(attrs).modseq->0,
    }
}

/// What a response to SELECT adds to what is known.
pub open spec fn selection_update(s: SelectionView, response: Response) -> SelectionView {
    match response {
        Response::Capabilities(caps) => SelectionView {
            capabilities: s.capabilities.union(announced_atoms(caps@)),
            ..s
        },
        Response::Data { status: ResponseStatus::Okay, code: Some(ResponseCode::UidValidity(v)), .. } =>
            SelectionView { uid_validity: Some(v), ..s },
        Response::Data { status: ResponseStatus::Okay, code: Some(ResponseCode::HighestModSeq(m)), .. } =>
            SelectionView { highest_modseq: Some(m), ..s },
        Response::Fetch(_, attrs) => SelectionView { updates: s.updates.push(fetched_view(attrs@)), ..s },
        Response::Vanished { uids, .. } => SelectionView {
            deletions: Some(Seq::new(uids@.len(), |k: int| (uids@[k]@.start, Some(uids@[k]@.end)))),
            ..s
        },
        _ => s,
    }
}

/// The changed messages collected during a SELECT only grow, each response
/// adding at most one at the end.
pub proof fn lemma_selection_updates_grow(s: SelectionView, response: Response)
    ensures
        selection_update(s, response).updates == s.updates || selection_update(s, response).updates
            == s.updates.push(fetched_view(response->Fetch_1@)),
{
}

/// The flags of a FETCH are those of its last FLAGS attribute.
proof fn lemma_fetched_flags(attrs: Seq<AttributeValue>, i: int, f: Vec<String>)
    requires
        0 <= i < attrs.len(),
        attrs[i] == AttributeValue::Flags(f),
        forall|l: int| i < l < attrs.len() ==> !(#[trigger] attrs[l] is Flags),
    ensures
        fetched_metadata(attrs).flags == Some(f@.map_values(|s: String| s@)),
    decreases attrs.len(),
{
    assert(texts(f@) =~= f@.map_values(|s: String| s@));
    if i < attrs.len() - 1 {
        let rest = attrs.drop_last();
        assert(rest[i] == attrs[i]);
        assert forall|l: int| i < l < rest.len() implies !(#[trigger] rest[l] is Flags) by {
            assert(rest[l] == attrs[l]);
        }
        assert(!(attrs[attrs.len() - 1] is Flags));
        lemma_fetched_flags(rest, i, f);
    }
}

/// The identifier of a FETCH is that of its last UID attribute.
proof fn lemma_fetched_uid(attrs: Seq<AttributeValue>, i: int, u: u32)
    requires
        0 <= i < attrs.len(),
        attrs[i] == AttributeValue::Uid(u),
        forall|l: int| i < l < attrs.len() ==> !(#[trigger] attrs[l] is Uid),
    ensures
        fetched_metadata(attrs).uid == Some(u),
    decreases attrs.len(),
{
    if i < attrs.len() - 1 {
        let rest = attrs.drop_last();
        assert(rest[i] == attrs[i]);
        assert forall|l: int| i < l < rest.len() implies !(#[trigger] rest[l] is Uid) by {
            assert(rest[l] == attrs[l]);
        }
        assert(!(attrs[attrs.len() - 1] is Uid));
        lemma_fetched_uid(rest, i, u);
    }
}

/// The modification sequence of a FETCH is that of its last MODSEQ
/// attribute.
proof fn lemma_fetched_modseq(attrs: Seq<AttributeValue>, i: int, m: u64)
    requires
        0 <= i < attrs.len(),
        attrs[i] == AttributeValue::ModSeq(m),
        forall|l: int| i < l < attrs.len() ==> !(#[trigger] attrs[l] is ModSeq),
    ensures
        fetched_metadata(attrs).modseq == Some(m),
    decreases attrs.len(),
{
    if i < attrs.len() - 1 {
        let rest = attrs.drop_last();
        assert(rest[i] == attrs[i]);
        assert forall|l: int| i < l < rest.len() implies !(#[trigger] rest[l] is ModSeq) by {
            assert(rest[l] == attrs[l]);
        }
        assert(!(attrs[attrs.len() - 1] is ModSeq));
        lemma_fetched_modseq(rest, i, m);
    }
}

/// A FETCH during a SELECT adds one changed message at the end of those
/// collected: the identifier of its last UID attribute, the flags of its
/// last FLAGS attribute (by name, in their order) and the modification
/// sequence of its last MODSEQ attribute. Nothing else that was collected
/// changes.
pub proof fn lemma_fetch_adds_its_message(
    s: SelectionView,
    n: u32,
    attrs: Vec<AttributeValue>,
    i: int,
    f: Vec<String>,
    j: int,
    u: u32,
    k: int,
    m: u64,
)
    requires
        0 <= i < attrs@.len(),
        attrs@[i] == AttributeValue::Flags(f),
        forall|l: int| i < l < attrs@.len() ==> !(#[trigger] attrs@[l] is Flags),
        0 <= j < attrs@.len(),
        attrs@[j] == AttributeValue::Uid(u),
        forall|l: int| j < l < attrs@.len() ==> !(#[trigger] attrs@[l] is Uid),
        0 <= k < attrs@.len(),
        attrs@[k] == AttributeValue::ModSeq(m),
        forall|l: int| k < l < attrs@.len() ==> !(#[trigger] attrs@[l] is ModSeq),
    ensures
        ({
            let e = selection_update(s, Response::Fetch(n, attrs));
            &&& e.updates == s.updates.push(
                MetadataView { uid: u, flags: f@.map_values(|t: String| t@), modseq: m },
            )
            &&& e == (SelectionView { updates: e.updates, ..s })
        }),
{
    lemma_fetched_flags(attrs@, i, f);
    lemma_fetched_uid(attrs@, j, u);
    lemma_fetched_modseq(attrs@, k, m);
}

/// During a SELECT, UIDVALIDITY and HIGHESTMODSEQ record the number they
/// carry, and VANISHED records exactly the ranges it names, in their order,
/// each from its first to its last identifier; nothing else collected
/// changes.
pub proof fn lemma_selection_records_numbers(
    s: SelectionView,
    v: u32,
    m: u64,
    information: Option<String>,
    earlier: bool,
    uids: Vec<core::ops::RangeInclusive<u32>>,
)
    ensures
        ({
            let ok = ResponseStatus::Okay;
            let validity = Response::Data {
                status: ok,
                code: Some(ResponseCode::UidValidity(v)),
                information,
            };
            let modseq = Response::Data {
                status: ok,
                code: Some(ResponseCode::HighestModSeq(m)),
                information,
            };
            let gone = selection_update(s, Response::Vanished { earlier, uids });
            &&& selection_update(s, validity) == (SelectionView { uid_validity: Some(v), ..s })
            &&& selection_update(s, modseq) == (SelectionView { highest_modseq: Some(m), ..s })
            &&& gone == (SelectionView { deletions: gone.deletions, ..s })
            &&& gone.deletions matches Some(d) && d.len() == uids@.len() && (forall|k: int|
                0 <= k < uids@.len() ==> (#[trigger] d[k]) == (uids@[k]@.start, Some(uids@[k]@.end)))
        }),
{
}

/// Collects what the untagged responses to a SELECT tell: the mailbox's
/// UIDVALIDITY and highest modification sequence, the messages changed and
/// removed since the state the client knew, and newly announced
/// capabilities.
pub struct SelectionCollector {
    mailbox: MailboxBuilder,
    updates: Vec<RemoteMailMetadata>,
    deletions: Option<SequenceSet>,
    capabilities: Capabilities,
}

impl View for SelectionCollector {
    type V = SelectionView;

    closed spec fn view(&self) -> SelectionView {
        SelectionView {
            uid_validity: match self.mailbox.spec_uid_validity() {
                Some(v) => Some(v@),
                None => None,
            },
            highest_modseq: match self.mailbox.spec_highest_modseq() {
                Some(m) => Some(m@),
                None => None,
            },
            updates: self.updates@.map_values(|m: RemoteMailMetadata| m@),
            deletions: match self.deletions {
                Some(d) => Some(d@),
                None => None,
            },
            capabilities: self.capabilities@,
        }
    }
}

/// Records the known capabilities among the atoms of `items`.
fn insert_atoms(capabilities: &mut Capabilities, items: &[ServerCapability])
    ensures
        final(capabilities)@ == old(capabilities)@.union(announced_atoms(items@)),
{
    let mut k: usize = 0;
    while k < items.len()
        invariant
            k <= items@.len(),
            capabilities@ == old(capabilities)@.union(announced_atoms(items@.subrange(0, k as int))),
        decreases items@.len() - k,
    {
        let item = &items[k];
        if let ServerCapability::Atom(_) = item {
            capabilities.insert(item);
        }
        proof {
            let done = items@.subrange(0, k as int);
            let now = items@.subrange(0, k + 1);
            assert forall|c: Capability| #[trigger] announced_atoms(now).contains(c) <==> (
            announced_atoms(done).contains(c) || (items@[k as int] is Atom && atom_capability(
                items@[k as int]->Atom_0@,
            ) == Some(c))) by {
                if announced_atoms(done).contains(c) {
                    let i = choose|i: int| 0 <= i < done.len() && (#[trigger] done[i]) is Atom && atom_capability(done[i]->Atom_0@) == Some(c);
                    assert(now[i] == done[i]);
                }
                if items@[k as int] is Atom && atom_capability(items@[k as int]->Atom_0@) == Some(c) {
                    assert(now[k as int] == items@[k as int]);
                }
                if announced_atoms(now).contains(c) {
                    let i = choose|i: int| 0 <= i < now.len() && (#[trigger] now[i]) is Atom && atom_capability(now[i]->Atom_0@) == Some(c);
                    if i < k {
                        assert(done[i] == now[i]);
                    }
                }
            }
            assert(capabilities@ =~= old(capabilities)@.union(announced_atoms(now)));
        }
        k = k + 1;
    }
    assert(items@.subrange(0, k as int) =~= items@);
}

/// The metadata that the attributes of a complete FETCH response give.
fn metadata_of(attrs: Vec<AttributeValue>) -> (r: Result<RemoteMailMetadata, UninitializedFieldError>)
    requires
        is_complete_fetch(attrs@),
    ensures
        r matches Ok(m) && m@ == fetched_view(attrs@),
{
    let ghost all = attrs@;
    let mut builder = RemoteMailMetadataBuilder::default();
    for attribute in it: attrs.into_iter()
        invariant
            it.seq() == all,
            builder@ == fetched_metadata(all.take(it.index() as int)),
            is_complete_fetch(all),
    {
        let ghost k = it.index();
        assert(attribute == all[k as int]);
        match attribute {
            AttributeValue::Flags(v) => builder.flags(v),
            AttributeValue::ModSeq(m) => {
                assert(all[k as int] != AttributeValue::ModSeq(0u64));
                match ModSeq::try_from_u64(m) {
                    Ok(modseq) => builder.modseq(modseq),
                    Err(_) => {},
                }
            },
            AttributeValue::Uid(u) => {
                assert(all[k as int] != AttributeValue::Uid(0u32));
                match Uid::try_from_u32(u) {
                    Ok(uid) => builder.uid(uid),
                    Err(_) => {},
                }
            },
            _ => {},
        }
        proof {
            assert(all.take(k + 1).drop_last() =~= all.take(k as int));
            assert(all.take(k + 1).last() == all[k as int]);
        }
    }
    assert(all.take(all.len() as int) =~= all);
    builder.build()
}

impl SelectionCollector {
    /// A collector that knows nothing yet, starting from the capabilities
    /// known before the SELECT.
    pub fn new(capabilities: Capabilities) -> (r: Self)
        ensures
            r@ == (SelectionView {
                uid_validity: None,
                highest_modseq: None,
                updates: Seq::empty(),
                deletions: None,
                capabilities: capabilities@,
            }),
    {
        let r = SelectionCollector {
            mailbox: MailboxBuilder::new(),
            updates: Vec::new(),
            deletions: None,
            capabilities,
        };
        assert(r@.updates =~= Seq::<MetadataView>::empty());
        r
    }

    /// Takes in one untagged response to the SELECT; `cached_uid_validity`
    /// is the UIDVALIDITY known from before, if any, which the server's
    /// must equal.
    pub fn handle_response(&mut self, response: Response, cached_uid_validity: Option<UidValidity>)
        requires
            !is_unacceptable_response(
                response,
                match cached_uid_validity {
                    Some(v) => Some(v@),
                    None => None,
                },
            ),
        ensures
            final(self)@ == selection_update(old(self)@, response),
    {
        let ghost before = self@;
        match response {
            Response::Capabilities(caps) => {
                insert_atoms(&mut self.capabilities, caps.as_slice());
            },
            Response::Data { status: ResponseStatus::Okay, code: Some(code), information } => {
                match code {
                    ResponseCode::UidValidity(v) => {
                        self.mailbox.uid_validity(UidValidity::new(v));
                    },
                    ResponseCode::HighestModSeq(m) => {
                        match ModSeq::try_from_u64(m) {
                            Ok(modseq) => self.mailbox.highest_modseq(modseq),
                            Err(_) => {},
                        }
                    },
                    _ => {},
                }
            },
            Response::Fetch(_, attrs) => {
                let ghost seen = attrs@;
                if let Ok(metadata) = metadata_of(attrs) {
                    self.updates.push(metadata);
                    assert(self@.updates =~= before.updates.push(fetched_view(seen)));
                }
            },
            Response::Vanished { uids, .. } => {
                self.deletions = Some(SequenceSet::from_ranges(&uids));
            },
            _ => {},
        }
    }

    /// What was collected: the changed messages' metadata, the removed
    /// messages, the builder of the mailbox's state, and the capabilities.
    pub fn into_parts(self) -> (r: (Vec<RemoteMailMetadata>, Option<SequenceSet>, MailboxBuilder, Capabilities))
        ensures
            r.0@.map_values(|m: RemoteMailMetadata| m@) == self@.updates,
            match r.1 {
                Some(d) => self@.deletions == Some(d@),
                None => self@.deletions is None,
            },
            match r.2.spec_uid_validity() {
                Some(v) => self@.uid_validity == Some(v@),
                None => self@.uid_validity is None,
            },
            match r.2.spec_highest_modseq() {
                Some(m) => self@.highest_modseq == Some(m@),
                None => self@.highest_modseq is None,
            },
            r.3@ == self@.capabilities,
    {
        (self.updates, self.deletions, self.mailbox, self.capabilities)
    }
}

} // verus!
