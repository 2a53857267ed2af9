//! Parsers for IMAP server responses: the greeting, tagged and fatal
//! responses that end a command, and untagged response data.
use vstd::prelude::*;
use super::grammar::{
    g_astring, g_atom, g_bracketed_code, g_capability, g_capability_data, g_charsets,
    g_code_badcharset, g_code_capability, g_code_custom, g_code_permanentflags, g_code_uidnext,
    g_code_uidvalidity, g_code_unseen, g_flag, g_flag_extension, g_flag_keyword, g_greeting,
    g_literal, g_quoted, g_resp_cond_auth, g_resp_cond_bye, g_resp_cond_state, g_resp_text,
    g_resp_text_code, g_response_data, g_response_data_body, g_response_done, g_response_fatal,
    g_response_tagged, g_revision, g_status, g_string, g_tag, g_take1, g_text, g_word_number,
    many0, r_astring, r_capability, r_flag, spaced_list1, spaced_tail, utf8_len, utf8_width,
    w_answered, w_deleted, w_draft, w_flagged, w_recent, w_seen, w_wildcard, word_code,
    SpecCapability, g_two_digit, g_nstring, w_nil, month_names, month_from, g_date_month,
    g_date_day_fixed, g_time, g_msg_att_dynamic, spaced_list0, g_zone_seconds, SpecFlag,
    SpecResponseCondState, SpecResponseLine, SpecResponseText, SpecResponseTextCode,
    SpecTaggedResponse,
};
pub use super::grammar::{Revision, Status};
use super::scan::{g_number, is_char_at, is_word_at, lemma_run_end, number, take_while, CharClass};
use crate::text::{chars_of, span};
use super::scan::digit_value;

verus! {

impl DeepView for Revision {
    type V = Revision;

    open spec fn deep_view(&self) -> Revision {
        *self
    }
}

impl DeepView for Status {
    type V = Status;

    open spec fn deep_view(&self) -> Status {
        *self
    }
}

/// The tag of a tagged response.
#[derive(Debug, PartialEq)]
pub struct Tag(pub String);

/// The name of an authentication mechanism.
#[derive(Debug, PartialEq)]
pub struct AuthType(pub String);

#[derive(Debug, PartialEq)]
pub enum Capability {
    AuthType(String),
    Custom(String),
    Revision(Revision),
}

impl DeepView for Capability {
    type V = SpecCapability;

    open spec fn deep_view(&self) -> SpecCapability {
        match self {
            Capability::AuthType(a) => SpecCapability::AuthType(a@),
            Capability::Custom(a) => SpecCapability::Custom(a@),
            Capability::Revision(r) => SpecCapability::Revision(*r),
        }
    }
}

#[derive(Debug, PartialEq)]
pub enum Flag {
    Answered,
    Flagged,
    Deleted,
    Seen,
    Draft,
    Keyword(String),
    Extension(String),
    Wildcard,
    Recent,
}

impl DeepView for Flag {
    type V = SpecFlag;

    open spec fn deep_view(&self) -> SpecFlag {
        match self {
            Flag::Answered => SpecFlag::Answered,
            Flag::Flagged => SpecFlag::Flagged,
            Flag::Deleted => SpecFlag::Deleted,
            Flag::Seen => SpecFlag::Seen,
            Flag::Draft => SpecFlag::Draft,
            Flag::Keyword(a) => SpecFlag::Keyword(a@),
            Flag::Extension(a) => SpecFlag::Extension(a@),
            Flag::Wildcard => SpecFlag::Wildcard,
            Flag::Recent => SpecFlag::Recent,
        }
    }
}

#[derive(Debug, PartialEq)]
pub enum ResponseTextCode {
    Alert,
    BadCharset(Option<Vec<String>>),
    Capability(Vec<Capability>),
    Parse,
    PermanentFlags(Vec<Flag>),
    ReadOnly,
    ReadWrite,
    TryCreate,
    UidNext(u32),
    UidValidity(u32),
    Unseen(u32),
    Custom(String, Option<String>),
}

impl DeepView for ResponseTextCode {
    type V = SpecResponseTextCode;

    open spec fn deep_view(&self) -> SpecResponseTextCode {
        match self {
            ResponseTextCode::Alert => SpecResponseTextCode::Alert,
            ResponseTextCode::BadCharset(c) => SpecResponseTextCode::BadCharset(c.deep_view()),
            ResponseTextCode::Capability(c) => SpecResponseTextCode::Capability(c.deep_view()),
            ResponseTextCode::Parse => SpecResponseTextCode::Parse,
            ResponseTextCode::PermanentFlags(f) => SpecResponseTextCode::PermanentFlags(
                f.deep_view(),
            ),
            ResponseTextCode::ReadOnly => SpecResponseTextCode::ReadOnly,
            ResponseTextCode::ReadWrite => SpecResponseTextCode::ReadWrite,
            ResponseTextCode::TryCreate => SpecResponseTextCode::TryCreate,
            ResponseTextCode::UidNext(n) => SpecResponseTextCode::UidNext(*n),
            ResponseTextCode::UidValidity(n) => SpecResponseTextCode::UidValidity(*n),
            ResponseTextCode::Unseen(n) => SpecResponseTextCode::Unseen(*n),
            ResponseTextCode::Custom(k, v) => SpecResponseTextCode::Custom(k@, v.deep_view()),
        }
    }
}

#[derive(Debug, PartialEq)]
pub struct ResponseText {
    pub code: Option<ResponseTextCode>,
    pub text: String,
}

impl DeepView for ResponseText {
    type V = SpecResponseText;

    open spec fn deep_view(&self) -> SpecResponseText {
        SpecResponseText { code: self.code.deep_view(), text: self.text@ }
    }
}

#[derive(Debug, PartialEq)]
pub struct ResponseCondState {
    pub status: Status,
    pub text: ResponseText,
}

impl DeepView for ResponseCondState {
    type V = SpecResponseCondState;

    open spec fn deep_view(&self) -> SpecResponseCondState {
        SpecResponseCondState { status: self.status, text: self.text.deep_view() }
    }
}

#[derive(Debug, PartialEq)]
pub struct TaggedResponse {
    pub tag: Tag,
    pub state: ResponseCondState,
}

impl DeepView for TaggedResponse {
    type V = SpecTaggedResponse;

    open spec fn deep_view(&self) -> SpecTaggedResponse {
        SpecTaggedResponse { tag: self.tag.0@, state: self.state.deep_view() }
    }
}

#[derive(Debug, PartialEq)]
pub enum ResponseLine {
    CapabilityData(Vec<Capability>),
    CondBye(ResponseText),
    CondState(ResponseCondState),
    Tagged(TaggedResponse),
    Fatal(ResponseText),
}

impl DeepView for ResponseLine {
    type V = SpecResponseLine;

    open spec fn deep_view(&self) -> SpecResponseLine {
        match self {
            ResponseLine::CapabilityData(c) => SpecResponseLine::CapabilityData(c.deep_view()),
            ResponseLine::CondBye(t) => SpecResponseLine::CondBye(t.deep_view()),
            ResponseLine::CondState(t) => SpecResponseLine::CondState(t.deep_view()),
            ResponseLine::Tagged(t) => SpecResponseLine::Tagged(t.deep_view()),
            ResponseLine::Fatal(t) => SpecResponseLine::Fatal(t.deep_view()),
        }
    }
}

/// The input was not a response of the kind asked for.
#[derive(Debug, PartialEq, Eq, Clone, Copy)]
pub struct ParseError;

/// What an executable parser returned, as the grammar states it.
pub open spec fn lift<X: DeepView>(r: Option<(usize, X)>) -> Option<(int, X::V)> {
    match r {
        Some((j, x)) => Some((j as int, x.deep_view())),
        None => None,
    }
}

/// A match that consumed input and stayed inside it.
pub open spec fn advances<X>(r: Option<(usize, X)>, i: usize, len: nat) -> bool {
    r matches Some((j, _)) ==> i < j && j <= len
}

/// What is left of the input after a match, and the value read.
pub open spec fn parsed<V>(s: Seq<char>, r: Option<(int, V)>) -> Option<(Seq<char>, V)> {
    match r {
        Some((j, v)) => Some((s.subrange(j, s.len() as int), v)),
        None => None,
    }
}

fn take1(s: &[char], i: usize, class: CharClass) -> (r: Option<(usize, String)>)
    requires
        i <= s@.len(),
    ensures
        lift(r) == g_take1(s@, i as int, class),
        advances(r, i, s@.len()),
{
    let e = take_while(s, i, class);
    if e > i {
        Some((e, span(s, i, e)))
    } else {
        None
    }
}

fn text(s: &[char], i: usize) -> (r: Option<(usize, String)>)
    requires
        i <= s@.len(),
    ensures
        lift(r) == g_text(s@, i as int),
        advances(r, i, s@.len()),
{
    take1(s, i, CharClass::Text)
}

fn atom(s: &[char], i: usize) -> (r: Option<(usize, String)>)
    requires
        i <= s@.len(),
    ensures
        lift(r) == g_atom(s@, i as int),
        advances(r, i, s@.len()),
{
    take1(s, i, CharClass::Atom)
}

fn imap_tag(s: &[char], i: usize) -> (r: Option<(usize, Tag)>)
    requires
        i <= s@.len(),
    ensures
        match r {
            Some((j, t)) => g_tag(s@, i as int) == Some((j as int, t.0@)),
            None => g_tag(s@, i as int) is None,
        },
        advances(r, i, s@.len()),
{
    match take1(s, i, CharClass::AstringWithoutPlus) {
        Some((j, raw)) => Some((j, Tag(raw))),
        None => None,
    }
}

fn quoted(s: &[char], i: usize) -> (r: Option<(usize, String)>)
    requires
        i <= s@.len(),
    ensures
        lift(r) == g_quoted(s@, i as int),
        advances(r, i, s@.len()),
{
    if is_char_at(s, i, '"') && is_char_at(s, i + 1, '"') {
        Some((i + 2, String::new()))
    } else {
        None
    }
}

fn utf8_width_of(c: char) -> (r: u64)
    ensures
        r == utf8_width(c),
{
    let code: u32 = c as u32;
    if code < 0x80 {
        1
    } else if code < 0x800 {
        2
    } else if code < 0x10000 {
        3
    } else {
        4
    }
}

/// The UTF-8 length of `s[k..e]`, modulo 2^32.
fn utf8_len_mod(s: &[char], k: usize, e: usize) -> (r: u64)
    requires
        k <= e <= s@.len(),
    ensures
        r == utf8_len(s@.subrange(k as int, e as int)) % 0x1_0000_0000,
{
    let mut blen: u64 = 0;
    let mut m = k;
    assert(s@.subrange(k as int, k as int) =~= Seq::<char>::empty());
    while m < e
        invariant
            k <= m <= e <= s@.len(),
            blen == utf8_len(s@.subrange(k as int, m as int)) % 0x1_0000_0000,
        decreases e - m,
    {
        let w = utf8_width_of(s[m]);
        proof {
            let d = s@.subrange(k as int, m + 1);
            assert(d.drop_last() =~= s@.subrange(k as int, m as int));
            assert(d.last() == s@[m as int]);
            let a = utf8_len(s@.subrange(k as int, m as int)) as int;
            vstd::arithmetic::div_mod::lemma_add_mod_noop(a, w as int, 0x1_0000_0000);
            vstd::arithmetic::div_mod::lemma_small_mod(w as nat, 0x1_0000_0000);
            vstd::arithmetic::div_mod::lemma_small_mod(
                (a % 0x1_0000_0000 + w) as nat,
                0x1_0000_0000 * 2,
            );
        }
        blen = (blen + w) % 0x1_0000_0000;
        m = m + 1;
    }
    blen
}

fn literal(s: &[char], i: usize) -> (r: Option<(usize, String)>)
    requires
        i <= s@.len(),
    ensures
        lift(r) == g_literal(s@, i as int),
        advances(r, i, s@.len()),
{
    if !is_char_at(s, i, '{') {
        return None;
    }
    match number(s, i + 1) {
        None => None,
        Some((j, n)) => {
            proof {
                lemma_run_end(s@, i + 1, CharClass::Digit);
            }
            if is_char_at(s, j, '}') && is_word_at(s, j + 1, &['\r', '\n']) {
                let k = j + 3;
                let e = take_while(s, k, CharClass::Char8);
                let blen = utf8_len_mod(s, k, e);
                if blen == n as u64 {
                    Some((e, span(s, k, e)))
                } else {
                    None
                }
            } else {
                None
            }
        },
    }
}

fn string(s: &[char], i: usize) -> (r: Option<(usize, String)>)
    requires
        i <= s@.len(),
    ensures
        lift(r) == g_string(s@, i as int),
        advances(r, i, s@.len()),
{
    match quoted(s, i) {
        Some(x) => Some(x),
        None => literal(s, i),
    }
}

fn astring(s: &[char], i: usize) -> (r: Option<(usize, String)>)
    requires
        i <= s@.len(),
    ensures
        lift(r) == g_astring(s@, i as int),
        advances(r, i, s@.len()),
{
    match take1(s, i, CharClass::Astring) {
        Some(x) => Some(x),
        None => string(s, i),
    }
}

fn revision(s: &[char], i: usize) -> (r: Option<(usize, Revision)>)
    requires
        i <= s@.len(),
    ensures
        lift(r) == g_revision(s@, i as int),
        advances(r, i, s@.len()),
{
    if is_word_at(s, i, &['I', 'M', 'A', 'P', '4', 'r', 'e', 'v', '1']) {
        Some((i + 9, Revision::FourRev1))
    } else {
        None
    }
}

fn auth_type(s: &[char], i: usize) -> (r: Option<(usize, AuthType)>)
    requires
        i <= s@.len(),
    ensures
        match r {
            Some((j, a)) => g_atom(s@, i as int) == Some((j as int, a.0@)),
            None => g_atom(s@, i as int) is None,
        },
        advances(r, i, s@.len()),
{
    match atom(s, i) {
        Some((j, a)) => Some((j, AuthType(a))),
        None => None,
    }
}

fn capability(s: &[char], i: usize) -> (r: Option<(usize, Capability)>)
    requires
        i <= s@.len(),
    ensures
        lift(r) == g_capability(s@, i as int),
        advances(r, i, s@.len()),
{
    if is_word_at(s, i, &['A', 'U', 'T', 'H', '=']) {
        if let Some((j, auth)) = auth_type(s, i + 5) {
            return Some((j, Capability::AuthType(auth.0)));
        }
    }
    if let Some((j, rev)) = revision(s, i) {
        return Some((j, Capability::Revision(rev)));
    }
    match atom(s, i) {
        Some((j, a)) => Some((j, Capability::Custom(a))),
        None => None,
    }
}

/// One or more capabilities separated by single spaces.
fn capability_list(s: &[char], i: usize) -> (r: Option<(usize, Vec<Capability>)>)
    requires
        i <= s@.len(),
    ensures
        lift(r) == spaced_list1(r_capability(), s@, i as int),
        advances(r, i, s@.len()),
{
    let (j, c) = match capability(s, i) {
        Some(x) => x,
        None => return None,
    };
    let mut list: Vec<Capability> = Vec::new();
    list.push(c);
    let mut k = j;
    assert(list.deep_view() =~= seq![c.deep_view()]);
    assert(spaced_list1(r_capability(), s@, i as int) == Some(
        (spaced_tail(r_capability(), s@, j as int).0, seq![c.deep_view()] + spaced_tail(r_capability(), s@, j as int).1),
    ));
    loop
        invariant
            i < j <= k <= s@.len(),
            spaced_list1(r_capability(), s@, i as int) == Some(
                (spaced_tail(r_capability(), s@, j as int).0, seq![c.deep_view()] + spaced_tail(r_capability(), s@, j as int).1),
            ),
            spaced_tail(r_capability(), s@, j as int).0 == spaced_tail(r_capability(), s@, k as int).0,
            seq![c.deep_view()] + spaced_tail(r_capability(), s@, j as int).1 == list.deep_view() + spaced_tail(
                r_capability(),
                s@,
                k as int,
            ).1,
        decreases s@.len() - k,
    {
        let next = if is_char_at(s, k, ' ') {
            capability(s, k + 1)
        } else {
            None
        };
        match next {
            Some((m, x)) => {
                let ghost before = list.deep_view();
                list.push(x);
                proof {
                    assert(list.deep_view() =~= before.push(x.deep_view()));
                    let t = spaced_tail(r_capability(), s@, m as int);
                    assert(spaced_tail(r_capability(), s@, k as int) == (t.0, seq![x.deep_view()] + t.1));
                    assert(before + (seq![x.deep_view()] + t.1) =~= before.push(x.deep_view()) + t.1);
                }
                k = m;
            },
            None => {
                proof {
                    let t = spaced_tail(r_capability(), s@, k as int);
                    assert(t == (k as int, Seq::<SpecCapability>::empty()));
                    assert(list.deep_view() + t.1 =~= list.deep_view());
                }
                return Some((k, list));
            },
        }
    }
}

fn capability_data(s: &[char], i: usize) -> (r: Option<(usize, Vec<Capability>)>)
    requires
        i <= s@.len(),
    ensures
        lift(r) == g_capability_data(s@, i as int),
        advances(r, i, s@.len()),
{
    if is_word_at(s, i, &['C', 'A', 'P', 'A', 'B', 'I', 'L', 'I', 'T', 'Y']) && is_char_at(
        s,
        i + 10,
        ' ',
    ) {
        capability_list(s, i + 11)
    } else {
        None
    }
}

fn nz_number(s: &[char], i: usize) -> (r: Option<(usize, u32)>)
    requires
        i <= s@.len(),
    ensures
        lift(r) == g_number(s@, i as int),
        advances(r, i, s@.len()),
{
    let r = number(s, i);
    proof {
        lemma_run_end(s@, i as int, CharClass::Digit);
    }
    r
}

fn flag_keyword(s: &[char], i: usize) -> (r: Option<(usize, Flag)>)
    requires
        i <= s@.len(),
    ensures
        lift(r) == g_flag_keyword(s@, i as int),
        advances(r, i, s@.len()),
{
    match atom(s, i) {
        Some((j, a)) => Some((j, Flag::Keyword(a))),
        None => None,
    }
}

fn flag_extension(s: &[char], i: usize) -> (r: Option<(usize, Flag)>)
    requires
        i <= s@.len(),
    ensures
        lift(r) == g_flag_extension(s@, i as int),
        advances(r, i, s@.len()),
{
    if is_char_at(s, i, '\\') {
        match atom(s, i + 1) {
            Some((j, a)) => Some((j, Flag::Extension(a))),
            None => None,
        }
    } else {
        None
    }
}

fn flag(s: &[char], i: usize) -> (r: Option<(usize, Flag)>)
    requires
        i <= s@.len(),
    ensures
        lift(r) == g_flag(s@, i as int),
        advances(r, i, s@.len()),
{
    proof {
        assert(w_answered().len() == 9);
        assert(w_flagged().len() == 8);
        assert(w_deleted().len() == 8);
        assert(w_seen().len() == 5);
        assert(w_draft().len() == 6);
        assert(w_wildcard().len() == 2);
        assert(w_recent().len() == 7);
    }
    if is_word_at(s, i, &['\\', 'A', 'n', 's', 'w', 'e', 'r', 'e', 'd']) {
        return Some((i + 9, Flag::Answered));
    }
    if is_word_at(s, i, &['\\', 'F', 'l', 'a', 'g', 'g', 'e', 'd']) {
        return Some((i + 8, Flag::Flagged));
    }
    if is_word_at(s, i, &['\\', 'D', 'e', 'l', 'e', 't', 'e', 'd']) {
        return Some((i + 8, Flag::Deleted));
    }
    if is_word_at(s, i, &['\\', 'S', 'e', 'e', 'n']) {
        return Some((i + 5, Flag::Seen));
    }
    if is_word_at(s, i, &['\\', 'D', 'r', 'a', 'f', 't']) {
        return Some((i + 6, Flag::Draft));
    }
    if is_word_at(s, i, &['\\', '*']) {
        return Some((i + 2, Flag::Wildcard));
    }
    if is_word_at(s, i, &['\\', 'R', 'e', 'c', 'e', 'n', 't']) {
        return Some((i + 7, Flag::Recent));
    }
    match flag_keyword(s, i) {
        Some(x) => Some(x),
        None => flag_extension(s, i),
    }
}

/// Zero or more flags in a row.
fn flag_run(s: &[char], i: usize) -> (r: (usize, Vec<Flag>))
    requires
        i <= s@.len(),
    ensures
        many0(r_flag(), s@, i as int) == Some((r.0 as int, r.1.deep_view())),
        i <= r.0 <= s@.len(),
{
    let mut list: Vec<Flag> = Vec::new();
    let mut k = i;
    assert(list.deep_view() =~= Seq::<SpecFlag>::empty());
    loop
        invariant
            i <= k <= s@.len(),
            many0(r_flag(), s@, i as int) == match many0(r_flag(), s@, k as int) {
                Some((e, vs)) => Some((e, list.deep_view() + vs)),
                None => None,
            },
        decreases s@.len() - k,
    {
        match flag(s, k) {
            Some((m, x)) => {
                let ghost before = list.deep_view();
                list.push(x);
                proof {
                    assert(list.deep_view() =~= before.push(x.deep_view()));
                    match many0(r_flag(), s@, m as int) {
                        Some((e, vs)) => {
                            assert(before + (seq![x.deep_view()] + vs) =~= before.push(
                                x.deep_view(),
                            ) + vs);
                        },
                        None => {},
                    }
                }
                k = m;
            },
            None => {
                proof {
                    assert(list.deep_view() + Seq::<SpecFlag>::empty() =~= list.deep_view());
                }
                return (k, list);
            },
        }
    }
}

/// One or more astrings separated by single spaces.
fn astring_list(s: &[char], i: usize) -> (r: Option<(usize, Vec<String>)>)
    requires
        i <= s@.len(),
    ensures
        lift(r) == spaced_list1(r_astring(), s@, i as int),
        advances(r, i, s@.len()),
{
    let (j, c) = match astring(s, i) {
        Some(x) => x,
        None => return None,
    };
    let mut list: Vec<String> = Vec::new();
    list.push(c);
    let mut k = j;
    assert(list.deep_view() =~= seq![c@]);
    assert(spaced_list1(r_astring(), s@, i as int) == Some(
        (spaced_tail(r_astring(), s@, j as int).0, seq![c@] + spaced_tail(r_astring(), s@, j as int).1),
    ));
    loop
        invariant
            i < j <= k <= s@.len(),
            spaced_list1(r_astring(), s@, i as int) == Some(
                (spaced_tail(r_astring(), s@, j as int).0, seq![c@] + spaced_tail(r_astring(), s@, j as int).1),
            ),
            spaced_tail(r_astring(), s@, j as int).0 == spaced_tail(r_astring(), s@, k as int).0,
            seq![c@] + spaced_tail(r_astring(), s@, j as int).1 == list.deep_view() + spaced_tail(
                r_astring(),
                s@,
                k as int,
            ).1,
        decreases s@.len() - k,
    {
        let next = if is_char_at(s, k, ' ') {
            astring(s, k + 1)
        } else {
            None
        };
        match next {
            Some((m, x)) => {
                let ghost before = list.deep_view();
                list.push(x);
                proof {
                    assert(list.deep_view() =~= before.push(x@));
                    let t = spaced_tail(r_astring(), s@, m as int);
                    assert(spaced_tail(r_astring(), s@, k as int) == (t.0, seq![x@] + t.1));
                    assert(before + (seq![x@] + t.1) =~= before.push(x@) + t.1);
                }
                k = m;
            },
            None => {
                proof {
                    let t = spaced_tail(r_astring(), s@, k as int);
                    assert(t == (k as int, Seq::<Seq<char>>::empty()));
                    assert(list.deep_view() + t.1 =~= list.deep_view());
                }
                return Some((k, list));
            },
        }
    }
}

fn charsets(s: &[char], j: usize) -> (r: Option<(usize, Vec<String>)>)
    requires
        j <= s@.len(),
    ensures
        lift(r) == g_charsets(s@, j as int),
        advances(r, j, s@.len()),
{
    if is_char_at(s, j, ' ') && is_char_at(s, j + 1, '(') {
        match astring_list(s, j + 2) {
            Some((k, l)) => if is_char_at(s, k, ')') {
                Some((k + 1, l))
            } else {
                None
            },
            None => None,
        }
    } else {
        None
    }
}

fn code_word(s: &[char], i: usize, w: &[char], code: ResponseTextCode) -> (r: Option<
    (usize, ResponseTextCode),
>)
    requires
        i <= s@.len(),
        w@.len() > 0,
    ensures
        lift(r) == word_code(s@, i as int, w@, code.deep_view()),
        advances(r, i, s@.len()),
{
    if is_word_at(s, i, w) {
        Some((i + w.len(), code))
    } else {
        None
    }
}

fn code_badcharset(s: &[char], i: usize) -> (r: Option<(usize, ResponseTextCode)>)
    requires
        i <= s@.len(),
    ensures
        lift(r) == g_code_badcharset(s@, i as int),
        advances(r, i, s@.len()),
{
    if is_word_at(s, i, &['B', 'A', 'D', 'C', 'H', 'A', 'R', 'S', 'E', 'T']) {
        match charsets(s, i + 10) {
            Some((k, l)) => Some((k, ResponseTextCode::BadCharset(Some(l)))),
            None => Some((i + 10, ResponseTextCode::BadCharset(None))),
        }
    } else {
        None
    }
}

fn code_capability(s: &[char], i: usize) -> (r: Option<(usize, ResponseTextCode)>)
    requires
        i <= s@.len(),
    ensures
        lift(r) == g_code_capability(s@, i as int),
        advances(r, i, s@.len()),
{
    match capability_data(s, i) {
        Some((j, caps)) => Some((j, ResponseTextCode::Capability(caps))),
        None => None,
    }
}

fn code_permanentflags(s: &[char], i: usize) -> (r: Option<(usize, ResponseTextCode)>)
    requires
        i <= s@.len(),
    ensures
        lift(r) == g_code_permanentflags(s@, i as int),
        advances(r, i, s@.len()),
{
    if is_word_at(
        s,
        i,
        &['P', 'E', 'R', 'M', 'A', 'N', 'E', 'N', 'T', 'F', 'L', 'A', 'G', 'S'],
    ) && is_char_at(s, i + 14, ' ') && is_char_at(s, i + 15, '(') {
        let (k, flags) = flag_run(s, i + 16);
        if is_char_at(s, k, ')') {
            Some((k + 1, ResponseTextCode::PermanentFlags(flags)))
        } else {
            None
        }
    } else {
        None
    }
}

fn word_number(s: &[char], i: usize, w: &[char]) -> (r: Option<(usize, u32)>)
    requires
        i <= s@.len(),
        w@.len() > 0,
    ensures
        lift(r) == g_word_number(s@, i as int, w@),
        advances(r, i, s@.len()),
{
    if is_word_at(s, i, w) && is_char_at(s, i + w.len(), ' ') {
        nz_number(s, i + w.len() + 1)
    } else {
        None
    }
}

fn code_uidnext(s: &[char], i: usize) -> (r: Option<(usize, ResponseTextCode)>)
    requires
        i <= s@.len(),
    ensures
        lift(r) == g_code_uidnext(s@, i as int),
        advances(r, i, s@.len()),
{
    match word_number(s, i, &['U', 'I', 'D', 'N', 'E', 'X', 'T']) {
        Some((j, n)) => Some((j, ResponseTextCode::UidNext(n))),
        None => None,
    }
}

fn code_uidvalidity(s: &[char], i: usize) -> (r: Option<(usize, ResponseTextCode)>)
    requires
        i <= s@.len(),
    ensures
        lift(r) == g_code_uidvalidity(s@, i as int),
        advances(r, i, s@.len()),
{
    match word_number(s, i, &['U', 'I', 'D', 'V', 'A', 'L', 'I', 'D', 'I', 'T', 'Y']) {
        Some((j, n)) => Some((j, ResponseTextCode::UidValidity(n))),
        None => None,
    }
}

fn code_unseen(s: &[char], i: usize) -> (r: Option<(usize, ResponseTextCode)>)
    requires
        i <= s@.len(),
    ensures
        lift(r) == g_code_unseen(s@, i as int),
        advances(r, i, s@.len()),
{
    match word_number(s, i, &['U', 'N', 'S', 'E', 'E', 'N']) {
        Some((j, n)) => Some((j, ResponseTextCode::Unseen(n))),
        None => None,
    }
}

fn code_custom(s: &[char], i: usize) -> (r: Option<(usize, ResponseTextCode)>)
    requires
        i <= s@.len(),
    ensures
        lift(r) == g_code_custom(s@, i as int),
        advances(r, i, s@.len()),
{
    match atom(s, i) {
        Some((j, key)) => if is_char_at(s, j, ' ') {
            match take1(s, j + 1, CharClass::TextWithoutClosingSquareBracket) {
                Some((k, value)) => Some((k, ResponseTextCode::Custom(key, Some(value)))),
                None => Some((j, ResponseTextCode::Custom(key, None))),
            }
        } else {
            Some((j, ResponseTextCode::Custom(key, None)))
        },
        None => None,
    }
}

fn resp_text_code(s: &[char], i: usize) -> (r: Option<(usize, ResponseTextCode)>)
    requires
        i <= s@.len(),
    ensures
        lift(r) == g_resp_text_code(s@, i as int),
        advances(r, i, s@.len()),
{
    if let Some(x) = code_word(s, i, &['A', 'L', 'E', 'R', 'T'], ResponseTextCode::Alert) {
        return Some(x);
    }
    if let Some(x) = code_badcharset(s, i) {
        return Some(x);
    }
    if let Some(x) = code_capability(s, i) {
        return Some(x);
    }
    if let Some(x) = code_word(s, i, &['P', 'A', 'R', 'S', 'E'], ResponseTextCode::Alert) {
        return Some(x);
    }
    if let Some(x) = code_permanentflags(s, i) {
        return Some(x);
    }
    if let Some(x) = code_word(
        s,
        i,
        &['R', 'E', 'A', 'D', '-', 'O', 'N', 'L', 'Y'],
        ResponseTextCode::Alert,
    ) {
        return Some(x);
    }
    if let Some(x) = code_word(
        s,
        i,
        &['R', 'E', 'A', 'D', '-', 'W', 'R', 'I', 'T', 'E'],
        ResponseTextCode::Alert,
    ) {
        return Some(x);
    }
    if let Some(x) = code_word(
        s,
        i,
        &['T', 'R', 'Y', 'C', 'R', 'E', 'A', 'T', 'E'],
        ResponseTextCode::Alert,
    ) {
        return Some(x);
    }
    if let Some(x) = code_uidnext(s, i) {
        return Some(x);
    }
    if let Some(x) = code_uidvalidity(s, i) {
        return Some(x);
    }
    if let Some(x) = code_unseen(s, i) {
        return Some(x);
    }
    code_custom(s, i)
}

fn bracketed_code(s: &[char], i: usize) -> (r: Option<(usize, ResponseTextCode)>)
    requires
        i <= s@.len(),
    ensures
        lift(r) == g_bracketed_code(s@, i as int),
        advances(r, i, s@.len()),
{
    if is_char_at(s, i, '[') {
        match resp_text_code(s, i + 1) {
            Some((j, c)) => if is_char_at(s, j, ']') && is_char_at(s, j + 1, ' ') {
                Some((j + 2, c))
            } else {
                None
            },
            None => None,
        }
    } else {
        None
    }
}

fn resp_text(s: &[char], i: usize) -> (r: Option<(usize, ResponseText)>)
    requires
        i <= s@.len(),
    ensures
        lift(r) == g_resp_text(s@, i as int),
        advances(r, i, s@.len()),
{
    let (k, code) = match bracketed_code(s, i) {
        Some((j, c)) => (j, Some(c)),
        None => (i, None),
    };
    match text(s, k) {
        Some((e, t)) => Some((e, ResponseText { code, text: t })),
        None => None,
    }
}

fn status(s: &[char], i: usize) -> (r: Option<(usize, Status)>)
    requires
        i <= s@.len(),
    ensures
        lift(r) == g_status(s@, i as int),
        advances(r, i, s@.len()),
{
    if is_word_at(s, i, &['O', 'K']) {
        Some((i + 2, Status::Okay))
    } else if is_word_at(s, i, &['N', 'O']) {
        Some((i + 2, Status::Okay))
    } else if is_word_at(s, i, &['B', 'A', 'D']) {
        Some((i + 3, Status::Okay))
    } else {
        None
    }
}

fn resp_cond_state(s: &[char], i: usize) -> (r: Option<(usize, ResponseCondState)>)
    requires
        i <= s@.len(),
    ensures
        lift(r) == g_resp_cond_state(s@, i as int),
        advances(r, i, s@.len()),
{
    match status(s, i) {
        Some((j, st)) => if is_char_at(s, j, ' ') {
            match resp_text(s, j + 1) {
                Some((k, t)) => Some((k, ResponseCondState { status: st, text: t })),
                None => None,
            }
        } else {
            None
        },
        None => None,
    }
}

fn resp_cond_auth(s: &[char], i: usize) -> (r: Option<(usize, ResponseText)>)
    requires
        i <= s@.len(),
    ensures
        lift(r) == g_resp_cond_auth(s@, i as int),
        advances(r, i, s@.len()),
{
    let j = if is_word_at(s, i, &['O', 'K']) {
        i + 2
    } else if is_word_at(s, i, &['P', 'R', 'E', 'A', 'U', 'T', 'H']) {
        i + 7
    } else {
        return None;
    };
    if is_char_at(s, j, ' ') {
        resp_text(s, j + 1)
    } else {
        None
    }
}

fn resp_cond_bye(s: &[char], i: usize) -> (r: Option<(usize, ResponseText)>)
    requires
        i <= s@.len(),
    ensures
        lift(r) == g_resp_cond_bye(s@, i as int),
        advances(r, i, s@.len()),
{
    if is_word_at(s, i, &['B', 'Y', 'E']) && is_char_at(s, i + 3, ' ') {
        resp_text(s, i + 4)
    } else {
        None
    }
}

fn response_fatal(s: &[char], i: usize) -> (r: Option<(usize, ResponseText)>)
    requires
        i <= s@.len(),
    ensures
        lift(r) == g_response_fatal(s@, i as int),
        advances(r, i, s@.len()),
{
    if is_char_at(s, i, '*') {
        match resp_cond_bye(s, i + 1) {
            Some((j, t)) => if is_word_at(s, j, &['\r', '\n']) {
                Some((j + 2, t))
            } else {
                None
            },
            None => None,
        }
    } else {
        None
    }
}

fn response_tagged(s: &[char], i: usize) -> (r: Option<(usize, TaggedResponse)>)
    requires
        i <= s@.len(),
    ensures
        lift(r) == g_response_tagged(s@, i as int),
        advances(r, i, s@.len()),
{
    match imap_tag(s, i) {
        Some((j, tag)) => if is_char_at(s, j, ' ') {
            match resp_cond_state(s, j + 1) {
                Some((k, state)) => if is_word_at(s, k, &['\r', '\n']) {
                    Some((k + 2, TaggedResponse { tag, state }))
                } else {
                    None
                },
                None => None,
            }
        } else {
            None
        },
        None => None,
    }
}

fn greeting_at(s: &[char], i: usize) -> (r: Option<(usize, ResponseText)>)
    requires
        i <= s@.len(),
    ensures
        lift(r) == g_greeting(s@, i as int),
        advances(r, i, s@.len()),
{
    if is_char_at(s, i, '*') && is_char_at(s, i + 1, ' ') {
        let cond = match resp_cond_auth(s, i + 2) {
            Some(x) => Some(x),
            None => resp_cond_bye(s, i + 2),
        };
        match cond {
            Some((j, t)) => if is_word_at(s, j, &['\r', '\n']) {
                Some((j + 2, t))
            } else {
                None
            },
            None => None,
        }
    } else {
        None
    }
}

fn response_done_at(s: &[char], i: usize) -> (r: Option<(usize, ResponseLine)>)
    requires
        i <= s@.len(),
    ensures
        lift(r) == g_response_done(s@, i as int),
        advances(r, i, s@.len()),
{
    match response_tagged(s, i) {
        Some((j, t)) => Some((j, ResponseLine::Tagged(t))),
        None => match response_fatal(s, i) {
            Some((j, t)) => Some((j, ResponseLine::Fatal(t))),
            None => None,
        },
    }
}

fn response_data_at(s: &[char], i: usize) -> (r: Option<(usize, ResponseLine)>)
    requires
        i <= s@.len(),
    ensures
        lift(r) == g_response_data(s@, i as int),
        advances(r, i, s@.len()),
{
    if is_char_at(s, i, '*') && is_char_at(s, i + 1, ' ') {
        let body = match resp_cond_state(s, i + 2) {
            Some((j, t)) => Some((j, ResponseLine::CondState(t))),
            None => match resp_cond_bye(s, i + 2) {
                Some((j, t)) => Some((j, ResponseLine::CondBye(t))),
                None => match capability_data(s, i + 2) {
                    Some((j, c)) => Some((j, ResponseLine::CapabilityData(c))),
                    None => None,
                },
            },
        };
        assert(lift(body) == g_response_data_body(s@, i + 2));
        match body {
            Some((j, t)) => if is_word_at(s, j, &['\r', '\n']) {
                Some((j + 2, t))
            } else {
                None
            },
            None => None,
        }
    } else {
        None
    }
}

/// The rest of the input after the match, and the value read.
fn finish<X: DeepView>(s: &[char], r: Option<(usize, X)>) -> (res: Result<(String, X), ParseError>)
    requires
        r matches Some((j, _)) ==> j <= s@.len(),
    ensures
        match res {
            Ok((rest, x)) => parsed(s@, lift(r)) == Some((rest@, x.deep_view())),
            Err(_) => r is None,
        },
{
    match r {
        Some((j, x)) => Ok((span(s, j, s.len()), x)),
        None => Err(ParseError),
    }
}

/// Parses a server greeting: `* `, then `OK` or `PREAUTH`, or else `BYE`,
/// a space, a response text, and a line break. Returns what follows it.
pub fn greeting(input: &str) -> (r: Result<(String, ResponseText), ParseError>)
    ensures
        match r {
            Ok((rest, t)) => parsed(input@, g_greeting(input@, 0)) == Some((rest@, t.deep_view())),
            Err(_) => g_greeting(input@, 0) is None,
        },
{
    let s = chars_of(input);
    finish(s.as_slice(), greeting_at(s.as_slice(), 0))
}

/// Parses the response that ends a command: a tagged status response, or
/// else a fatal `BYE`. Returns what follows it.
pub fn response_done(input: &str) -> (r: Result<(String, ResponseLine), ParseError>)
    ensures
        match r {
            Ok((rest, l)) => parsed(input@, g_response_done(input@, 0)) == Some(
                (rest@, l.deep_view()),
            ),
            Err(_) => g_response_done(input@, 0) is None,
        },
{
    let s = chars_of(input);
    finish(s.as_slice(), response_done_at(s.as_slice(), 0))
}

/// Parses untagged response data: `* `, then a status condition, a `BYE`
/// condition or capability data, and a line break. Returns what follows it.
pub fn response_data(input: &str) -> (r: Result<(String, ResponseLine), ParseError>)
    ensures
        match r {
            Ok((rest, l)) => parsed(input@, g_response_data(input@, 0)) == Some(
                (rest@, l.deep_view()),
            ),
            Err(_) => g_response_data(input@, 0) is None,
        },
{
    let s = chars_of(input);
    finish(s.as_slice(), response_data_at(s.as_slice(), 0))
}

/// Two digits, read as a number.
fn two_digit(s: &[char], i: usize) -> (r: Option<(usize, u32)>)
    requires
        i <= s@.len(),
    ensures
        g_two_digit(s@, i as int) == match r {
            Some((j, n)) => Some((j as int, n)),
            None => None::<(int, u32)>,
        },
{
    if s.len() >= 2 && i <= s.len() - 2 && '0' <= s[i] && s[i] <= '9' && '0' <= s[i + 1] && s[i + 1] <= '9' {
        let tens = (s[i] as u32) - ('0' as u32);
        let ones = (s[i + 1] as u32) - ('0' as u32);
        assert(tens == digit_value(s@[i as int]));
        assert(ones == digit_value(s@[i + 1]));
        Some((i + 2, tens * 10 + ones))
    } else {
        None
    }
}

/// `NIL`, or a string.
fn nstring(s: &[char], i: usize) -> (r: Option<(usize, String)>)
    requires
        i <= s@.len(),
    ensures
        lift(r) == g_nstring(s@, i as int),
        advances(r, i, s@.len()),
{
    if is_word_at(s, i, &['N', 'I', 'L']) {
        let mut nil = String::new();
        crate::text::string_push(&mut nil, 'N');
        crate::text::string_push(&mut nil, 'I');
        crate::text::string_push(&mut nil, 'L');
        assert(nil@ =~= w_nil());
        Some((i + 3, nil))
    } else {
        string(s, i)
    }
}

/// A unique identifier.
fn uniqueid(s: &[char], i: usize) -> (r: Option<(usize, u32)>)
    requires
        i <= s@.len(),
    ensures
        g_number(s@, i as int) == match r {
            Some((j, n)) => Some((j as int, n)),
            None => None::<(int, u32)>,
        },
{
    nz_number(s, i)
}

/// A month's three-letter name, read as its number.
fn date_month(s: &[char], i: usize) -> (r: Option<(usize, u32)>)
    requires
        i <= s@.len(),
    ensures
        g_date_month(s@, i as int) == match r {
            Some((j, n)) => Some((j as int, n)),
            None => None::<(int, u32)>,
        },
{
    let names: [[char; 3]; 12] = [
        ['J', 'a', 'n'],
        ['F', 'e', 'b'],
        ['M', 'a', 'r'],
        ['A', 'p', 'r'],
        ['M', 'a', 'y'],
        ['J', 'u', 'n'],
        ['J', 'u', 'l'],
        ['A', 'u', 'g'],
        ['S', 'e', 'p'],
        ['O', 'c', 't'],
        ['N', 'o', 'v'],
        ['D', 'e', 'c'],
    ];
    let mut m: usize = 0;
    while m < 12
        invariant
            m <= 12,
            i <= s@.len(),
            forall|k: int| 0 <= k < 12 ==> (#[trigger] names@[k])@ == month_names()[k],
            g_date_month(s@, i as int) == month_from(s@, i as int, m as int),
        decreases 12 - m,
    {
        if is_word_at(s, i, &names[m]) {
            return Some((i + 3, (m + 1) as u32));
        }
        m = m + 1;
    }
    None
}

/// A year.
fn date_year(s: &[char], i: usize) -> (r: Option<(usize, u32)>)
    requires
        i <= s@.len(),
    ensures
        g_number(s@, i as int) == match r {
            Some((j, n)) => Some((j as int, n)),
            None => None::<(int, u32)>,
        },
{
    number(s, i)
}

/// A day of the month, with an optional leading space.
fn date_day_fixed(s: &[char], i: usize) -> (r: Option<(usize, u32)>)
    requires
        i <= s@.len(),
    ensures
        g_date_day_fixed(s@, i as int) == match r {
            Some((j, n)) => Some((j as int, n)),
            None => None::<(int, u32)>,
        },
{
    if is_char_at(s, i, ' ') {
        number(s, i + 1)
    } else {
        number(s, i)
    }
}

/// Hours, minutes and seconds.
fn time(s: &[char], i: usize) -> (r: Option<(usize, (u32, u32, u32))>)
    requires
        i <= s@.len(),
    ensures
        g_time(s@, i as int) == match r {
            Some((j, t)) => Some((j as int, t)),
            None => None::<(int, (u32, u32, u32))>,
        },
{
    let (j, h) = match number(s, i) {
        Some(x) => x,
        None => return None,
    };
    proof {
        lemma_run_end(s@, i as int, CharClass::Digit);
    }
    if !is_char_at(s, j, ':') {
        return None;
    }
    let (k, m) = match number(s, j + 1) {
        Some(x) => x,
        None => return None,
    };
    proof {
        lemma_run_end(s@, j + 1, CharClass::Digit);
    }
    if !is_char_at(s, k, ':') {
        return None;
    }
    match number(s, k + 1) {
        Some((e, sec)) => Some((e, (h, m, sec))),
        None => None,
    }
}

/// Flags separated by spaces, possibly none.
fn flag_list0(s: &[char], i: usize) -> (r: (usize, Vec<Flag>))
    requires
        i <= s@.len(),
    ensures
        spaced_list0(r_flag(), s@, i as int) == Some((r.0 as int, r.1.deep_view())),
        i <= r.0 <= s@.len(),
{
    let (j, f) = match flag(s, i) {
        Some(x) => x,
        None => {
            let empty: Vec<Flag> = Vec::new();
            assert(empty.deep_view() =~= Seq::<SpecFlag>::empty());
            return (i, empty);
        },
    };
    let mut list: Vec<Flag> = Vec::new();
    list.push(f);
    let mut k = j;
    assert(list.deep_view() =~= seq![f.deep_view()]);
    loop
        invariant
            i < j <= k <= s@.len(),
            spaced_list0(r_flag(), s@, i as int) == Some(
                (spaced_tail(r_flag(), s@, j as int).0, seq![f.deep_view()] + spaced_tail(r_flag(), s@, j as int).1),
            ),
            spaced_tail(r_flag(), s@, j as int).0 == spaced_tail(r_flag(), s@, k as int).0,
            seq![f.deep_view()] + spaced_tail(r_flag(), s@, j as int).1 == list.deep_view() + spaced_tail(
                r_flag(),
                s@,
                k as int,
            ).1,
        decreases s@.len() - k,
    {
        let next = if is_char_at(s, k, ' ') {
            flag(s, k + 1)
        } else {
            None
        };
        match next {
            Some((m, x)) => {
                let ghost before = list.deep_view();
                list.push(x);
                proof {
                    assert(list.deep_view() =~= before.push(x.deep_view()));
                    let t = spaced_tail(r_flag(), s@, m as int);
                    assert(spaced_tail(r_flag(), s@, k as int) == (t.0, seq![x.deep_view()] + t.1));
                    assert(before + (seq![x.deep_view()] + t.1) =~= before.push(x.deep_view()) + t.1);
                }
                k = m;
            },
            None => {
                proof {
                    let t = spaced_tail(r_flag(), s@, k as int);
                    assert(t == (k as int, Seq::<SpecFlag>::empty()));
                    assert(list.deep_view() + t.1 =~= list.deep_view());
                }
                return (k, list);
            },
        }
    }
}

/// `FLAGS (...)`: the flags of a message.
fn msg_att_dynamic(s: &[char], i: usize) -> (r: Option<(usize, Vec<Flag>)>)
    requires
        i <= s@.len(),
    ensures
        lift(r) == g_msg_att_dynamic(s@, i as int),
        advances(r, i, s@.len()),
{
    if is_word_at(s, i, &['F', 'L', 'A', 'G', 'S']) && is_char_at(s, i + 5, ' ') && is_char_at(
        s,
        i + 6,
        '(',
    ) {
        let (j, flags) = flag_list0(s, i + 7);
        if is_char_at(s, j, ')') {
            Some((j + 1, flags))
        } else {
            None
        }
    } else {
        None
    }
}

/// A time zone's offset from UTC, in seconds east of it; less than a day
/// either way.
#[derive(Debug, Clone, Copy, PartialEq, Eq, Structural)]
pub struct ZoneOffset {
    seconds_east: i32,
}

impl ZoneOffset {
    #[verifier::type_invariant]
    spec fn within_a_day(self) -> bool {
        -86_400 < self.seconds_east < 86_400
    }

    pub closed spec fn spec_seconds_east(&self) -> i32 {
        self.seconds_east
    }

    /// The offset in seconds east of UTC.
    pub fn seconds_east(&self) -> (r: i32)
        ensures
            r == self.spec_seconds_east(),
            -86_400 < r < 86_400,
    {
        proof {
            use_type_invariant(self);
        }
        self.seconds_east
    }
}

/// The offset a zone `+hhmm` or `-hhmm` is read as, in seconds east of
/// UTC: a `+` zone lies west of UTC and a `-` zone east of it, by
/// `hh * 3600 + mm * 60` seconds.
pub open spec fn zone_seconds_east(plus: bool, secs: u32) -> int {
    if plus {
        -(secs as int)
    } else {
        secs as int
    }
}

/// A time zone, `+hhmm` or `-hhmm`, as an offset from UTC. The zone must
/// lie within a day.
pub fn zone(s: &[char], i: usize) -> (r: Option<(usize, ZoneOffset)>)
    requires
        i <= s@.len(),
        g_zone_seconds(s@, i as int) matches Some((_, _, secs)) ==> secs < 86_400,
    ensures
        match (r, g_zone_seconds(s@, i as int)) {
            (Some((j, o)), Some((e, plus, secs))) => j == e && o.spec_seconds_east()
                == zone_seconds_east(plus, secs),
            (None, None) => true,
            _ => false,
        },
{
    let plus = is_char_at(s, i, '+');
    if !plus && !is_char_at(s, i, '-') {
        return None;
    }
    let (j, hh) = match two_digit(s, i + 1) {
        Some(x) => x,
        None => return None,
    };
    let (k, mm) = match two_digit(s, j) {
        Some(x) => x,
        None => return None,
    };
    let seconds = (mm * 60 + hh * 60 * 60) as i32;
    let seconds_east = if plus {
        -seconds
    } else {
        seconds
    };
    Some((k, ZoneOffset { seconds_east }))
}

} // verus!
