//! The IMAP response grammar that the parsers implement, written as
//! functions from an input and a position to the position after the match
//! and the value read, or `None` where the rule does not match.
//!
//! Alternatives are tried in order and the first that matches wins; an
//! optional part that does not match consumes nothing; runs are greedy.
use vstd::prelude::*;
use super::scan::{
    char_at, digit_value, g_number, lemma_number_reads_decimal_after, run_end, spec_is_digit, word_at,
    CharClass,
};
use crate::text::decimal;

verus! {

#[derive(Debug, PartialEq, Eq, Clone, Copy)]
pub enum Revision {
    FourRev1,
}

#[derive(Debug, PartialEq, Eq, Clone, Copy)]
pub enum Status {
    Okay,
    Bad,
    No,
}

pub enum SpecCapability {
    AuthType(Seq<char>),
    Custom(Seq<char>),
    Revision(Revision),
}

pub enum SpecFlag {
    Answered,
    Flagged,
    Deleted,
    Seen,
    Draft,
    Keyword(Seq<char>),
    Extension(Seq<char>),
    Wildcard,
    Recent,
}

pub enum SpecResponseTextCode {
    Alert,
    BadCharset(Option<Seq<Seq<char>>>),
    Capability(Seq<SpecCapability>),
    Parse,
    PermanentFlags(Seq<SpecFlag>),
    ReadOnly,
    ReadWrite,
    TryCreate,
    UidNext(u32),
    UidValidity(u32),
    Unseen(u32),
    Custom(Seq<char>, Option<Seq<char>>),
}

pub struct SpecResponseText {
    pub code: Option<SpecResponseTextCode>,
    pub text: Seq<char>,
}

pub struct SpecResponseCondState {
    pub status: Status,
    pub text: SpecResponseText,
}

pub struct SpecTaggedResponse {
    pub tag: Seq<char>,
    pub state: SpecResponseCondState,
}

pub enum SpecResponseLine {
    CapabilityData(Seq<SpecCapability>),
    CondBye(SpecResponseText),
    CondState(SpecResponseCondState),
    Tagged(SpecTaggedResponse),
    Fatal(SpecResponseText),
}

/// The first of two alternatives that matches.
pub open spec fn first<V>(a: Option<V>, b: Option<V>) -> Option<V> {
    if a is Some {
        a
    } else {
        b
    }
}

/// A parser: from input and position to the end of the match and its value.
pub type Rule<V> = spec_fn(Seq<char>, int) -> Option<(int, V)>;

/// Further `p` items, each after one space, for as long as a space and an
/// item follow; the position after the last one and the items.
pub open spec fn spaced_tail<V>(p: Rule<V>, s: Seq<char>, i: int) -> (int, Seq<V>)
    decreases s.len() - i,
{
    if char_at(s, i, ' ') {
        match p(s, i + 1) {
            Some((j, v)) => if i < j <= s.len() {
                let rest = spaced_tail(p, s, j);
                (rest.0, seq![v] + rest.1)
            } else {
                (i, Seq::empty())
            },
            None => (i, Seq::empty()),
        }
    } else {
        (i, Seq::empty())
    }
}

/// One or more `p` items separated by single spaces.
pub open spec fn spaced_list1<V>(p: Rule<V>, s: Seq<char>, i: int) -> Option<(int, Seq<V>)> {
    match p(s, i) {
        Some((j, v)) => {
            let rest = spaced_tail(p, s, j);
            Some((rest.0, seq![v] + rest.1))
        },
        None => None,
    }
}

/// Zero or more `p` items separated by single spaces.
pub open spec fn spaced_list0<V>(p: Rule<V>, s: Seq<char>, i: int) -> Option<(int, Seq<V>)> {
    match p(s, i) {
        Some((j, v)) => {
            let rest = spaced_tail(p, s, j);
            Some((rest.0, seq![v] + rest.1))
        },
        None => Some((i, Seq::empty())),
    }
}

/// Zero or more `p` items in a row; an item that consumes nothing is an error.
pub open spec fn many0<V>(p: Rule<V>, s: Seq<char>, i: int) -> Option<(int, Seq<V>)>
    decreases s.len() - i,
{
    match p(s, i) {
        Some((j, v)) => if j == i {
            None
        } else if i < j <= s.len() {
            match many0(p, s, j) {
                Some((k, vs)) => Some((k, seq![v] + vs)),
                None => None,
            }
        } else {
            Some((i, Seq::empty()))
        },
        None => Some((i, Seq::empty())),
    }
}

pub open spec fn crlf_at(s: Seq<char>, i: int) -> bool {
    word_at(s, i, seq!['\r', '\n'])
}

/// One or more characters of `class`, as many as there are.
pub open spec fn g_take1(s: Seq<char>, i: int, class: CharClass) -> Option<(int, Seq<char>)> {
    let e = run_end(s, i, class);
    if 0 <= i && e > i {
        Some((e, s.subrange(i, e)))
    } else {
        None
    }
}

pub open spec fn g_text(s: Seq<char>, i: int) -> Option<(int, Seq<char>)> {
    g_take1(s, i, CharClass::Text)
}

pub open spec fn g_atom(s: Seq<char>, i: int) -> Option<(int, Seq<char>)> {
    g_take1(s, i, CharClass::Atom)
}

pub open spec fn g_tag(s: Seq<char>, i: int) -> Option<(int, Seq<char>)> {
    g_take1(s, i, CharClass::AstringWithoutPlus)
}

/// A quoted string. No character counts as ordinary inside the quotes, so
/// only the empty string `""` matches.
pub open spec fn g_quoted(s: Seq<char>, i: int) -> Option<(int, Seq<char>)> {
    if char_at(s, i, '"') && char_at(s, i + 1, '"') {
        Some((i + 2, Seq::empty()))
    } else {
        None
    }
}

/// How many bytes UTF-8 takes for `c`.
pub open spec fn utf8_width(c: char) -> nat {
    if (c as u32) < 0x80 {
        1
    } else if (c as u32) < 0x800 {
        2
    } else if (c as u32) < 0x10000 {
        3
    } else {
        4
    }
}

/// How many bytes UTF-8 takes for `d`.
pub open spec fn utf8_len(d: Seq<char>) -> nat
    decreases d.len(),
{
    if d.len() == 0 {
        0
    } else {
        utf8_len(d.drop_last()) + utf8_width(d.last())
    }
}

/// `{n}` and a line break, then all `char8` characters that follow; it
/// matches when those take `n` bytes, counted modulo 2^32.
pub open spec fn g_literal(s: Seq<char>, i: int) -> Option<(int, Seq<char>)> {
    if char_at(s, i, '{') {
        match g_number(s, i + 1) {
            Some((j, n)) => if char_at(s, j, '}') && crlf_at(s, j + 1) {
                let k = j + 3;
                let e = run_end(s, k, CharClass::Char8);
                if utf8_len(s.subrange(k, e)) % 0x1_0000_0000 == n as nat {
                    Some((e, s.subrange(k, e)))
                } else {
                    None
                }
            } else {
                None
            },
            None => None,
        }
    } else {
        None
    }
}

pub open spec fn g_string(s: Seq<char>, i: int) -> Option<(int, Seq<char>)> {
    first(g_quoted(s, i), g_literal(s, i))
}

pub open spec fn g_astring(s: Seq<char>, i: int) -> Option<(int, Seq<char>)> {
    first(g_take1(s, i, CharClass::Astring), g_string(s, i))
}

pub open spec fn r_astring() -> Rule<Seq<char>> {
    |s: Seq<char>, i: int| g_astring(s, i)
}

pub open spec fn w_imap4rev1() -> Seq<char> {
    seq!['I', 'M', 'A', 'P', '4', 'r', 'e', 'v', '1']
}

pub open spec fn g_revision(s: Seq<char>, i: int) -> Option<(int, Revision)> {
    if word_at(s, i, w_imap4rev1()) {
        Some((i + 9, Revision::FourRev1))
    } else {
        None
    }
}

pub open spec fn w_auth() -> Seq<char> {
    seq!['A', 'U', 'T', 'H', '=']
}

pub open spec fn g_capability(s: Seq<char>, i: int) -> Option<(int, SpecCapability)> {
    first(
        if word_at(s, i, w_auth()) {
            match g_atom(s, i + 5) {
                Some((j, a)) => Some((j, SpecCapability::AuthType(a))),
                None => None,
            }
        } else {
            None
        },
        first(
            match g_revision(s, i) {
                Some((j, r)) => Some((j, SpecCapability::Revision(r))),
                None => None,
            },
            match g_atom(s, i) {
                Some((j, a)) => Some((j, SpecCapability::Custom(a))),
                None => None,
            },
        ),
    )
}

pub open spec fn r_capability() -> Rule<SpecCapability> {
    |s: Seq<char>, i: int| g_capability(s, i)
}

pub open spec fn w_capability() -> Seq<char> {
    seq!['C', 'A', 'P', 'A', 'B', 'I', 'L', 'I', 'T', 'Y']
}

/// `CAPABILITY`, a space, and one or more capabilities separated by spaces.
pub open spec fn g_capability_data(s: Seq<char>, i: int) -> Option<(int, Seq<SpecCapability>)> {
    if word_at(s, i, w_capability()) && char_at(s, i + 10, ' ') {
        spaced_list1(r_capability(), s, i + 11)
    } else {
        None
    }
}

pub open spec fn w_answered() -> Seq<char> {
    seq!['\\', 'A', 'n', 's', 'w', 'e', 'r', 'e', 'd']
}

pub open spec fn w_flagged() -> Seq<char> {
    seq!['\\', 'F', 'l', 'a', 'g', 'g', 'e', 'd']
}

pub open spec fn w_deleted() -> Seq<char> {
    seq!['\\', 'D', 'e', 'l', 'e', 't', 'e', 'd']
}

pub open spec fn w_seen() -> Seq<char> {
    seq!['\\', 'S', 'e', 'e', 'n']
}

pub open spec fn w_draft() -> Seq<char> {
    seq!['\\', 'D', 'r', 'a', 'f', 't']
}

pub open spec fn w_wildcard() -> Seq<char> {
    seq!['\\', '*']
}

pub open spec fn w_recent() -> Seq<char> {
    seq!['\\', 'R', 'e', 'c', 'e', 'n', 't']
}

/// A word as a whole flag: the position after it, if it is there.
pub open spec fn word_flag(s: Seq<char>, i: int, w: Seq<char>, f: SpecFlag) -> Option<(int, SpecFlag)> {
    if word_at(s, i, w) {
        Some((i + w.len(), f))
    } else {
        None
    }
}

pub open spec fn g_flag_keyword(s: Seq<char>, i: int) -> Option<(int, SpecFlag)> {
    match g_atom(s, i) {
        Some((j, a)) => Some((j, SpecFlag::Keyword(a))),
        None => None,
    }
}

pub open spec fn g_flag_extension(s: Seq<char>, i: int) -> Option<(int, SpecFlag)> {
    if char_at(s, i, '\\') {
        match g_atom(s, i + 1) {
            Some((j, a)) => Some((j, SpecFlag::Extension(a))),
            None => None,
        }
    } else {
        None
    }
}

pub open spec fn g_flag(s: Seq<char>, i: int) -> Option<(int, SpecFlag)> {
    first(
        word_flag(s, i, w_answered(), SpecFlag::Answered),
        first(
            word_flag(s, i, w_flagged(), SpecFlag::Flagged),
            first(
                word_flag(s, i, w_deleted(), SpecFlag::Deleted),
                first(
                    word_flag(s, i, w_seen(), SpecFlag::Seen),
                    first(
                        word_flag(s, i, w_draft(), SpecFlag::Draft),
                        first(
                            word_flag(s, i, w_wildcard(), SpecFlag::Wildcard),
                            first(
                                word_flag(s, i, w_recent(), SpecFlag::Recent),
                                first(g_flag_keyword(s, i), g_flag_extension(s, i)),
                            ),
                        ),
                    ),
                ),
            ),
        ),
    )
}

pub open spec fn r_flag() -> Rule<SpecFlag> {
    |s: Seq<char>, i: int| g_flag(s, i)
}

pub open spec fn w_alert() -> Seq<char> {
    seq!['A', 'L', 'E', 'R', 'T']
}

pub open spec fn w_badcharset() -> Seq<char> {
    seq!['B', 'A', 'D', 'C', 'H', 'A', 'R', 'S', 'E', 'T']
}

pub open spec fn w_parse() -> Seq<char> {
    seq!['P', 'A', 'R', 'S', 'E']
}

pub open spec fn w_permanentflags() -> Seq<char> {
    seq!['P', 'E', 'R', 'M', 'A', 'N', 'E', 'N', 'T', 'F', 'L', 'A', 'G', 'S']
}

pub open spec fn w_read_only() -> Seq<char> {
    seq!['R', 'E', 'A', 'D', '-', 'O', 'N', 'L', 'Y']
}

pub open spec fn w_read_write() -> Seq<char> {
    seq!['R', 'E', 'A', 'D', '-', 'W', 'R', 'I', 'T', 'E']
}

pub open spec fn w_trycreate() -> Seq<char> {
    seq!['T', 'R', 'Y', 'C', 'R', 'E', 'A', 'T', 'E']
}

pub open spec fn w_uidnext() -> Seq<char> {
    seq!['U', 'I', 'D', 'N', 'E', 'X', 'T']
}

pub open spec fn w_uidvalidity() -> Seq<char> {
    seq!['U', 'I', 'D', 'V', 'A', 'L', 'I', 'D', 'I', 'T', 'Y']
}

pub open spec fn w_unseen() -> Seq<char> {
    seq!['U', 'N', 'S', 'E', 'E', 'N']
}

/// A word alone as a response code.
pub open spec fn word_code(s: Seq<char>, i: int, w: Seq<char>, c: SpecResponseTextCode) -> Option<
    (int, SpecResponseTextCode),
> {
    if word_at(s, i, w) {
        Some((i + w.len(), c))
    } else {
        None
    }
}

/// A space, `(`, one or more astrings separated by spaces, and `)`.
pub open spec fn g_charsets(s: Seq<char>, j: int) -> Option<(int, Seq<Seq<char>>)> {
    if char_at(s, j, ' ') && char_at(s, j + 1, '(') {
        match spaced_list1(r_astring(), s, j + 2) {
            Some((k, l)) => if char_at(s, k, ')') {
                Some((k + 1, l))
            } else {
                None
            },
            None => None,
        }
    } else {
        None
    }
}

pub open spec fn g_code_badcharset(s: Seq<char>, i: int) -> Option<(int, SpecResponseTextCode)> {
    if word_at(s, i, w_badcharset()) {
        match g_charsets(s, i + 10) {
            Some((k, l)) => Some((k, SpecResponseTextCode::BadCharset(Some(l)))),
            None => Some((i + 10, SpecResponseTextCode::BadCharset(None))),
        }
    } else {
        None
    }
}

pub open spec fn g_code_capability(s: Seq<char>, i: int) -> Option<(int, SpecResponseTextCode)> {
    match g_capability_data(s, i) {
        Some((j, caps)) => Some((j, SpecResponseTextCode::Capability(caps))),
        None => None,
    }
}

pub open spec fn g_code_permanentflags(s: Seq<char>, i: int) -> Option<
    (int, SpecResponseTextCode),
> {
    if word_at(s, i, w_permanentflags()) && char_at(s, i + 14, ' ') && char_at(s, i + 15, '(') {
        match many0(r_flag(), s, i + 16) {
            Some((k, flags)) => if char_at(s, k, ')') {
                Some((k + 1, SpecResponseTextCode::PermanentFlags(flags)))
            } else {
                None
            },
            None => None,
        }
    } else {
        None
    }
}

/// A word, a space and a number.
pub open spec fn g_word_number(s: Seq<char>, i: int, w: Seq<char>) -> Option<(int, u32)> {
    if word_at(s, i, w) && char_at(s, i + w.len(), ' ') {
        g_number(s, i + w.len() + 1)
    } else {
        None
    }
}

pub open spec fn g_code_uidnext(s: Seq<char>, i: int) -> Option<(int, SpecResponseTextCode)> {
    match g_word_number(s, i, w_uidnext()) {
        Some((j, n)) => Some((j, SpecResponseTextCode::UidNext(n))),
        None => None,
    }
}

pub open spec fn g_code_uidvalidity(s: Seq<char>, i: int) -> Option<(int, SpecResponseTextCode)> {
    match g_word_number(s, i, w_uidvalidity()) {
        Some((j, n)) => Some((j, SpecResponseTextCode::UidValidity(n))),
        None => None,
    }
}

pub open spec fn g_code_unseen(s: Seq<char>, i: int) -> Option<(int, SpecResponseTextCode)> {
    match g_word_number(s, i, w_unseen()) {
        Some((j, n)) => Some((j, SpecResponseTextCode::Unseen(n))),
        None => None,
    }
}

/// An atom, then optionally a space and text without `]`.
pub open spec fn g_code_custom(s: Seq<char>, i: int) -> Option<(int, SpecResponseTextCode)> {
    match g_atom(s, i) {
        Some((j, key)) => if char_at(s, j, ' ') {
            match g_take1(s, j + 1, CharClass::TextWithoutClosingSquareBracket) {
                Some((k, value)) => Some((k, SpecResponseTextCode::Custom(key, Some(value)))),
                None => Some((j, SpecResponseTextCode::Custom(key, None))),
            }
        } else {
            Some((j, SpecResponseTextCode::Custom(key, None)))
        },
        None => None,
    }
}

/// The code of a response text. `PARSE`, `READ-ONLY`, `READ-WRITE` and
/// `TRYCREATE` are all read as `Alert`.
pub open spec fn g_resp_text_code(s: Seq<char>, i: int) -> Option<(int, SpecResponseTextCode)> {
    first(
        word_code(s, i, w_alert(), SpecResponseTextCode::Alert),
        first(
            g_code_badcharset(s, i),
            first(
                g_code_capability(s, i),
                first(
                    word_code(s, i, w_parse(), SpecResponseTextCode::Alert),
                    first(
                        g_code_permanentflags(s, i),
                        first(
                            word_code(s, i, w_read_only(), SpecResponseTextCode::Alert),
                            first(
                                word_code(s, i, w_read_write(), SpecResponseTextCode::Alert),
                                first(
                                    word_code(s, i, w_trycreate(), SpecResponseTextCode::Alert),
                                    first(
                                        g_code_uidnext(s, i),
                                        first(
                                            g_code_uidvalidity(s, i),
                                            first(g_code_unseen(s, i), g_code_custom(s, i)),
                                        ),
                                    ),
                                ),
                            ),
                        ),
                    ),
                ),
            ),
        ),
    )
}

/// No word of the first letters `w` stands at the start of `s` when their
/// letter at `k` differs from that of `s`.
proof fn lemma_word_differs(s: Seq<char>, w: Seq<char>, k: int)
    requires
        0 <= k < w.len(),
        k < s.len(),
        s[k] != w[k],
    ensures
        !word_at(s, 0, w),
{
    if word_at(s, 0, w) {
        assert(s.subrange(0, w.len() as int)[k] == s[k]);
    }
}

/// The codes tried before the numbered ones all fail on input that starts
/// with `U`.
proof fn lemma_no_word_code_at_u(s: Seq<char>)
    requires
        s.len() >= 1,
        s[0] == 'U',
    ensures
        word_code(s, 0, w_alert(), SpecResponseTextCode::Alert) is None,
        g_code_badcharset(s, 0) is None,
        g_code_capability(s, 0) is None,
        word_code(s, 0, w_parse(), SpecResponseTextCode::Alert) is None,
        g_code_permanentflags(s, 0) is None,
        word_code(s, 0, w_read_only(), SpecResponseTextCode::Alert) is None,
        word_code(s, 0, w_read_write(), SpecResponseTextCode::Alert) is None,
        word_code(s, 0, w_trycreate(), SpecResponseTextCode::Alert) is None,
{
    lemma_word_differs(s, w_alert(), 0);
    lemma_word_differs(s, w_badcharset(), 0);
    lemma_word_differs(s, w_capability(), 0);
    lemma_word_differs(s, w_parse(), 0);
    lemma_word_differs(s, w_permanentflags(), 0);
    lemma_word_differs(s, w_read_only(), 0);
    lemma_word_differs(s, w_read_write(), 0);
    lemma_word_differs(s, w_trycreate(), 0);
}

/// The words ALERT, PARSE, READ-ONLY, READ-WRITE and TRYCREATE are each read
/// as the code `Alert`, whatever follows them, and the code ends after the
/// word.
pub proof fn lemma_word_codes(rest: Seq<char>)
    ensures
        g_resp_text_code(seq!['A', 'L', 'E', 'R', 'T'] + rest, 0) == Some(
            (5int, SpecResponseTextCode::Alert),
        ),
        g_resp_text_code(seq!['P', 'A', 'R', 'S', 'E'] + rest, 0) == Some(
            (5int, SpecResponseTextCode::Alert),
        ),
        g_resp_text_code(seq!['R', 'E', 'A', 'D', '-', 'O', 'N', 'L', 'Y'] + rest, 0) == Some(
            (9int, SpecResponseTextCode::Alert),
        ),
        g_resp_text_code(seq!['R', 'E', 'A', 'D', '-', 'W', 'R', 'I', 'T', 'E'] + rest, 0) == Some(
            (10int, SpecResponseTextCode::Alert),
        ),
        g_resp_text_code(seq!['T', 'R', 'Y', 'C', 'R', 'E', 'A', 'T', 'E'] + rest, 0) == Some(
            (9int, SpecResponseTextCode::Alert),
        ),
{
    let a = seq!['A', 'L', 'E', 'R', 'T'] + rest;
    assert(a.subrange(0, 5) =~= w_alert());
    let p = seq!['P', 'A', 'R', 'S', 'E'] + rest;
    assert(p[0] == 'P');
    lemma_word_differs(p, w_alert(), 0);
    lemma_word_differs(p, w_badcharset(), 0);
    lemma_word_differs(p, w_capability(), 0);
    assert(p.subrange(0, 5) =~= w_parse());
    let ro = seq!['R', 'E', 'A', 'D', '-', 'O', 'N', 'L', 'Y'] + rest;
    assert(ro[0] == 'R');
    lemma_word_differs(ro, w_alert(), 0);
    lemma_word_differs(ro, w_badcharset(), 0);
    lemma_word_differs(ro, w_capability(), 0);
    lemma_word_differs(ro, w_parse(), 0);
    lemma_word_differs(ro, w_permanentflags(), 0);
    assert(ro.subrange(0, 9) =~= w_read_only());
    let rw = seq!['R', 'E', 'A', 'D', '-', 'W', 'R', 'I', 'T', 'E'] + rest;
    assert(rw[0] == 'R' && rw[5] == 'W');
    lemma_word_differs(rw, w_alert(), 0);
    lemma_word_differs(rw, w_badcharset(), 0);
    lemma_word_differs(rw, w_capability(), 0);
    lemma_word_differs(rw, w_parse(), 0);
    lemma_word_differs(rw, w_permanentflags(), 0);
    lemma_word_differs(rw, w_read_only(), 5);
    assert(rw.subrange(0, 10) =~= w_read_write());
    let t = seq!['T', 'R', 'Y', 'C', 'R', 'E', 'A', 'T', 'E'] + rest;
    assert(t[0] == 'T');
    lemma_word_differs(t, w_alert(), 0);
    lemma_word_differs(t, w_badcharset(), 0);
    lemma_word_differs(t, w_capability(), 0);
    lemma_word_differs(t, w_parse(), 0);
    lemma_word_differs(t, w_permanentflags(), 0);
    lemma_word_differs(t, w_read_only(), 0);
    lemma_word_differs(t, w_read_write(), 0);
    assert(t.subrange(0, 9) =~= w_trycreate());
}

/// `UIDNEXT n` is read as the code UIDNEXT with the number `n`, and the code
/// ends after the number.
pub proof fn lemma_uidnext_code(n: u32, rest: Seq<char>)
    requires
        rest.len() == 0 || !spec_is_digit(rest[0]),
    ensures
        g_resp_text_code(seq!['U', 'I', 'D', 'N', 'E', 'X', 'T', ' '] + decimal(n as nat) + rest, 0)
            == Some(((8 + decimal(n as nat).len()) as int, SpecResponseTextCode::UidNext(n))),
{
    let w = seq!['U', 'I', 'D', 'N', 'E', 'X', 'T', ' '];
    let s = w + decimal(n as nat) + rest;
    lemma_number_reads_decimal_after(w, n, rest);
    assert(s[0] == 'U');
    lemma_no_word_code_at_u(s);
    assert(s.subrange(0, 7) =~= w_uidnext());
    assert(s[7] == ' ');
}

/// `UIDVALIDITY n` is read as the code UIDVALIDITY with the number `n`, and
/// the code ends after the number.
pub proof fn lemma_uidvalidity_code(n: u32, rest: Seq<char>)
    requires
        rest.len() == 0 || !spec_is_digit(rest[0]),
    ensures
        g_resp_text_code(
            seq!['U', 'I', 'D', 'V', 'A', 'L', 'I', 'D', 'I', 'T', 'Y', ' '] + decimal(n as nat) + rest,
            0,
        ) == Some(((12 + decimal(n as nat).len()) as int, SpecResponseTextCode::UidValidity(n))),
{
    let w = seq!['U', 'I', 'D', 'V', 'A', 'L', 'I', 'D', 'I', 'T', 'Y', ' '];
    let s = w + decimal(n as nat) + rest;
    lemma_number_reads_decimal_after(w, n, rest);
    assert(s[0] == 'U');
    lemma_no_word_code_at_u(s);
    assert(s[3] == 'V');
    lemma_word_differs(s, w_uidnext(), 3);
    assert(s.subrange(0, 11) =~= w_uidvalidity());
    assert(s[11] == ' ');
}

/// `UNSEEN n` is read as the code UNSEEN with the number `n`, and the code
/// ends after the number.
pub proof fn lemma_unseen_code(n: u32, rest: Seq<char>)
    requires
        rest.len() == 0 || !spec_is_digit(rest[0]),
    ensures
        g_resp_text_code(seq!['U', 'N', 'S', 'E', 'E', 'N', ' '] + decimal(n as nat) + rest, 0)
            == Some(((7 + decimal(n as nat).len()) as int, SpecResponseTextCode::Unseen(n))),
{
    let w = seq!['U', 'N', 'S', 'E', 'E', 'N', ' '];
    let s = w + decimal(n as nat) + rest;
    lemma_number_reads_decimal_after(w, n, rest);
    assert(s[0] == 'U');
    lemma_no_word_code_at_u(s);
    assert(s[1] == 'N');
    lemma_word_differs(s, w_uidnext(), 1);
    lemma_word_differs(s, w_uidvalidity(), 1);
    assert(s.subrange(0, 6) =~= w_unseen());
    assert(s[6] == ' ');
}

/// `[`, a response code, `]` and a space.
pub open spec fn g_bracketed_code(s: Seq<char>, i: int) -> Option<(int, SpecResponseTextCode)> {
    if char_at(s, i, '[') {
        match g_resp_text_code(s, i + 1) {
            Some((j, c)) => if char_at(s, j, ']') && char_at(s, j + 1, ' ') {
                Some((j + 2, c))
            } else {
                None
            },
            None => None,
        }
    } else {
        None
    }
}

/// An optional bracketed code, then text.
pub open spec fn g_resp_text(s: Seq<char>, i: int) -> Option<(int, SpecResponseText)> {
    let (k, code) = match g_bracketed_code(s, i) {
        Some((j, c)) => (j, Some(c)),
        None => (i, None),
    };
    match g_text(s, k) {
        Some((e, t)) => Some((e, SpecResponseText { code, text: t })),
        None => None,
    }
}

pub open spec fn w_ok() -> Seq<char> {
    seq!['O', 'K']
}

pub open spec fn w_no() -> Seq<char> {
    seq!['N', 'O']
}

pub open spec fn w_bad() -> Seq<char> {
    seq!['B', 'A', 'D']
}

pub open spec fn w_preauth() -> Seq<char> {
    seq!['P', 'R', 'E', 'A', 'U', 'T', 'H']
}

pub open spec fn w_bye() -> Seq<char> {
    seq!['B', 'Y', 'E']
}

/// `OK`, `NO` or `BAD`; all three are read as `Status::Okay`.
pub open spec fn g_status(s: Seq<char>, i: int) -> Option<(int, Status)> {
    if word_at(s, i, w_ok()) {
        Some((i + 2, Status::Okay))
    } else if word_at(s, i, w_no()) {
        Some((i + 2, Status::Okay))
    } else if word_at(s, i, w_bad()) {
        Some((i + 3, Status::Okay))
    } else {
        None
    }
}

/// The status words `OK`, `NO` and `BAD`, whatever follows, are read (all
/// three as `Okay`) up to the end of the word.
pub proof fn lemma_status_words(rest: Seq<char>)
    ensures
        g_status(seq!['O', 'K'] + rest, 0) == Some((2int, Status::Okay)),
        g_status(seq!['N', 'O'] + rest, 0) == Some((2int, Status::Okay)),
        g_status(seq!['B', 'A', 'D'] + rest, 0) == Some((3int, Status::Okay)),
{
    let ok = seq!['O', 'K'] + rest;
    assert(ok.subrange(0, 2) =~= w_ok());
    let no = seq!['N', 'O'] + rest;
    assert(no[0] == 'N');
    lemma_word_differs(no, w_ok(), 0);
    assert(no.subrange(0, 2) =~= w_no());
    let bad = seq!['B', 'A', 'D'] + rest;
    assert(bad[0] == 'B');
    lemma_word_differs(bad, w_ok(), 0);
    lemma_word_differs(bad, w_no(), 0);
    assert(bad.subrange(0, 3) =~= w_bad());
}

pub open spec fn g_resp_cond_state(s: Seq<char>, i: int) -> Option<(int, SpecResponseCondState)> {
    match g_status(s, i) {
        Some((j, status)) => if char_at(s, j, ' ') {
            match g_resp_text(s, j + 1) {
                Some((k, text)) => Some((k, SpecResponseCondState { status, text })),
                None => None,
            }
        } else {
            None
        },
        None => None,
    }
}

/// `OK` or `PREAUTH`, a space, and a response text.
pub open spec fn g_resp_cond_auth(s: Seq<char>, i: int) -> Option<(int, SpecResponseText)> {
    let j = if word_at(s, i, w_ok()) {
        i + 2
    } else if word_at(s, i, w_preauth()) {
        i + 7
    } else {
        -1
    };
    if j >= 0 && char_at(s, j, ' ') {
        g_resp_text(s, j + 1)
    } else {
        None
    }
}

/// `BYE`, a space, and a response text.
pub open spec fn g_resp_cond_bye(s: Seq<char>, i: int) -> Option<(int, SpecResponseText)> {
    if word_at(s, i, w_bye()) && char_at(s, i + 3, ' ') {
        g_resp_text(s, i + 4)
    } else {
        None
    }
}

/// `*` directly followed by a `BYE` condition, and a line break.
pub open spec fn g_response_fatal(s: Seq<char>, i: int) -> Option<(int, SpecResponseText)> {
    if char_at(s, i, '*') {
        match g_resp_cond_bye(s, i + 1) {
            Some((j, t)) => if crlf_at(s, j) {
                Some((j + 2, t))
            } else {
                None
            },
            None => None,
        }
    } else {
        None
    }
}

pub open spec fn g_response_tagged(s: Seq<char>, i: int) -> Option<(int, SpecTaggedResponse)> {
    match g_tag(s, i) {
        Some((j, tag)) => if char_at(s, j, ' ') {
            match g_resp_cond_state(s, j + 1) {
                Some((k, state)) => if crlf_at(s, k) {
                    Some((k + 2, SpecTaggedResponse { tag, state }))
                } else {
                    None
                },
                None => None,
            }
        } else {
            None
        },
        None => None,
    }
}

/// `* `, an `OK`/`PREAUTH` or a `BYE` condition, and a line break.
pub open spec fn g_greeting(s: Seq<char>, i: int) -> Option<(int, SpecResponseText)> {
    if char_at(s, i, '*') && char_at(s, i + 1, ' ') {
        match first(g_resp_cond_auth(s, i + 2), g_resp_cond_bye(s, i + 2)) {
            Some((j, t)) => if crlf_at(s, j) {
                Some((j + 2, t))
            } else {
                None
            },
            None => None,
        }
    } else {
        None
    }
}

pub open spec fn g_response_done(s: Seq<char>, i: int) -> Option<(int, SpecResponseLine)> {
    first(
        match g_response_tagged(s, i) {
            Some((j, t)) => Some((j, SpecResponseLine::Tagged(t))),
            None => None,
        },
        match g_response_fatal(s, i) {
            Some((j, t)) => Some((j, SpecResponseLine::Fatal(t))),
            None => None,
        },
    )
}

pub open spec fn g_response_data_body(s: Seq<char>, i: int) -> Option<(int, SpecResponseLine)> {
    first(
        match g_resp_cond_state(s, i) {
            Some((j, t)) => Some((j, SpecResponseLine::CondState(t))),
            None => None,
        },
        first(
            match g_resp_cond_bye(s, i) {
                Some((j, t)) => Some((j, SpecResponseLine::CondBye(t))),
                None => None,
            },
            match g_capability_data(s, i) {
                Some((j, c)) => Some((j, SpecResponseLine::CapabilityData(c))),
                None => None,
            },
        ),
    )
}

/// `* `, a condition, a `BYE` condition or capability data, and a line break.
pub open spec fn g_response_data(s: Seq<char>, i: int) -> Option<(int, SpecResponseLine)> {
    if char_at(s, i, '*') && char_at(s, i + 1, ' ') {
        match g_response_data_body(s, i + 2) {
            Some((j, t)) => if crlf_at(s, j) {
                Some((j + 2, t))
            } else {
                None
            },
            None => None,
        }
    } else {
        None
    }
}

/// Two digits, read as a number.
pub open spec fn g_two_digit(s: Seq<char>, i: int) -> Option<(int, u32)> {
    if 0 <= i && i + 2 <= s.len() && spec_is_digit(s[i]) && spec_is_digit(s[i + 1]) {
        Some((i + 2, (digit_value(s[i]) * 10 + digit_value(s[i + 1])) as u32))
    } else {
        None
    }
}

pub open spec fn w_nil() -> Seq<char> {
    seq!['N', 'I', 'L']
}

/// `NIL` (read as the text `NIL`), or a string.
pub open spec fn g_nstring(s: Seq<char>, i: int) -> Option<(int, Seq<char>)> {
    if word_at(s, i, w_nil()) {
        Some((i + 3, w_nil()))
    } else {
        g_string(s, i)
    }
}

/// The three letters of each month's name, in order.
pub open spec fn month_names() -> Seq<Seq<char>> {
    seq![
        seq!['J', 'a', 'n'],
        seq!['F', 'e', 'b'],
        seq!['M', 'a', 'r'],
        seq!['A', 'p', 'r'],
        seq!['M', 'a', 'y'],
        seq!['J', 'u', 'n'],
        seq!['J', 'u', 'l'],
        seq!['A', 'u', 'g'],
        seq!['S', 'e', 'p'],
        seq!['O', 'c', 't'],
        seq!['N', 'o', 'v'],
        seq!['D', 'e', 'c'],
    ]
}

/// The month whose name stands at `i`, trying the months from the `m`-th.
pub open spec fn month_from(s: Seq<char>, i: int, m: int) -> Option<(int, u32)>
    decreases 12 - m,
{
    if 0 <= m < 12 {
        if word_at(s, i, month_names()[m]) {
            Some((i + 3, (m + 1) as u32))
        } else {
            month_from(s, i, m + 1)
        }
    } else {
        None
    }
}

/// A month's three-letter name, read as its number.
pub open spec fn g_date_month(s: Seq<char>, i: int) -> Option<(int, u32)> {
    month_from(s, i, 0)
}

/// A day of the month, with an optional leading space.
pub open spec fn g_date_day_fixed(s: Seq<char>, i: int) -> Option<(int, u32)> {
    if char_at(s, i, ' ') {
        g_number(s, i + 1)
    } else {
        g_number(s, i)
    }
}

/// Hours, minutes and seconds, as numbers separated by colons.
pub open spec fn g_time(s: Seq<char>, i: int) -> Option<(int, (u32, u32, u32))> {
    match g_number(s, i) {
        Some((j, h)) => if char_at(s, j, ':') {
            match g_number(s, j + 1) {
                Some((k, m)) => if char_at(s, k, ':') {
                    match g_number(s, k + 1) {
                        Some((e, sec)) => Some((e, (h, m, sec))),
                        None => None,
                    }
                } else {
                    None
                },
                None => None,
            }
        } else {
            None
        },
        None => None,
    }
}

pub open spec fn w_flags() -> Seq<char> {
    seq!['F', 'L', 'A', 'G', 'S']
}

/// `FLAGS`, a space, and a parenthesised list of flags separated by
/// spaces.
pub open spec fn g_msg_att_dynamic(s: Seq<char>, i: int) -> Option<(int, Seq<SpecFlag>)> {
    if word_at(s, i, w_flags()) && char_at(s, i + 5, ' ') && char_at(s, i + 6, '(') {
        match spaced_list0(r_flag(), s, i + 7) {
            Some((j, flags)) => if char_at(s, j, ')') {
                Some((j + 1, flags))
            } else {
                None
            },
            None => None,
        }
    } else {
        None
    }
}

/// A time zone: a sign and four digits, `hhmm`, read as a number of
/// seconds, with whether the sign was `+`.
pub open spec fn g_zone_seconds(s: Seq<char>, i: int) -> Option<(int, bool, u32)> {
    if char_at(s, i, '+') || char_at(s, i, '-') {
        match g_two_digit(s, i + 1) {
            Some((j, hh)) => match g_two_digit(s, j) {
                Some((k, mm)) => Some((k, char_at(s, i, '+'), (mm * 60 + hh * 60 * 60) as u32)),
                None => None,
            },
            None => None,
        }
    } else {
        None
    }
}

} // verus!
