//! Character classes of the IMAP grammar and the scanners built on them:
//! runs of characters of one class, fixed words, and decimal numbers.
use vstd::prelude::*;
use crate::text::{decimal, digit_char};

verus! {

pub open spec fn spec_is_list_wildcard(c: char) -> bool {
    c == '%' || c == '*'
}

pub open spec fn spec_is_quoted_special(c: char) -> bool {
    c == '"' || c == '\\'
}

pub open spec fn spec_is_resp_special(c: char) -> bool {
    c == ']'
}

/// A character whose code point lies in 1..=0xff.
pub open spec fn spec_is_char8(c: char) -> bool {
    (c as u32) != 0 && (c as u32) <= 0xff
}

/// The characters that end an atom. Control characters are not among them.
pub open spec fn spec_is_atom_special(c: char) -> bool {
    c == '(' || c == ')' || c == '{' || c == ' ' || spec_is_list_wildcard(c)
        || spec_is_quoted_special(c) || spec_is_resp_special(c)
}

pub open spec fn spec_is_atom_char(c: char) -> bool {
    !spec_is_atom_special(c)
}

pub open spec fn spec_is_astring_char(c: char) -> bool {
    spec_is_atom_char(c) || spec_is_resp_special(c)
}

pub open spec fn spec_is_astring_char_without_plus(c: char) -> bool {
    spec_is_astring_char(c) && c != '+'
}

pub open spec fn spec_is_text_char(c: char) -> bool {
    c != '\n' && c != '\r'
}

pub open spec fn spec_is_text_char_without_closing_square_bracket(c: char) -> bool {
    spec_is_text_char(c) && c != ']'
}

/// Holds of no character: a backslash is itself a quoted special.
pub open spec fn spec_is_not_quoted_special_or_escape(c: char) -> bool {
    !(c != '\\' || spec_is_quoted_special(c))
}

pub open spec fn spec_is_digit(c: char) -> bool {
    '0' <= c && c <= '9'
}

pub fn is_list_wildcard(input: char) -> (r: bool)
    ensures
        r == spec_is_list_wildcard(input),
{
    input == '%' || input == '*'
}

pub fn is_quoted_special(input: char) -> (r: bool)
    ensures
        r == spec_is_quoted_special(input),
{
    input == '"' || input == '\\'
}

pub fn is_resp_special(input: char) -> (r: bool)
    ensures
        r == spec_is_resp_special(input),
{
    input == ']'
}

pub fn is_char8(input: char) -> (r: bool)
    ensures
        r == spec_is_char8(input),
{
    let code: u32 = input as u32;
    code != 0 && code <= 0xff
}

pub fn is_atom_special(input: char) -> (r: bool)
    ensures
        r == spec_is_atom_special(input),
{
    input == '(' || input == ')' || input == '{' || input == ' ' || is_list_wildcard(input)
        || is_quoted_special(input) || is_resp_special(input)
}

pub fn is_atom_char(input: char) -> (r: bool)
    ensures
        r == spec_is_atom_char(input),
{
    !is_atom_special(input)
}

pub fn is_astring_char(input: char) -> (r: bool)
    ensures
        r == spec_is_astring_char(input),
{
    is_atom_char(input) || is_resp_special(input)
}

pub fn is_astring_char_without_plus(input: char) -> (r: bool)
    ensures
        r == spec_is_astring_char_without_plus(input),
{
    is_astring_char(input) && input != '+'
}

pub fn is_text_char(input: char) -> (r: bool)
    ensures
        r == spec_is_text_char(input),
{
    input != '\n' && input != '\r'
}

pub fn is_text_char_without_closing_square_bracket(input: char) -> (r: bool)
    ensures
        r == spec_is_text_char_without_closing_square_bracket(input),
{
    is_text_char(input) && input != ']'
}

pub fn is_not_quoted_special_or_escape(input: char) -> (r: bool)
    ensures
        r == spec_is_not_quoted_special_or_escape(input),
        !r,
{
    !(input != '\\' || is_quoted_special(input))
}

/// The classes of characters that the grammar takes runs of.
#[derive(Clone, Copy, PartialEq, Eq, Debug)]
pub enum CharClass {
    Atom,
    Astring,
    AstringWithoutPlus,
    Text,
    TextWithoutClosingSquareBracket,
    Char8,
    Digit,
}

pub open spec fn class_has(class: CharClass, c: char) -> bool {
    match class {
        CharClass::Atom => spec_is_atom_char(c),
        CharClass::Astring => spec_is_astring_char(c),
        CharClass::AstringWithoutPlus => spec_is_astring_char_without_plus(c),
        CharClass::Text => spec_is_text_char(c),
        CharClass::TextWithoutClosingSquareBracket =>
            spec_is_text_char_without_closing_square_bracket(c),
        CharClass::Char8 => spec_is_char8(c),
        CharClass::Digit => spec_is_digit(c),
    }
}

pub fn in_class(class: CharClass, c: char) -> (r: bool)
    ensures
        r == class_has(class, c),
{
    match class {
        CharClass::Atom => is_atom_char(c),
        CharClass::Astring => is_astring_char(c),
        CharClass::AstringWithoutPlus => is_astring_char_without_plus(c),
        CharClass::Text => is_text_char(c),
        CharClass::TextWithoutClosingSquareBracket => is_text_char_without_closing_square_bracket(
            c,
        ),
        CharClass::Char8 => is_char8(c),
        CharClass::Digit => '0' <= c && c <= '9',
    }
}

/// Where the longest run of characters of `class` that starts at `i` ends.
pub open spec fn run_end(s: Seq<char>, i: int, class: CharClass) -> int
    decreases s.len() - i,
{
    if 0 <= i < s.len() && class_has(class, s[i]) {
        run_end(s, i + 1, class)
    } else {
        i
    }
}

pub proof fn lemma_run_end(s: Seq<char>, i: int, class: CharClass)
    requires
        0 <= i <= s.len(),
    ensures
        i <= run_end(s, i, class) <= s.len(),
        forall|k: int| i <= k < run_end(s, i, class) ==> class_has(class, #[trigger] s[k]),
        run_end(s, i, class) < s.len() ==> !class_has(class, s[run_end(s, i, class)]),
    decreases s.len() - i,
{
    if i < s.len() && class_has(class, s[i]) {
        lemma_run_end(s, i + 1, class);
    }
}

/// A run that is known to go on at least to `k` ends where the run from `k` ends.
pub proof fn lemma_run_end_step(s: Seq<char>, i: int, k: int, class: CharClass)
    requires
        0 <= i <= k <= s.len(),
        forall|m: int| i <= m < k ==> class_has(class, #[trigger] s[m]),
    ensures
        run_end(s, i, class) == run_end(s, k, class),
    decreases k - i,
{
    if i < k {
        lemma_run_end_step(s, i + 1, k, class);
    }
}

/// The end of the longest run of `class` characters starting at `i`.
pub fn take_while(s: &[char], i: usize, class: CharClass) -> (r: usize)
    requires
        i <= s@.len(),
    ensures
        r == run_end(s@, i as int, class),
        i <= r <= s@.len(),
{
    let mut k = i;
    while k < s.len() && in_class(class, s[k])
        invariant
            i <= k <= s@.len(),
            forall|m: int| i <= m < k ==> class_has(class, #[trigger] s@[m]),
        decreases s@.len() - k,
    {
        k = k + 1;
    }
    proof {
        lemma_run_end_step(s@, i as int, k as int, class);
    }
    k
}

pub open spec fn char_at(s: Seq<char>, i: int, c: char) -> bool {
    0 <= i < s.len() && s[i] == c
}

pub open spec fn word_at(s: Seq<char>, i: int, w: Seq<char>) -> bool {
    0 <= i && i + w.len() <= s.len() && s.subrange(i, i + w.len()) == w
}

pub fn is_char_at(s: &[char], i: usize, c: char) -> (r: bool)
    ensures
        r == char_at(s@, i as int, c),
        r ==> i < s.len(),
{
    i < s.len() && s[i] == c
}

/// Does `s` hold the word `w` at position `i`?
pub fn is_word_at(s: &[char], i: usize, w: &[char]) -> (r: bool)
    requires
        i <= s@.len(),
    ensures
        r == word_at(s@, i as int, w@),
        r ==> i + w.len() <= s.len(),
{
    if w.len() > s.len() - i {
        return false;
    }
    let mut k: usize = 0;
    while k < w.len()
        invariant
            k <= w@.len(),
            i <= s@.len(),
            i + w@.len() <= s@.len(),
            s@.len() == s.len(),
            w@.len() == w.len(),
            forall|m: int| 0 <= m < k ==> s@[i + m] == w@[m],
        decreases w@.len() - k,
    {
        if s[i + k] != w[k] {
            assert(s@.subrange(i as int, i + w@.len())[k as int] != w@[k as int]);
            return false;
        }
        k = k + 1;
    }
    assert(s@.subrange(i as int, i + w@.len()) =~= w@);
    true
}

pub open spec fn digit_value(c: char) -> nat {
    ((c as int) - ('0' as int)) as nat
}

/// The value of a string of decimal digits, most significant first.
pub open spec fn digits_value(d: Seq<char>) -> nat
    decreases d.len(),
{
    if d.len() == 0 {
        0
    } else {
        digits_value(d.drop_last()) * 10 + digit_value(d.last())
    }
}

pub proof fn lemma_digits_value_grows(d: Seq<char>, k: int)
    requires
        0 <= k <= d.len(),
        forall|m: int| 0 <= m < d.len() ==> spec_is_digit(#[trigger] d[m]),
    ensures
        digits_value(d.subrange(0, k)) <= digits_value(d),
    decreases d.len() - k,
{
    if k < d.len() {
        lemma_digits_value_grows(d, k + 1);
        let p = d.subrange(0, k + 1);
        assert(p.drop_last() =~= d.subrange(0, k));
    } else {
        assert(d.subrange(0, k) =~= d);
    }
}

/// `number`: one or more digits whose value fits in a `u32`.
pub open spec fn g_number(s: Seq<char>, i: int) -> Option<(int, u32)> {
    let e = run_end(s, i, CharClass::Digit);
    if 0 <= i && e > i && digits_value(s.subrange(i, e)) <= u32::MAX {
        Some((e, digits_value(s.subrange(i, e)) as u32))
    } else {
        None
    }
}

pub fn number(s: &[char], i: usize) -> (r: Option<(usize, u32)>)
    requires
        i <= s@.len(),
    ensures
        g_number(s@, i as int) == match r {
            Some((j, n)) => Some((j as int, n)),
            None => None::<(int, u32)>,
        },
{
    let e = take_while(s, i, CharClass::Digit);
    if e == i {
        return None;
    }
    proof {
        lemma_run_end(s@, i as int, CharClass::Digit);
    }
    let ghost d = s@.subrange(i as int, e as int);
    let mut value: u64 = 0;
    let mut k = i;
    while k < e
        invariant
            i <= k <= e <= s@.len(),
            d == s@.subrange(i as int, e as int),
            e == run_end(s@, i as int, CharClass::Digit),
            forall|m: int| i <= m < e ==> spec_is_digit(#[trigger] s@[m]),
            value == digits_value(s@.subrange(i as int, k as int)),
            value <= u32::MAX,
        decreases e - k,
    {
        let digit = s[k];
        assert(spec_is_digit(s@[k as int]));
        let dv: u64 = (digit as u32 - '0' as u32) as u64;
        proof {
            assert(s@.subrange(i as int, k + 1).drop_last() =~= s@.subrange(i as int, k as int));
            assert(s@.subrange(i as int, k + 1).last() == digit);
        }
        value = value * 10 + dv;
        k = k + 1;
        assert(value == digits_value(s@.subrange(i as int, k as int)));
        if value > 0xffff_ffff {
            proof {
                assert(forall|m: int| 0 <= m < d.len() ==> spec_is_digit(#[trigger] d[m])) by {
                    assert forall|m: int| 0 <= m < d.len() implies spec_is_digit(#[trigger] d[m]) by {
                        assert(d[m] == s@[i + m]);
                    }
                }
                lemma_digits_value_grows(d, k - i);
                assert(d.subrange(0, k - i) =~= s@.subrange(i as int, k as int));
            }
            return None;
        }
    }
    Some((e, value as u32))
}

/// A run of digits goes on to the first character that is not one.
proof fn lemma_run_end_digits(s: Seq<char>, i: int, e: int)
    requires
        0 <= i <= e <= s.len(),
        forall|k: int| i <= k < e ==> spec_is_digit(#[trigger] s[k]),
        e == s.len() || !spec_is_digit(s[e]),
    ensures
        run_end(s, i, CharClass::Digit) == e,
    decreases e - i,
{
    if i < e {
        lemma_run_end_digits(s, i + 1, e);
    }
}

/// Decimal notation is made of digits whose value is the number.
proof fn lemma_decimal_digits(n: nat)
    ensures
        forall|k: int| 0 <= k < decimal(n).len() ==> spec_is_digit(#[trigger] decimal(n)[k]),
        digits_value(decimal(n)) == n,
    decreases n,
{
    if n < 10 {
        let d = decimal(n);
        assert(d.drop_last() =~= Seq::<char>::empty());
        assert(digits_value(d.drop_last()) == 0);
        assert(digit_value(digit_char(n)) == n);
    } else {
        lemma_decimal_digits(n / 10);
        let d = decimal(n);
        assert(d.drop_last() =~= decimal(n / 10));
        assert(digit_value(digit_char(n % 10)) == n % 10);
        assert(d.last() == digit_char(n % 10));
        assert(digits_value(d) == digits_value(decimal(n / 10)) * 10 + digit_value(d.last()));
        assert((n / 10) * 10 + n % 10 == n);
        assert forall|k: int| 0 <= k < d.len() implies spec_is_digit(#[trigger] d[k]) by {
            if k < d.len() - 1 {
                assert(d[k] == decimal(n / 10)[k]);
            }
        }
    }
}

/// The number reader reads back the decimal notation of any `u32`, when
/// what follows does not start with a digit.
pub proof fn lemma_number_reads_decimal(n: u32, rest: Seq<char>)
    requires
        rest.len() == 0 || !spec_is_digit(rest[0]),
    ensures
        g_number(decimal(n as nat) + rest, 0) == Some((decimal(n as nat).len() as int, n)),
{
    let d = decimal(n as nat);
    let s = d + rest;
    lemma_decimal_digits(n as nat);
    crate::text::lemma_decimal_nonempty(n as nat);
    assert forall|k: int| 0 <= k < d.len() implies spec_is_digit(#[trigger] s[k]) by {
        assert(s[k] == d[k]);
    }
    if rest.len() > 0 {
        assert(s[d.len() as int] == rest[0]);
    }
    lemma_run_end_digits(s, 0, d.len() as int);
    assert(s.subrange(0, d.len() as int) =~= d);
}

/// The number reader reads back the decimal notation of any `u32` wherever
/// it stands, when what follows does not start with a digit.
pub proof fn lemma_number_reads_decimal_after(before: Seq<char>, n: u32, rest: Seq<char>)
    requires
        rest.len() == 0 || !spec_is_digit(rest[0]),
    ensures
        g_number(before + decimal(n as nat) + rest, before.len() as int) == Some(
            ((before.len() + decimal(n as nat).len()) as int, n),
        ),
{
    let d = decimal(n as nat);
    let s = before + d + rest;
    let b = before.len() as int;
    lemma_decimal_digits(n as nat);
    crate::text::lemma_decimal_nonempty(n as nat);
    assert forall|k: int| b <= k < b + d.len() implies spec_is_digit(#[trigger] s[k]) by {
        assert(s[k] == d[k - b]);
    }
    if rest.len() > 0 {
        assert(s[b + d.len()] == rest[0]);
    }
    lemma_run_end_digits(s, b, b + d.len());
    assert(s.subrange(b, b + d.len()) =~= d);
}

}
