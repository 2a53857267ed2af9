use vstd::prelude::*;

verus! {

/// Appends one character to a string.
///
/// Trusted: `String::push`, which std documents as appending the given char
/// to the end of the string.
#[verifier::external_body]
pub(crate) fn string_push(s: &mut String, c: char)
    ensures
        final(s)@ == old(s)@.push(c),
{
    s.push(c);
}

/// The characters of a string slice, in order.
pub fn chars_of(input: &str) -> (r: Vec<char>)
    ensures
        r@ == input@,
{
    let mut r: Vec<char> = Vec::new();
    for c in it: input.chars()
        invariant
            r@ == it.seq().take(it.index() as int),
    {
        r.push(c);
    }
    r
}

/// The characters `s[i..e]` as a string.
pub fn span(s: &[char], i: usize, e: usize) -> (r: String)
    requires
        i <= e <= s@.len(),
    ensures
        r@ == s@.subrange(i as int, e as int),
{
    let mut r = String::new();
    let mut k = i;
    while k < e
        invariant
            i <= k <= e <= s@.len(),
            r@ == s@.subrange(i as int, k as int),
        decreases e - k,
    {
        string_push(&mut r, s[k]);
        k = k + 1;
        assert(r@ =~= s@.subrange(i as int, k as int));
    }
    r
}

/// Whether two texts are equal, compared character by character.
pub fn str_eq(a: &str, b: &str) -> (r: bool)
    ensures
        r == (a@ == b@),
{
    let ac = chars_of(a);
    let bc = chars_of(b);
    if ac.len() != bc.len() {
        return false;
    }
    let mut k: usize = 0;
    while k < ac.len()
        invariant
            k <= ac@.len(),
            ac@.len() == bc@.len(),
            ac@ == a@,
            bc@ == b@,
            forall|m: int| 0 <= m < k ==> ac@[m] == bc@[m],
        decreases ac@.len() - k,
    {
        if ac[k] != bc[k] {
            return false;
        }
        k = k + 1;
    }
    assert(ac@ =~= bc@);
    true
}

/// The decimal digit for `d`, which is below ten.
pub open spec fn digit_char(d: nat) -> char {
    (('0' as u32) + d) as char
}

/// The decimal notation of `n`, without leading zeros.
pub open spec fn decimal(n: nat) -> Seq<char>
    decreases n,
{
    if n < 10 {
        seq![digit_char(n)]
    } else {
        decimal(n / 10).push(digit_char(n % 10))
    }
}

pub proof fn lemma_decimal_nonempty(n: nat)
    ensures
        decimal(n).len() >= 1,
    decreases n,
{
    if n >= 10 {
        lemma_decimal_nonempty(n / 10);
    }
}

/// Whether a character has the Unicode `White_Space` property.
pub open spec fn is_white_space(c: char) -> bool {
    let n = c as u32;
    ||| 0x9 <= n <= 0xd
    ||| n == 0x20
    ||| n == 0x85
    ||| n == 0xa0
    ||| n == 0x1680
    ||| 0x2000 <= n <= 0x200a
    ||| n == 0x2028
    ||| n == 0x2029
    ||| n == 0x202f
    ||| n == 0x205f
    ||| n == 0x3000
}

/// The length of a text without its trailing white space.
pub open spec fn trimmed_end_len(s: Seq<char>) -> nat
    decreases s.len(),
{
    if s.len() > 0 && is_white_space(s.last()) {
        trimmed_end_len(s.drop_last())
    } else {
        s.len()
    }
}

fn is_white_space_char(c: char) -> (r: bool)
    ensures
        r == is_white_space(c),
{
    let n = c as u32;
    (0x9 <= n && n <= 0xd) || n == 0x20 || n == 0x85 || n == 0xa0 || n == 0x1680 || (0x2000 <= n
        && n <= 0x200a) || n == 0x2028 || n == 0x2029 || n == 0x202f || n == 0x205f || n == 0x3000
}

proof fn lemma_trimmed_end_len_bound(s: Seq<char>)
    ensures
        trimmed_end_len(s) <= s.len(),
    decreases s.len(),
{
    if s.len() > 0 && is_white_space(s.last()) {
        lemma_trimmed_end_len_bound(s.drop_last());
    }
}

/// A text without its trailing white space.
pub fn trim_end(s: &str) -> (r: String)
    ensures
        trimmed_end_len(s@) <= s@.len(),
        r@ == s@.subrange(0, trimmed_end_len(s@) as int),
{
    let chars = chars_of(s);
    let mut end = chars.len();
    assert(chars@.subrange(0, end as int) =~= s@);
    while end > 0 && is_white_space_char(chars[end - 1])
        invariant
            end <= chars@.len(),
            chars@ == s@,
            trimmed_end_len(s@) == trimmed_end_len(chars@.subrange(0, end as int)),
        decreases end,
    {
        proof {
            let t = chars@.subrange(0, end as int);
            assert(t.drop_last() =~= chars@.subrange(0, end - 1));
        }
        end = end - 1;
    }
    proof {
        let t = chars@.subrange(0, end as int);
        lemma_trimmed_end_len_bound(s@);
        if end > 0 {
            assert(t.last() == chars@[end - 1]);
        }
        assert(trimmed_end_len(t) == t.len());
    }
    span(chars.as_slice(), 0, end)
}

/// The pieces joined back with single spaces between them.
pub open spec fn join_with_spaces(pieces: Seq<Seq<char>>) -> Seq<char>
    decreases pieces.len(),
{
    if pieces.len() == 0 {
        Seq::empty()
    } else if pieces.len() == 1 {
        pieces[0]
    } else {
        join_with_spaces(pieces.drop_last()) + seq![' '] + pieces.last()
    }
}

/// Whether a text has no space in it.
pub open spec fn has_no_space(s: Seq<char>) -> bool {
    forall|i: int| 0 <= i < s.len() ==> s[i] != ' '
}

/// The pieces of a text between its spaces, in order: pieces without a
/// space that, joined with single spaces, give the text back. There is
/// always at least one piece; a piece may be empty.
pub fn split_on_spaces(s: &str) -> (r: Vec<String>)
    ensures
        r@.len() >= 1,
        join_with_spaces(r@.map_values(|p: String| p@)) == s@,
        forall|i: int| 0 <= i < r@.len() ==> has_no_space(#[trigger] r@[i]@),
{
    let chars = chars_of(s);
    let mut done: Vec<String> = Vec::new();
    let mut current = String::new();
    let mut k: usize = 0;
    while k < chars.len()
        invariant
            k <= chars@.len(),
            chars@ == s@,
            join_with_spaces(done@.map_values(|p: String| p@).push(current@)) == chars@.subrange(0, k as int),
            forall|i: int| 0 <= i < done@.len() ==> has_no_space(#[trigger] done@[i]@),
            has_no_space(current@),
        decreases chars@.len() - k,
    {
        let c = chars[k];
        let ghost before = done@.map_values(|p: String| p@).push(current@);
        if c == ' ' {
            let piece = current;
            current = String::new();
            done.push(piece);
            proof {
                let now = done@.map_values(|p: String| p@).push(current@);
                assert(now.drop_last() =~= before);
                assert(now.last() == Seq::<char>::empty());
                assert(chars@.subrange(0, k + 1) =~= chars@.subrange(0, k as int) + seq![' '] + Seq::<char>::empty());
            }
        } else {
            let ghost old_current = current@;
            string_push(&mut current, c);
            proof {
                let now = done@.map_values(|p: String| p@).push(current@);
                assert(now.drop_last() =~= before.drop_last());
                if before.len() == 1 {
                    assert(now[0] == current@);
                    assert(before[0] == old_current);
                    assert(chars@.subrange(0, k + 1) =~= chars@.subrange(0, k as int).push(c));
                } else {
                    assert(join_with_spaces(now) == join_with_spaces(before.drop_last()) + seq![' '] + current@);
                    assert(join_with_spaces(before) == join_with_spaces(before.drop_last()) + seq![' '] + old_current);
                    assert(chars@.subrange(0, k + 1) =~= chars@.subrange(0, k as int).push(c));
                    assert(join_with_spaces(now) =~= join_with_spaces(before).push(c));
                }
            }
        }
        k = k + 1;
    }
    let ghost pieces = done@.map_values(|p: String| p@).push(current@);
    done.push(current);
    proof {
        assert(done@.map_values(|p: String| p@) =~= pieces);
        assert(chars@.subrange(0, k as int) =~= chars@);
    }
    done
}

/// The decimal notation of `n`.
pub fn decimal_string(n: u64) -> (r: String)
    ensures
        r@ == decimal(n as nat),
{
    // the digits, least significant first
    let mut low_first: Vec<char> = Vec::new();
    let mut m = n;
    while m >= 10
        invariant
            decimal(n as nat) == decimal(m as nat) + low_first@.reverse(),
        decreases m,
    {
        let d = m % 10;
        let c = (('0' as u32) + d as u32) as u8 as char;
        assert(c == digit_char(d as nat)) by {
            assert(d < 10);
        }
        let ghost before = low_first@;
        low_first.push(c);
        proof {
            assert(low_first@.reverse() =~= seq![c] + before.reverse());
            assert(decimal(m as nat) == decimal((m / 10) as nat).push(c));
            assert(decimal((m / 10) as nat).push(c) + before.reverse() =~= decimal((m / 10) as nat)
                + (seq![c] + before.reverse()));
        }
        m = m / 10;
    }
    let c = (('0' as u32) + m as u32) as u8 as char;
    let mut r = String::new();
    string_push(&mut r, c);
    assert(r@ == decimal(m as nat));
    let mut k = low_first.len();
    while k > 0
        invariant
            k <= low_first@.len(),
            decimal(n as nat) == r@ + low_first@.subrange(0, k as int).reverse(),
        decreases k,
    {
        k = k - 1;
        let ghost before = r@;
        string_push(&mut r, low_first[k]);
        proof {
            assert(low_first@.subrange(0, k + 1).reverse() =~= seq![low_first@[k as int]]
                + low_first@.subrange(0, k as int).reverse());
            assert(before + low_first@.subrange(0, k + 1).reverse() =~= r@ + low_first@.subrange(
                0,
                k as int,
            ).reverse());
        }
    }
    assert(low_first@.subrange(0, 0).reverse() =~= Seq::<char>::empty());
    assert(r@ + Seq::<char>::empty() =~= r@);
    r
}

/// The lowercase hexadecimal digit for `d`, which is below sixteen.
pub open spec fn hex_digit(d: nat) -> char {
    if d < 10 {
        digit_char(d)
    } else {
        (('a' as u32) + (d - 10)) as char
    }
}

/// The four-digit, zero-padded, lowercase hexadecimal notation of `n`.
pub open spec fn hex4(n: u16) -> Seq<char> {
    seq![
        hex_digit((n / 4096) as nat),
        hex_digit(((n / 256) % 16) as nat),
        hex_digit(((n / 16) % 16) as nat),
        hex_digit((n % 16) as nat),
    ]
}

/// The bytes of a text made of ASCII characters.
pub open spec fn ascii_bytes(s: Seq<char>) -> Seq<u8> {
    s.map_values(|c: char| c as u8)
}

fn hex_digit_char(d: u16) -> (c: char)
    requires
        d < 16,
    ensures
        c == hex_digit(d as nat),
{
    if d < 10 {
        ((('0' as u32) + d as u32) as u8) as char
    } else {
        ((('a' as u32) + (d - 10) as u32) as u8) as char
    }
}

/// The four-digit, zero-padded, lowercase hexadecimal notation of `n`.
pub fn hex4_string(n: u16) -> (r: String)
    ensures
        r@ == hex4(n),
{
    let mut r = String::new();
    string_push(&mut r, hex_digit_char(n / 4096));
    string_push(&mut r, hex_digit_char((n / 256) % 16));
    string_push(&mut r, hex_digit_char((n / 16) % 16));
    string_push(&mut r, hex_digit_char(n % 16));
    assert(r@ =~= hex4(n));
    r
}

/// The ASCII bytes of the four-digit, zero-padded, lowercase hexadecimal
/// notation of `n`.
pub fn hex4_bytes(n: u16) -> (r: Vec<u8>)
    ensures
        r@ == ascii_bytes(hex4(n)),
{
    let mut r: Vec<u8> = Vec::new();
    r.push(hex_digit_char(n / 4096) as u8);
    r.push(hex_digit_char((n / 256) % 16) as u8);
    r.push(hex_digit_char((n / 16) % 16) as u8);
    r.push(hex_digit_char(n % 16) as u8);
    assert(r@ =~= ascii_bytes(hex4(n)));
    r
}

proof fn lemma_hex_digit_injective(a: nat, b: nat)
    requires
        a < 16,
        b < 16,
        hex_digit(a) == hex_digit(b),
    ensures
        a == b,
{
    let ca = hex_digit(a) as u32;
    let cb = hex_digit(b) as u32;
    assert(ca == cb);
}

/// Different numbers have different four-digit hexadecimal notations.
pub proof fn lemma_hex4_injective(a: u16, b: u16)
    requires
        hex4(a) == hex4(b),
    ensures
        a == b,
{
    assert(hex4(a)[0] == hex4(b)[0]);
    assert(hex4(a)[1] == hex4(b)[1]);
    assert(hex4(a)[2] == hex4(b)[2]);
    assert(hex4(a)[3] == hex4(b)[3]);
    lemma_hex_digit_injective((a / 4096) as nat, (b / 4096) as nat);
    lemma_hex_digit_injective(((a / 256) % 16) as nat, ((b / 256) % 16) as nat);
    lemma_hex_digit_injective(((a / 16) % 16) as nat, ((b / 16) % 16) as nat);
    lemma_hex_digit_injective((a % 16) as nat, (b % 16) as nat);
    assert(a == (a / 4096) * 4096 + ((a / 256) % 16) * 256 + ((a / 16) % 16) * 16 + a % 16)
        by (bit_vector);
    assert(b == (b / 4096) * 4096 + ((b / 256) % 16) * 256 + ((b / 16) % 16) * 16 + b % 16)
        by (bit_vector);
}

}
