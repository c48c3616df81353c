//! Decimal numerals and JSON string literals, as specified character
//! sequences and as verified code that writes them into a `String`.

use vstd::prelude::*;
use crate::natural::{digit_value, digits_value};

verus! {

/// The character of a decimal digit `d < 10`.
pub open spec fn digit_char(d: nat) -> char {
    (d + 48) as char
}

/// The decimal numeral of `n`, without leading zeros (`0` for zero).
pub open spec fn decimal(n: nat) -> Seq<char>
    decreases n,
{
    if n < 10 {
        seq![digit_char(n)]
    } else {
        decimal(n / 10).push(digit_char(n % 10))
    }
}

/// The decimal numeral of an integer, with a `-` in front of a negative one.
pub open spec fn signed_decimal(v: int) -> Seq<char> {
    if v < 0 {
        seq!['-'] + decimal((-v) as nat)
    } else {
        decimal(v as nat)
    }
}

/// How a `bool` is written: `true` or `false`.
pub open spec fn bool_text(b: bool) -> Seq<char> {
    if b {
        seq!['t', 'r', 'u', 'e']
    } else {
        seq!['f', 'a', 'l', 's', 'e']
    }
}

/// The lower-case hexadecimal digit of `d < 16`.
pub open spec fn hex_digit_char(d: nat) -> char {
    if d < 10 {
        (d + 48) as char
    } else {
        (d + 87) as char
    }
}

/// How one character is written inside a JSON string literal: quote,
/// backslash, newline, carriage return and tab get their short escapes,
/// other control characters a `\u00XX` escape, everything else stays.
pub open spec fn json_escape_char(c: char) -> Seq<char> {
    if c == '"' {
        seq!['\\', '"']
    } else if c == '\\' {
        seq!['\\', '\\']
    } else if c == '\n' {
        seq!['\\', 'n']
    } else if c == '\r' {
        seq!['\\', 'r']
    } else if c == '\t' {
        seq!['\\', 't']
    } else if (c as nat) < 32 {
        seq!['\\', 'u', '0', '0', hex_digit_char(c as nat / 16), hex_digit_char(c as nat % 16)]
    } else {
        seq![c]
    }
}

/// The characters of `s`, each escaped for a JSON string literal.
pub open spec fn json_escape(s: Seq<char>) -> Seq<char>
    decreases s.len(),
{
    if s.len() == 0 {
        Seq::empty()
    } else {
        json_escape(s.drop_last()) + json_escape_char(s.last())
    }
}

/// The JSON string literal of `s`: `s` escaped, between double quotes.
pub open spec fn json_quoted(s: Seq<char>) -> Seq<char> {
    seq!['"'] + json_escape(s) + seq!['"']
}

/// The value of a hexadecimal digit character, either case.
pub open spec fn hex_value(c: char) -> Option<nat> {
    if '0' <= c && c <= '9' {
        Some((c as nat - 48) as nat)
    } else if 'a' <= c && c <= 'f' {
        Some((c as nat - 87) as nat)
    } else if 'A' <= c && c <= 'F' {
        Some((c as nat - 55) as nat)
    } else {
        None
    }
}

/// The value of four hexadecimal digits.
pub open spec fn hex4_value(t: Seq<char>) -> Option<nat> {
    if t.len() == 4 && hex_value(t[0]) is Some && hex_value(t[1]) is Some && hex_value(t[2]) is Some
        && hex_value(t[3]) is Some {
        Some(
            hex_value(t[0])->0 * 4096 + hex_value(t[1])->0 * 256 + hex_value(t[2])->0 * 16
                + hex_value(t[3])->0,
        )
    } else {
        None
    }
}

/// The character a one-letter JSON escape `\e` stands for, if `e` is one.
pub open spec fn json_short_escape(e: char) -> Option<char> {
    if e == '"' {
        Some('"')
    } else if e == '\\' {
        Some('\\')
    } else if e == '/' {
        Some('/')
    } else if e == 'b' {
        Some('\u{8}')
    } else if e == 'f' {
        Some('\u{c}')
    } else if e == 'n' {
        Some('\n')
    } else if e == 'r' {
        Some('\r')
    } else if e == 't' {
        Some('\t')
    } else {
        None
    }
}

/// `Some(seq![c] + r)` when `rest` is `Some(r)`.
pub open spec fn prepend_decoded(c: char, rest: Option<Seq<char>>) -> Option<Seq<char>> {
    match rest {
        Some(r) => Some(seq![c] + r),
        None => None,
    }
}

/// Decodes the inside of a JSON string literal: escapes (short ones,
/// `\uXXXX`, and surrogate pairs of `\uXXXX` escapes) give their characters,
/// other characters stand for themselves, except a raw `"`, `\\` or control
/// character, which make the text invalid (`None`).
pub open spec fn json_unescape(t: Seq<char>) -> Option<Seq<char>>
    decreases t.len(),
{
    if t.len() == 0 {
        Some(Seq::empty())
    } else if t[0] == '\\' {
        if t.len() < 2 {
            None
        } else if json_short_escape(t[1]) is Some {
            prepend_decoded(json_short_escape(t[1])->0, json_unescape(t.subrange(2, t.len() as int)))
        } else if t[1] == 'u' && t.len() >= 6 && hex4_value(t.subrange(2, 6)) is Some {
            let v = hex4_value(t.subrange(2, 6))->0;
            if 0xD800 <= v < 0xDC00 {
                if t.len() >= 12 && t[6] == '\\' && t[7] == 'u' && hex4_value(t.subrange(8, 12)) is Some
                    && 0xDC00 <= hex4_value(t.subrange(8, 12))->0 < 0xE000 {
                    let w = hex4_value(t.subrange(8, 12))->0;
                    prepend_decoded(
                        (0x10000 + (v - 0xD800) * 1024 + (w - 0xDC00)) as char,
                        json_unescape(t.subrange(12, t.len() as int)),
                    )
                } else {
                    None
                }
            } else if 0xDC00 <= v < 0xE000 {
                None
            } else {
                prepend_decoded(v as char, json_unescape(t.subrange(6, t.len() as int)))
            }
        } else {
            None
        }
    } else if t[0] == '"' || (t[0] as nat) < 32 {
        None
    } else {
        prepend_decoded(t[0], json_unescape(t.drop_first()))
    }
}

/// Decodes a JSON string literal: the text between the enclosing double
/// quotes, unescaped; `None` when it is not a string literal.
pub open spec fn json_decode_string(t: Seq<char>) -> Option<Seq<char>> {
    if t.len() >= 2 && t[0] == '"' && t.last() == '"' {
        json_unescape(t.subrange(1, t.len() - 1))
    } else {
        None
    }
}

proof fn lemma_hex_digit_value(d: nat)
    requires
        d < 16,
    ensures
        hex_value(hex_digit_char(d)) == Some(d),
{
}

/// Escaping distributes over concatenation.
proof fn lemma_json_escape_concat(a: Seq<char>, b: Seq<char>)
    ensures
        json_escape(a + b) == json_escape(a) + json_escape(b),
    decreases b.len(),
{
    if b.len() == 0 {
        assert(a + b =~= a);
        assert(json_escape(a) + json_escape(b) =~= json_escape(a));
    } else {
        lemma_json_escape_concat(a, b.drop_last());
        assert((a + b).drop_last() =~= a + b.drop_last());
        assert((a + b).last() == b.last());
        assert(json_escape(a + b) =~= json_escape(a) + json_escape(b));
    }
}

/// Decoding one escaped character gives that character back.
proof fn lemma_json_escape_char_decodes(c: char, rest: Seq<char>)
    ensures
        json_unescape(json_escape_char(c) + rest) == prepend_decoded(c, json_unescape(rest)),
{
    let t = json_escape_char(c) + rest;
    if c == '"' || c == '\\' || c == '\n' || c == '\r' || c == '\t' {
        assert(t.subrange(2, t.len() as int) =~= rest);
    } else if (c as nat) < 32 {
        let code = c as nat;
        lemma_hex_digit_value(code / 16);
        lemma_hex_digit_value(code % 16);
        assert(t.subrange(2, 6) =~= seq!['0', '0', hex_digit_char(code / 16), hex_digit_char(code % 16)]);
        assert(hex4_value(t.subrange(2, 6)) == Some(code));
        assert(t.subrange(6, t.len() as int) =~= rest);
        assert((code as char) == c);
    } else {
        assert(t.drop_first() =~= rest);
    }
}

/// Decoding the escaped text gives the text back.
proof fn lemma_json_unescape_escape(s: Seq<char>)
    ensures
        json_unescape(json_escape(s)) == Some(s),
    decreases s.len(),
{
    if s.len() > 0 {
        let rest = s.drop_first();
        lemma_json_unescape_escape(rest);
        lemma_json_escape_concat(seq![s[0]], rest);
        assert(seq![s[0]] + rest =~= s);
        let one = seq![s[0]];
        assert(one.drop_last() =~= Seq::<char>::empty());
        assert(one.last() == s[0]);
        assert(json_escape(Seq::<char>::empty()) =~= Seq::<char>::empty());
        assert(json_escape(one) =~= json_escape_char(s[0]));
        lemma_json_escape_char_decodes(s[0], json_escape(rest));
    }
}

/// A JSON string literal written by `json_str` decodes back to the text it
/// was written from.
pub proof fn law_json_quoted_decodes(s: Seq<char>)
    ensures
        json_decode_string(json_quoted(s)) == Some(s),
{
    let q = json_quoted(s);
    lemma_json_unescape_escape(s);
    assert(q.subrange(1, q.len() - 1) =~= json_escape(s));
}

/// Every character of `d` is a decimal digit.
pub open spec fn all_decimal_digits(d: Seq<char>) -> bool {
    forall|i: int| 0 <= i < d.len() ==> '0' <= #[trigger] d[i] && d[i] <= '9'
}

/// The decimal numeral of `n` is a non-empty run of decimal digits that
/// reads back, digit by digit, as `n`.
pub proof fn law_decimal_reads_back(n: nat)
    ensures
        decimal(n).len() > 0,
        all_decimal_digits(decimal(n)),
        digits_value(decimal(n), 10) == n,
    decreases n,
{
    let d = decimal(n);
    if n < 10 {
        assert(d.drop_last() =~= Seq::<char>::empty());
        assert(digit_value(digit_char(n)) == n);
        assert('0' <= digit_char(n) && digit_char(n) <= '9');
        assert(d[0] == digit_char(n));
        assert(d.last() != '_');
        assert(digits_value(d, 10) == digits_value(d.drop_last(), 10) * 10 + digit_value(d.last()));
        assert(digits_value(Seq::<char>::empty(), 10) == 0);
        assert forall|i: int| 0 <= i < d.len() implies '0' <= #[trigger] d[i] && d[i] <= '9' by {
            assert(i == 0);
        }
    } else {
        law_decimal_reads_back(n / 10);
        let p = decimal(n / 10);
        assert(d.drop_last() =~= p);
        assert(d.last() == digit_char(n % 10));
        assert(digit_value(digit_char(n % 10)) == n % 10);
        assert(d.last() != '_');
        assert(digits_value(d, 10) == digits_value(p, 10) * 10 + n % 10);
        assert(n == (n / 10) * 10 + n % 10);
        assert('0' <= digit_char(n % 10) && digit_char(n % 10) <= '9');
        assert forall|i: int| 0 <= i < d.len() implies '0' <= #[trigger] d[i] && d[i] <= '9' by {
            if i < p.len() {
                assert(d[i] == p[i]);
            } else {
                assert(d[i] == digit_char(n % 10));
            }
        }
    }
}

/// The signed numeral of `v` reads back as `v`: a `-` and the digits of
/// `-v` when `v` is negative, the digits of `v` otherwise.
pub proof fn law_signed_decimal_reads_back(v: int)
    ensures
        v < 0 ==> signed_decimal(v).len() > 1 && signed_decimal(v)[0] == '-' && all_decimal_digits(
            signed_decimal(v).drop_first(),
        ) && digits_value(signed_decimal(v).drop_first(), 10) == -v,
        v >= 0 ==> signed_decimal(v).len() > 0 && all_decimal_digits(signed_decimal(v))
            && digits_value(signed_decimal(v), 10) == v,
{
    if v < 0 {
        law_decimal_reads_back((-v) as nat);
        assert(signed_decimal(v).drop_first() =~= decimal((-v) as nat));
    } else {
        law_decimal_reads_back(v as nat);
    }
}

/// A character that JSON escaping leaves as it is.
pub open spec fn json_plain(c: char) -> bool {
    c != '"' && c != '\\' && (c as nat) >= 32
}

/// Escaping leaves a text of plain characters unchanged.
pub proof fn lemma_json_escape_plain(s: Seq<char>)
    requires
        forall|i: int| 0 <= i < s.len() ==> json_plain(#[trigger] s[i]),
    ensures
        json_escape(s) == s,
    decreases s.len(),
{
    if s.len() > 0 {
        lemma_json_escape_plain(s.drop_last());
        assert(json_plain(s[s.len() - 1]));
        assert(s.drop_last().push(s.last()) =~= s);
        assert(json_escape(s) =~= s.drop_last() + seq![s.last()]);
    }
}

/// `str == str` of std: compares the characters.
#[verifier::external_body]
pub(crate) fn str_eq(a: &str, b: &str) -> (r: bool)
    ensures
        r == (a@ == b@),
{
    a == b
}

/// `String::push` of std: appends one character.
#[verifier::external_body]
pub(crate) fn push_char(s: &mut String, c: char)
    ensures
        final(s)@ == old(s)@.push(c),
{
    s.push(c);
}

/// Appends the decimal numeral of `n`.
pub fn push_decimal(out: &mut String, n: u128)
    ensures
        final(out)@ == old(out)@ + decimal(n as nat),
    decreases n,
{
    let ghost start = out@;
    if n >= 10 {
        push_decimal(out, n / 10);
    }
    let d: u8 = (n % 10) as u8;
    push_char(out, (d + 48u8) as char);
    assert(out@ =~= start + decimal(n as nat));
}

/// Appends the decimal numeral of `v`, with a `-` in front when negative.
pub fn push_signed_decimal(out: &mut String, v: i64)
    ensures
        final(out)@ == old(out)@ + signed_decimal(v as int),
{
    let ghost start = out@;
    if v < 0 {
        push_char(out, '-');
        let magnitude: u128 = (0i128 - v as i128) as u128;
        push_decimal(out, magnitude);
        assert(out@ =~= start + signed_decimal(v as int));
    } else {
        push_decimal(out, v as u128);
    }
}

/// Appends `true` or `false`.
pub fn push_bool(out: &mut String, b: bool)
    ensures
        final(out)@ == old(out)@ + bool_text(b),
{
    let ghost start = out@;
    if b {
        push_char(out, 't');
        push_char(out, 'r');
        push_char(out, 'u');
        push_char(out, 'e');
    } else {
        push_char(out, 'f');
        push_char(out, 'a');
        push_char(out, 'l');
        push_char(out, 's');
        push_char(out, 'e');
    }
    assert(out@ =~= start + bool_text(b));
}

/// Appends how `c` is written inside a JSON string literal.
fn push_json_escaped(out: &mut String, c: char)
    ensures
        final(out)@ == old(out)@ + json_escape_char(c),
{
    let ghost start = out@;
    if c == '"' {
        push_char(out, '\\');
        push_char(out, '"');
    } else if c == '\\' {
        push_char(out, '\\');
        push_char(out, '\\');
    } else if c == '\n' {
        push_char(out, '\\');
        push_char(out, 'n');
    } else if c == '\r' {
        push_char(out, '\\');
        push_char(out, 'r');
    } else if c == '\t' {
        push_char(out, '\\');
        push_char(out, 't');
    } else if (c as u32) < 32 {
        let code: u32 = c as u32;
        push_char(out, '\\');
        push_char(out, 'u');
        push_char(out, '0');
        push_char(out, '0');
        push_char(out, hex_digit(code / 16));
        push_char(out, hex_digit(code % 16));
    } else {
        push_char(out, c);
    }
    assert(out@ =~= start + json_escape_char(c));
}

/// The lower-case hexadecimal digit of `d`.
fn hex_digit(d: u32) -> (r: char)
    requires
        d < 16,
    ensures
        r == hex_digit_char(d as nat),
{
    if d < 10 {
        ((d as u8) + 48u8) as char
    } else {
        ((d as u8) + 87u8) as char
    }
}

/// The JSON string literal of `s`.
pub fn json_str(s: &str) -> (r: String)
    ensures
        r@ == json_quoted(s@),
        json_decode_string(r@) == Some(s@),
{
    proof {
        law_json_quoted_decodes(s@);
    }
    let mut out = String::new();
    push_char(&mut out, '"');
    for c in it: s.chars()
        invariant
            it.seq() == s@,
            out@ == seq!['"'] + json_escape(s@.take(it.index() as int)),
    {
        let ghost before = out@;
        push_json_escaped(&mut out, c);
        proof {
            let k = it.index() as int;
            assert(s@.take(k + 1).drop_last() =~= s@.take(k));
            assert(out@ =~= seq!['"'] + json_escape(s@.take(k + 1)));
        }
    }
    push_char(&mut out, '"');
    assert(s@.take(s@.len() as int) =~= s@);
    out
}

} // verus!
