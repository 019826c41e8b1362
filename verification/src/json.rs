//! A small JSON writer used for outbox payloads.  Output is plain ASCII:
//! string contents are escaped, with characters outside the printable ASCII
//! range written as `\u` escapes (using a surrogate pair above the basic
//! multilingual plane), so a payload is a valid JSON document whatever the
//! entity's text fields hold.

use vstd::prelude::*;

verus! {

/// The characters denoted by a sequence of ASCII bytes, one character per
/// byte.
pub open spec fn ascii_chars(b: Seq<u8>) -> Seq<char> {
    b.map_values(|x: u8| x as char)
}

/// Every byte is below 0x80.
pub open spec fn all_ascii(b: Seq<u8>) -> bool {
    forall|i: int| 0 <= i < b.len() ==> b[i] < 0x80
}

pub proof fn lemma_all_ascii_concat(a: Seq<u8>, b: Seq<u8>)
    requires
        all_ascii(a),
        all_ascii(b),
    ensures
        all_ascii(a + b),
{
    assert forall|i: int| 0 <= i < (a + b).len() implies (a + b)[i] < 0x80 by {
        if i < a.len() {
            assert((a + b)[i] == a[i]);
        } else {
            assert((a + b)[i] == b[i - a.len()]);
        }
    }
}

// ---------------------------------------------------------------------------
// Decimal rendering of unsigned and signed integers.
// ---------------------------------------------------------------------------

/// The ASCII digit for `n % 10`.
pub open spec fn dec_digit(n: u128) -> u8 {
    (0x30 + n % 10) as u8
}

/// The decimal digits of `n`, most significant first.
pub open spec fn dec_bytes(n: u128) -> Seq<u8>
    decreases n,
{
    if n < 10 {
        seq![dec_digit(n)]
    } else {
        dec_bytes(n / 10).push(dec_digit(n))
    }
}

/// The decimal rendering of a signed value: a minus sign before the digits
/// of the magnitude when the value is negative.
pub open spec fn dec_bytes_i64(n: int) -> Seq<u8> {
    if n < 0 {
        seq![0x2du8] + dec_bytes((-n) as u128)
    } else {
        dec_bytes(n as u128)
    }
}

pub proof fn lemma_dec_bytes_ascii(n: u128)
    ensures
        all_ascii(dec_bytes(n)),
    decreases n,
{
    if n >= 10 {
        lemma_dec_bytes_ascii(n / 10);
    }
}

pub proof fn lemma_dec_bytes_i64_ascii(n: int)
    requires
        -0x8000_0000_0000_0000 <= n < 0x8000_0000_0000_0000,
    ensures
        all_ascii(dec_bytes_i64(n)),
{
    if n < 0 {
        lemma_dec_bytes_ascii((-n) as u128);
        lemma_all_ascii_concat(seq![0x2du8], dec_bytes((-n) as u128));
    } else {
        lemma_dec_bytes_ascii(n as u128);
    }
}

/// Appends the decimal digits of `n`.
fn push_dec(out: &mut Vec<u8>, n: u128)
    ensures
        final(out)@ == old(out)@ + dec_bytes(n),
    decreases n,
{
    if n >= 10 {
        push_dec(out, n / 10);
    }
    out.push((0x30 + (n % 10) as u8) as u8);
    proof {
        assert(final(out)@ =~= old(out)@ + dec_bytes(n));
    }
}

/// Appends the decimal rendering of a signed value.
fn push_dec_i64(out: &mut Vec<u8>, n: i64)
    ensures
        final(out)@ == old(out)@ + dec_bytes_i64(n as int),
{
    if n < 0 {
        out.push(0x2du8);
        let m: u128 = if n == i64::MIN {
            0x8000_0000_0000_0000u128
        } else {
            (-n) as u128
        };
        assert(m == (-(n as int)) as u128);
        push_dec(out, m);
        assert(final(out)@ =~= old(out)@ + dec_bytes_i64(n as int));
    } else {
        push_dec(out, n as u128);
    }
}

// ---------------------------------------------------------------------------
// JSON string escaping.
// ---------------------------------------------------------------------------

/// The ASCII hexadecimal digit (lower case) for `n < 16`.
pub open spec fn hex_digit(n: u32) -> u8 {
    if n < 10 {
        (0x30 + n) as u8
    } else {
        (0x57 + n) as u8
    }
}

/// A `\uXXXX` escape for a code unit `n <= 0xFFFF`.
pub open spec fn unicode_escape(n: u32) -> Seq<u8> {
    seq![
        0x5cu8,
        0x75u8,
        hex_digit((n / 0x1000) % 16),
        hex_digit((n / 0x100) % 16),
        hex_digit((n / 16) % 16),
        hex_digit(n % 16),
    ]
}

/// The high half of the UTF-16 surrogate pair for a code point above 0xFFFF.
pub open spec fn hi_surrogate(u: u32) -> u32 {
    (0xD800 + (u - 0x10000) / 0x400) as u32
}

/// The low half of the UTF-16 surrogate pair for a code point above 0xFFFF.
pub open spec fn lo_surrogate(u: u32) -> u32 {
    (0xDC00 + (u - 0x10000) % 0x400) as u32
}

/// How one character is written inside a JSON string literal: printable
/// ASCII stands for itself, quote and backslash are backslash-escaped, and
/// everything else becomes `\u` escapes (a surrogate pair beyond 0xFFFF).
pub open spec fn escape_char(c: char) -> Seq<u8> {
    let u = c as u32;
    if c == '"' {
        seq![0x5cu8, 0x22u8]
    } else if c == '\\' {
        seq![0x5cu8, 0x5cu8]
    } else if 0x20 <= u && u < 0x80 {
        seq![u as u8]
    } else if u <= 0xFFFF {
        unicode_escape(u)
    } else {
        unicode_escape(hi_surrogate(u)) + unicode_escape(lo_surrogate(u))
    }
}

/// The escaped form of a whole character sequence.
pub open spec fn escape_str(s: Seq<char>) -> Seq<u8>
    decreases s.len(),
{
    if s.len() == 0 {
        Seq::empty()
    } else {
        escape_str(s.drop_last()) + escape_char(s.last())
    }
}

/// A JSON string literal: a quote, the escaped contents, a quote.
pub open spec fn json_string(s: Seq<char>) -> Seq<u8> {
    seq![0x22u8] + escape_str(s) + seq![0x22u8]
}

/// The four bytes of `null`.
pub open spec fn json_null() -> Seq<u8> {
    seq![0x6eu8, 0x75u8, 0x6cu8, 0x6cu8]
}

proof fn lemma_unicode_escape_ascii(n: u32)
    ensures
        all_ascii(unicode_escape(n)),
{
}

proof fn lemma_escape_char_ascii(c: char)
    ensures
        all_ascii(escape_char(c)),
{
    let u = c as u32;
    if c == '"' || c == '\\' || (0x20 <= u && u < 0x80) {
    } else if u <= 0xFFFF {
        lemma_unicode_escape_ascii(u);
    } else {
        lemma_all_ascii_concat(unicode_escape(hi_surrogate(u)), unicode_escape(lo_surrogate(u)));
    }
}

proof fn lemma_escape_str_ascii(s: Seq<char>)
    ensures
        all_ascii(escape_str(s)),
    decreases s.len(),
{
    if s.len() > 0 {
        lemma_escape_char_ascii(s.last());
        lemma_escape_str_ascii(s.drop_last());
        lemma_all_ascii_concat(escape_str(s.drop_last()), escape_char(s.last()));
    }
}

pub proof fn lemma_json_string_ascii(s: Seq<char>)
    ensures
        all_ascii(json_string(s)),
{
    lemma_escape_str_ascii(s);
    lemma_all_ascii_concat(seq![0x22u8], escape_str(s));
    lemma_all_ascii_concat(seq![0x22u8] + escape_str(s), seq![0x22u8]);
    assert(json_string(s) =~= (seq![0x22u8] + escape_str(s)) + seq![0x22u8]);
}

fn push_unicode_escape(out: &mut Vec<u8>, n: u32)
    requires
        n <= 0xFFFF,
    ensures
        final(out)@ == old(out)@ + unicode_escape(n),
{
    out.push(0x5cu8);
    out.push(0x75u8);
    out.push(hex_digit_byte((n / 0x1000) % 16));
    out.push(hex_digit_byte((n / 0x100) % 16));
    out.push(hex_digit_byte((n / 16) % 16));
    out.push(hex_digit_byte(n % 16));
    assert(final(out)@ =~= old(out)@ + unicode_escape(n));
}

fn hex_digit_byte(n: u32) -> (r: u8)
    requires
        n < 16,
    ensures
        r == hex_digit(n),
{
    if n < 10 {
        0x30 + (n as u8)
    } else {
        0x57 + (n as u8)
    }
}

fn push_escaped_char(out: &mut Vec<u8>, c: char)
    ensures
        final(out)@ == old(out)@ + escape_char(c),
{
    let u = c as u32;
    if c == '"' {
        out.push(0x5cu8);
        out.push(0x22u8);
        assert(final(out)@ =~= old(out)@ + escape_char(c));
    } else if c == '\\' {
        out.push(0x5cu8);
        out.push(0x5cu8);
        assert(final(out)@ =~= old(out)@ + escape_char(c));
    } else if 0x20 <= u && u < 0x80 {
        out.push(u as u8);
        assert(final(out)@ =~= old(out)@ + escape_char(c));
    } else if u <= 0xFFFF {
        push_unicode_escape(out, u);
    } else {
        let hi: u32 = 0xD800 + (u - 0x10000) / 0x400;
        let lo: u32 = 0xDC00 + (u - 0x10000) % 0x400;
        assert(hi == hi_surrogate(u) && lo == lo_surrogate(u));
        push_unicode_escape(out, hi);
        push_unicode_escape(out, lo);
        assert(final(out)@ =~= old(out)@ + escape_char(c));
    }
}

/// Appends the escaped contents of `s` (without surrounding quotes).
fn push_escaped(out: &mut Vec<u8>, s: &str)
    ensures
        final(out)@ == old(out)@ + escape_str(s@),
{
    let n = s.unicode_len();
    let mut i: usize = 0;
    while i < n
        invariant
            i <= n,
            n == s@.len(),
            out@ == old(out)@ + escape_str(s@.take(i as int)),
        decreases n - i,
    {
        let c = s.get_char(i);
        push_escaped_char(out, c);
        proof {
            let t = s@.take(i + 1 as int);
            assert(t.drop_last() =~= s@.take(i as int));
            assert(t.last() == s@[i as int]);
            assert(out@ =~= old(out)@ + escape_str(t));
        }
        i += 1;
    }
    proof {
        assert(s@.take(n as int) =~= s@);
    }
}

/// Appends a JSON string literal holding `s`.
pub fn push_json_string(out: &mut Vec<u8>, s: &str)
    ensures
        final(out)@ == old(out)@ + json_string(s@),
{
    out.push(0x22u8);
    push_escaped(out, s);
    out.push(0x22u8);
    assert(final(out)@ =~= old(out)@ + json_string(s@));
}

/// Appends the four bytes of `null`.
pub fn push_json_null(out: &mut Vec<u8>)
    ensures
        final(out)@ == old(out)@ + json_null(),
{
    out.push(0x6eu8);
    out.push(0x75u8);
    out.push(0x6cu8);
    out.push(0x6cu8);
    assert(final(out)@ =~= old(out)@ + json_null());
}

/// Appends the decimal digits of `n` (a JSON number).
pub fn push_json_u128(out: &mut Vec<u8>, n: u128)
    ensures
        final(out)@ == old(out)@ + dec_bytes(n),
{
    push_dec(out, n);
}

/// Appends the decimal rendering of `n` (a JSON number).
pub fn push_json_i64(out: &mut Vec<u8>, n: i64)
    ensures
        final(out)@ == old(out)@ + dec_bytes_i64(n as int),
{
    push_dec_i64(out, n);
}

// ---------------------------------------------------------------------------
// From ASCII bytes to an owned string.
// ---------------------------------------------------------------------------

/// Relies on `String::from_utf8`: a vector of bytes below 0x80 is plain
/// ASCII, hence valid UTF-8, and the returned string's characters are
/// exactly those bytes, one character per byte.
#[verifier::external_body]
pub(crate) fn ascii_to_string(v: Vec<u8>) -> (r: String)
    requires
        all_ascii(v@),
    ensures
        r@ == ascii_chars(v@),
{
    match String::from_utf8(v) {
        Ok(s) => s,
        Err(_) => String::new(),
    }
}

} // verus!
