use vstd::prelude::*;
use vstd::utf8::encode_utf8;
use crate::hex::hex_digit;

verus! {

/// Whether a byte string is one well-formed JSON text.
pub uninterp spec fn json_valid(text: Seq<u8>) -> bool;

/// The string value under `key` of the JSON object that `text` holds; none
/// where `text` is no JSON object, lacks the key, or holds no string there.
pub uninterp spec fn json_string_field(text: Seq<u8>, key: Seq<char>) -> Option<Seq<char>>;

/// The JSON text of one character inside a string: quote, backslash and the
/// control characters are escaped, short forms where JSON has one and
/// `\u00XX` with lowercase digits otherwise; any other character is its UTF-8.
pub open spec fn escaped_char(c: char) -> Seq<u8> {
    if c == '"' {
        seq![92u8, 34u8]
    } else if c == '\\' {
        seq![92u8, 92u8]
    } else if c == '\u{8}' {
        seq![92u8, 98u8]
    } else if c == '\t' {
        seq![92u8, 116u8]
    } else if c == '\n' {
        seq![92u8, 110u8]
    } else if c == '\u{c}' {
        seq![92u8, 102u8]
    } else if c == '\r' {
        seq![92u8, 114u8]
    } else if (c as u32) < 32 {
        seq![92u8, 117u8, 48u8, 48u8, hex_digit((c as u32 / 16) as u8), hex_digit((c as u32 % 16) as u8)]
    } else {
        encode_utf8(seq![c])
    }
}

/// The escaped characters of a string, in order.
pub open spec fn escaped(s: Seq<char>) -> Seq<u8>
    decreases s.len(),
{
    if s.len() == 0 {
        Seq::empty()
    } else {
        escaped(s.drop_last()) + escaped_char(s.last())
    }
}

/// The JSON text of a string value: the escaped characters between quotes.
pub open spec fn json_string_text(s: Seq<char>) -> Seq<u8> {
    seq![34u8] + escaped(s) + seq![34u8]
}

/// The ASCII digit for a value below ten.
pub open spec fn digit_byte(n: nat) -> u8 {
    (48 + n % 10) as u8
}

/// Decimal digits of a natural number, most significant first, no leading zero.
pub open spec fn digits(n: nat) -> Seq<u8>
    decreases n,
{
    if n < 10 {
        seq![digit_byte(n)]
    } else {
        digits(n / 10).push(digit_byte(n % 10))
    }
}

/// Decimal text of an integer, with a leading minus sign when negative.
pub open spec fn decimal_text(n: int) -> Seq<u8> {
    if n < 0 {
        seq![45u8] + digits((-n) as nat)
    } else {
        digits(n as nat)
    }
}

/// Relies on serde_json's `from_slice` into a `Value`: it succeeds exactly on
/// well-formed JSON text.
#[verifier::external_body]
pub(crate) fn json_is_valid(text: &[u8]) -> (r: bool)
    ensures
        r == json_valid(text@),
{
    serde_json::from_slice::<serde_json::Value>(text).is_ok()
}

/// Relies on serde_json's `from_slice` into a `Value` and `Value::get`: the
/// string under a key of a JSON object.
#[verifier::external_body]
pub(crate) fn json_str_field(text: &[u8], key: &str) -> (r: Option<String>)
    ensures
        match r {
            Some(s) => json_string_field(text@, key@) == Some(s@),
            None => json_string_field(text@, key@).is_none(),
        },
{
    match serde_json::from_slice::<serde_json::Value>(text) {
        Ok(v) => match v.get(key) {
            Some(serde_json::Value::String(s)) => Some(s.clone()),
            _ => None,
        },
        Err(_) => None,
    }
}

/// Relies on serde_json's `to_vec` on a `str` (`format_escaped_str` and its
/// `ESCAPE` table): the string between quotes, with quote, backslash and
/// control characters escaped and all else written as it is. Writing a string
/// into a vector does not fail.
#[verifier::external_body]
pub(crate) fn json_quote(s: &str) -> (r: Vec<u8>)
    ensures
        r@ == json_string_text(s@),
{
    match serde_json::to_vec(s) {
        Ok(v) => v,
        Err(_) => Vec::new(),
    }
}

fn push_digits(out: &mut Vec<u8>, n: u128)
    ensures
        final(out)@ == old(out)@ + digits(n as nat),
    decreases n,
{
    if n >= 10 {
        push_digits(out, n / 10);
    }
    out.push(48 + (n % 10) as u8);
    if n >= 10 {
        assert(final(out)@ =~= old(out)@ + digits((n / 10) as nat).push(digit_byte((n % 10) as nat)));
    } else {
        assert(final(out)@ =~= old(out)@ + seq![digit_byte(n as nat)]);
    }
}

/// The decimal text of an integer.
pub fn decimal_bytes(n: i128) -> (r: Vec<u8>)
    ensures
        r@ == decimal_text(n as int),
{
    let mut out: Vec<u8> = Vec::new();
    if n < 0 {
        out.push(45);
        let m: u128 = ((-(n + 1)) as u128) + 1;
        push_digits(&mut out, m);
        assert(out@ =~= seq![45u8] + digits((-n) as nat));
    } else {
        push_digits(&mut out, n as u128);
        assert(out@ =~= digits(n as nat));
    }
    out
}

} // verus!
