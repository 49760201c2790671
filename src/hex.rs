use vstd::prelude::*;
use rustc_serialize::hex::ToHex;

verus! {

/// The lowercase hexadecimal digit for a value below sixteen.
pub open spec fn hex_digit(n: u8) -> u8 {
    if n < 10 { (48 + n) as u8 } else { (87 + n) as u8 }
}

/// Lowercase hexadecimal text of a byte string, two digits per byte.
pub open spec fn hex_text(b: Seq<u8>) -> Seq<u8>
    decreases b.len(),
{
    if b.len() == 0 {
        Seq::empty()
    } else {
        seq![hex_digit(b[0] / 16), hex_digit(b[0] % 16)] + hex_text(b.subrange(1, b.len() as int))
    }
}

/// A hexadecimal digit of either case.
pub open spec fn is_hex_char(c: u8) -> bool {
    (48 <= c <= 57) || (65 <= c <= 70) || (97 <= c <= 102)
}

/// Hexadecimal text is two digits per byte, each a digit of the text.
pub proof fn lemma_hex_text_shape(b: Seq<u8>)
    ensures
        hex_text(b).len() == 2 * b.len(),
        forall|i: int| 0 <= i < hex_text(b).len() ==> is_hex_char(#[trigger] hex_text(b)[i]),
    decreases b.len(),
{
    if b.len() > 0 {
        let rest = b.subrange(1, b.len() as int);
        lemma_hex_text_shape(rest);
        let t = hex_text(b);
        assert(t == seq![hex_digit(b[0] / 16), hex_digit(b[0] % 16)] + hex_text(rest));
        assert forall|i: int| 0 <= i < t.len() implies is_hex_char(#[trigger] t[i]) by {
            if i >= 2 {
                assert(t[i] == hex_text(rest)[i - 2]);
            }
        }
    }
}

/// Relies on rustc_serialize's `ToHex::to_hex`: two lowercase digits per byte.
#[verifier::external_body]
pub(crate) fn to_hex_bytes(b: &[u8]) -> (r: Vec<u8>)
    ensures
        r@ == hex_text(b@),
{
    b.to_hex().into_bytes()
}

} // verus!
