use vstd::prelude::*;
use crate::bytes::{append_bytes, frames_view};
use vstd::string::StringSliceAdditionalSpecFns;
use crypto::mac::Mac;

verus! {

/// Length in bytes of an HMAC-SHA256 code.
pub const MAC_LEN: usize = 32;

/// The HMAC-SHA256 code of `data` under `key`.
pub uninterp spec fn hmac_sha256(key: Seq<u8>, data: Seq<u8>) -> Seq<u8>;

/// The concatenation of a sequence of byte strings, in order.
pub open spec fn concat(parts: Seq<Seq<u8>>) -> Seq<u8>
    decreases parts.len(),
{
    if parts.len() == 0 {
        Seq::empty()
    } else {
        concat(parts.drop_last()) + parts.last()
    }
}

/// Relies on rust-crypto's `Hmac::new` over `Sha256`, `Mac::input` and
/// `Mac::result`: the code depends on key and data alone, and is as long as
/// the SHA-256 output, 32 bytes.
#[verifier::external_body]
fn hmac_sha256_code(key: &[u8], data: &[u8]) -> (r: Vec<u8>)
    ensures
        r@ == hmac_sha256(key@, data@),
        r@.len() == MAC_LEN,
{
    let mut mac = crypto::hmac::Hmac::new(crypto::sha2::Sha256::new(), key);
    mac.input(data);
    mac.result().code().to_vec()
}

/// Relies on rust-crypto's `util::fixed_time_eq`: equality of two byte
/// strings, in time that does not depend on where they differ. It reads the
/// first byte of each without a check, so two empty strings are left out.
#[verifier::external_body]
pub(crate) fn fixed_time_eq(a: &[u8], b: &[u8]) -> (r: bool)
    requires
        a@.len() > 0 || b@.len() > 0,
    ensures
        r == (a@ == b@),
{
    crypto::util::fixed_time_eq(a, b)
}

/// The HMAC-SHA256 code under `key` of the parts taken in order, as one stream.
pub fn sign_msg_parts(key: &str, parts: &[Vec<u8>]) -> (r: Vec<u8>)
    ensures
        r@ == hmac_sha256(key.spec_bytes(), concat(frames_view(parts@))),
        r@.len() == MAC_LEN,
{
    let ghost views = frames_view(parts@);
    let mut data: Vec<u8> = Vec::new();
    let mut i: usize = 0;
    while i < parts.len()
        invariant
            i <= parts@.len(),
            views == frames_view(parts@),
            data@ == concat(views.subrange(0, i as int)),
        decreases parts@.len() - i,
    {
        append_bytes(&mut data, parts[i].as_slice());
        i = i + 1;
        assert(views.subrange(0, i as int).drop_last() == views.subrange(0, i - 1));
    }
    assert(views.subrange(0, parts@.len() as int) == views);
    hmac_sha256_code(key.as_bytes(), data.as_slice())
}

} // verus!
