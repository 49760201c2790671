use vstd::prelude::*;
use vstd::string::StringSliceAdditionalSpecFns;
use crate::auth::{concat, fixed_time_eq, hmac_sha256, sign_msg_parts, MAC_LEN};
use crate::bytes::{bytes_equal, copy_bytes, copy_frames, frames_view};
use crate::hex::{hex_text, is_hex_char, lemma_hex_text_shape, to_hex_bytes};
use crate::json::{json_is_valid, json_valid};
use crate::message::{
    header_text, parent_text, parsed_header, Message, MessageModel, MsgHeader,
};

verus! {

/// Why a sequence of frames is not accepted as a message.
#[derive(Debug, Clone, Copy, PartialEq, Eq, Structural)]
pub enum CodecError {
    /// No delimiter, too few frames, bad signature text, or bad JSON.
    Malformed,
    /// The signature does not match the signed frames under the key.
    Authentication,
}

/// The frame that separates routing identities from the message body.
pub open spec fn delimiter() -> Seq<u8> {
    "<IDS|MSG>".spec_bytes()
}

/// Index of the first delimiter frame at or after `i`; the frame count if none.
pub open spec fn delimiter_index(f: Seq<Seq<u8>>, i: int) -> int
    decreases f.len() - i,
{
    if i < 0 || i >= f.len() {
        f.len() as int
    } else if f[i] == delimiter() {
        i
    } else {
        delimiter_index(f, i + 1)
    }
}

/// The bytes that the signature covers: header, parent header, metadata and
/// content frames, concatenated.
pub open spec fn signed_bytes(header: Seq<u8>, parent: Seq<u8>, metadata: Seq<u8>, content: Seq<u8>) -> Seq<u8> {
    concat(seq![header, parent, metadata, content])
}

/// A signature frame has the shape of one: as many hexadecimal digits, of
/// either case, as a code has nibbles, and nothing else.
pub open spec fn signature_shaped(sig: Seq<u8>) -> bool {
    &&& sig.len() == 2 * MAC_LEN
    &&& forall|i: int| 0 <= i < sig.len() ==> is_hex_char(#[trigger] sig[i])
}

/// What decoding a sequence of frames under `key` yields. The signature frame
/// must be the lowercase hexadecimal text of the code, byte for byte.
pub open spec fn decoded(f: Seq<Seq<u8>>, key: Seq<u8>) -> Result<MessageModel, CodecError> {
    let d = delimiter_index(f, 0);
    if d + 6 > f.len() {
        Err(CodecError::Malformed)
    } else {
        if !signature_shaped(f[d + 1]) {
            Err(CodecError::Malformed)
        } else if f[d + 1] != hex_text(hmac_sha256(key, signed_bytes(f[d + 2], f[d + 3], f[d + 4], f[d + 5]))) {
            Err(CodecError::Authentication)
        } else {
            match parsed_header(f[d + 2]) {
                Some(h) => if json_valid(f[d + 4]) && json_valid(f[d + 5]) {
                    Ok(MessageModel {
                        identities: f.subrange(0, d),
                        header: h,
                        parent_header: None,
                        metadata: f[d + 4],
                        content: f[d + 5],
                    })
                } else {
                    Err(CodecError::Malformed)
                },
                None => Err(CodecError::Malformed),
            }
        }
    }
}

/// The code that signs message `m` under `key`.
pub open spec fn encoded_mac(m: MessageModel, key: Seq<u8>) -> Seq<u8> {
    hmac_sha256(key, signed_bytes(header_text(m.header), parent_text(m.parent_header), m.metadata, m.content))
}

/// No routing identity is the delimiter frame.
pub open spec fn identities_ok(ids: Seq<Seq<u8>>) -> bool {
    forall|i: int| 0 <= i < ids.len() ==> #[trigger] ids[i] != delimiter()
}

/// The frames that encode message `m` under `key`.
pub open spec fn encoded(m: MessageModel, key: Seq<u8>) -> Seq<Seq<u8>> {
    let h = header_text(m.header);
    let p = parent_text(m.parent_header);
    m.identities + seq![
        delimiter(),
        hex_text(hmac_sha256(key, signed_bytes(h, p, m.metadata, m.content))),
        h,
        p,
        m.metadata,
        m.content,
    ]
}

fn is_signature_shaped(sig: &[u8]) -> (r: bool)
    ensures
        r == signature_shaped(sig@),
{
    if sig.len() != 2 * MAC_LEN {
        return false;
    }
    let mut i: usize = 0;
    while i < sig.len()
        invariant
            i <= sig@.len(),
            forall|j: int| 0 <= j < i ==> is_hex_char(#[trigger] sig@[j]),
        decreases sig@.len() - i,
    {
        let c = sig[i];
        if !((48 <= c && c <= 57) || (65 <= c && c <= 70) || (97 <= c && c <= 102)) {
            assert(!is_hex_char(sig@[i as int]));
            return false;
        }
        i = i + 1;
    }
    true
}

/// Decodes and authenticates a received frame sequence.
pub fn parse_msg(msgparts: Vec<Vec<u8>>, key: &str) -> (r: Result<Message, CodecError>)
    ensures
        match r {
            Ok(m) => decoded(frames_view(msgparts@), key.spec_bytes()) == Ok::<MessageModel, CodecError>(m@),
            Err(e) => decoded(frames_view(msgparts@), key.spec_bytes()) == Err::<MessageModel, CodecError>(e),
        },
{
    let ghost f = frames_view(msgparts@);
    let delim = "<IDS|MSG>".as_bytes();
    let mut d: usize = 0;
    while d < msgparts.len() && !bytes_equal(msgparts[d].as_slice(), delim)
        invariant
            d <= msgparts@.len(),
            f == frames_view(msgparts@),
            delim@ == delimiter(),
            delimiter_index(f, 0) == delimiter_index(f, d as int),
        decreases msgparts@.len() - d,
    {
        d = d + 1;
    }
    assert(delimiter_index(f, 0) == d);
    if d >= msgparts.len() || msgparts.len() - d < 6 {
        return Err(CodecError::Malformed);
    }
    let sig = msgparts[d + 1].as_slice();
    if !is_signature_shaped(sig) {
        return Err(CodecError::Malformed);
    }
    let (ids, rest) = msgparts.as_slice().split_at(d);
    let (signed, _) = rest.split_at(6).0.split_at(2).1.split_at(4);
    assert(frames_view(signed@) =~= seq![f[d + 2], f[d + 3], f[d + 4], f[d + 5]]);
    let computed = sign_msg_parts(key, signed);
    let expected = to_hex_bytes(computed.as_slice());
    proof {
        lemma_hex_text_shape(computed@);
    }
    if !fixed_time_eq(expected.as_slice(), sig) {
        return Err(CodecError::Authentication);
    }
    let header = match MsgHeader::from_json(msgparts[d + 2].as_slice()) {
        Some(h) => h,
        None => {
            return Err(CodecError::Malformed);
        },
    };
    if !json_is_valid(msgparts[d + 4].as_slice()) || !json_is_valid(msgparts[d + 5].as_slice()) {
        return Err(CodecError::Malformed);
    }
    let identities = copy_frames(ids);
    assert(frames_view(identities@) =~= f.subrange(0, d as int));
    let m = Message {
        identities,
        header,
        parent_header: None,
        metadata: copy_bytes(msgparts[d + 4].as_slice()),
        content: copy_bytes(msgparts[d + 5].as_slice()),
    };
    assert(m@ == decoded(f, key.spec_bytes())->Ok_0);
    Ok(m)
}

/// The frames that carry `msg`, signed under `key`.
pub fn encode_msg(msg: &Message, key: &str) -> (r: Vec<Vec<u8>>)
    ensures
        frames_view(r@) == encoded(msg@, key.spec_bytes()),
        encoded_mac(msg@, key.spec_bytes()).len() == MAC_LEN,
{
    let header = msg.header.to_json();
    let parent = match &msg.parent_header {
        Some(p) => p.to_json(),
        None => copy_bytes("null".as_bytes()),
    };
    let mut body: Vec<Vec<u8>> = Vec::new();
    body.push(header);
    body.push(parent);
    body.push(copy_bytes(msg.metadata.as_slice()));
    body.push(copy_bytes(msg.content.as_slice()));
    let ghost parts = frames_view(body@);
    assert(parts =~= seq![header_text(msg@.header), parent_text(msg@.parent_header), msg@.metadata, msg@.content]);
    let signature = sign_msg_parts(key, body.as_slice());
    let mut r = copy_frames(msg.identities.as_slice());
    r.push(copy_bytes("<IDS|MSG>".as_bytes()));
    r.push(to_hex_bytes(signature.as_slice()));
    let mut i: usize = 0;
    while i < 4
        invariant
            body@.len() == 4,
            i <= 4,
            frames_view(body@) == parts,
            r@.len() == msg@.identities.len() + 2 + i,
            frames_view(r@) == msg@.identities + seq![delimiter(), hex_text(signature@)] + parts.subrange(0, i as int),
        decreases 4 - i,
    {
        let ghost before = frames_view(r@);
        r.push(copy_bytes(body[i].as_slice()));
        i = i + 1;
        assert(frames_view(r@) =~= before.push(parts[i - 1]));
        assert(parts.subrange(0, i as int) =~= parts.subrange(0, i - 1).push(parts[i - 1]));
    }
    assert(frames_view(r@) =~= encoded(msg@, key.spec_bytes()));
    r
}

proof fn lemma_delimiter_after(f: Seq<Seq<u8>>, n: int, i: int)
    requires
        0 <= i <= n < f.len(),
        f[n] == delimiter(),
        forall|j: int| 0 <= j < n ==> #[trigger] f[j] != delimiter(),
    ensures
        delimiter_index(f, i) == n,
    decreases n - i,
{
    if i < n {
        lemma_delimiter_after(f, n, i + 1);
    }
}

/// Decoding what `encode_msg` produced, under the same key, never fails
/// authentication or framing: it gives back the identities, metadata and
/// content exactly, no parent header, and the header that the encoded header
/// text parses to. It fails, as malformed, only where the parser refuses the
/// header text, the metadata or the content. The length of the code is what
/// `encode_msg` guarantees.
pub proof fn lemma_round_trip(m: MessageModel, key: Seq<u8>)
    requires
        identities_ok(m.identities),
        encoded_mac(m, key).len() == MAC_LEN,
    ensures
        decoded(encoded(m, key), key) == match parsed_header(header_text(m.header)) {
            Some(h) => if json_valid(m.metadata) && json_valid(m.content) {
                Ok(MessageModel {
                    identities: m.identities,
                    header: h,
                    parent_header: None,
                    metadata: m.metadata,
                    content: m.content,
                })
            } else {
                Err(CodecError::Malformed)
            },
            None => Err(CodecError::Malformed),
        },
{
    let f = encoded(m, key);
    let d = m.identities.len() as int;
    assert forall|j: int| 0 <= j < d implies #[trigger] f[j] != delimiter() by {
        assert(f[j] == m.identities[j]);
    }
    lemma_delimiter_after(f, d, 0);
    lemma_hex_text_shape(encoded_mac(m, key));
    assert(f.subrange(0, d) == m.identities);
}

/// A message whose signature frame was changed in any way, letter case
/// included, never decodes: the failure is an authentication failure where
/// the frame still has the shape of a signature, and malformed otherwise.
pub proof fn lemma_changed_signature_rejected(m: MessageModel, key: Seq<u8>, sig_frame: Seq<u8>)
    requires
        identities_ok(m.identities),
        sig_frame != encoded(m, key)[m.identities.len() as int + 1],
    ensures
        decoded(encoded(m, key).update(m.identities.len() as int + 1, sig_frame), key)
            == Err::<MessageModel, CodecError>(
            if signature_shaped(sig_frame) { CodecError::Authentication } else { CodecError::Malformed },
        ),
{
    let f = encoded(m, key).update(m.identities.len() as int + 1, sig_frame);
    let d = m.identities.len() as int;
    assert forall|j: int| 0 <= j < d implies #[trigger] f[j] != delimiter() by {
        assert(f[j] == m.identities[j]);
    }
    lemma_delimiter_after(f, d, 0);
}

} // verus!
