use vstd::prelude::*;
use vstd::string::StringSliceAdditionalSpecFns;
use vstd::utf8::encode_utf8;
use crate::bytes::append_bytes;
use crate::json::{decimal_bytes, decimal_text};

verus! {

/// Where the kernel listens and how it signs: the contents of a connection file.
pub struct ConnectInfo {
    pub ip: String,
    pub transport: String,
    pub key: String,
    pub signature_scheme: String,
    pub kernel_name: String,
    pub stdin_port: u16,
    pub hb_port: u16,
    pub control_port: u16,
    pub shell_port: u16,
    pub iopub_port: u16,
}

/// The endpoint text `{transport}://{ip}:{port}`, as UTF-8.
pub open spec fn address_text(transport: Seq<char>, ip: Seq<char>, port: int) -> Seq<u8> {
    encode_utf8(transport) + "://".spec_bytes() + encode_utf8(ip) + ":".spec_bytes() + decimal_text(port)
}

/// The endpoint on which a channel with the given port is bound.
pub fn make_address(ci: &ConnectInfo, port: u16) -> (r: Vec<u8>)
    ensures
        r@ == address_text(ci.transport@, ci.ip@, port as int),
{
    let mut out: Vec<u8> = Vec::new();
    let transport = ci.transport.as_str();
    let ip = ci.ip.as_str();
    append_bytes(&mut out, transport.as_bytes());
    append_bytes(&mut out, "://".as_bytes());
    append_bytes(&mut out, ip.as_bytes());
    append_bytes(&mut out, ":".as_bytes());
    append_bytes(&mut out, decimal_bytes(port as i128).as_slice());
    out
}

/// Whether the connection asks for the one signature scheme the kernel
/// implements, HMAC-SHA256.
pub fn scheme_supported(ci: &ConnectInfo) -> (r: bool)
    ensures
        r == (ci.signature_scheme@ == "hmac-sha256"@),
{
    ci.signature_scheme == "hmac-sha256".to_owned()
}

} // verus!
