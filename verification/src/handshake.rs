//! The handshake responder: the accept token for a client key, and the
//! response that carries it.

use crate::headers::{append_bytes, copy_bytes};
use rustc_serialize::base64::{ToBase64, STANDARD};
use vstd::prelude::*;
use vstd::string::StringSliceAdditionalSpecFns;

verus! {

broadcast use vstd::string::group_string_axioms;

/// The hasher of the `sha1` crate. Its fields are not visible here; what it
/// has absorbed is named by [`sha1_absorbed`].
#[verifier::external_type_specification]
#[verifier::external_body]
pub struct ExSha1(sha1::Sha1);

/// A finished digest of the `sha1` crate. What it holds is named by
/// [`digest_bytes`].
#[verifier::external_type_specification]
#[verifier::external_body]
pub struct ExDigest(sha1::Digest);

/// The bytes that a hasher has been fed since it was made, in order.
pub uninterp spec fn sha1_absorbed(hasher: sha1::Sha1) -> Seq<u8>;

/// The SHA-1 digest of a message, as the `sha1` crate computes it.
pub uninterp spec fn sha1_digest(message: Seq<u8>) -> Seq<u8>;

/// The bytes that a finished digest holds.
pub uninterp spec fn digest_bytes(digest: sha1::Digest) -> Seq<u8>;

/// `Sha1::new` returns a hasher that has absorbed nothing.
pub assume_specification[ sha1::Sha1::new ]() -> (hasher: sha1::Sha1)
    ensures
        sha1_absorbed(hasher) == Seq::<u8>::empty(),
;

/// `Sha1::update` appends `data` to what the hasher has absorbed. The crate
/// counts the absorbed bytes in a `u64`.
pub assume_specification[ sha1::Sha1::update ](hasher: &mut sha1::Sha1, data: &[u8])
    requires
        sha1_absorbed(*old(hasher)).len() + data@.len() <= u64::MAX,
    ensures
        sha1_absorbed(*final(hasher)) == sha1_absorbed(*old(hasher)) + data@,
;

/// `Sha1::digest` returns the digest of what the hasher has absorbed. The
/// crate computes the length of the message in bits in a `u64`, hence the
/// bound.
pub assume_specification[ sha1::Sha1::digest ](hasher: &sha1::Sha1) -> (digest: sha1::Digest)
    requires
        sha1_absorbed(*hasher).len() * 8 <= u64::MAX,
    ensures
        digest_bytes(digest) == sha1_digest(sha1_absorbed(*hasher)),
;

/// `Digest::bytes` returns the 20 bytes that the digest holds.
#[verifier::external_body]
fn digest_to_bytes(digest: &sha1::Digest) -> (bytes: [u8; 20])
    ensures
        bytes@ == digest_bytes(*digest),
{
    digest.bytes()
}

/// The character of the standard base64 alphabet that stands for a 6-bit
/// value, as a byte.
pub open spec fn base64_symbol(v: int) -> u8 {
    if v < 26 {
        (65 + v) as u8
    } else if v < 52 {
        (71 + v) as u8
    } else if v < 62 {
        (v - 4) as u8
    } else if v == 62 {
        43u8
    } else {
        47u8
    }
}

/// The four symbols for three bytes.
pub open spec fn base64_group(a: u8, b: u8, c: u8) -> Seq<u8> {
    let n = a as int * 65536 + b as int * 256 + c as int;
    seq![
        base64_symbol(n / 262144),
        base64_symbol(n / 4096 % 64),
        base64_symbol(n / 64 % 64),
        base64_symbol(n % 64),
    ]
}

/// Standard base64 with `=` padding and no line breaks.
pub open spec fn base64_standard(data: Seq<u8>) -> Seq<u8>
    decreases data.len(),
{
    if data.len() == 0 {
        Seq::empty()
    } else if data.len() == 1 {
        base64_group(data[0], 0, 0).take(2) + seq![61u8, 61u8]
    } else if data.len() == 2 {
        base64_group(data[0], data[1], 0).take(3) + seq![61u8]
    } else {
        base64_group(data[0], data[1], data[2]) + base64_standard(data.skip(3))
    }
}

/// `to_base64` of `rustc_serialize`, on a byte slice with the `STANDARD`
/// configuration (standard alphabet, padded, unwrapped), returns the
/// encoding as an ASCII string; its bytes are handed on.
#[verifier::external_body]
fn to_base64_standard(data: &[u8]) -> (text: Vec<u8>)
    requires
        data@.len() <= isize::MAX,
    ensures
        text@ == base64_standard(data@),
{
    data.to_base64(STANDARD).into_bytes()
}

/// Every encoding is four symbols for each started group of three bytes.
pub proof fn lemma_base64_len(data: Seq<u8>)
    ensures
        base64_standard(data).len() == 4 * ((data.len() + 2) / 3),
    decreases data.len(),
{
    if data.len() >= 3 {
        lemma_base64_len(data.skip(3));
    }
}

/// The GUID that the protocol appends to the client key.
pub open spec fn magic_guid() -> Seq<u8> {
    "258EAFA5-E914-47DA-95CA-C5AB0DC85B11".spec_bytes()
}

/// The longest key, in bytes, for which the digest is defined: the hash counts
/// the bits of the key and the GUID in 64 bits.
pub const MAX_KEY_LEN: u64 = 0x1fff_ffff_ffff_ffdb;

/// The accept token for a client key: the base64 encoding of the digest of
/// the key followed by the GUID.
pub open spec fn accept_token(key: Seq<u8>) -> Seq<u8> {
    base64_standard(sha1_digest(key + magic_guid()))
}

proof fn lemma_magic_guid_len()
    ensures
        magic_guid().len() == 36,
{
    reveal_strlit("258EAFA5-E914-47DA-95CA-C5AB0DC85B11");
    let s = "258EAFA5-E914-47DA-95CA-C5AB0DC85B11";
    assert(vstd::string::is_ascii(s));
}

/// Computes the accept token for a client key: hashes the key followed by
/// the GUID and encodes the 20 bytes of the digest, which gives 28 bytes
/// whatever the key.
pub fn gen_key(key: &[u8]) -> (token: Vec<u8>)
    requires
        key@.len() <= MAX_KEY_LEN,
    ensures
        token@ == accept_token(key@),
        token@.len() == 28,
{
    let mut hasher = sha1::Sha1::new();
    hasher.update(key);
    proof {
        lemma_magic_guid_len();
    }
    hasher.update("258EAFA5-E914-47DA-95CA-C5AB0DC85B11".as_bytes());
    let digest = digest_to_bytes(&hasher.digest());
    let token = to_base64_standard(digest.as_slice());
    proof {
        lemma_base64_len(digest@);
    }
    token
}

/// The part of the response before the accept token: the status line, the
/// two fixed headers and the name of the third.
pub open spec fn response_head() -> Seq<u8> {
    "HTTP/1.1 101 Switching Protocols\r\n\
     Connection: Upgrade\r\n\
     Upgrade: websocket\r\n\
     Sec-WebSocket-Accept: ".spec_bytes()
}

/// The response that completes the upgrade: the status line, the three
/// headers in their fixed order with the accept token in the last, and the
/// empty line that ends the header block.
pub open spec fn response_bytes(accept_token: Seq<u8>) -> Seq<u8> {
    response_head() + accept_token + "\r\n\r\n".spec_bytes()
}

/// A response is 101 bytes around its accept token.
pub proof fn lemma_response_len(accept_token: Seq<u8>)
    ensures
        response_bytes(accept_token).len() == accept_token.len() + 101,
{
    let head =
        "HTTP/1.1 101 Switching Protocols\r\n\
         Connection: Upgrade\r\n\
         Upgrade: websocket\r\n\
         Sec-WebSocket-Accept: ";
    reveal_strlit(
        "HTTP/1.1 101 Switching Protocols\r\n\
         Connection: Upgrade\r\n\
         Upgrade: websocket\r\n\
         Sec-WebSocket-Accept: ",
    );
    reveal_strlit("\r\n\r\n");
    let end = "\r\n\r\n";
    assert(vstd::string::is_ascii(head));
    assert(vstd::string::is_ascii(end));
}

/// Serializes the upgrade response for an accept token.
pub fn build_response(accept_token: &[u8]) -> (response: Vec<u8>)
    ensures
        response@ == response_bytes(accept_token@),
{
    let head =
        "HTTP/1.1 101 Switching Protocols\r\n\
         Connection: Upgrade\r\n\
         Upgrade: websocket\r\n\
         Sec-WebSocket-Accept: ";
    let mut response = copy_bytes(head.as_bytes());
    append_bytes(&mut response, accept_token);
    append_bytes(&mut response, "\r\n\r\n".as_bytes());
    response
}

} // verus!
