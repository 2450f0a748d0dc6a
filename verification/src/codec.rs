use vstd::prelude::*;
use vstd::bytes::{
    lemma_auto_spec_u64_to_from_le_bytes, spec_u64_from_le_bytes, spec_u64_to_le_bytes,
    u64_from_le_bytes, u64_to_le_bytes,
};
use vstd::slice::{slice_subrange, slice_to_vec};

use crate::errors::{error_without_parent, AnyError, ErrorKind};

verus! {

/// Number of bytes in an envelope nonce, fixed by the cipher.
pub const NONCE_LEN: usize = 24;

/// Number of header bytes before the ciphertext: the nonce, then the
/// ciphertext length as eight little-endian bytes.
pub const HEADER_LEN: usize = 32;

/// The ciphertext container persisted as the encrypted file: a nonce, fresh
/// per encryption, and the sealed bytes.
#[derive(Debug)]
pub struct Envelope {
    pub nonce: Vec<u8>,
    pub ciphertext: Vec<u8>,
}

impl Envelope {
    /// An envelope is well formed when its nonce has the fixed size the
    /// cipher expects.
    pub open spec fn wf(&self) -> bool {
        self.nonce@.len() == NONCE_LEN
    }
}

/// The binary layout of an envelope: the nonce, then the ciphertext length
/// as eight little-endian bytes, then the ciphertext.
pub open spec fn spec_envelope_bytes(nonce: Seq<u8>, ciphertext: Seq<u8>) -> Seq<u8> {
    nonce + spec_u64_to_le_bytes(ciphertext.len() as u64) + ciphertext
}

/// What a byte buffer holds: the nonce and ciphertext it carries, or nothing
/// when the buffer is shorter than the header or its length prefix disagrees
/// with the number of bytes that follow.
pub open spec fn spec_parse_envelope(b: Seq<u8>) -> Option<(Seq<u8>, Seq<u8>)> {
    if b.len() >= HEADER_LEN && spec_u64_from_le_bytes(
        b.subrange(NONCE_LEN as int, HEADER_LEN as int),
    ) == b.len() - HEADER_LEN {
        Some((b.subrange(0, NONCE_LEN as int), b.subrange(HEADER_LEN as int, b.len() as int)))
    } else {
        None
    }
}

/// Deterministic binary encoding of an envelope.
pub fn serialize_envelope(env: &Envelope) -> (r: Vec<u8>)
    requires
        env.wf(),
    ensures
        r@ == spec_envelope_bytes(env.nonce@, env.ciphertext@),
{
    let mut out: Vec<u8> = Vec::new();
    out.extend_from_slice(env.nonce.as_slice());
    let len_bytes = u64_to_le_bytes(env.ciphertext.len() as u64);
    out.extend_from_slice(len_bytes.as_slice());
    out.extend_from_slice(env.ciphertext.as_slice());
    out
}

/// Reconstructs an envelope from its binary encoding; a buffer that does not
/// follow the layout is malformed.
pub fn deserialize_envelope(bytes: &[u8]) -> (r: Result<Envelope, AnyError>)
    ensures
        match r {
            Ok(env) => {
                &&& env.wf()
                &&& spec_parse_envelope(bytes@) == Some((env.nonce@, env.ciphertext@))
            },
            Err(e) => {
                &&& spec_parse_envelope(bytes@) is None
                &&& e.kind == ErrorKind::MalformedEnvelope
                &&& e.parent is None
            },
        },
{
    if bytes.len() < HEADER_LEN {
        return error_without_parent(
            ErrorKind::MalformedEnvelope,
            "Could not deserialize encrypted data",
        );
    }
    let len_field = u64_from_le_bytes(slice_subrange(bytes, NONCE_LEN, HEADER_LEN));
    let body_len = bytes.len() - HEADER_LEN;
    if len_field != body_len as u64 {
        return error_without_parent(
            ErrorKind::MalformedEnvelope,
            "Could not deserialize encrypted data",
        );
    }
    let nonce = slice_to_vec(slice_subrange(bytes, 0, NONCE_LEN));
    let ciphertext = slice_to_vec(slice_subrange(bytes, HEADER_LEN, bytes.len()));
    Ok(Envelope { nonce, ciphertext })
}

/// Law: deserializing a serialized envelope restores its nonce and
/// ciphertext exactly.
pub proof fn lemma_envelope_round_trip(nonce: Seq<u8>, ciphertext: Seq<u8>)
    requires
        nonce.len() == NONCE_LEN,
        ciphertext.len() <= u64::MAX,
    ensures
        spec_parse_envelope(spec_envelope_bytes(nonce, ciphertext)) == Some((nonce, ciphertext)),
{
    lemma_auto_spec_u64_to_from_le_bytes();
    let b = spec_envelope_bytes(nonce, ciphertext);
    assert(b.subrange(NONCE_LEN as int, HEADER_LEN as int) =~= spec_u64_to_le_bytes(
        ciphertext.len() as u64,
    ));
    assert(b.subrange(0, NONCE_LEN as int) =~= nonce);
    assert(b.subrange(HEADER_LEN as int, b.len() as int) =~= ciphertext);
}

} // verus!
