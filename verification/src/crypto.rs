use vstd::prelude::*;

use sodiumoxide::crypto::box_;
use sodiumoxide::crypto::box_::curve25519xsalsa20poly1305::Nonce;
use sodiumoxide::crypto::box_::curve25519xsalsa20poly1305::PublicKey;
use sodiumoxide::crypto::box_::curve25519xsalsa20poly1305::SecretKey;

use crate::codec::{Envelope, NONCE_LEN};
use crate::errors::{error_without_parent, AnyError, ErrorKind};

verus! {

/// Number of bytes in each half of a key pair, fixed by the cipher.
pub const KEY_LEN: usize = 32;

/// A curve25519-class key pair. The same pair plays both the sender and the
/// recipient role of the box construction: sealing and opening are
/// single-party operations here.
#[derive(Debug)]
pub struct KeyPair {
    pub public_key: Vec<u8>,
    pub secret_key: Vec<u8>,
}

impl KeyPair {
    /// A key pair is well formed when both halves have the size the cipher
    /// expects.
    pub open spec fn wf(&self) -> bool {
        self.public_key@.len() == KEY_LEN && self.secret_key@.len() == KEY_LEN
    }
}

/// Whether the box construction accepts this pair of key halves: what
/// libsodium's `crypto_box_beforenm` decides, deterministic in the two
/// keys. It refuses only the handful of small-order public keys; every
/// pair `generate_keypair` returns is accepted.
pub uninterp spec fn box_keys_ok(pk: Seq<u8>, sk: Seq<u8>) -> bool;

/// The ciphertext that sealing `m` under nonce `n` and an accepted key pair
/// `(pk, sk)` produces. Sealing is deterministic in these four inputs; the
/// name stands for the box construction's output, which has no short
/// description.
pub uninterp spec fn seal_bytes(m: Seq<u8>, n: Seq<u8>, pk: Seq<u8>, sk: Seq<u8>) -> Seq<u8>;

/// What opening ciphertext `c` under nonce `n` and key pair `(pk, sk)`
/// returns: the authenticated plaintext, or nothing when verification fails.
/// Opening is deterministic in these four inputs.
pub uninterp spec fn open_bytes(c: Seq<u8>, n: Seq<u8>, pk: Seq<u8>, sk: Seq<u8>) -> Option<
    Seq<u8>,
>;

/// Relies on sodiumoxide's `box_::gen_keypair`: a freshly generated random
/// key pair, 32 bytes each half; the public half is the base-point multiple
/// of the clamped secret half, never of small order, so the box
/// construction accepts the pair. Nothing more is assumed of a random
/// result.
#[verifier::external_body]
fn sodium_gen_keypair() -> (r: (Vec<u8>, Vec<u8>))
    ensures
        r.0@.len() == KEY_LEN,
        r.1@.len() == KEY_LEN,
        box_keys_ok(r.0@, r.1@),
{
    let (pk, sk) = box_::gen_keypair();
    (pk.0.to_vec(), sk.0.to_vec())
}

/// Relies on sodiumoxide's `box_::gen_nonce`: a freshly generated random
/// 24-byte nonce. Nothing more is assumed of a random result.
#[verifier::external_body]
fn sodium_gen_nonce() -> (r: Vec<u8>)
    ensures
        r@.len() == NONCE_LEN,
{
    box_::gen_nonce().0.to_vec()
}

/// Relies on sodiumoxide's `box_::seal` (crypto_box_easy): the ciphertext
/// is the message length plus the 16-byte authenticator. When the box
/// construction accepts the key pair, sealing is deterministic in message,
/// nonce and keys, and `box_::open` with the same nonce and keys inverts
/// it; when it refuses the pair — small-order public keys only — libsodium
/// computes nothing and the buffer's contents are unspecified, so nothing
/// is claimed of them.
#[verifier::external_body]
fn sodium_seal(m: &[u8], nonce: &[u8], pk: &[u8], sk: &[u8]) -> (r: Vec<u8>)
    requires
        nonce@.len() == NONCE_LEN,
        pk@.len() == KEY_LEN,
        sk@.len() == KEY_LEN,
    ensures
        r@.len() == m@.len() + 16,
        box_keys_ok(pk@, sk@) ==> r@ == seal_bytes(m@, nonce@, pk@, sk@),
        box_keys_ok(pk@, sk@) ==> open_bytes(r@, nonce@, pk@, sk@) == Some(m@),
{
    let n = Nonce::from_slice(nonce).unwrap();
    let p = PublicKey::from_slice(pk).unwrap();
    let s = SecretKey::from_slice(sk).unwrap();
    box_::seal(m, &n, &p, &s)
}

/// Relies on sodiumoxide's `box_::open` (crypto_box_open_easy):
/// authenticated decryption, deterministic in ciphertext, nonce and keys; it
/// returns the plaintext only when the authenticator verifies, and nothing
/// otherwise.
#[verifier::external_body]
fn sodium_open(c: &[u8], nonce: &[u8], pk: &[u8], sk: &[u8]) -> (r: Option<Vec<u8>>)
    requires
        nonce@.len() == NONCE_LEN,
        pk@.len() == KEY_LEN,
        sk@.len() == KEY_LEN,
    ensures
        match r {
            Some(m) => open_bytes(c@, nonce@, pk@, sk@) == Some(m@),
            None => open_bytes(c@, nonce@, pk@, sk@) is None,
        },
{
    let n = Nonce::from_slice(nonce).unwrap();
    let p = PublicKey::from_slice(pk).unwrap();
    let s = SecretKey::from_slice(sk).unwrap();
    box_::open(c, &n, &p, &s).ok()
}

/// Generates a fresh random key pair, accepted by the box construction.
pub fn generate_keypair() -> (r: KeyPair)
    ensures
        r.wf(),
        box_keys_ok(r.public_key@, r.secret_key@),
{
    let (public_key, secret_key) = sodium_gen_keypair();
    KeyPair { public_key, secret_key }
}

/// Seals a plaintext under a fresh random nonce. For an accepted key pair —
/// every pair `generate_keypair` returns is one — the returned envelope's
/// ciphertext is the seal of the plaintext under that nonce, and opening
/// the envelope with the same key pair yields the plaintext back.
pub fn seal(plaintext: &[u8], keypair: &KeyPair) -> (env: Envelope)
    requires
        keypair.wf(),
    ensures
        env.wf(),
        env.ciphertext@.len() == plaintext@.len() + 16,
        box_keys_ok(keypair.public_key@, keypair.secret_key@) ==> env.ciphertext@ == seal_bytes(
            plaintext@,
            env.nonce@,
            keypair.public_key@,
            keypair.secret_key@,
        ),
        box_keys_ok(keypair.public_key@, keypair.secret_key@) ==> open_bytes(
            env.ciphertext@,
            env.nonce@,
            keypair.public_key@,
            keypair.secret_key@,
        ) == Some(plaintext@),
{
    let nonce = sodium_gen_nonce();
    let ciphertext = sodium_seal(
        plaintext,
        nonce.as_slice(),
        keypair.public_key.as_slice(),
        keypair.secret_key.as_slice(),
    );
    Envelope { nonce, ciphertext }
}

/// Opens an envelope: returns exactly the plaintext the ciphertext
/// authenticates to, and fails — with a single generic failure class — when
/// it verifies under no plaintext.
pub fn open_envelope(env: &Envelope, keypair: &KeyPair) -> (r: Result<Vec<u8>, AnyError>)
    requires
        env.wf(),
        keypair.wf(),
    ensures
        match r {
            Ok(m) => open_bytes(env.ciphertext@, env.nonce@, keypair.public_key@,
                keypair.secret_key@) == Some(m@),
            Err(e) => {
                &&& open_bytes(env.ciphertext@, env.nonce@, keypair.public_key@,
                    keypair.secret_key@) is None
                &&& e.kind == ErrorKind::AuthenticationFailed
                &&& e.parent is None
            },
        },
{
    match sodium_open(
        env.ciphertext.as_slice(),
        env.nonce.as_slice(),
        keypair.public_key.as_slice(),
        keypair.secret_key.as_slice(),
    ) {
        Some(m) => Ok(m),
        None => error_without_parent(ErrorKind::AuthenticationFailed, "Could not decrypt file"),
    }
}

} // verus!
