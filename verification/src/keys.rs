use vstd::prelude::*;
use vstd::string::StringExecFns;

use data_encoding::BASE64;

use crate::crypto::{box_keys_ok, generate_keypair, KeyPair, KEY_LEN};
use crate::errors::{error, error_without_parent, AnyError, ErrorKind};
use crate::profile::Profile;
use crate::store::Storage;

verus! {

/// Which half of a key pair a key file holds.
#[derive(Clone, Copy, Debug, PartialEq, Eq, Structural)]
pub enum Key {
    PublicKey,
    SecretKey,
}

impl Key {
    /// The file extension of this key half.
    pub open spec fn spec_ext(self) -> Seq<char> {
        match self {
            Key::PublicKey => seq!['p', 'k'],
            Key::SecretKey => seq!['s', 'k'],
        }
    }

    /// The file extension of this key half: `pk` or `sk`.
    pub fn ext(&self) -> (r: &'static str)
        ensures
            r@ == self.spec_ext(),
    {
        proof {
            reveal_strlit("pk");
            reveal_strlit("sk");
            assert("pk"@ =~= seq!['p', 'k']);
            assert("sk"@ =~= seq!['s', 'k']);
        }
        match self {
            Key::PublicKey => "pk",
            Key::SecretKey => "sk",
        }
    }
}

/// The base64 text that encodes a byte string, as the standard padded
/// alphabet writes it. Encoding is deterministic in the input bytes; the
/// name stands for the full encoding, not restated here.
pub uninterp spec fn base64_bytes(b: Seq<u8>) -> Seq<u8>;

/// Relies on data-encoding's `BASE64.encode`: standard base64 with padding,
/// deterministic in the input bytes.
#[verifier::external_body]
fn base64_encode(b: &[u8]) -> (r: Vec<u8>)
    ensures
        r@ == base64_bytes(b@),
{
    BASE64.encode(b).into_bytes()
}

/// Relies on data-encoding's `BASE64.decode`: it inverts `BASE64.encode`,
/// so every canonical encoding decodes back to its bytes. Nothing is claimed
/// of other inputs it may accept — the decoder also takes concatenations of
/// padded blocks — so a caller that needs "this text is the canonical
/// encoding of the result" must re-encode and compare.
#[verifier::external_body]
fn base64_decode(b: &[u8]) -> (r: Option<Vec<u8>>)
    ensures
        forall|m: Seq<u8>| b@ == base64_bytes(m) ==> r is Some && r->0@ == m,
{
    BASE64.decode(b).ok()
}

/// The path of a key file: `<storage>/<name>.<ext>`.
pub open spec fn spec_key_file_name(storage: Seq<char>, name: Seq<char>, key: Key) -> Seq<char> {
    storage + seq!['/'] + name + seq!['.'] + key.spec_ext()
}

/// The two key files of a profile never share a path: their extensions
/// differ.
pub proof fn lemma_key_file_names_distinct(storage: Seq<char>, name: Seq<char>)
    ensures
        spec_key_file_name(storage, name, Key::PublicKey) != spec_key_file_name(
            storage,
            name,
            Key::SecretKey,
        ),
{
    let pk_path = spec_key_file_name(storage, name, Key::PublicKey);
    let sk_path = spec_key_file_name(storage, name, Key::SecretKey);
    assert(pk_path.len() == sk_path.len());
    assert(pk_path[pk_path.len() - 2] == 'p');
    assert(sk_path[sk_path.len() - 2] == 's');
}

/// The path of one of a profile's key files, inside its storage directory.
pub fn get_key_file_name(profile: &Profile, key: Key) -> (r: String)
    ensures
        r@ == spec_key_file_name(profile.storage@, profile.name@, key),
{
    proof {
        reveal_strlit("/");
        reveal_strlit(".");
        assert("/"@ =~= seq!['/']);
        assert("."@ =~= seq!['.']);
    }
    let mut out = profile.storage.clone();
    out.append("/");
    out.append(profile.name.as_str());
    out.append(".");
    out.append(key.ext());
    out
}

/// Whether this key half's file is present for the profile.
pub fn key_file_exists<S: Storage>(store: &S, profile: &Profile, key: Key) -> (r: bool)
    ensures
        r == store.files().dom().contains(
            spec_key_file_name(profile.storage@, profile.name@, key),
        ),
{
    let file_path = get_key_file_name(profile, key);
    store.file_exists(&file_path)
}

/// Whether the files hold, at this path, the base64 encoding of this key,
/// sized as the cipher expects.
pub open spec fn spec_key_at(files: Map<Seq<char>, Seq<u8>>, path: Seq<char>, k: Seq<u8>) -> bool {
    &&& files.dom().contains(path)
    &&& files[path] == base64_bytes(k)
    &&& k.len() == KEY_LEN
}

/// Whether some well-sized key is stored at this path.
pub open spec fn spec_has_key(files: Map<Seq<char>, Seq<u8>>, path: Seq<char>) -> bool {
    exists|k: Seq<u8>| spec_key_at(files, path, k)
}

/// Whether both key files of the profile hold a well-sized key.
pub open spec fn spec_keys_ok(
    files: Map<Seq<char>, Seq<u8>>,
    storage: Seq<char>,
    name: Seq<char>,
) -> bool {
    &&& spec_has_key(files, spec_key_file_name(storage, name, Key::PublicKey))
    &&& spec_has_key(files, spec_key_file_name(storage, name, Key::SecretKey))
}

/// The failure class a key-pair read reports on this state: a missing key
/// file is `NotFound`, a present one that does not decode to a well-sized
/// key is `DecodeError`; the public half is read first.
pub open spec fn spec_keypair_read_kind(
    files: Map<Seq<char>, Seq<u8>>,
    storage: Seq<char>,
    name: Seq<char>,
    kind: ErrorKind,
) -> bool {
    let pk_path = spec_key_file_name(storage, name, Key::PublicKey);
    let sk_path = spec_key_file_name(storage, name, Key::SecretKey);
    &&& (!files.dom().contains(pk_path) ==> kind == ErrorKind::NotFound)
    &&& (files.dom().contains(pk_path) && !spec_has_key(files, pk_path) ==> kind
        == ErrorKind::DecodeError)
    &&& (spec_has_key(files, pk_path) && !files.dom().contains(sk_path) ==> kind
        == ErrorKind::NotFound)
    &&& (spec_has_key(files, pk_path) && files.dom().contains(sk_path) && !spec_has_key(
        files,
        sk_path,
    ) ==> kind == ErrorKind::DecodeError)
}

/// True exactly when BOTH the public-key file and the secret-key file are
/// present for the profile; a partial pair does not count as existing.
pub fn keypair_exists<S: Storage>(store: &S, profile: &Profile) -> (r: bool)
    ensures
        r == {
            &&& store.files().dom().contains(
                spec_key_file_name(profile.storage@, profile.name@, Key::PublicKey),
            )
            &&& store.files().dom().contains(
                spec_key_file_name(profile.storage@, profile.name@, Key::SecretKey),
            )
        },
{
    if !key_file_exists(store, profile, Key::PublicKey) {
        return false;
    }
    if !key_file_exists(store, profile, Key::SecretKey) {
        return false;
    }
    true
}

fn save_key<S: Storage>(store: &mut S, key: &[u8], output_file_path: &String) -> (r: Result<
    (),
    AnyError,
>)
    ensures
        final(store).records() == old(store).records(),
        final(store).profiles() == old(store).profiles(),
        final(store).dirs() == old(store).dirs(),
        forall|p: Seq<char>|
            old(store).dirs().contains(p) ==> final(store).canon(p) == old(store).canon(p),
        match r {
            Ok(()) => final(store).files() == old(store).files().insert(
                output_file_path@,
                base64_bytes(key@),
            ),
            Err(e) => {
                &&& e.kind == ErrorKind::PersistenceError
                &&& final(store).files().remove(output_file_path@) == old(store).files().remove(
                    output_file_path@,
                )
            },
        },
{
    let encoded = base64_encode(key);
    match store.write_file(output_file_path, encoded.as_slice()) {
        Ok(()) => Ok(()),
        Err(reason) => error("Could not write key file", reason),
    }
}

fn read_key<S: Storage>(store: &S, input_file_path: &String) -> (r: Result<Vec<u8>, AnyError>)
    ensures
        match r {
            Ok(v) => {
                &&& store.files().dom().contains(input_file_path@)
                &&& store.files()[input_file_path@] == base64_bytes(v@)
                &&& forall|m: Seq<u8>|
                    store.files()[input_file_path@] == base64_bytes(m) ==> m == v@
            },
            Err(e) => {
                ||| {
                    &&& !store.files().dom().contains(input_file_path@)
                    &&& e.kind == ErrorKind::NotFound
                }
                ||| {
                    &&& store.files().dom().contains(input_file_path@)
                    &&& e.kind == ErrorKind::DecodeError
                    &&& forall|m: Seq<u8>| store.files()[input_file_path@] != base64_bytes(m)
                }
            },
        },
{
    match store.read_file(input_file_path) {
        Ok(raw) => match base64_decode(raw.as_slice()) {
            Some(decoded) => {
                // The decoder takes more than the canonical encodings, so
                // check that the file is exactly the encoding of what came
                // back before vouching for it.
                let reencoded = base64_encode(decoded.as_slice());
                if bytes_equal(reencoded.as_slice(), raw.as_slice()) {
                    Ok(decoded)
                } else {
                    proof {
                        assert forall|m: Seq<u8>|
                            store.files()[input_file_path@] != base64_bytes(m) by {
                            if raw@ == base64_bytes(m) {
                                assert(base64_bytes(decoded@) == raw@);
                            }
                        }
                    }
                    error_without_parent(ErrorKind::DecodeError, "Could not decode key file")
                }
            },
            None => error_without_parent(ErrorKind::DecodeError, "Could not decode key file"),
        },
        Err(reason) => error("Could not read key file", reason),
    }
}

fn bytes_equal(a: &[u8], b: &[u8]) -> (r: bool)
    ensures
        r == (a@ == b@),
{
    if a.len() != b.len() {
        return false;
    }
    let n = a.len();
    let mut i: usize = 0;
    while i < n
        invariant
            i <= n,
            n == a@.len(),
            n == b@.len(),
            forall|j: int| 0 <= j < i ==> a@[j] == b@[j],
        decreases n - i,
    {
        if a[i] != b[i] {
            return false;
        }
        i = i + 1;
    }
    proof {
        assert(a@ =~= b@);
    }
    true
}

/// Reads and decodes the profile's key pair: it succeeds exactly when both
/// key files hold a base64-encoded key of the right size, and then returns
/// those keys.
pub fn read_keypair<S: Storage>(store: &S, profile: &Profile) -> (r: Result<KeyPair, AnyError>)
    ensures
        ({
            let pk_path = spec_key_file_name(profile.storage@, profile.name@, Key::PublicKey);
            let sk_path = spec_key_file_name(profile.storage@, profile.name@, Key::SecretKey);
            match r {
                Ok(kp) => {
                    &&& kp.wf()
                    &&& spec_key_at(store.files(), pk_path, kp.public_key@)
                    &&& spec_key_at(store.files(), sk_path, kp.secret_key@)
                    &&& forall|k: Seq<u8>|
                        spec_key_at(store.files(), pk_path, k) ==> k == kp.public_key@
                    &&& forall|k: Seq<u8>|
                        spec_key_at(store.files(), sk_path, k) ==> k == kp.secret_key@
                },
                Err(e) => {
                    &&& !spec_keys_ok(store.files(), profile.storage@, profile.name@)
                    &&& spec_keypair_read_kind(
                        store.files(),
                        profile.storage@,
                        profile.name@,
                        e.kind,
                    )
                },
            }
        }),
{
    let pk_file_path = get_key_file_name(profile, Key::PublicKey);
    let public_key = match read_key(store, &pk_file_path) {
        Ok(raw) => {
            if raw.len() != KEY_LEN {
                return error_without_parent(ErrorKind::DecodeError, "Could not decode public key");
            }
            raw
        },
        Err(reason) => return error("Could not read public key", reason),
    };
    let sk_file_path = get_key_file_name(profile, Key::SecretKey);
    let secret_key = match read_key(store, &sk_file_path) {
        Ok(raw) => {
            if raw.len() != KEY_LEN {
                return error_without_parent(ErrorKind::DecodeError, "Could not decode secret key");
            }
            raw
        },
        Err(reason) => {
            proof {
                assert(spec_key_at(
                    store.files(),
                    spec_key_file_name(profile.storage@, profile.name@, Key::PublicKey),
                    public_key@,
                ));
            }
            return error("Could not read secret key", reason);
        },
    };
    Ok(KeyPair { public_key, secret_key })
}

/// Generates a fresh key pair for the profile and writes both halves,
/// base64-encoded, to the profile's key files. Partial writes are possible
/// and left behind, detectable, not self-healing: a failing public-key
/// write leaves the secret-key file untouched, and a failing secret-key
/// write leaves the freshly written public key in place.
pub fn create_keypair<S: Storage>(store: &mut S, profile: &Profile) -> (r: Result<
    KeyPair,
    AnyError,
>)
    ensures
        final(store).records() == old(store).records(),
        final(store).profiles() == old(store).profiles(),
        final(store).dirs() == old(store).dirs(),
        forall|p: Seq<char>|
            old(store).dirs().contains(p) ==> final(store).canon(p) == old(store).canon(p),
        ({
            let pk_path = spec_key_file_name(profile.storage@, profile.name@, Key::PublicKey);
            let sk_path = spec_key_file_name(profile.storage@, profile.name@, Key::SecretKey);
            match r {
                Ok(kp) => {
                    &&& kp.wf()
                    &&& box_keys_ok(kp.public_key@, kp.secret_key@)
                    &&& final(store).files() == old(store).files().insert(
                        pk_path,
                        base64_bytes(kp.public_key@),
                    ).insert(sk_path, base64_bytes(kp.secret_key@))
                },
                Err(e) => {
                    &&& e.kind == ErrorKind::PersistenceError
                    &&& {
                        ||| final(store).files().remove(pk_path) == old(store).files().remove(
                            pk_path,
                        )
                        ||| exists|k: Seq<u8>|
                            {
                                &&& k.len() == KEY_LEN
                                &&& final(store).files().remove(sk_path) == old(
                                    store,
                                ).files().insert(pk_path, #[trigger] base64_bytes(k)).remove(
                                    sk_path,
                                )
                            }
                    }
                },
            }
        }),
{
    let keypair = generate_keypair();
    let pk_file_path = get_key_file_name(profile, Key::PublicKey);
    match save_key(store, keypair.public_key.as_slice(), &pk_file_path) {
        Ok(()) => (),
        Err(reason) => return error("Could not save public key file", reason),
    }
    let sk_file_path = get_key_file_name(profile, Key::SecretKey);
    match save_key(store, keypair.secret_key.as_slice(), &sk_file_path) {
        Ok(()) => (),
        Err(reason) => {
            proof {
                assert(keypair.public_key@.len() == KEY_LEN);
            }
            return error("Could not save secret key file", reason);
        },
    }
    Ok(keypair)
}

} // verus!
