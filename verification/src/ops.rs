use vstd::prelude::*;

use crate::codec::{
    deserialize_envelope, serialize_envelope, spec_envelope_bytes, spec_parse_envelope, NONCE_LEN,
};
use crate::crypto::{box_keys_ok, open_bytes, open_envelope, seal, seal_bytes};
use crate::errors::{error, error_without_parent, AnyError, ErrorKind};
use crate::keys::{
    create_keypair, lemma_key_file_names_distinct, read_keypair, spec_key_at, spec_key_file_name,
    spec_keypair_read_kind, spec_keys_ok, Key,
};
use crate::naming::{
    get_decrypted_file_name, get_encrypted_file_name, has_envelope_extension, spec_decrypted_name,
    spec_encrypted_name, spec_is_envelope_name,
};
use crate::profile::Profile;
use crate::store::Storage;

verus! {

/// Whether a profile with this name exists: its persisted record is
/// present and parses. A present but unparseable record does not count.
pub fn profile_exists<S: Storage>(store: &S, profile_name: &String) -> (r: bool)
    ensures
        r == store.profiles().dom().contains(profile_name@),
{
    match store.read_profile_record(profile_name) {
        Ok(_) => true,
        Err(_) => false,
    }
}

/// Whether a file exists at this path.
pub fn file_exists<S: Storage>(store: &S, file_path: &String) -> (r: bool)
    ensures
        r == store.files().dom().contains(file_path@),
{
    store.file_exists(file_path)
}

/// Whether the storage directory exists.
pub fn storage_dir_exists<S: Storage>(store: &S, storage_dir: &String) -> (r: bool)
    ensures
        r == store.dirs().contains(storage_dir@),
{
    store.dir_exists(storage_dir)
}

/// Builds the profile and persists its record, replacing any previous one
/// silently: override safety is the caller's concern, not this function's.
pub fn create_profile<S: Storage>(
    store: &mut S,
    profile_name: &String,
    storage_dir: &String,
) -> (r: Result<Profile, AnyError>)
    ensures
        final(store).files() == old(store).files(),
        final(store).dirs() == old(store).dirs(),
        forall|p: Seq<char>|
            old(store).dirs().contains(p) ==> final(store).canon(p) == old(store).canon(p),
        match r {
            Ok(p) => {
                &&& p.name@ == profile_name@
                &&& p.storage@ == storage_dir@
                &&& final(store).records() == old(store).records().insert(profile_name@)
                &&& final(store).profiles() == old(store).profiles().insert(
                    profile_name@,
                    storage_dir@,
                )
            },
            Err(e) => {
                &&& e.kind == ErrorKind::PersistenceError
                &&& final(store).records().remove(profile_name@) == old(store).records().remove(
                    profile_name@,
                )
                &&& final(store).profiles().remove(profile_name@) == old(store).profiles().remove(
                    profile_name@,
                )
            },
        },
{
    let profile = Profile { name: profile_name.clone(), storage: storage_dir.clone() };
    match store.save_profile_record(&profile) {
        Ok(()) => Ok(profile),
        Err(reason) => error("Could not save profile", reason),
    }
}

/// Creates the storage directory; on an already existing directory it
/// succeeds without touching anything, so repeating the call changes
/// nothing more.
pub fn create_storage_dir<S: Storage>(store: &mut S, storage_dir: &String) -> (r: Result<
    (),
    AnyError,
>)
    ensures
        old(store).dirs() <= final(store).dirs(),
        final(store).records() == old(store).records(),
        final(store).profiles() == old(store).profiles(),
        final(store).files() == old(store).files(),
        old(store).dirs().contains(storage_dir@) ==> r is Ok && *final(store) == *old(store),
        match r {
            Ok(()) => final(store).dirs().contains(storage_dir@),
            Err(e) => {
                &&& e.kind == ErrorKind::PersistenceError
                &&& e.details@ == "Could not create storage directory"@
                &&& e.parent is Some
            },
        },
{
    if storage_dir_exists(store, storage_dir) {
        return Ok(());
    }
    match store.create_dir(storage_dir) {
        Ok(()) => Ok(()),
        Err(reason) => error("Could not create storage directory", reason),
    }
}

/// Resolves the storage directory to its absolute form.
pub fn expand_storage_dir<S: Storage>(store: &S, storage_dir: &String) -> (r: Result<
    String,
    AnyError,
>)
    ensures
        match r {
            Ok(abs) => store.canon(storage_dir@) == Some(abs@),
            Err(e) => {
                &&& store.canon(storage_dir@) is None
                &&& e.kind == ErrorKind::PathExpansionFailed
            },
        },
{
    store.canonicalize_dir(storage_dir)
}

/// A fully initialized profile: its record maps the name to a storage
/// directory, and the two key files under that directory hold the base64
/// encoding of a key pair the box construction accepts.
pub open spec fn spec_profile_ready(
    files: Map<Seq<char>, Seq<u8>>,
    profiles: Map<Seq<char>, Seq<char>>,
    name: Seq<char>,
) -> bool {
    &&& profiles.dom().contains(name)
    &&& exists|pk: Seq<u8>, sk: Seq<u8>|
        {
            &&& #[trigger] spec_key_at(
                files,
                spec_key_file_name(profiles[name], name, Key::PublicKey),
                pk,
            )
            &&& #[trigger] spec_key_at(
                files,
                spec_key_file_name(profiles[name], name, Key::SecretKey),
                sk,
            )
            &&& box_keys_ok(pk, sk)
        }
}

/// Initializes a profile: unless overriding is asked, a name that already
/// has a parseable record is refused — and exactly then the failure class
/// is `AlreadyExists` and the store is untouched. On success the storage
/// directory exists, the record maps the name to that directory's
/// canonicalized form, and the key files under it hold a fresh accepted
/// pair. Failure rolls nothing back: directories only grow and records of
/// other names survive; a denied storage directory fails as
/// `PersistenceError` with no record written.
pub fn init<S: Storage>(
    store: &mut S,
    profile_name: &String,
    storage_dir: &String,
    should_override: bool,
) -> (r: Result<(), AnyError>)
    ensures
        old(store).dirs() <= final(store).dirs(),
        final(store).records().remove(profile_name@) == old(store).records().remove(profile_name@),
        final(store).profiles().remove(profile_name@) == old(store).profiles().remove(
            profile_name@,
        ),
        match r {
            Ok(()) => {
                &&& should_override || !old(store).profiles().dom().contains(profile_name@)
                &&& final(store).records().contains(profile_name@)
                &&& final(store).dirs().contains(storage_dir@)
                &&& final(store).canon(storage_dir@) == Some(
                    final(store).profiles()[profile_name@],
                )
                &&& spec_profile_ready(final(store).files(), final(store).profiles(), profile_name@)
            },
            Err(e) => {
                &&& (e.kind == ErrorKind::AlreadyExists <==> (!should_override && old(
                    store,
                ).profiles().dom().contains(profile_name@)))
                &&& (e.kind == ErrorKind::AlreadyExists ==> {
                    &&& *final(store) == *old(store)
                    &&& e.spec_message() == "Initialization failed because profile already exists"@
                })
                &&& (e.kind == ErrorKind::AlreadyExists || e.kind == ErrorKind::PersistenceError
                    || e.kind == ErrorKind::PathExpansionFailed)
                &&& (e.kind == ErrorKind::PathExpansionFailed ==> final(store).dirs().contains(
                    storage_dir@,
                ))
                &&& (e.kind != ErrorKind::AlreadyExists && !final(store).dirs().contains(
                    storage_dir@,
                ) ==> {
                    &&& e.kind == ErrorKind::PersistenceError
                    &&& final(store).records() == old(store).records()
                    &&& final(store).profiles() == old(store).profiles()
                    &&& final(store).files() == old(store).files()
                    &&& e.details@ == "Initialization failed while creating storage for files"@
                    &&& e.parent is Some
                    &&& (*e.parent->0).details@ == "Could not create storage directory"@
                })
            },
        },
{
    if !should_override {
        if profile_exists(store, profile_name) {
            return error_without_parent(
                ErrorKind::AlreadyExists,
                "Initialization failed because profile already exists",
            );
        }
    }
    match create_storage_dir(store, storage_dir) {
        Ok(()) => (),
        Err(reason) => {
            return error("Initialization failed while creating storage for files", reason)
        },
    }
    let abs_storage_dir = match expand_storage_dir(store, storage_dir) {
        Ok(abs) => abs,
        Err(reason) => {
            return Err(reason);
        },
    };
    let profile = match create_profile(store, profile_name, &abs_storage_dir) {
        Ok(p) => p,
        Err(reason) => return error("Initialization failed while creating profile", reason),
    };
    proof {
        assert(store.canon(storage_dir@) == Some(abs_storage_dir@));
    }
    match create_keypair(store, &profile) {
        Ok(kp) => {
            proof {
                let abs = abs_storage_dir@;
                lemma_key_file_names_distinct(abs, profile_name@);
                let pk_path = spec_key_file_name(abs, profile_name@, Key::PublicKey);
                let sk_path = spec_key_file_name(abs, profile_name@, Key::SecretKey);
                assert(spec_key_at(store.files(), pk_path, kp.public_key@));
                assert(spec_key_at(store.files(), sk_path, kp.secret_key@));
                assert(box_keys_ok(kp.public_key@, kp.secret_key@));
                assert(store.profiles()[profile_name@] == abs);
                assert(spec_profile_ready(store.files(), store.profiles(), profile_name@));
                assert(store.canon(storage_dir@) == Some(abs));
            }
            Ok(())
        },
        Err(reason) => return error("Initialization failed while creating key pair", reason),
    }
}

/// One particular way `f1` can extend `f0` with a sealed file: under this
/// nonce and this stored key pair — the only pair the key files hold — the
/// encrypted target holds the envelope encoding of a ciphertext of the
/// source's bytes. When the box construction accepts the stored pair —
/// every pair this library writes is accepted — that ciphertext is exactly
/// the seal of the source's bytes, and opening it gives them back.
pub open spec fn spec_sealed_write_with(
    f0: Map<Seq<char>, Seq<u8>>,
    f1: Map<Seq<char>, Seq<u8>>,
    storage: Seq<char>,
    name: Seq<char>,
    path: Seq<char>,
    nonce: Seq<u8>,
    pk: Seq<u8>,
    sk: Seq<u8>,
) -> bool {
    &&& nonce.len() == NONCE_LEN
    &&& spec_key_at(f0, spec_key_file_name(storage, name, Key::PublicKey), pk)
    &&& spec_key_at(f0, spec_key_file_name(storage, name, Key::SecretKey), sk)
    &&& forall|k: Seq<u8>|
        spec_key_at(f0, spec_key_file_name(storage, name, Key::PublicKey), k) ==> k == pk
    &&& forall|k: Seq<u8>|
        spec_key_at(f0, spec_key_file_name(storage, name, Key::SecretKey), k) ==> k == sk
    &&& exists|ct: Seq<u8>|
        #![trigger spec_envelope_bytes(nonce, ct)]
        {
            &&& ct.len() == f0[path].len() + 16
            &&& f1 == f0.insert(spec_encrypted_name(storage, path), spec_envelope_bytes(nonce, ct))
            &&& (box_keys_ok(pk, sk) ==> ct == seal_bytes(f0[path], nonce, pk, sk))
        }
    &&& (box_keys_ok(pk, sk) ==> open_bytes(seal_bytes(f0[path], nonce, pk, sk), nonce, pk, sk)
        == Some(f0[path]))
}

/// `f1` extends `f0` with the source at `path` sealed, under some fresh
/// nonce, to the encrypted target named for `storage`, using the key pair
/// stored for the profile — and that seal opens back to the source's bytes.
pub open spec fn spec_sealed_write(
    f0: Map<Seq<char>, Seq<u8>>,
    f1: Map<Seq<char>, Seq<u8>>,
    storage: Seq<char>,
    name: Seq<char>,
    path: Seq<char>,
) -> bool {
    exists|nonce: Seq<u8>, pk: Seq<u8>, sk: Seq<u8>|
        spec_sealed_write_with(f0, f1, storage, name, path, nonce, pk, sk)
}

/// Law: when the box construction accepts the stored key pair, the target
/// a sealed write leaves behind is an envelope that parses back to the
/// nonce and ciphertext it was built from, and that ciphertext opens —
/// under that pair — to exactly the bytes of the source file. Decrypting
/// what encrypt wrote therefore restores the plaintext, as `decrypt`'s own
/// contract writes exactly what the envelope opens to.
pub proof fn lemma_sealed_write_opens_back(
    f0: Map<Seq<char>, Seq<u8>>,
    f1: Map<Seq<char>, Seq<u8>>,
    storage: Seq<char>,
    name: Seq<char>,
    path: Seq<char>,
    nonce: Seq<u8>,
    pk: Seq<u8>,
    sk: Seq<u8>,
)
    requires
        spec_sealed_write_with(f0, f1, storage, name, path, nonce, pk, sk),
        box_keys_ok(pk, sk),
        f0[path].len() + 16 <= u64::MAX,
    ensures
        ({
            let b = f1[spec_encrypted_name(storage, path)];
            &&& spec_parse_envelope(b) is Some
            &&& ({
                let parsed = spec_parse_envelope(b)->0;
                open_bytes(parsed.1, parsed.0, pk, sk) == Some(f0[path])
            })
        }),
{
    let target = spec_encrypted_name(storage, path);
    let ct = seal_bytes(f0[path], nonce, pk, sk);
    let w = choose|w: Seq<u8>|
        #![trigger spec_envelope_bytes(nonce, w)]
        {
            &&& w.len() == f0[path].len() + 16
            &&& f1 == f0.insert(spec_encrypted_name(storage, path), spec_envelope_bytes(nonce, w))
            &&& (box_keys_ok(pk, sk) ==> w == seal_bytes(f0[path], nonce, pk, sk))
        };
    assert(w == ct);
    assert(f1[target] == spec_envelope_bytes(nonce, ct));
    crate::codec::lemma_envelope_round_trip(nonce, ct);
}

fn encrypt_file<S: Storage>(store: &mut S, profile: &Profile, file_path: &String) -> (r: Result<
    (),
    AnyError,
>)
    ensures
        final(store).records() == old(store).records(),
        final(store).profiles() == old(store).profiles(),
        final(store).dirs() == old(store).dirs(),
        final(store).files().remove(spec_encrypted_name(profile.storage@, file_path@)) == old(
            store,
        ).files().remove(spec_encrypted_name(profile.storage@, file_path@)),
        match r {
            Ok(()) => {
                &&& old(store).files().dom().contains(file_path@)
                &&& spec_sealed_write(
                    old(store).files(),
                    final(store).files(),
                    profile.storage@,
                    profile.name@,
                    file_path@,
                )
            },
            Err(e) => {
                &&& spec_keypair_read_kind(
                    old(store).files(),
                    profile.storage@,
                    profile.name@,
                    e.kind,
                )
                &&& (spec_keys_ok(old(store).files(), profile.storage@, profile.name@) && !old(
                    store,
                ).files().dom().contains(file_path@) ==> e.kind == ErrorKind::NotFound)
                &&& (spec_keys_ok(old(store).files(), profile.storage@, profile.name@) && old(
                    store,
                ).files().dom().contains(file_path@) ==> e.kind == ErrorKind::PersistenceError)
                &&& (e.kind != ErrorKind::PersistenceError ==> *final(store) == *old(store))
            },
        },
{
    let keypair = match read_keypair(store, profile) {
        Ok(kp) => kp,
        Err(reason) => return error("Could not encrypt file", reason),
    };
    let plain_content = match store.read_file(file_path) {
        Ok(v) => v,
        Err(reason) => return error("Could not read file to encrypt", reason),
    };
    let envelope = seal(plain_content.as_slice(), &keypair);
    let cipher_file_path = get_encrypted_file_name(profile, file_path);
    let cipher_bytes = serialize_envelope(&envelope);
    match store.write_file(&cipher_file_path, cipher_bytes.as_slice()) {
        Ok(()) => {
            proof {
                let f0 = old(store).files();
                let target = spec_encrypted_name(profile.storage@, file_path@);
                assert(spec_sealed_write_with(
                    f0,
                    store.files(),
                    profile.storage@,
                    profile.name@,
                    file_path@,
                    envelope.nonce@,
                    keypair.public_key@,
                    keypair.secret_key@,
                ));
                assert(store.files().remove(target) =~= f0.remove(target));
            }
            Ok(())
        },
        Err(reason) => error("Could not save encrypted file", reason),
    }
}

/// Encrypts a source file against a profile: a source already carrying the
/// envelope extension is refused outright, a missing source or profile
/// fails, and — unless overriding is asked — so does an already-present
/// target. On success the target named by the naming transform holds the
/// envelope of the sealed source, nothing else changes, and what was sealed
/// opens back to the source's bytes.
pub fn encrypt<S: Storage>(
    store: &mut S,
    profile_name: &String,
    file_path: &String,
    should_override: bool,
) -> (r: Result<(), AnyError>)
    ensures
        final(store).records() == old(store).records(),
        final(store).profiles() == old(store).profiles(),
        final(store).dirs() == old(store).dirs(),
        ({
            let f0 = old(store).files();
            let cz = spec_is_envelope_name(file_path@);
            let src = f0.dom().contains(file_path@);
            let rec = old(store).records().contains(profile_name@);
            let prof = old(store).profiles().dom().contains(profile_name@);
            let storage = old(store).profiles()[profile_name@];
            let target = spec_encrypted_name(storage, file_path@);
            match r {
                Ok(()) => {
                    &&& !cz
                    &&& src
                    &&& prof
                    &&& (should_override || !f0.dom().contains(target))
                    &&& spec_sealed_write(
                        f0,
                        final(store).files(),
                        storage,
                        profile_name@,
                        file_path@,
                    )
                },
                Err(e) => {
                    &&& (e.kind == ErrorKind::AlreadyEncrypted <==> cz)
                    &&& (!cz && !src ==> e.kind == ErrorKind::NotFound)
                    &&& (!cz && src && !rec ==> e.kind == ErrorKind::NotFound)
                    &&& (!cz && src && rec && !prof ==> e.kind == ErrorKind::Corrupt)
                    &&& (!cz && src && prof && !should_override && f0.dom().contains(target)
                        ==> e.kind == ErrorKind::AlreadyExists)
                    &&& (e.kind == ErrorKind::AlreadyExists ==> {
                        &&& !should_override
                        &&& prof
                        &&& f0.dom().contains(target)
                    })
                    &&& (!cz && src && prof && (should_override || !f0.dom().contains(target))
                        ==> {
                        &&& spec_keypair_read_kind(f0, storage, profile_name@, e.kind)
                        &&& (spec_keys_ok(f0, storage, profile_name@) ==> e.kind
                            == ErrorKind::PersistenceError)
                    })
                    &&& (e.kind != ErrorKind::PersistenceError ==> *final(store) == *old(store))
                    &&& final(store).files().remove(target) == f0.remove(target)
                },
            }
        }),
{
    if has_envelope_extension(file_path.as_str()) {
        return error_without_parent(
            ErrorKind::AlreadyEncrypted,
            "Encryption failed because source file was already encrypted by this program (.cz)",
        );
    }
    if !file_exists(store, file_path) {
        return error_without_parent(
            ErrorKind::NotFound,
            "Encryption failed because source file does not exists",
        );
    }
    let profile = match store.read_profile_record(profile_name) {
        Ok(p) => p,
        Err(reason) => return error("Encryption failed while reading user profile", reason),
    };
    proof {
        store.lemma_records_complete();
    }
    let encrypted_file_path = get_encrypted_file_name(&profile, file_path);
    if !should_override {
        if file_exists(store, &encrypted_file_path) {
            return error_without_parent(
                ErrorKind::AlreadyExists,
                "Encryption failed because target file already exists",
            );
        }
    }
    match encrypt_file(store, &profile, file_path) {
        Ok(()) => Ok(()),
        Err(reason) => error("Encryption failed while doing actual encryption", reason),
    }
}

/// One particular way `f1` can extend `f0` with an opened file: the stored
/// envelope at `path` parses, its ciphertext opens under this stored key
/// pair — the only pair the key files hold — and the decrypted target holds
/// exactly that plaintext.
pub open spec fn spec_opened_write_with(
    f0: Map<Seq<char>, Seq<u8>>,
    f1: Map<Seq<char>, Seq<u8>>,
    storage: Seq<char>,
    name: Seq<char>,
    path: Seq<char>,
    dest: Seq<char>,
    pk: Seq<u8>,
    sk: Seq<u8>,
) -> bool {
    &&& spec_key_at(f0, spec_key_file_name(storage, name, Key::PublicKey), pk)
    &&& spec_key_at(f0, spec_key_file_name(storage, name, Key::SecretKey), sk)
    &&& forall|k: Seq<u8>|
        spec_key_at(f0, spec_key_file_name(storage, name, Key::PublicKey), k) ==> k == pk
    &&& forall|k: Seq<u8>|
        spec_key_at(f0, spec_key_file_name(storage, name, Key::SecretKey), k) ==> k == sk
    &&& f0.dom().contains(path)
    &&& spec_parse_envelope(f0[path]) is Some
    &&& ({
        let parsed = spec_parse_envelope(f0[path])->0;
        &&& open_bytes(parsed.1, parsed.0, pk, sk) is Some
        &&& f1 == f0.insert(spec_decrypted_name(dest, path), open_bytes(parsed.1, parsed.0, pk, sk)->0)
    })
}

/// `f1` extends `f0` with the envelope at `path` opened under the key pair
/// stored for the profile, its authenticated plaintext written to the
/// decrypted target under `dest`.
pub open spec fn spec_opened_write(
    f0: Map<Seq<char>, Seq<u8>>,
    f1: Map<Seq<char>, Seq<u8>>,
    storage: Seq<char>,
    name: Seq<char>,
    path: Seq<char>,
    dest: Seq<char>,
) -> bool {
    exists|pk: Seq<u8>, sk: Seq<u8>| spec_opened_write_with(f0, f1, storage, name, path, dest, pk, sk)
}

/// The envelope at `path` parses but fails to open under this stored key
/// pair: the ciphertext or nonce does not verify.
pub open spec fn spec_open_fails_with(
    f0: Map<Seq<char>, Seq<u8>>,
    storage: Seq<char>,
    name: Seq<char>,
    path: Seq<char>,
    pk: Seq<u8>,
    sk: Seq<u8>,
) -> bool {
    &&& spec_key_at(f0, spec_key_file_name(storage, name, Key::PublicKey), pk)
    &&& spec_key_at(f0, spec_key_file_name(storage, name, Key::SecretKey), sk)
    &&& f0.dom().contains(path)
    &&& spec_parse_envelope(f0[path]) is Some
    &&& ({
        let parsed = spec_parse_envelope(f0[path])->0;
        open_bytes(parsed.1, parsed.0, pk, sk) is None
    })
}

/// The envelope at `path` parses but fails to open under the key pair
/// stored for the profile.
pub open spec fn spec_open_fails(
    f0: Map<Seq<char>, Seq<u8>>,
    storage: Seq<char>,
    name: Seq<char>,
    path: Seq<char>,
) -> bool {
    exists|pk: Seq<u8>, sk: Seq<u8>| spec_open_fails_with(f0, storage, name, path, pk, sk)
}

/// Law: decrypting the file a sealed write left behind restores the
/// source's bytes exactly. When an accepted stored pair seals a source to
/// its encrypted target, an opened write of that target — under the same
/// profile's key files, which hold only that pair — writes precisely the
/// source's bytes to the decrypted target and changes nothing else.
pub proof fn lemma_encrypt_then_decrypt_round_trip(
    f0: Map<Seq<char>, Seq<u8>>,
    f1: Map<Seq<char>, Seq<u8>>,
    f2: Map<Seq<char>, Seq<u8>>,
    storage: Seq<char>,
    name: Seq<char>,
    path: Seq<char>,
    dest: Seq<char>,
    nonce: Seq<u8>,
    pk: Seq<u8>,
    sk: Seq<u8>,
)
    requires
        spec_sealed_write_with(f0, f1, storage, name, path, nonce, pk, sk),
        box_keys_ok(pk, sk),
        spec_opened_write(f1, f2, storage, name, spec_encrypted_name(storage, path), dest),
        f0[path].len() + 16 <= u64::MAX,
    ensures
        f2 == f1.insert(spec_decrypted_name(dest, spec_encrypted_name(storage, path)), f0[path]),
{
    let enc = spec_encrypted_name(storage, path);
    let pk_path = spec_key_file_name(storage, name, Key::PublicKey);
    let sk_path = spec_key_file_name(storage, name, Key::SecretKey);
    // The encrypted target is no key file: it ends in 'z', key files in 'k'.
    assert(enc[enc.len() - 1] == 'z');
    assert(pk_path[pk_path.len() - 1] == 'k');
    assert(sk_path[sk_path.len() - 1] == 'k');
    assert(enc != pk_path && enc != sk_path);
    let ct = choose|w: Seq<u8>|
        #![trigger spec_envelope_bytes(nonce, w)]
        {
            &&& w.len() == f0[path].len() + 16
            &&& f1 == f0.insert(spec_encrypted_name(storage, path), spec_envelope_bytes(nonce, w))
            &&& (box_keys_ok(pk, sk) ==> w == seal_bytes(f0[path], nonce, pk, sk))
        };
    // The key files carry over into the written state unchanged, so the
    // opened write's pair is the sealed write's pair.
    assert(spec_key_at(f1, pk_path, pk));
    assert(spec_key_at(f1, sk_path, sk));
    let (pk2, sk2) = choose|pk2: Seq<u8>, sk2: Seq<u8>|
        spec_opened_write_with(f1, f2, storage, name, enc, dest, pk2, sk2);
    assert(pk2 == pk);
    assert(sk2 == sk);
    // The envelope parses back to this nonce and ciphertext, and the
    // ciphertext opens to the source's bytes.
    assert(f1[enc] == spec_envelope_bytes(nonce, ct));
    crate::codec::lemma_envelope_round_trip(nonce, ct);
    assert(open_bytes(ct, nonce, pk, sk) == Some(f0[path]));
}

fn decrypt_file<S: Storage>(
    store: &mut S,
    profile: &Profile,
    file_path: &String,
    dest_dir: &String,
) -> (r: Result<(), AnyError>)
    ensures
        final(store).records() == old(store).records(),
        final(store).profiles() == old(store).profiles(),
        old(store).dirs() <= final(store).dirs(),
        old(store).dirs().contains(dest_dir@) ==> final(store).dirs() == old(store).dirs(),
        final(store).files().remove(spec_decrypted_name(dest_dir@, file_path@)) == old(
            store,
        ).files().remove(spec_decrypted_name(dest_dir@, file_path@)),
        match r {
            Ok(()) => {
                &&& spec_opened_write(
                    old(store).files(),
                    final(store).files(),
                    profile.storage@,
                    profile.name@,
                    file_path@,
                    dest_dir@,
                )
                &&& final(store).dirs().contains(dest_dir@)
            },
            Err(e) => {
                let f0 = old(store).files();
                let keys_ok = spec_keys_ok(f0, profile.storage@, profile.name@);
                &&& spec_keypair_read_kind(f0, profile.storage@, profile.name@, e.kind)
                &&& (spec_open_fails(f0, profile.storage@, profile.name@, file_path@) ==> e.kind
                    == ErrorKind::AuthenticationFailed)
                &&& (keys_ok && !f0.dom().contains(file_path@) ==> e.kind == ErrorKind::NotFound)
                &&& (keys_ok && f0.dom().contains(file_path@) && spec_parse_envelope(
                    f0[file_path@],
                ) is None ==> e.kind == ErrorKind::MalformedEnvelope)
                &&& (keys_ok && f0.dom().contains(file_path@) && spec_parse_envelope(
                    f0[file_path@],
                ) is Some ==> {
                    ||| (e.kind == ErrorKind::AuthenticationFailed && spec_open_fails(
                        f0,
                        profile.storage@,
                        profile.name@,
                        file_path@,
                    ))
                    ||| e.kind == ErrorKind::PersistenceError
                })
                &&& (e.kind == ErrorKind::AuthenticationFailed ==> spec_open_fails(
                    f0,
                    profile.storage@,
                    profile.name@,
                    file_path@,
                ))
                &&& (e.kind == ErrorKind::MalformedEnvelope ==> f0.dom().contains(file_path@)
                    && spec_parse_envelope(f0[file_path@]) is None)
                &&& (e.kind != ErrorKind::PersistenceError ==> *final(store) == *old(store))
            },
        },
{
    let keypair = match read_keypair(store, profile) {
        Ok(kp) => kp,
        Err(reason) => return error("Could not decrypt file", reason),
    };
    let cipher_content = match store.read_file(file_path) {
        Ok(v) => v,
        Err(reason) => return error("Could not read file to decrypt", reason),
    };
    let envelope = match deserialize_envelope(cipher_content.as_slice()) {
        Ok(env) => env,
        Err(reason) => return Err(reason),
    };
    let plain_data = match open_envelope(&envelope, &keypair) {
        Ok(m) => m,
        Err(reason) => {
            proof {
                assert(spec_open_fails_with(
                    old(store).files(),
                    profile.storage@,
                    profile.name@,
                    file_path@,
                    keypair.public_key@,
                    keypair.secret_key@,
                ));
            }
            return Err(reason);
        },
    };
    let plain_file_path = get_decrypted_file_name(file_path, dest_dir);
    if !store.dir_exists(dest_dir) {
        match store.create_dir(dest_dir) {
            Ok(()) => (),
            Err(reason) => return error("Could not create directory", reason),
        }
    }
    match store.write_file(&plain_file_path, plain_data.as_slice()) {
        Ok(()) => {
            proof {
                let target = spec_decrypted_name(dest_dir@, file_path@);
                assert(spec_opened_write_with(
                    old(store).files(),
                    store.files(),
                    profile.storage@,
                    profile.name@,
                    file_path@,
                    dest_dir@,
                    keypair.public_key@,
                    keypair.secret_key@,
                ));
                assert(store.files().remove(target) =~= old(store).files().remove(target));
            }
            Ok(())
        },
        Err(reason) => error("Could not save decrypted file", reason),
    }
}

/// Decrypts an envelope file against a profile into a destination
/// directory: a source without the envelope extension is refused outright,
/// a missing source or profile fails, and — unless overriding is asked — so
/// does an already-present target. On success the target named by the
/// naming transform holds exactly the plaintext the envelope's ciphertext
/// authenticates to under the profile's stored keys; a ciphertext that
/// verifies under no plaintext fails with the one generic
/// `AuthenticationFailed` class and writes nothing.
pub fn decrypt<S: Storage>(
    store: &mut S,
    profile_name: &String,
    file_path: &String,
    dest_dir: &String,
    should_override: bool,
) -> (r: Result<(), AnyError>)
    ensures
        final(store).records() == old(store).records(),
        final(store).profiles() == old(store).profiles(),
        old(store).dirs() <= final(store).dirs(),
        old(store).dirs().contains(dest_dir@) ==> final(store).dirs() == old(store).dirs(),
        ({
            let f0 = old(store).files();
            let cz = spec_is_envelope_name(file_path@);
            let src = f0.dom().contains(file_path@);
            let rec = old(store).records().contains(profile_name@);
            let prof = old(store).profiles().dom().contains(profile_name@);
            let storage = old(store).profiles()[profile_name@];
            let target = spec_decrypted_name(dest_dir@, file_path@);
            match r {
                Ok(()) => {
                    &&& cz
                    &&& src
                    &&& prof
                    &&& (should_override || !f0.dom().contains(target))
                    &&& final(store).dirs().contains(dest_dir@)
                    &&& spec_opened_write(
                        f0,
                        final(store).files(),
                        storage,
                        profile_name@,
                        file_path@,
                        dest_dir@,
                    )
                },
                Err(e) => {
                    &&& (e.kind == ErrorKind::NotAnEnvelope <==> !cz)
                    &&& (cz && !src ==> e.kind == ErrorKind::NotFound)
                    &&& (cz && src && !should_override && f0.dom().contains(target) ==> e.kind
                        == ErrorKind::AlreadyExists)
                    &&& (e.kind == ErrorKind::AlreadyExists ==> {
                        &&& !should_override
                        &&& f0.dom().contains(target)
                    })
                    &&& ({
                        let go = cz && src && (should_override || !f0.dom().contains(target));
                        &&& (go && !rec ==> e.kind == ErrorKind::NotFound)
                        &&& (go && rec && !prof ==> e.kind == ErrorKind::Corrupt)
                        &&& (go && prof ==> {
                            &&& spec_keypair_read_kind(f0, storage, profile_name@, e.kind)
                            &&& (spec_open_fails(f0, storage, profile_name@, file_path@) ==> e.kind
                                == ErrorKind::AuthenticationFailed)
                            &&& (spec_keys_ok(f0, storage, profile_name@) && spec_parse_envelope(
                                f0[file_path@],
                            ) is None ==> e.kind == ErrorKind::MalformedEnvelope)
                            &&& (spec_keys_ok(f0, storage, profile_name@) && spec_parse_envelope(
                                f0[file_path@],
                            ) is Some ==> {
                                ||| (e.kind == ErrorKind::AuthenticationFailed && spec_open_fails(
                                    f0,
                                    storage,
                                    profile_name@,
                                    file_path@,
                                ))
                                ||| e.kind == ErrorKind::PersistenceError
                            })
                        })
                    })
                    &&& (e.kind == ErrorKind::AuthenticationFailed ==> prof && spec_open_fails(
                        f0,
                        storage,
                        profile_name@,
                        file_path@,
                    ))
                    &&& (e.kind != ErrorKind::PersistenceError ==> *final(store) == *old(store))
                    &&& final(store).files().remove(target) == f0.remove(target)
                },
            }
        }),
{
    if !has_envelope_extension(file_path.as_str()) {
        return error_without_parent(
            ErrorKind::NotAnEnvelope,
            "Decryption failed because source file was not made by this program (.cz)",
        );
    }
    if !file_exists(store, file_path) {
        return error_without_parent(
            ErrorKind::NotFound,
            "Decryption failed because source file does not exists",
        );
    }
    let decrypted_file_path = get_decrypted_file_name(file_path, dest_dir);
    if !should_override {
        if file_exists(store, &decrypted_file_path) {
            return error_without_parent(
                ErrorKind::AlreadyExists,
                "Decryption failed because target file already exists",
            );
        }
    }
    let profile = match store.read_profile_record(profile_name) {
        Ok(p) => p,
        Err(reason) => return error("Decryption failed while reading user profile", reason),
    };
    proof {
        store.lemma_records_complete();
    }
    match decrypt_file(store, &profile, file_path, dest_dir) {
        Ok(()) => Ok(()),
        Err(reason) => error("Decryption failed while doing actual decryption", reason),
    }
}

} // verus!
