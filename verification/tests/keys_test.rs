use data_encoding::BASE64;
use moy_sekret::{
    get_key_file_name, init, key_file_exists, keypair_exists, read_keypair, ErrorKind, Key,
    MemStore, Profile, Storage,
};

fn sample_profile() -> Profile {
    Profile {
        name: "ivan".to_string(),
        storage: "/vault".to_string(),
    }
}

#[test]
fn key_file_names_follow_the_profile_layout() {
    let profile = sample_profile();
    assert_eq!("/vault/ivan.pk", get_key_file_name(&profile, Key::PublicKey));
    assert_eq!("/vault/ivan.sk", get_key_file_name(&profile, Key::SecretKey));
}

#[test]
fn key_files_are_base64_text_of_the_raw_keys() {
    let mut store = MemStore::new();
    let profile = sample_profile();
    init(&mut store, &profile.name, &profile.storage, false).unwrap();

    let pk_text = store.read_file(&"/vault/ivan.pk".to_string()).unwrap();
    let sk_text = store.read_file(&"/vault/ivan.sk".to_string()).unwrap();
    let pk_raw = BASE64.decode(pk_text.as_slice()).unwrap();
    let sk_raw = BASE64.decode(sk_text.as_slice()).unwrap();
    assert_eq!(32, pk_raw.len());
    assert_eq!(32, sk_raw.len());

    let keypair = read_keypair(&store, &profile).unwrap();
    assert_eq!(pk_raw, keypair.public_key);
    assert_eq!(sk_raw, keypair.secret_key);
}

#[test]
fn a_partial_key_pair_does_not_exist() {
    let mut store = MemStore::new();
    let profile = sample_profile();
    init(&mut store, &profile.name, &profile.storage, false).unwrap();
    assert!(keypair_exists(&store, &profile));

    store.remove_file(&"/vault/ivan.sk".to_string());
    assert!(key_file_exists(&store, &profile, Key::PublicKey));
    assert!(!key_file_exists(&store, &profile, Key::SecretKey));
    assert!(!keypair_exists(&store, &profile));
}

#[test]
fn a_key_file_that_is_not_base64_fails_to_decode() {
    let mut store = MemStore::new();
    let profile = sample_profile();
    init(&mut store, &profile.name, &profile.storage, false).unwrap();

    store
        .write_file(&"/vault/ivan.pk".to_string(), b"!!! not base64 !!!".as_slice())
        .unwrap();
    let err = read_keypair(&store, &profile).unwrap_err();
    assert_eq!(err.kind, ErrorKind::DecodeError);
}

#[test]
fn a_key_file_that_is_not_the_canonical_encoding_fails_to_decode() {
    let mut store = MemStore::new();
    let profile = sample_profile();
    init(&mut store, &profile.name, &profile.storage, false).unwrap();

    // Two concatenated padded blocks decode loosely to 32 bytes, but the
    // text is not the canonical encoding of any key.
    let mut blocks = BASE64.encode(&[7u8; 16]);
    blocks.push_str(&BASE64.encode(&[9u8; 16]));
    assert_eq!(32, BASE64.decode(blocks.as_bytes()).unwrap().len());
    store
        .write_file(&"/vault/ivan.pk".to_string(), blocks.as_bytes())
        .unwrap();
    let err = read_keypair(&store, &profile).unwrap_err();
    assert_eq!(err.kind, ErrorKind::DecodeError);
    assert_eq!(
        "Could not read public key: Could not decode key file",
        err.to_message()
    );
}

#[test]
fn a_key_of_the_wrong_size_fails_to_decode() {
    let mut store = MemStore::new();
    let profile = sample_profile();
    init(&mut store, &profile.name, &profile.storage, false).unwrap();

    let short = BASE64.encode(&[7u8; 16]);
    store
        .write_file(&"/vault/ivan.sk".to_string(), short.as_bytes())
        .unwrap();
    let err = read_keypair(&store, &profile).unwrap_err();
    assert_eq!(err.kind, ErrorKind::DecodeError);
    assert_eq!("Could not decode secret key", err.to_message());
}

#[test]
fn a_missing_key_file_is_not_found() {
    let store = MemStore::new();
    let profile = sample_profile();
    let err = read_keypair(&store, &profile).unwrap_err();
    assert_eq!(err.kind, ErrorKind::NotFound);
    assert_eq!(
        "Could not read public key: Could not read key file: Could not read file",
        err.to_message()
    );
}
