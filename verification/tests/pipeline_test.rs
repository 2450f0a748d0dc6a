use moy_sekret::{
    decrypt, encrypt, get_decrypted_file_name, get_encrypted_file_name, has_envelope_extension,
    init, keypair_exists, ErrorKind, MemStore, Profile, Storage,
};

#[test]
fn full_scenario_init_encrypt_decrypt() {
    let mut store = MemStore::new();
    let profile = "alice".to_string();
    let vault = "/tmp/vault".to_string();

    init(&mut store, &profile, &vault, false).unwrap();
    assert!(store.file_exists(&"/tmp/vault/alice.pk".to_string()));
    assert!(store.file_exists(&"/tmp/vault/alice.sk".to_string()));

    let notes = "/tmp/notes.txt".to_string();
    let content = b"dear diary".to_vec();
    store.write_file(&notes, content.as_slice()).unwrap();

    encrypt(&mut store, &profile, &notes, false).unwrap();
    let sealed = "/tmp/vault/notes.txt.cz".to_string();
    assert!(store.file_exists(&sealed));

    decrypt(&mut store, &profile, &sealed, &"/tmp/out".to_string(), false).unwrap();
    let restored = store.read_file(&"/tmp/out/notes.txt".to_string()).unwrap();
    assert_eq!(content, restored);
    // The envelope is consumed logically, not deleted.
    assert!(store.file_exists(&sealed));
}

#[test]
fn overriding_init_replaces_the_key_pair() {
    let mut store = MemStore::new();
    let profile = "bob".to_string();
    let vault = "/vault".to_string();
    init(&mut store, &profile, &vault, false).unwrap();

    let secret = "/home/bob/secret.txt".to_string();
    store.write_file(&secret, b"irreplaceable".as_slice()).unwrap();
    encrypt(&mut store, &profile, &secret, false).unwrap();

    init(&mut store, &profile, &vault, true).unwrap();

    let sealed = "/vault/secret.txt.cz".to_string();
    let err = decrypt(&mut store, &profile, &sealed, &"/out".to_string(), false).unwrap_err();
    assert_eq!(err.kind, ErrorKind::AuthenticationFailed);
}

#[test]
fn encrypting_an_envelope_again_is_refused() {
    let mut store = MemStore::new();
    let profile = "carol".to_string();
    init(&mut store, &profile, &"/vault".to_string(), false).unwrap();

    let report = "/docs/report.txt".to_string();
    store.write_file(&report, b"quarterly".as_slice()).unwrap();
    encrypt(&mut store, &profile, &report, false).unwrap();
    assert!(store.file_exists(&"/vault/report.txt.cz".to_string()));

    let err = encrypt(&mut store, &profile, &"/vault/report.txt.cz".to_string(), false)
        .unwrap_err();
    assert_eq!(err.kind, ErrorKind::AlreadyEncrypted);
    assert_eq!(
        "Encryption failed because source file was already encrypted by this program (.cz)",
        err.to_message()
    );
}

#[test]
fn naming_transform_appends_and_strips_the_envelope_extension() {
    let profile = Profile {
        name: "dave".to_string(),
        storage: "/vault".to_string(),
    };
    assert_eq!(
        "/vault/report.txt.cz",
        get_encrypted_file_name(&profile, &"/docs/report.txt".to_string())
    );
    assert_eq!(
        "out/report.txt",
        get_decrypted_file_name(&"/vault/report.txt.cz".to_string(), &"out".to_string())
    );
    assert_eq!(
        "/vault/bar.tar.gz.cz",
        get_encrypted_file_name(&profile, &"bar.tar.gz".to_string())
    );
    assert_eq!(
        "out/bar.tar.gz",
        get_decrypted_file_name(&"/vault/bar.tar.gz.cz".to_string(), &"out".to_string())
    );
    assert!(has_envelope_extension("report.txt.cz"));
    assert!(has_envelope_extension(".cz"));
    assert!(!has_envelope_extension("report.txt"));
    assert!(!has_envelope_extension("cz"));
}

#[test]
fn decrypting_a_plain_file_is_refused() {
    let mut store = MemStore::new();
    let profile = "erin".to_string();
    init(&mut store, &profile, &"/vault".to_string(), false).unwrap();
    let err = decrypt(
        &mut store,
        &profile,
        &"/docs/report.txt".to_string(),
        &"out".to_string(),
        false,
    )
    .unwrap_err();
    assert_eq!(err.kind, ErrorKind::NotAnEnvelope);
    assert_eq!(
        "Decryption failed because source file was not made by this program (.cz)",
        err.to_message()
    );
}

#[test]
fn encrypting_a_missing_source_is_refused() {
    let mut store = MemStore::new();
    let profile = "frank".to_string();
    init(&mut store, &profile, &"/vault".to_string(), false).unwrap();
    let err = encrypt(&mut store, &profile, &"/docs/ghost.txt".to_string(), false).unwrap_err();
    assert_eq!(err.kind, ErrorKind::NotFound);
    assert_eq!(
        "Encryption failed because source file does not exists",
        err.to_message()
    );
}

#[test]
fn encrypting_for_an_unknown_profile_is_refused() {
    let mut store = MemStore::new();
    let source = "/docs/report.txt".to_string();
    store.write_file(&source, b"text".as_slice()).unwrap();
    let err = encrypt(&mut store, &"nobody".to_string(), &source, false).unwrap_err();
    assert_eq!(err.kind, ErrorKind::NotFound);
}

#[test]
fn an_existing_target_needs_the_override_flag() {
    let mut store = MemStore::new();
    let profile = "grace".to_string();
    init(&mut store, &profile, &"/vault".to_string(), false).unwrap();
    let source = "/docs/report.txt".to_string();
    store.write_file(&source, b"v1".as_slice()).unwrap();
    encrypt(&mut store, &profile, &source, false).unwrap();

    let err = encrypt(&mut store, &profile, &source, false).unwrap_err();
    assert_eq!(err.kind, ErrorKind::AlreadyExists);
    assert_eq!(
        "Encryption failed because target file already exists",
        err.to_message()
    );

    store.write_file(&source, b"v2".as_slice()).unwrap();
    encrypt(&mut store, &profile, &source, true).unwrap();
    let sealed = "/vault/report.txt.cz".to_string();
    decrypt(&mut store, &profile, &sealed, &"/out".to_string(), false).unwrap();
    assert_eq!(
        b"v2".to_vec(),
        store.read_file(&"/out/report.txt".to_string()).unwrap()
    );
}

#[test]
fn missing_key_files_fail_with_not_found() {
    let mut store = MemStore::new();
    let profile_name = "heidi".to_string();
    init(&mut store, &profile_name, &"/vault".to_string(), false).unwrap();
    let source = "/docs/report.txt".to_string();
    store.write_file(&source, b"text".as_slice()).unwrap();
    encrypt(&mut store, &profile_name, &source, false).unwrap();

    let profile = Profile {
        name: "heidi".to_string(),
        storage: "/vault".to_string(),
    };
    store.remove_file(&"/vault/heidi.pk".to_string());
    assert!(!keypair_exists(&store, &profile));

    let err = encrypt(&mut store, &profile_name, &source, true).unwrap_err();
    assert_eq!(err.kind, ErrorKind::NotFound);

    let sealed = "/vault/report.txt.cz".to_string();
    let err = decrypt(&mut store, &profile_name, &sealed, &"/out".to_string(), false).unwrap_err();
    assert_eq!(err.kind, ErrorKind::NotFound);

    store.remove_file(&"/vault/heidi.sk".to_string());
    let err = encrypt(&mut store, &profile_name, &source, true).unwrap_err();
    assert_eq!(err.kind, ErrorKind::NotFound);
}
