use moy_sekret::{
    create_profile, create_storage_dir, encrypt, expand_storage_dir, profile_exists,
    storage_dir_exists, AnyError, ContentMap, ErrorKind, MemStore, PathChars, PathSet, Profile,
    RecordMap, Storage,
};

/// A store holding one profile record that is present but does not parse.
struct CorruptRecordStore {
    inner: MemStore,
    corrupt_name: String,
}

impl Storage for CorruptRecordStore {
    // The ghost state of the store is never evaluated at run time; these
    // bodies only satisfy the trait's erased signatures.
    fn records(&self) -> PathSet {
        unreachable!()
    }

    fn profiles(&self) -> RecordMap {
        unreachable!()
    }

    fn files(&self) -> ContentMap {
        unreachable!()
    }

    fn dirs(&self) -> PathSet {
        unreachable!()
    }

    fn canon(&self, _path: PathChars) -> Option<PathChars> {
        unreachable!()
    }

    fn lemma_records_complete(&self) {}

    fn record_exists(&self, profile_name: &String) -> bool {
        *profile_name == self.corrupt_name || self.inner.record_exists(profile_name)
    }

    fn read_profile_record(&self, profile_name: &String) -> Result<Profile, AnyError> {
        if *profile_name == self.corrupt_name {
            Err(AnyError::new(
                ErrorKind::Corrupt,
                "Could not parse profile file",
                None,
            ))
        } else {
            self.inner.read_profile_record(profile_name)
        }
    }

    fn save_profile_record(&mut self, profile: &Profile) -> Result<(), AnyError> {
        self.inner.save_profile_record(profile)
    }

    fn dir_exists(&self, path: &String) -> bool {
        self.inner.dir_exists(path)
    }

    fn create_dir(&mut self, path: &String) -> Result<(), AnyError> {
        self.inner.create_dir(path)
    }

    fn canonicalize_dir(&self, path: &String) -> Result<String, AnyError> {
        self.inner.canonicalize_dir(path)
    }

    fn file_exists(&self, path: &String) -> bool {
        self.inner.file_exists(path)
    }

    fn read_file(&self, path: &String) -> Result<Vec<u8>, AnyError> {
        self.inner.read_file(path)
    }

    fn write_file(&mut self, path: &String, content: &[u8]) -> Result<(), AnyError> {
        self.inner.write_file(path, content)
    }
}

#[test]
fn a_record_that_does_not_parse_is_corrupt() {
    let mut store = CorruptRecordStore {
        inner: MemStore::new(),
        corrupt_name: "mallory".to_string(),
    };
    let source = "/docs/report.txt".to_string();
    store.write_file(&source, b"text".as_slice()).unwrap();

    // A record that does not parse does not count as an existing profile.
    assert!(!profile_exists(&store, &"mallory".to_string()));
    let err = encrypt(&mut store, &"mallory".to_string(), &source, false).unwrap_err();
    assert_eq!(err.kind, ErrorKind::Corrupt);
    assert_eq!(
        "Encryption failed while reading user profile: Could not parse profile file",
        err.to_message()
    );
}

#[test]
fn an_unknown_directory_cannot_be_expanded() {
    let store = MemStore::new();
    let err = expand_storage_dir(&store, &"/nowhere".to_string()).unwrap_err();
    assert_eq!(err.kind, ErrorKind::PathExpansionFailed);
    assert_eq!("Could not expand storage directory", err.to_message());
}

#[test]
fn creating_a_storage_dir_is_idempotent() {
    let mut store = MemStore::new();
    let dir = "/vault".to_string();
    assert!(!storage_dir_exists(&store, &dir));
    create_storage_dir(&mut store, &dir).unwrap();
    assert!(storage_dir_exists(&store, &dir));
    create_storage_dir(&mut store, &dir).unwrap();
    assert!(storage_dir_exists(&store, &dir));
    assert_eq!("/vault", expand_storage_dir(&store, &dir).unwrap());
}

#[test]
fn creating_a_profile_persists_its_record() {
    let mut store = MemStore::new();
    let profile = create_profile(&mut store, &"judy".to_string(), &"/vault".to_string()).unwrap();
    assert_eq!("judy", profile.name);
    assert_eq!("/vault", profile.storage);
    assert!(profile_exists(&store, &"judy".to_string()));
    assert!(!profile_exists(&store, &"someone_else".to_string()));
}
