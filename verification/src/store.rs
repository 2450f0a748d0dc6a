use vstd::prelude::*;

use crate::errors::{AnyError, ErrorKind};
use crate::profile::Profile;

verus! {

/// A path or profile name, as the character sequence it denotes.
pub type PathChars = Seq<char>;

/// A set of paths or profile names.
pub type PathSet = Set<Seq<char>>;

/// The parseable profile records: profile name to storage directory.
pub type RecordMap = Map<Seq<char>, Seq<char>>;

/// The stored files: path to content.
pub type ContentMap = Map<Seq<char>, Seq<u8>>;

/// The data-access interface the core runs against, so a storage backend can
/// be substituted without touching the crypto or the orchestration: a
/// profile-record store (small named records at a well-known per-user
/// location, keyed by profile name) and a file store (paths to byte
/// contents, plus directories).
///
/// The abstract state is what the backing store currently serves: reads
/// report it exactly, while operations that write may fail — always with the
/// `PersistenceError` class — and leave at most the written entry changed.
pub trait Storage: Sized {
    /// The names that have a persisted profile record, parseable or not.
    spec fn records(&self) -> Set<Seq<char>>;

    /// The parseable profile records: profile name to storage directory.
    spec fn profiles(&self) -> Map<Seq<char>, Seq<char>>;

    /// The stored files: path to content. Profile records live in a
    /// namespace of their own and are not among them.
    spec fn files(&self) -> Map<Seq<char>, Seq<u8>>;

    /// The existing directories.
    spec fn dirs(&self) -> Set<Seq<char>>;

    /// What resolving a path to its absolute form returns, if anything.
    spec fn canon(&self, path: Seq<char>) -> Option<Seq<char>>;

    /// Every parseable record is among the present records.
    proof fn lemma_records_complete(&self)
        ensures
            self.profiles().dom() <= self.records(),
    ;

    /// Whether a record for this profile name is present.
    fn record_exists(&self, profile_name: &String) -> (r: bool)
        ensures
            r == self.records().contains(profile_name@),
    ;

    /// Reads and parses the record for this profile name: it fails exactly
    /// when the name has no parseable record — a missing record and a
    /// present but unparseable one fail under different classes.
    fn read_profile_record(&self, profile_name: &String) -> (r: Result<Profile, AnyError>)
        ensures
            match r {
                Ok(p) => {
                    &&& self.profiles().dom().contains(profile_name@)
                    &&& p.name@ == profile_name@
                    &&& p.storage@ == self.profiles()[profile_name@]
                },
                Err(e) => {
                    &&& !self.profiles().dom().contains(profile_name@)
                    &&& e.kind == (if self.records().contains(profile_name@) {
                        ErrorKind::Corrupt
                    } else {
                        ErrorKind::NotFound
                    })
                },
            },
    ;

    /// Writes the record for a profile, replacing any previous one. On
    /// failure, at most this profile's record is disturbed. Writing a record
    /// never changes how an existing directory resolves.
    fn save_profile_record(&mut self, profile: &Profile) -> (r: Result<(), AnyError>)
        ensures
            forall|p: Seq<char>|
                old(self).dirs().contains(p) ==> final(self).canon(p) == old(self).canon(p),
            match r {
                Ok(()) => {
                    &&& final(self).records() == old(self).records().insert(profile.name@)
                    &&& final(self).profiles() == old(self).profiles().insert(
                        profile.name@,
                        profile.storage@,
                    )
                    &&& final(self).files() == old(self).files()
                    &&& final(self).dirs() == old(self).dirs()
                },
                Err(e) => {
                    &&& e.kind == ErrorKind::PersistenceError
                    &&& final(self).records().remove(profile.name@) == old(self).records().remove(
                        profile.name@,
                    )
                    &&& final(self).profiles().remove(profile.name@) == old(
                        self,
                    ).profiles().remove(profile.name@)
                    &&& final(self).files() == old(self).files()
                    &&& final(self).dirs() == old(self).dirs()
                },
            },
    ;

    /// Whether this path is an existing directory.
    fn dir_exists(&self, path: &String) -> (r: bool)
        ensures
            r == self.dirs().contains(path@),
    ;

    /// Creates a directory, with its missing parents. On failure some
    /// parents may already have been created.
    fn create_dir(&mut self, path: &String) -> (r: Result<(), AnyError>)
        ensures
            old(self).dirs() <= final(self).dirs(),
            final(self).records() == old(self).records(),
            final(self).profiles() == old(self).profiles(),
            final(self).files() == old(self).files(),
            match r {
                Ok(()) => final(self).dirs().contains(path@),
                Err(e) => e.kind == ErrorKind::PersistenceError,
            },
    ;

    /// Resolves a path to its absolute, canonical form.
    fn canonicalize_dir(&self, path: &String) -> (r: Result<String, AnyError>)
        ensures
            match r {
                Ok(abs) => self.canon(path@) == Some(abs@),
                Err(e) => {
                    &&& self.canon(path@) is None
                    &&& e.kind == ErrorKind::PathExpansionFailed
                },
            },
    ;

    /// Whether a file exists at this path.
    fn file_exists(&self, path: &String) -> (r: bool)
        ensures
            r == self.files().dom().contains(path@),
    ;

    /// Reads the file at this path: it fails exactly when no file is there.
    fn read_file(&self, path: &String) -> (r: Result<Vec<u8>, AnyError>)
        ensures
            match r {
                Ok(v) => {
                    &&& self.files().dom().contains(path@)
                    &&& v@ == self.files()[path@]
                },
                Err(e) => {
                    &&& !self.files().dom().contains(path@)
                    &&& e.kind == ErrorKind::NotFound
                },
            },
    ;

    /// Writes a file at this path, replacing any previous content. On
    /// failure, at most this path is disturbed. Writing a file never changes
    /// how an existing directory resolves.
    fn write_file(&mut self, path: &String, content: &[u8]) -> (r: Result<(), AnyError>)
        ensures
            final(self).records() == old(self).records(),
            final(self).profiles() == old(self).profiles(),
            final(self).dirs() == old(self).dirs(),
            forall|p: Seq<char>|
                old(self).dirs().contains(p) ==> final(self).canon(p) == old(self).canon(p),
            match r {
                Ok(()) => final(self).files() == old(self).files().insert(path@, content@),
                Err(e) => {
                    &&& e.kind == ErrorKind::PersistenceError
                    &&& final(self).files().remove(path@) == old(self).files().remove(path@)
                },
            },
    ;
}

} // verus!
