use vstd::prelude::*;
use vstd::slice::slice_to_vec;

use crate::errors::{error_without_parent, AnyError, ErrorKind};
use crate::profile::Profile;
use crate::store::Storage;

verus! {

/// The map an association list denotes: later entries override earlier
/// ones.
spec fn assoc_view<V: View>(entries: Seq<(String, V)>) -> Map<Seq<char>, V::V>
    decreases entries.len(),
{
    if entries.len() == 0 {
        Map::empty()
    } else {
        assoc_view(entries.drop_last()).insert(entries.last().0@, entries.last().1@)
    }
}

/// The set of strings a list denotes.
spec fn str_set(entries: Seq<String>) -> Set<Seq<char>>
    decreases entries.len(),
{
    if entries.len() == 0 {
        Set::empty()
    } else {
        str_set(entries.drop_last()).insert(entries.last()@)
    }
}

proof fn lemma_assoc_contains<V: View>(entries: Seq<(String, V)>, k: Seq<char>)
    ensures
        assoc_view(entries).dom().contains(k) <==> exists|i: int|
            0 <= i < entries.len() && entries[i].0@ == k,
    decreases entries.len(),
{
    if entries.len() > 0 {
        lemma_assoc_contains(entries.drop_last(), k);
        if entries.last().0@ == k {
            assert(entries[entries.len() - 1].0@ == k);
        } else if assoc_view(entries).dom().contains(k) {
            let i = choose|i: int| 0 <= i < entries.len() - 1 && entries.drop_last()[i].0@ == k;
            assert(entries[i].0@ == k);
        } else if exists|i: int| 0 <= i < entries.len() && entries[i].0@ == k {
            let i = choose|i: int| 0 <= i < entries.len() && entries[i].0@ == k;
            assert(entries.drop_last()[i].0@ == k);
        }
    }
}

proof fn lemma_assoc_lookup<V: View>(entries: Seq<(String, V)>, i: int)
    requires
        0 <= i < entries.len(),
        forall|j: int| i < j < entries.len() ==> entries[j].0@ != entries[i].0@,
    ensures
        assoc_view(entries).dom().contains(entries[i].0@),
        assoc_view(entries)[entries[i].0@] == entries[i].1@,
    decreases entries.len(),
{
    if i < entries.len() - 1 {
        assert(entries.drop_last()[i] == entries[i]);
        lemma_assoc_lookup(entries.drop_last(), i);
        assert(entries.last().0@ != entries[i].0@);
    }
}

proof fn lemma_str_set_contains(entries: Seq<String>, k: Seq<char>)
    ensures
        str_set(entries).contains(k) <==> exists|i: int|
            0 <= i < entries.len() && entries[i]@ == k,
    decreases entries.len(),
{
    if entries.len() > 0 {
        lemma_str_set_contains(entries.drop_last(), k);
        if entries.last()@ == k {
            assert(entries[entries.len() - 1]@ == k);
        } else if str_set(entries).contains(k) {
            let i = choose|i: int| 0 <= i < entries.len() - 1 && entries.drop_last()[i]@ == k;
            assert(entries[i]@ == k);
        } else if exists|i: int| 0 <= i < entries.len() && entries[i]@ == k {
            let i = choose|i: int| 0 <= i < entries.len() && entries[i]@ == k;
            assert(entries.drop_last()[i]@ == k);
        }
    }
}

fn assoc_find<'a, V: View>(entries: &'a Vec<(String, V)>, key: &String) -> (r: Option<&'a V>)
    ensures
        match r {
            Some(v) => {
                &&& assoc_view(entries@).dom().contains(key@)
                &&& v@ == assoc_view(entries@)[key@]
            },
            None => !assoc_view(entries@).dom().contains(key@),
        },
{
    let n = entries.len();
    let mut i = n;
    while i > 0
        invariant
            i <= n,
            n == entries@.len(),
            forall|j: int| i <= j < n ==> entries@[j].0@ != key@,
        decreases i,
    {
        i = i - 1;
        let entry = &entries[i];
        if entry.0 == *key {
            proof {
                lemma_assoc_lookup(entries@, i as int);
            }
            return Some(&entry.1);
        }
    }
    proof {
        lemma_assoc_contains(entries@, key@);
    }
    None
}

fn str_list_contains(entries: &Vec<String>, key: &String) -> (r: bool)
    ensures
        r == str_set(entries@).contains(key@),
{
    let n = entries.len();
    let mut i = n;
    while i > 0
        invariant
            i <= n,
            n == entries@.len(),
            forall|j: int| i <= j < n ==> entries@[j]@ != key@,
        decreases i,
    {
        i = i - 1;
        if entries[i] == *key {
            proof {
                lemma_str_set_contains(entries@, key@);
            }
            return true;
        }
    }
    proof {
        lemma_str_set_contains(entries@, key@);
    }
    false
}

fn clone_vec_u8(v: &Vec<u8>) -> (r: Vec<u8>)
    ensures
        r@ == v@,
{
    slice_to_vec(v.as_slice())
}

/// An in-memory backing store: profile records, files and directories held
/// as plain lists, later entries overriding earlier ones. Its writes never
/// fail, and a path resolves to itself once its directory exists — the
/// reference implementation of `Storage`, against which the whole pipeline
/// runs without touching a real file system.
pub struct MemStore {
    record_entries: Vec<(String, String)>,
    file_entries: Vec<(String, Vec<u8>)>,
    dir_entries: Vec<String>,
    denied_dirs: Vec<String>,
}

impl MemStore {
    /// The paths where directory creation is denied, as on a read-only or
    /// root-owned file system.
    pub closed spec fn denied(&self) -> Set<Seq<char>> {
        str_set(self.denied_dirs@)
    }

    /// An empty store: no records, no files, no directories, nothing denied.
    pub fn new() -> (r: MemStore)
        ensures
            r.records() == Set::<Seq<char>>::empty(),
            r.profiles() == Map::<Seq<char>, Seq<char>>::empty(),
            r.files() == Map::<Seq<char>, Seq<u8>>::empty(),
            r.dirs() == Set::<Seq<char>>::empty(),
            r.denied() == Set::<Seq<char>>::empty(),
    {
        let r = MemStore {
            record_entries: Vec::new(),
            file_entries: Vec::new(),
            dir_entries: Vec::new(),
            denied_dirs: Vec::new(),
        };
        proof {
            assert(r.records() =~= Set::<Seq<char>>::empty());
        }
        r
    }

    /// Marks a path as denied: creating a directory there fails from now on,
    /// the way a forbidden location on a real file system would.
    pub fn deny_dir(&mut self, path: &String)
        ensures
            final(self).denied() == old(self).denied().insert(path@),
            final(self).records() == old(self).records(),
            final(self).profiles() == old(self).profiles(),
            final(self).files() == old(self).files(),
            final(self).dirs() == old(self).dirs(),
    {
        let ghost before = self.denied_dirs@;
        self.denied_dirs.push(path.clone());
        proof {
            assert(self.denied_dirs@.drop_last() =~= before);
        }
    }

    /// Removes the file at this path, if any.
    pub fn remove_file(&mut self, path: &String)
        ensures
            final(self).files() == old(self).files().remove(path@),
            final(self).records() == old(self).records(),
            final(self).profiles() == old(self).profiles(),
            final(self).dirs() == old(self).dirs(),
    {
        let n = self.file_entries.len();
        let mut kept: Vec<(String, Vec<u8>)> = Vec::new();
        let mut i: usize = 0;
        proof {
            assert(self.file_entries@.subrange(0, 0) =~= Seq::<(String, Vec<u8>)>::empty());
        }
        while i < n
            invariant
                i <= n,
                *self == *old(self),
                n == self.file_entries@.len(),
                assoc_view(kept@) == assoc_view(self.file_entries@.subrange(0, i as int)).remove(
                    path@,
                ),
            decreases n - i,
        {
            let entry = &self.file_entries[i];
            let ghost prefix = self.file_entries@.subrange(0, i as int);
            let ghost prefix1 = self.file_entries@.subrange(0, i as int + 1);
            proof {
                assert(prefix1.drop_last() =~= prefix);
                assert(prefix1.last() == self.file_entries@[i as int]);
            }
            if entry.0 == *path {
                proof {
                    assert(assoc_view(prefix1).remove(path@) =~= assoc_view(prefix).remove(path@));
                }
            } else {
                let pair = (entry.0.clone(), clone_vec_u8(&entry.1));
                let ghost kept_before = kept@;
                kept.push(pair);
                proof {
                    assert(kept@.drop_last() =~= kept_before);
                    assert(assoc_view(prefix1).remove(path@) =~= assoc_view(prefix).remove(
                        path@,
                    ).insert(entry.0@, entry.1@));
                }
            }
            i = i + 1;
        }
        proof {
            assert(self.file_entries@.subrange(0, n as int) =~= self.file_entries@);
        }
        self.file_entries = kept;
    }
}

impl Storage for MemStore {
    closed spec fn records(&self) -> Set<Seq<char>> {
        assoc_view(self.record_entries@).dom()
    }

    closed spec fn profiles(&self) -> Map<Seq<char>, Seq<char>> {
        assoc_view(self.record_entries@)
    }

    closed spec fn files(&self) -> Map<Seq<char>, Seq<u8>> {
        assoc_view(self.file_entries@)
    }

    closed spec fn dirs(&self) -> Set<Seq<char>> {
        str_set(self.dir_entries@)
    }

    closed spec fn canon(&self, path: Seq<char>) -> Option<Seq<char>> {
        if str_set(self.dir_entries@).contains(path) {
            Some(path)
        } else {
            None
        }
    }

    proof fn lemma_records_complete(&self) {
        assert forall|n: Seq<char>|
            self.profiles().dom().contains(n) implies self.records().contains(n) by {}
    }

    fn record_exists(&self, profile_name: &String) -> (r: bool) {
        assoc_find(&self.record_entries, profile_name).is_some()
    }

    fn read_profile_record(&self, profile_name: &String) -> (r: Result<Profile, AnyError>) {
        match assoc_find(&self.record_entries, profile_name) {
            Some(storage) => Ok(
                Profile { name: profile_name.clone(), storage: storage.clone() },
            ),
            None => error_without_parent(ErrorKind::NotFound, "Could not read profile"),
        }
    }

    fn save_profile_record(&mut self, profile: &Profile) -> (r: Result<(), AnyError>)
        ensures
            r is Ok,
    {
        let ghost before = self.record_entries@;
        self.record_entries.push((profile.name.clone(), profile.storage.clone()));
        proof {
            assert(self.record_entries@.drop_last() =~= before);
            assert(final(self).records() =~= old(self).records().insert(profile.name@));
        }
        Ok(())
    }

    fn dir_exists(&self, path: &String) -> (r: bool) {
        str_list_contains(&self.dir_entries, path)
    }

    fn create_dir(&mut self, path: &String) -> (r: Result<(), AnyError>)
        ensures
            r is Err <==> old(self).denied().contains(path@),
            r is Err ==> r->Err_0.spec_message() == "Permission denied (os error 13)"@,
    {
        if str_list_contains(&self.denied_dirs, path) {
            let denial = AnyError::new(
                ErrorKind::PersistenceError,
                "Permission denied (os error 13)",
                None,
            );
            return Err(denial);
        }
        let ghost before = self.dir_entries@;
        self.dir_entries.push(path.clone());
        proof {
            assert(self.dir_entries@.drop_last() =~= before);
            assert(old(self).dirs() <= final(self).dirs());
        }
        Ok(())
    }

    fn canonicalize_dir(&self, path: &String) -> (r: Result<String, AnyError>)
        ensures
            r is Ok <==> self.dirs().contains(path@),
    {
        if str_list_contains(&self.dir_entries, path) {
            Ok(path.clone())
        } else {
            error_without_parent(ErrorKind::PathExpansionFailed, "Could not expand storage directory")
        }
    }

    fn file_exists(&self, path: &String) -> (r: bool) {
        assoc_find(&self.file_entries, path).is_some()
    }

    fn read_file(&self, path: &String) -> (r: Result<Vec<u8>, AnyError>) {
        match assoc_find(&self.file_entries, path) {
            Some(content) => Ok(clone_vec_u8(content)),
            None => error_without_parent(ErrorKind::NotFound, "Could not read file"),
        }
    }

    fn write_file(&mut self, path: &String, content: &[u8]) -> (r: Result<(), AnyError>)
        ensures
            r is Ok,
    {
        let ghost before = self.file_entries@;
        self.file_entries.push((path.clone(), slice_to_vec(content)));
        proof {
            assert(self.file_entries@.drop_last() =~= before);
        }
        Ok(())
    }
}

} // verus!
