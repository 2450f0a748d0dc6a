use vstd::prelude::*;
use vstd::string::StrSliceExecFns;
use vstd::string::StringExecFns;

use crate::profile::Profile;

verus! {

/// The index of the last occurrence of `c` in `s`, if any.
pub open spec fn spec_last_index_of(s: Seq<char>, c: char) -> Option<int>
    decreases s.len(),
{
    if s.len() == 0 {
        None
    } else if s.last() == c {
        Some(s.len() - 1)
    } else {
        spec_last_index_of(s.drop_last(), c)
    }
}

/// `spec_last_index_of` finds an occurrence with nothing equal after it, and
/// reports `None` exactly on sequences without any occurrence.
pub proof fn lemma_last_index_of_props(s: Seq<char>, c: char)
    ensures
        match spec_last_index_of(s, c) {
            Some(i) => {
                &&& 0 <= i < s.len()
                &&& s[i] == c
                &&& forall|j: int| i < j < s.len() ==> s[j] != c
            },
            None => forall|j: int| 0 <= j < s.len() ==> s[j] != c,
        },
    decreases s.len(),
{
    if s.len() > 0 && s.last() != c {
        lemma_last_index_of_props(s.drop_last(), c);
        assert forall|j: int| 0 <= j < s.len() - 1 implies s.drop_last()[j] == s[j] by {}
    }
}

/// An occurrence with nothing equal after it is the last one.
pub proof fn lemma_last_index_of_found(s: Seq<char>, c: char, i: int)
    requires
        0 <= i < s.len(),
        s[i] == c,
        forall|j: int| i < j < s.len() ==> s[j] != c,
    ensures
        spec_last_index_of(s, c) == Some(i),
    decreases s.len(),
{
    if i < s.len() - 1 {
        assert(s.last() != c);
        lemma_last_index_of_found(s.drop_last(), c, i);
    }
}

/// The base name of a path: everything after the last `/` separator, or the
/// whole path when it has none.
pub open spec fn spec_basename(p: Seq<char>) -> Seq<char> {
    match spec_last_index_of(p, '/') {
        Some(i) => p.subrange(i + 1, p.len() as int),
        None => p,
    }
}

/// The stem of a file name: everything before the last `.`, except that a
/// `.` in front alone never splits a name.
pub open spec fn spec_stem(name: Seq<char>) -> Seq<char> {
    match spec_last_index_of(name, '.') {
        Some(i) => if i > 0 {
            name.subrange(0, i)
        } else {
            name
        },
        None => name,
    }
}

/// Whether a path carries the envelope extension `.cz`.
pub open spec fn spec_is_envelope_name(p: Seq<char>) -> bool {
    p.len() >= 3 && p.subrange(p.len() - 3, p.len() as int) == seq!['.', 'c', 'z']
}

/// The target path of an encrypted file: the base name of the source with
/// the envelope extension appended, placed flat in the storage directory.
pub open spec fn spec_encrypted_name(storage: Seq<char>, path: Seq<char>) -> Seq<char> {
    storage + seq!['/'] + spec_basename(path) + seq!['.', 'c', 'z']
}

/// The target path of a decrypted file: the stem of the source's base name,
/// placed in the destination directory.
pub open spec fn spec_decrypted_name(dest: Seq<char>, path: Seq<char>) -> Seq<char> {
    dest + seq!['/'] + spec_stem(spec_basename(path))
}

/// A base name never contains the separator.
pub proof fn lemma_basename_no_slash(p: Seq<char>)
    ensures
        forall|k: int| 0 <= k < spec_basename(p).len() ==> spec_basename(p)[k] != '/',
{
    lemma_last_index_of_props(p, '/');
}

fn last_index_of_char(s: &str, c: char) -> (r: Option<usize>)
    ensures
        match r {
            Some(i) => spec_last_index_of(s@, c) == Some(i as int),
            None => spec_last_index_of(s@, c) is None,
        },
{
    let n = s.unicode_len();
    let mut i = n;
    while i > 0
        invariant
            i <= n,
            n == s@.len(),
            forall|j: int| i <= j < n ==> s@[j] != c,
        decreases i,
    {
        i = i - 1;
        if s.get_char(i) == c {
            proof {
                lemma_last_index_of_found(s@, c, i as int);
            }
            return Some(i);
        }
    }
    proof {
        lemma_last_index_of_props(s@, c);
    }
    None
}

fn basename_str<'a>(p: &'a str) -> (r: &'a str)
    ensures
        r@ == spec_basename(p@),
{
    let n = p.unicode_len();
    match last_index_of_char(p, '/') {
        Some(i) => {
            proof {
                lemma_last_index_of_props(p@, '/');
            }
            p.substring_char(i + 1, n)
        },
        None => p,
    }
}

fn stem_str<'a>(name: &'a str) -> (r: &'a str)
    ensures
        r@ == spec_stem(name@),
{
    match last_index_of_char(name, '.') {
        Some(i) => {
            proof {
                lemma_last_index_of_props(name@, '.');
            }
            if i > 0 {
                name.substring_char(0, i)
            } else {
                name
            }
        },
        None => name,
    }
}

/// Whether a path already carries the envelope extension.
pub fn has_envelope_extension(p: &str) -> (r: bool)
    ensures
        r == spec_is_envelope_name(p@),
{
    let n = p.unicode_len();
    if n < 3 {
        return false;
    }
    let r = p.get_char(n - 3) == '.' && p.get_char(n - 2) == 'c' && p.get_char(n - 1) == 'z';
    proof {
        assert(p@.subrange(p@.len() - 3, p@.len() as int) =~= seq![
            p@[p@.len() - 3],
            p@[p@.len() - 2],
            p@[p@.len() - 1],
        ]);
    }
    r
}

/// The path the encrypted copy of `file_name` is written to for `profile`:
/// the base name with `.cz` appended, inside the profile's storage
/// directory.
pub fn get_encrypted_file_name(profile: &Profile, file_name: &String) -> (r: String)
    ensures
        r@ == spec_encrypted_name(profile.storage@, file_name@),
{
    proof {
        reveal_strlit("/");
        reveal_strlit(".cz");
        assert("/"@ =~= seq!['/']);
        assert(".cz"@ =~= seq!['.', 'c', 'z']);
    }
    let mut out = profile.storage.clone();
    out.append("/");
    out.append(basename_str(file_name.as_str()));
    out.append(".cz");
    out
}

/// The path the decrypted copy of `file_name` is written to: the base name
/// with its final extension stripped, inside the destination directory.
pub fn get_decrypted_file_name(file_name: &String, dest_dir: &String) -> (r: String)
    ensures
        r@ == spec_decrypted_name(dest_dir@, file_name@),
{
    proof {
        reveal_strlit("/");
        assert("/"@ =~= seq!['/']);
    }
    let mut out = dest_dir.clone();
    out.append("/");
    out.append(stem_str(basename_str(file_name.as_str())));
    out
}

/// Law: an encrypted name always carries the envelope extension, and the
/// decryption transform strips exactly what the encryption transform
/// appended — decrypting `D/<base>.cz` into `X` names `X/<base>` — for any
/// source path with a nonempty base name.
pub proof fn lemma_naming_round_trip(storage: Seq<char>, dest: Seq<char>, path: Seq<char>)
    requires
        spec_basename(path).len() > 0,
    ensures
        spec_is_envelope_name(spec_encrypted_name(storage, path)),
        spec_decrypted_name(dest, spec_encrypted_name(storage, path)) == dest + seq!['/']
            + spec_basename(path),
{
    let base = spec_basename(path);
    let enc = spec_encrypted_name(storage, path);
    assert(enc.subrange(enc.len() - 3, enc.len() as int) =~= seq!['.', 'c', 'z']);
    lemma_basename_no_slash(path);
    assert(enc[storage.len() as int] == '/');
    assert forall|j: int| storage.len() < j < enc.len() implies enc[j] != '/' by {
        if j < storage.len() + 1 + base.len() {
            assert(enc[j] == base[j - storage.len() - 1]);
        }
    }
    lemma_last_index_of_found(enc, '/', storage.len() as int);
    let encbase = spec_basename(enc);
    assert(encbase =~= base + seq!['.', 'c', 'z']);
    assert(encbase[base.len() as int] == '.');
    assert forall|j: int| base.len() < j < encbase.len() implies encbase[j] != '.' by {}
    lemma_last_index_of_found(encbase, '.', base.len() as int);
    assert(spec_stem(encbase) =~= base);
    assert(spec_decrypted_name(dest, enc) == dest + seq!['/'] + base);
}

} // verus!
