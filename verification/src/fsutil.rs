//! Rules about files shared by sync, the publish gate and the state: which names are
//! conflict copies, which basenames repeat, and the content hash of a tree.
//! Walking directories and reading files is the service's part.

use vstd::prelude::*;
use vstd::relations::sorted_by;
use crate::order::{count, repeated_strings, str_strict};
use crate::paths::{extension, file_name, file_name_of, has_extension};
use crate::text::{contains, contains_str, hex_chars, hex_string, strs, string_from_chars};

verus! {

/// The marker Nextcloud puts in the name of a conflict copy, as in
/// `note (conflicted copy 2026-08-14 120000).md`.
pub open spec fn conflict_marker() -> Seq<char> {
    "(conflicted copy"@
}

/// Conflict copies are excluded from builds *and* reported: their existence
/// means a version of someone's work is about to be lost.
pub fn is_conflict_copy(name: &str) -> (res: bool)
    ensures
        res == contains(name@, conflict_marker()),
{
    contains_str(name, "(conflicted copy")
}

/// The file names of the paths in `files` that have extension `ext`, in order.
pub open spec fn names_with_extension(files: Seq<Seq<char>>, ext: Seq<char>) -> Seq<Seq<char>>
    decreases files.len(),
{
    if files.len() == 0 {
        seq![]
    } else {
        let rest = names_with_extension(files.drop_last(), ext);
        if extension(files.last()) == Some(ext) && file_name(files.last()) is Some {
            rest.push(file_name(files.last())->0)
        } else {
            rest
        }
    }
}

/// How many of `files` have extension `ext` (the pages of a release, with `html`).
pub open spec fn count_with_extension(files: Seq<Seq<char>>, ext: Seq<char>) -> nat
    decreases files.len(),
{
    if files.len() == 0 {
        0
    } else {
        count_with_extension(files.drop_last(), ext) + if extension(files.last()) == Some(ext) {
            1nat
        } else {
            0nat
        }
    }
}

/// Counts the paths with extension `ext` among the regular files of a tree.
pub fn count_files_with_extension(files: &Vec<String>, ext: &str) -> (res: usize)
    ensures
        res == count_with_extension(strs(files@), ext@),
{
    let ghost s = strs(files@);
    let mut n: usize = 0;
    let mut i: usize = 0;
    assert(s.take(0) =~= Seq::<Seq<char>>::empty());
    while i < files.len()
        invariant
            i <= files@.len(),
            s == strs(files@),
            n == count_with_extension(s.take(i as int), ext@),
            n <= i,
        decreases files@.len() - i,
    {
        assert(s.take(i + 1).drop_last() =~= s.take(i as int));
        if has_extension(files[i].as_str(), ext) {
            n = n + 1;
        }
        i = i + 1;
    }
    assert(s.take(files@.len() as int) =~= s);
    n
}

/// Basenames that occur more than once among the files with extension `ext`,
/// each once and in order. Wikilink resolution matches by basename, so
/// duplicates make some links silently point at the wrong page.
pub fn duplicate_basenames(files: &Vec<String>, ext: &str) -> (res: Vec<String>)
    ensures
        sorted_by(strs(res@), str_strict()),
        forall|y: Seq<char>| strs(res@).contains(y) <==> count(names_with_extension(strs(files@), ext@), y) > 1,
{
    let ghost s = strs(files@);
    let mut names: Vec<String> = Vec::new();
    let mut i: usize = 0;
    assert(s.take(0) =~= Seq::<Seq<char>>::empty());
    assert(strs(names@) =~= Seq::<Seq<char>>::empty());
    while i < files.len()
        invariant
            i <= files@.len(),
            s == strs(files@),
            strs(names@) == names_with_extension(s.take(i as int), ext@),
        decreases files@.len() - i,
    {
        assert(s.take(i + 1).drop_last() =~= s.take(i as int));
        if has_extension(files[i].as_str(), ext) {
            match file_name_of(files[i].as_str()) {
                Some(n) => {
                    let ghost before = strs(names@);
                    names.push(n);
                    assert(strs(names@) =~= before.push(file_name(s[i as int])->0));
                },
                None => {},
            }
        }
        i = i + 1;
    }
    assert(s.take(files@.len() as int) =~= s);
    repeated_strings(&names)
}

/// The SHA-256 of a byte string.
pub uninterp spec fn sha256(data: Seq<u8>) -> Seq<u8>;

/// `sha2::Sha256::digest`: the SHA-256 hash of `data`, which is 32 bytes.
#[verifier::external_body]
fn sha256_digest(data: &[u8]) -> (res: Vec<u8>)
    ensures
        res@ == sha256(data@),
        res@.len() == 32,
{
    <sha2::Sha256 as sha2::Digest>::digest(data).to_vec()
}

/// The bytes a tree hash covers: for each file, its relative path and its
/// contents, each followed by a zero byte.
pub open spec fn tree_bytes(files: Seq<(Seq<u8>, Seq<u8>)>) -> Seq<u8>
    decreases files.len(),
{
    if files.len() == 0 {
        seq![]
    } else {
        tree_bytes(files.drop_last()) + files.last().0 + seq![0u8] + files.last().1 + seq![0u8]
    }
}

/// The view of a list of (path, contents) pairs.
pub open spec fn file_views(files: Seq<(String, Vec<u8>)>) -> Seq<(Seq<u8>, Seq<u8>)> {
    files.map_values(|f: (String, Vec<u8>)| (vstd::utf8::encode_utf8(f.0@), f.1@))
}

/// Content hash of a directory tree, from its files in path order: relative
/// path and contents of each. Deliberately not mtime-based — timestamps are
/// unreliable across sync boundaries.
pub fn tree_hash(files: &Vec<(String, Vec<u8>)>) -> (res: String)
    ensures
        res@ == hex_string(sha256(tree_bytes(file_views(files@)))),
{
    let ghost fs = file_views(files@);
    let mut data: Vec<u8> = Vec::new();
    let mut i: usize = 0;
    assert(fs.take(0) =~= Seq::<(Seq<u8>, Seq<u8>)>::empty());
    while i < files.len()
        invariant
            i <= files@.len(),
            fs == file_views(files@),
            data@ == tree_bytes(fs.take(i as int)),
        decreases files@.len() - i,
    {
        assert(fs.take(i + 1).drop_last() =~= fs.take(i as int));
        let ghost before = data@;
        let path = files[i].0.as_str().as_bytes();
        let mut k: usize = 0;
        while k < path.len()
            invariant
                k <= path@.len(),
                data@ == before + path@.subrange(0, k as int),
            decreases path@.len() - k,
        {
            data.push(path[k]);
            assert(data@ =~= before + path@.subrange(0, k + 1));
            k = k + 1;
        }
        assert(path@.subrange(0, path@.len() as int) =~= path@);
        data.push(0u8);
        let ghost mid = data@;
        let body = &files[i].1;
        let mut k: usize = 0;
        while k < body.len()
            invariant
                k <= body@.len(),
                data@ == mid + body@.subrange(0, k as int),
            decreases body@.len() - k,
        {
            data.push(body[k]);
            assert(data@ =~= mid + body@.subrange(0, k + 1));
            k = k + 1;
        }
        assert(body@.subrange(0, body@.len() as int) =~= body@);
        data.push(0u8);
        assert(data@ =~= tree_bytes(fs.take(i + 1)));
        i = i + 1;
    }
    assert(fs.take(files@.len() as int) =~= fs);
    let digest = sha256_digest(data.as_slice());
    let hex = hex_chars(&digest);
    string_from_chars(&hex)
}

} // verus!
