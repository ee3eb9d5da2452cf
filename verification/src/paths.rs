//! Paths as strings, with the Unix semantics of `std::path` that the service
//! relies on: joining, splitting into components, lexical normalisation, and
//! containment.
//!
//! A path's components are its `/`-separated parts without empty and `.`
//! parts, preceded by `"/"` when the path is absolute. `..` stays a part.

use vstd::prelude::*;
use crate::text::{chars_eq, chars_of, push_all, slice_chars, split_char, split_chars, string_from_chars};

verus! {

/// `Path::join` on Unix: an absolute `rel` replaces `base`; otherwise one `/`
/// separates them unless `base` is empty or already ends in one.
pub open spec fn join(base: Seq<char>, rel: Seq<char>) -> Seq<char> {
    if rel.len() > 0 && rel[0] == '/' {
        rel
    } else if base.len() == 0 {
        rel
    } else if base.last() == '/' {
        base + rel
    } else {
        base + seq!['/'] + rel
    }
}

pub fn join_path(base: &str, rel: &str) -> (res: String)
    ensures
        res@ == join(base@, rel@),
{
    let b = chars_of(base);
    let r = chars_of(rel);
    if r.len() > 0 && r[0] == '/' {
        return string_from_chars(&r);
    }
    if b.len() == 0 {
        return string_from_chars(&r);
    }
    let mut out = slice_chars(&b, 0, b.len());
    assert(out@ =~= b@);
    if b[b.len() - 1] != '/' {
        out.push('/');
    }
    push_all(&mut out, &r);
    string_from_chars(&out)
}

/// Whether a `/`-separated part names something (it is neither empty nor `.`).
pub open spec fn is_named_part(s: Seq<char>) -> bool {
    s.len() > 0 && s != seq!['.']
}

/// The named parts of `parts`, in order.
pub open spec fn named_parts(parts: Seq<Seq<char>>) -> Seq<Seq<char>>
    decreases parts.len(),
{
    if parts.len() == 0 {
        seq![]
    } else if is_named_part(parts.last()) {
        named_parts(parts.drop_last()).push(parts.last())
    } else {
        named_parts(parts.drop_last())
    }
}

/// The components of a path (`Path::components` on Unix, with `.` dropped).
pub open spec fn components(p: Seq<char>) -> Seq<Seq<char>> {
    let root: Seq<Seq<char>> = if p.len() > 0 && p[0] == '/' { seq![seq!['/']] } else { seq![] };
    root + named_parts(split_char(p, '/'))
}

/// One step of lexical normalisation: `..` removes the last part (never the
/// root, and nothing from an empty path); anything else is appended.
pub open spec fn normalize_step(acc: Seq<Seq<char>>, c: Seq<char>) -> Seq<Seq<char>> {
    if c == seq!['.', '.'] {
        if acc.len() > 0 && acc.last() != seq!['/'] {
            acc.drop_last()
        } else {
            acc
        }
    } else {
        acc.push(c)
    }
}

/// Lexical normalisation of a component list, left to right.
pub open spec fn normalize_comps(cs: Seq<Seq<char>>) -> Seq<Seq<char>>
    decreases cs.len(),
{
    if cs.len() == 0 {
        seq![]
    } else {
        normalize_step(normalize_comps(cs.drop_last()), cs.last())
    }
}

/// The components of `p` after lexical normalisation; no path needs to exist.
pub open spec fn normal_components(p: Seq<char>) -> Seq<Seq<char>> {
    normalize_comps(components(p))
}

/// Whether `inner` lies at or below `outer`, comparing normalised components.
pub open spec fn path_within(inner: Seq<char>, outer: Seq<char>) -> bool {
    normal_components(outer).is_prefix_of(normal_components(inner))
}

fn is_named_part_exec(s: &Vec<char>) -> (res: bool)
    ensures
        res == is_named_part(s@),
{
    if s.len() == 0 {
        return false;
    }
    if s.len() == 1 && s[0] == '.' {
        assert(s@ =~= seq!['.']);
        return false;
    }
    if s.len() == 1 {
        assert(s@ != seq!['.']) by {
            assert(s@[0] != seq!['.'][0]);
        }
    }
    true
}

fn is_parent_part(s: &Vec<char>) -> (res: bool)
    ensures
        res == (s@ == seq!['.', '.']),
{
    if s.len() == 2 && s[0] == '.' && s[1] == '.' {
        assert(s@ =~= seq!['.', '.']);
        true
    } else {
        if s.len() == 2 {
            assert(s@ != seq!['.', '.']) by {
                if s@[0] != '.' {
                    assert(s@[0] != seq!['.', '.'][0]);
                } else {
                    assert(s@[1] != seq!['.', '.'][1]);
                }
            }
        }
        false
    }
}

fn is_root_part(s: &Vec<char>) -> (res: bool)
    ensures
        res == (s@ == seq!['/']),
{
    if s.len() == 1 && s[0] == '/' {
        assert(s@ =~= seq!['/']);
        true
    } else {
        if s.len() == 1 {
            assert(s@[0] != seq!['/'][0]);
        }
        false
    }
}

/// The views of a vector of character vectors.
pub open spec fn views(v: Seq<Vec<char>>) -> Seq<Seq<char>> {
    v.map_values(|x: Vec<char>| x@)
}

pub fn components_exec(p: &Vec<char>) -> (res: Vec<Vec<char>>)
    ensures
        views(res@) == components(p@),
{
    let parts = split_chars(p, '/');
    let mut out: Vec<Vec<char>> = Vec::new();
    if p.len() > 0 && p[0] == '/' {
        let mut root: Vec<char> = Vec::new();
        root.push('/');
        out.push(root);
    }
    let ghost root_part: Seq<Seq<char>> = if p@.len() > 0 && p@[0] == '/' {
        seq![seq!['/']]
    } else {
        seq![]
    };
    assert(views(out@) =~= root_part);
    let ghost all = split_char(p@, '/');
    assert(all.take(0) =~= Seq::<Seq<char>>::empty());
    let mut i: usize = 0;
    while i < parts.len()
        invariant
            i <= parts@.len(),
            parts@.len() == all.len(),
            forall|k: int| 0 <= k < parts@.len() ==> #[trigger] parts@[k]@ == all[k],
            views(out@) == root_part + named_parts(all.take(i as int)),
        decreases parts@.len() - i,
    {
        assert(all.take(i + 1).drop_last() =~= all.take(i as int));
        let ghost before = views(out@);
        if is_named_part_exec(&parts[i]) {
            let piece = slice_chars(&parts[i], 0, parts[i].len());
            assert(piece@ =~= parts@[i as int]@);
            out.push(piece);
            assert(views(out@) =~= before.push(piece@));
        }
        i = i + 1;
    }
    assert(all.take(parts@.len() as int) =~= all);
    out
}

pub fn normalize_exec(cs: &Vec<Vec<char>>) -> (res: Vec<Vec<char>>)
    ensures
        views(res@) == normalize_comps(views(cs@)),
{
    let mut acc: Vec<Vec<char>> = Vec::new();
    let ghost all = views(cs@);
    assert(all.take(0) =~= Seq::<Seq<char>>::empty());
    assert(views(acc@) =~= Seq::<Seq<char>>::empty());
    let mut i: usize = 0;
    while i < cs.len()
        invariant
            i <= cs@.len(),
            all == views(cs@),
            views(acc@) == normalize_comps(all.take(i as int)),
        decreases cs@.len() - i,
    {
        assert(all.take(i + 1).drop_last() =~= all.take(i as int));
        assert(all.take(i + 1).last() == cs@[i as int]@);
        let ghost before = views(acc@);
        if is_parent_part(&cs[i]) {
            if acc.len() > 0 && !is_root_part(&acc[acc.len() - 1]) {
                acc.pop();
                assert(views(acc@) =~= before.drop_last());
            }
        } else {
            let piece = slice_chars(&cs[i], 0, cs[i].len());
            assert(piece@ =~= cs@[i as int]@);
            acc.push(piece);
            assert(views(acc@) =~= before.push(piece@));
        }
        i = i + 1;
    }
    assert(all.take(cs@.len() as int) =~= all);
    acc
}

/// `path_within`, decided by normalising both paths and comparing components.
pub fn path_within_exec(inner: &str, outer: &str) -> (res: bool)
    ensures
        res == path_within(inner@, outer@),
{
    let iv = chars_of(inner);
    let ov = chars_of(outer);
    let ic = components_exec(&iv);
    let oc = components_exec(&ov);
    let inn = normalize_exec(&ic);
    let out = normalize_exec(&oc);
    let ghost a = views(out@);
    let ghost b = views(inn@);
    assert(a.len() == out@.len() && b.len() == inn@.len());
    assert(a == normal_components(outer@));
    assert(b == normal_components(inner@));
    if out.len() > inn.len() {
        assert(!a.is_prefix_of(b));
        return false;
    }
    let mut k: usize = 0;
    while k < out.len()
        invariant
            out@.len() <= inn@.len(),
            k <= out@.len(),
            a == views(out@),
            b == views(inn@),
            a == normal_components(outer@),
            b == normal_components(inner@),
            forall|j: int| 0 <= j < k ==> a[j] == b[j],
        decreases out@.len() - k,
    {
        if !chars_eq(&out[k], &inn[k]) {
            assert(a[k as int] != b[k as int]);
            assert(b.subrange(0, a.len() as int)[k as int] != a[k as int]);
            return false;
        }
        k = k + 1;
    }
    assert(b.subrange(0, a.len() as int) =~= a);
    true
}

/// The last component of a path when it is a name (`Path::file_name`).
pub open spec fn file_name(p: Seq<char>) -> Option<Seq<char>> {
    let cs = components(p);
    if cs.len() > 0 && cs.last() != seq!['/'] && cs.last() != seq!['.', '.'] {
        Some(cs.last())
    } else {
        None
    }
}

pub fn file_name_exec(p: &Vec<char>) -> (res: Option<Vec<char>>)
    ensures
        match (res, file_name(p@)) {
            (Some(a), Some(b)) => a@ == b,
            (None, None) => true,
            _ => false,
        },
{
    let cs = components_exec(p);
    if cs.len() == 0 {
        return None;
    }
    let last = &cs[cs.len() - 1];
    assert(views(cs@).last() == last@);
    if is_root_part(last) || is_parent_part(last) {
        return None;
    }
    Some(slice_chars(last, 0, last.len()))
}

/// Index of the last `c` in `s`, or -1.
pub open spec fn last_index(s: Seq<char>, c: char) -> int
    decreases s.len(),
{
    if s.len() == 0 {
        -1
    } else if s.last() == c {
        s.len() - 1
    } else {
        last_index(s.drop_last(), c)
    }
}

/// The extension of a path (`Path::extension`): what follows the last `.` of
/// the file name, when that `.` is not its first character.
pub open spec fn extension(p: Seq<char>) -> Option<Seq<char>> {
    match file_name(p) {
        None => None,
        Some(f) => {
            let i = last_index(f, '.');
            if i <= 0 {
                None
            } else {
                Some(f.skip(i + 1))
            }
        },
    }
}

fn rfind_char(v: &Vec<char>, c: char) -> (res: Option<usize>)
    ensures
        match res {
            Some(i) => last_index(v@, c) == i as int && i < v@.len(),
            None => last_index(v@, c) == -1,
        },
{
    let mut end = v.len();
    assert(v@.subrange(0, end as int) =~= v@);
    while end > 0
        invariant
            end <= v@.len(),
            last_index(v@.subrange(0, end as int), c) == last_index(v@, c),
        decreases end,
    {
        let ghost t = v@.subrange(0, end as int);
        if v[end - 1] == c {
            return Some(end - 1);
        }
        assert(t.drop_last() =~= v@.subrange(0, end - 1));
        end = end - 1;
    }
    None
}

/// Whether `path` has exactly the extension `ext`.
pub fn has_extension(path: &str, ext: &str) -> (res: bool)
    ensures
        res == (extension(path@) == Some(ext@)),
{
    let p = chars_of(path);
    let e = chars_of(ext);
    match file_name_exec(&p) {
        None => false,
        Some(f) => match rfind_char(&f, '.') {
            None => false,
            Some(i) => {
                if i == 0 {
                    return false;
                }
                let flen = f.len();
                assert(i < flen);
                let tail = slice_chars(&f, i + 1, flen);
                assert(tail@ =~= f@.skip(i + 1));
                chars_eq(&tail, &e)
            },
        },
    }
}

/// The file name of a path as a string.
pub fn file_name_of(path: &str) -> (res: Option<String>)
    ensures
        match (res, file_name(path@)) {
            (Some(a), Some(b)) => a@ == b,
            (None, None) => true,
            _ => false,
        },
{
    let p = chars_of(path);
    match file_name_exec(&p) {
        None => None,
        Some(f) => Some(string_from_chars(&f)),
    }
}

} // verus!
