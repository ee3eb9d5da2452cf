//! Character-level string helpers with exact specifications.
//!
//! Strings are handled as sequences of `char`s. The two conversions between
//! `&str` and `Vec<char>` are the only places where std is trusted; everything
//! else here is verified against the spec function next to it.

use vstd::prelude::*;

verus! {

/// The characters of `s`, in order (`str::chars` collected into a vector).
#[verifier::external_body]
pub(crate) fn chars_of(s: &str) -> (res: Vec<char>)
    ensures
        res@ == s@,
{
    s.chars().collect()
}

/// A `String` holding exactly the characters of `v` (`String: FromIterator<&char>`).
#[verifier::external_body]
pub(crate) fn string_from_chars(v: &Vec<char>) -> (res: String)
    ensures
        res@ == v@,
{
    v.iter().collect()
}

/// A `String` with the characters of `s` (`str::to_string`).
pub fn owned(s: &str) -> (res: String)
    ensures
        res@ == s@,
{
    let v = chars_of(s);
    string_from_chars(&v)
}

/// Appends the characters of `s` to `out`.
pub fn push_str(out: &mut Vec<char>, s: &str)
    ensures
        final(out)@ == old(out)@ + s@,
{
    let v = chars_of(s);
    push_all(out, &v);
}

/// Appends the characters of `v` to `out`.
pub fn push_all(out: &mut Vec<char>, v: &Vec<char>)
    ensures
        final(out)@ == old(out)@ + v@,
{
    let ghost start = out@;
    let mut i: usize = 0;
    while i < v.len()
        invariant
            i <= v@.len(),
            out@ == start + v@.subrange(0, i as int),
        decreases v@.len() - i,
    {
        out.push(v[i]);
        assert(out@ =~= start + v@.subrange(0, i + 1));
        i = i + 1;
    }
    assert(v@.subrange(0, v@.len() as int) =~= v@);
}

/// The characters `v[from..to]` as a new vector.
pub fn slice_chars(v: &Vec<char>, from: usize, to: usize) -> (res: Vec<char>)
    requires
        from <= to <= v@.len(),
    ensures
        res@ == v@.subrange(from as int, to as int),
{
    let mut out: Vec<char> = Vec::new();
    let mut i = from;
    while i < to
        invariant
            from <= i <= to <= v@.len(),
            out@ == v@.subrange(from as int, i as int),
        decreases to - i,
    {
        out.push(v[i]);
        assert(out@ =~= v@.subrange(from as int, i + 1));
        i = i + 1;
    }
    out
}

/// Whether two character sequences are equal, decided element by element.
pub fn chars_eq(a: &Vec<char>, b: &Vec<char>) -> (res: bool)
    ensures
        res == (a@ == b@),
{
    if a.len() != b.len() {
        return false;
    }
    let mut i: usize = 0;
    while i < a.len()
        invariant
            a@.len() == b@.len(),
            i <= a@.len(),
            forall|j: int| 0 <= j < i ==> a@[j] == b@[j],
        decreases a@.len() - i,
    {
        if a[i] != b[i] {
            return false;
        }
        i = i + 1;
    }
    assert(a@ =~= b@);
    true
}

/// Whether `a` and `b` hold the same characters.
pub fn str_eq(a: &str, b: &str) -> (res: bool)
    ensures
        res == (a@ == b@),
{
    let va = chars_of(a);
    let vb = chars_of(b);
    chars_eq(&va, &vb)
}

// ---------------------------------------------------------------------------
// Trimming

/// `s` with every trailing `c` removed (`str::trim_end_matches` with a char).
pub open spec fn trim_end_char(s: Seq<char>, c: char) -> Seq<char>
    decreases s.len(),
{
    if s.len() > 0 && s.last() == c {
        trim_end_char(s.drop_last(), c)
    } else {
        s
    }
}

/// `s` with every leading `c` removed (`str::trim_start_matches` with a char).
pub open spec fn trim_start_char(s: Seq<char>, c: char) -> Seq<char>
    decreases s.len(),
{
    if s.len() > 0 && s[0] == c {
        trim_start_char(s.drop_first(), c)
    } else {
        s
    }
}

/// `s` with `c` removed from both ends (`str::trim_matches` with a char).
pub open spec fn trim_char(s: Seq<char>, c: char) -> Seq<char> {
    trim_end_char(trim_start_char(s, c), c)
}

pub fn trim_end_chars(v: &Vec<char>, c: char) -> (res: Vec<char>)
    ensures
        res@ == trim_end_char(v@, c),
{
    let mut end = v.len();
    assert(v@.subrange(0, end as int) =~= v@);
    while end > 0 && v[end - 1] == c
        invariant
            end <= v@.len(),
            trim_end_char(v@.subrange(0, end as int), c) == trim_end_char(v@, c),
        decreases end,
    {
        assert(v@.subrange(0, end as int).drop_last() =~= v@.subrange(0, end - 1));
        end = end - 1;
    }
    slice_chars(v, 0, end)
}

pub fn trim_start_chars(v: &Vec<char>, c: char) -> (res: Vec<char>)
    ensures
        res@ == trim_start_char(v@, c),
{
    let mut start: usize = 0;
    assert(v@.subrange(0, v@.len() as int) =~= v@);
    while start < v.len() && v[start] == c
        invariant
            start <= v@.len(),
            trim_start_char(v@.subrange(start as int, v@.len() as int), c) == trim_start_char(v@, c),
        decreases v@.len() - start,
    {
        assert(v@.subrange(start as int, v@.len() as int).drop_first()
            =~= v@.subrange(start + 1, v@.len() as int));
        start = start + 1;
    }
    slice_chars(v, start, v.len())
}

pub fn trim_chars(v: &Vec<char>, c: char) -> (res: Vec<char>)
    ensures
        res@ == trim_char(v@, c),
{
    let s = trim_start_chars(v, c);
    trim_end_chars(&s, c)
}

/// `char::is_whitespace`: the Unicode `White_Space` property.
pub open spec fn is_white(c: char) -> bool {
    ||| ('\u{9}' <= c && c <= '\u{d}')
    ||| c == ' '
    ||| c == '\u{85}'
    ||| c == '\u{a0}'
    ||| c == '\u{1680}'
    ||| ('\u{2000}' <= c && c <= '\u{200a}')
    ||| c == '\u{2028}'
    ||| c == '\u{2029}'
    ||| c == '\u{202f}'
    ||| c == '\u{205f}'
    ||| c == '\u{3000}'
}

pub fn is_whitespace(c: char) -> (res: bool)
    ensures
        res == is_white(c),
{
    ('\u{9}' <= c && c <= '\u{d}') || c == ' ' || c == '\u{85}' || c == '\u{a0}' || c == '\u{1680}'
        || ('\u{2000}' <= c && c <= '\u{200a}') || c == '\u{2028}' || c == '\u{2029}' || c
        == '\u{202f}' || c == '\u{205f}' || c == '\u{3000}'
}

/// `s` without leading whitespace.
pub open spec fn trim_start_white(s: Seq<char>) -> Seq<char>
    decreases s.len(),
{
    if s.len() > 0 && is_white(s[0]) {
        trim_start_white(s.drop_first())
    } else {
        s
    }
}

/// `s` without trailing whitespace.
pub open spec fn trim_end_white(s: Seq<char>) -> Seq<char>
    decreases s.len(),
{
    if s.len() > 0 && is_white(s.last()) {
        trim_end_white(s.drop_last())
    } else {
        s
    }
}

/// `str::trim`: whitespace removed from both ends.
pub open spec fn trim_white(s: Seq<char>) -> Seq<char> {
    trim_end_white(trim_start_white(s))
}

pub fn trim_whitespace(v: &Vec<char>) -> (res: Vec<char>)
    ensures
        res@ == trim_white(v@),
{
    let mut start: usize = 0;
    assert(v@.subrange(0, v@.len() as int) =~= v@);
    while start < v.len() && is_whitespace(v[start])
        invariant
            start <= v@.len(),
            trim_start_white(v@.subrange(start as int, v@.len() as int)) == trim_start_white(v@),
        decreases v@.len() - start,
    {
        assert(v@.subrange(start as int, v@.len() as int).drop_first()
            =~= v@.subrange(start + 1, v@.len() as int));
        start = start + 1;
    }
    let s = slice_chars(v, start, v.len());
    let mut end = s.len();
    assert(s@.subrange(0, end as int) =~= s@);
    while end > 0 && is_whitespace(s[end - 1])
        invariant
            end <= s@.len(),
            trim_end_white(s@.subrange(0, end as int)) == trim_end_white(s@),
        decreases end,
    {
        assert(s@.subrange(0, end as int).drop_last() =~= s@.subrange(0, end - 1));
        end = end - 1;
    }
    slice_chars(&s, 0, end)
}

/// `str::trim` on a string.
pub fn trim_str(s: &str) -> (res: String)
    ensures
        res@ == trim_white(s@),
{
    let v = chars_of(s);
    let t = trim_whitespace(&v);
    string_from_chars(&t)
}

// ---------------------------------------------------------------------------
// Searching

/// Index of the first `c` in `s`, or -1.
pub open spec fn first_index(s: Seq<char>, c: char) -> int
    decreases s.len(),
{
    if s.len() == 0 {
        -1
    } else if s[0] == c {
        0
    } else {
        let r = first_index(s.drop_first(), c);
        if r < 0 {
            -1
        } else {
            r + 1
        }
    }
}

pub proof fn lemma_first_index(s: Seq<char>, c: char, i: int)
    requires
        0 <= i <= s.len(),
        i < s.len() ==> s[i] == c,
        forall|j: int| 0 <= j < i ==> s[j] != c,
    ensures
        first_index(s, c) == (if i < s.len() { i } else { -1 }),
    decreases s.len(),
{
    if s.len() > 0 && i > 0 {
        lemma_first_index(s.drop_first(), c, i - 1);
    }
}

/// `first_index` computed by a scan.
pub fn find_char(v: &Vec<char>, c: char) -> (res: Option<usize>)
    ensures
        match res {
            Some(i) => first_index(v@, c) == i as int && i < v@.len(),
            None => first_index(v@, c) == -1,
        },
{
    let mut i: usize = 0;
    while i < v.len()
        invariant
            i <= v@.len(),
            forall|j: int| 0 <= j < i ==> v@[j] != c,
        decreases v@.len() - i,
    {
        if v[i] == c {
            proof {
                lemma_first_index(v@, c, i as int);
            }
            return Some(i);
        }
        i = i + 1;
    }
    proof {
        lemma_first_index(v@, c, i as int);
    }
    None
}

/// Whether `p` occurs in `s` starting at index `i`.
pub open spec fn occurs_at(s: Seq<char>, p: Seq<char>, i: int) -> bool {
    0 <= i && i + p.len() <= s.len() && s.subrange(i, i + p.len()) == p
}

/// Index of the first occurrence of `p` in `s`, or -1.
pub open spec fn find(s: Seq<char>, p: Seq<char>) -> int
    decreases s.len(),
{
    if p.is_prefix_of(s) {
        0
    } else if s.len() == 0 {
        -1
    } else {
        let r = find(s.drop_first(), p);
        if r < 0 {
            -1
        } else {
            r + 1
        }
    }
}

/// `str::contains` with a string pattern.
pub open spec fn contains(s: Seq<char>, p: Seq<char>) -> bool {
    find(s, p) >= 0
}

pub proof fn lemma_prefix_occurs(s: Seq<char>, p: Seq<char>, i: int)
    requires
        0 <= i <= s.len(),
    ensures
        p.is_prefix_of(s.subrange(i, s.len() as int)) == occurs_at(s, p, i),
{
    if p.len() <= s.len() - i {
        assert(s.subrange(i, s.len() as int).subrange(0, p.len() as int) =~= s.subrange(
            i,
            i + p.len(),
        ));
    }
}

pub proof fn lemma_find(s: Seq<char>, p: Seq<char>, i: int)
    requires
        0 <= i <= s.len() + 1,
        i <= s.len() ==> occurs_at(s, p, i),
        forall|j: int| 0 <= j < i ==> !occurs_at(s, p, j),
    ensures
        find(s, p) == (if i <= s.len() { i } else { -1 }),
    decreases s.len(),
{
    lemma_prefix_occurs(s, p, 0);
    assert(s.subrange(0, s.len() as int) =~= s);
    if i > 0 && s.len() > 0 {
        assert forall|j: int| 0 <= j < i - 1 implies !occurs_at(s.drop_first(), p, j) by {
            if occurs_at(s.drop_first(), p, j) {
                assert(s.drop_first().subrange(j, j + p.len()) =~= s.subrange(j + 1, j + 1 + p.len()));
                assert(occurs_at(s, p, j + 1));
            }
        }
        if i - 1 <= s.drop_first().len() {
            assert(s.drop_first().subrange(i - 1, i - 1 + p.len()) =~= s.subrange(i, i + p.len()));
        }
        lemma_find(s.drop_first(), p, i - 1);
    } else if i > 0 {
        assert(!occurs_at(s, p, 0));
    }
}

/// Whether `p` occurs in `s` at index `i`, decided by comparison.
pub fn occurs_at_exec(s: &Vec<char>, p: &Vec<char>, i: usize) -> (res: bool)
    ensures
        res == occurs_at(s@, p@, i as int),
{
    if i > s.len() || p.len() > s.len() - i {
        return false;
    }
    let mut k: usize = 0;
    while k < p.len()
        invariant
            i + p@.len() <= s@.len(),
            s@.len() == s.len(),
            k <= p@.len(),
            forall|j: int| 0 <= j < k ==> s@[i + j] == p@[j],
        decreases p@.len() - k,
    {
        if s[i + k] != p[k] {
            assert(s@.subrange(i as int, i + p@.len())[k as int] != p@[k as int]);
            return false;
        }
        k = k + 1;
    }
    assert(s@.subrange(i as int, i + p@.len()) =~= p@);
    true
}

/// `find` computed by a scan.
pub fn find_exec(s: &Vec<char>, p: &Vec<char>) -> (res: Option<usize>)
    ensures
        match res {
            Some(i) => find(s@, p@) == i as int && occurs_at(s@, p@, i as int),
            None => find(s@, p@) == -1,
        },
{
    let mut i: usize = 0;
    while i < s.len()
        invariant
            i <= s@.len(),
            forall|j: int| 0 <= j < i ==> !occurs_at(s@, p@, j),
        decreases s@.len() - i,
    {
        if occurs_at_exec(s, p, i) {
            proof {
                lemma_find(s@, p@, i as int);
            }
            return Some(i);
        }
        i = i + 1;
    }
    if occurs_at_exec(s, p, i) {
        proof {
            lemma_find(s@, p@, i as int);
        }
        return Some(i);
    }
    proof {
        lemma_find(s@, p@, i + 1);
    }
    None
}

/// `str::contains` with a string pattern.
pub fn contains_str(s: &str, p: &str) -> (res: bool)
    ensures
        res == contains(s@, p@),
{
    let vs = chars_of(s);
    let vp = chars_of(p);
    find_exec(&vs, &vp).is_some()
}

/// `str::split_once` with a string pattern.
pub open spec fn split_once(s: Seq<char>, p: Seq<char>) -> Option<(Seq<char>, Seq<char>)> {
    let i = find(s, p);
    if i < 0 {
        None
    } else {
        Some((s.take(i), s.skip(i + p.len())))
    }
}

pub fn split_once_exec(s: &Vec<char>, p: &Vec<char>) -> (res: Option<(Vec<char>, Vec<char>)>)
    ensures
        match (res, split_once(s@, p@)) {
            (Some((a, b)), Some((x, y))) => a@ == x && b@ == y,
            (None, None) => true,
            _ => false,
        },
{
    match find_exec(s, p) {
        Some(i) => {
            let slen = s.len();
            let plen = p.len();
            assert(i + plen <= slen);
            let a = slice_chars(s, 0, i);
            let b = slice_chars(s, i + plen, slen);
            assert(a@ =~= s@.take(i as int));
            assert(b@ =~= s@.skip(i + p@.len()));
            Some((a, b))
        },
        None => None,
    }
}

/// `str::replacen(from, to, 1)`: the first occurrence of `from` replaced.
pub open spec fn replace_first(s: Seq<char>, from: Seq<char>, to: Seq<char>) -> Seq<char> {
    let i = find(s, from);
    if i < 0 {
        s
    } else {
        s.take(i) + to + s.skip(i + from.len())
    }
}

pub fn replace_first_exec(s: &Vec<char>, from: &Vec<char>, to: &Vec<char>) -> (res: Vec<char>)
    ensures
        res@ == replace_first(s@, from@, to@),
{
    match find_exec(s, from) {
        Some(i) => {
            let slen = s.len();
            let flen = from.len();
            assert(i + flen <= slen);
            let mut out = slice_chars(s, 0, i);
            push_all(&mut out, to);
            let rest = slice_chars(s, i + flen, slen);
            push_all(&mut out, &rest);
            assert(out@ =~= s@.take(i as int) + to@ + s@.skip(i + from@.len()));
            out
        },
        None => slice_chars(s, 0, s.len()),
    }
}

/// `s` with every trailing occurrence of `p` removed (`str::trim_end_matches`
/// with a string pattern). An empty pattern removes nothing.
pub open spec fn trim_end_pat(s: Seq<char>, p: Seq<char>) -> Seq<char>
    decreases s.len(),
{
    if p.len() > 0 && p.len() <= s.len() && s.subrange(s.len() - p.len(), s.len() as int) == p {
        trim_end_pat(s.subrange(0, s.len() - p.len()), p)
    } else {
        s
    }
}

pub fn trim_end_pat_exec(s: &Vec<char>, p: &Vec<char>) -> (res: Vec<char>)
    ensures
        res@ == trim_end_pat(s@, p@),
{
    let mut end = s.len();
    assert(s@.subrange(0, end as int) =~= s@);
    while p.len() > 0 && p.len() <= end && occurs_at_exec(s, p, end - p.len())
        invariant
            end <= s@.len(),
            trim_end_pat(s@.subrange(0, end as int), p@) == trim_end_pat(s@, p@),
        decreases end,
    {
        let ghost t = s@.subrange(0, end as int);
        assert(t.subrange(t.len() - p@.len(), t.len() as int) =~= s@.subrange(
            end - p@.len(),
            end as int,
        ));
        assert(t.subrange(0, t.len() - p@.len()) =~= s@.subrange(0, end - p@.len()));
        end = end - p.len();
    }
    proof {
        let t = s@.subrange(0, end as int);
        if p@.len() > 0 && p@.len() <= end {
            assert(t.subrange(t.len() - p@.len(), t.len() as int) =~= s@.subrange(
                end - p@.len(),
                end as int,
            ));
        }
    }
    slice_chars(s, 0, end)
}

// ---------------------------------------------------------------------------
// Splitting

/// `str::split` with a char separator.
pub open spec fn split_char(s: Seq<char>, c: char) -> Seq<Seq<char>>
    decreases s.len(),
{
    let i = first_index(s, c);
    if i < 0 {
        seq![s]
    } else {
        proof {
            lemma_first_index_range(s, c);
        }
        seq![s.take(i)] + split_char(s.skip(i + 1), c)
    }
}

pub proof fn lemma_first_index_range(s: Seq<char>, c: char)
    ensures
        -1 <= first_index(s, c) < s.len(),
        first_index(s, c) >= 0 ==> s[first_index(s, c)] == c,
        forall|j: int| 0 <= j < first_index(s, c) ==> s[j] != c,
        first_index(s, c) < 0 ==> forall|j: int| 0 <= j < s.len() ==> s[j] != c,
    decreases s.len(),
{
    if s.len() > 0 && s[0] != c {
        lemma_first_index_range(s.drop_first(), c);
        assert forall|j: int| 0 < j < s.len() implies s[j] == s.drop_first()[j - 1] by {}
    }
}

/// The pieces of `v` between occurrences of `c`.
pub fn split_chars(v: &Vec<char>, c: char) -> (res: Vec<Vec<char>>)
    ensures
        res@.len() == split_char(v@, c).len(),
        forall|k: int| 0 <= k < res@.len() ==> #[trigger] res@[k]@ == split_char(v@, c)[k],
{
    let mut out: Vec<Vec<char>> = Vec::new();
    let mut start: usize = 0;
    let mut i: usize = 0;
    assert(v@.subrange(0, v@.len() as int) =~= v@);
    assert(out@.map_values(|x: Vec<char>| x@) + split_char(v@, c) =~= split_char(v@, c));
    while i < v.len()
        invariant
            start <= i <= v@.len(),
            forall|j: int| start <= j < i ==> v@[j] != c,
            split_char(v@, c) == out@.map_values(|x: Vec<char>| x@) + split_char(
                v@.subrange(start as int, v@.len() as int),
                c,
            ),
        decreases v@.len() - i,
    {
        if v[i] == c {
            let piece = slice_chars(v, start, i);
            let ghost rest = v@.subrange(start as int, v@.len() as int);
            proof {
                lemma_first_index(rest, c, i - start);
                assert(rest.take(i - start) =~= piece@);
                assert(rest.skip(i - start + 1) =~= v@.subrange(i + 1, v@.len() as int));
            }
            let ghost before = out@.map_values(|x: Vec<char>| x@);
            out.push(piece);
            assert(out@.map_values(|x: Vec<char>| x@) =~= before.push(piece@));
            start = i + 1;
        }
        i = i + 1;
    }
    let last = slice_chars(v, start, v.len());
    proof {
        let rest = v@.subrange(start as int, v@.len() as int);
        lemma_first_index(rest, c, rest.len() as int);
        assert(rest =~= last@);
    }
    let ghost before = out@.map_values(|x: Vec<char>| x@);
    out.push(last);
    assert(out@.map_values(|x: Vec<char>| x@) =~= before.push(last@));
    assert forall|k: int| 0 <= k < out@.len() implies #[trigger] out@[k]@ == split_char(v@, c)[k] by {
        assert(out@.map_values(|x: Vec<char>| x@)[k] == out@[k]@);
    }
    out
}

// ---------------------------------------------------------------------------
// Numbers

/// The decimal digit character for `d < 10`.
pub open spec fn digit_char(d: nat) -> char {
    if d == 0 { '0' }
    else if d == 1 { '1' }
    else if d == 2 { '2' }
    else if d == 3 { '3' }
    else if d == 4 { '4' }
    else if d == 5 { '5' }
    else if d == 6 { '6' }
    else if d == 7 { '7' }
    else if d == 8 { '8' }
    else { '9' }
}

/// The decimal representation of `n`, without leading zeros.
pub open spec fn decimal(n: nat) -> Seq<char>
    decreases n,
{
    if n < 10 {
        seq![digit_char(n)]
    } else {
        decimal(n / 10).push(digit_char(n % 10))
    }
}

/// `n` in decimal, left-padded with zeros to at least `width` characters
/// (`format!("{n:0width$}")`).
pub open spec fn padded(n: nat, width: nat) -> Seq<char> {
    let d = decimal(n);
    if d.len() < width {
        Seq::new((width - d.len()) as nat, |i: int| '0') + d
    } else {
        d
    }
}

/// A signed integer in decimal (`format!("{n}")`).
pub open spec fn decimal_int(n: int) -> Seq<char> {
    if n < 0 {
        seq!['-'] + decimal((-n) as nat)
    } else {
        decimal(n as nat)
    }
}

pub fn digit(d: u64) -> (c: char)
    requires
        d < 10,
    ensures
        c == digit_char(d as nat),
{
    if d == 0 { '0' }
    else if d == 1 { '1' }
    else if d == 2 { '2' }
    else if d == 3 { '3' }
    else if d == 4 { '4' }
    else if d == 5 { '5' }
    else if d == 6 { '6' }
    else if d == 7 { '7' }
    else if d == 8 { '8' }
    else { '9' }
}

pub fn decimal_chars(n: u64) -> (res: Vec<char>)
    ensures
        res@ == decimal(n as nat),
    decreases n,
{
    if n < 10 {
        let mut v: Vec<char> = Vec::new();
        v.push(digit(n));
        assert(v@ =~= seq![digit_char(n as nat)]);
        v
    } else {
        let mut v = decimal_chars(n / 10);
        v.push(digit(n % 10));
        v
    }
}

pub proof fn lemma_decimal_len(n: nat)
    ensures
        decimal(n).len() >= 1,
        n < 10 ==> decimal(n).len() == 1,
        n >= 10 ==> decimal(n).len() == decimal(n / 10).len() + 1,
    decreases n,
{
    if n >= 10 {
        lemma_decimal_len(n / 10);
    }
}

pub fn padded_chars(n: u64, width: usize) -> (res: Vec<char>)
    ensures
        res@ == padded(n as nat, width as nat),
{
    let d = decimal_chars(n);
    if d.len() < width {
        let mut out: Vec<char> = Vec::new();
        let mut i: usize = 0;
        while i < width - d.len()
            invariant
                d.len() < width,
                i <= width - d@.len(),
                out@ == Seq::new(i as nat, |k: int| '0'),
            decreases width - d@.len() - i,
        {
            out.push('0');
            assert(out@ =~= Seq::new((i + 1) as nat, |k: int| '0'));
            i = i + 1;
        }
        push_all(&mut out, &d);
        out
    } else {
        d
    }
}

/// `format!("{n}")` for an `i64`.
pub fn decimal_int_chars(n: i64) -> (res: Vec<char>)
    ensures
        res@ == decimal_int(n as int),
{
    if n < 0 {
        let m: u64 = if n == i64::MIN {
            9223372036854775808u64
        } else {
            (-n) as u64
        };
        let d = decimal_chars(m);
        let mut out: Vec<char> = Vec::new();
        out.push('-');
        push_all(&mut out, &d);
        assert(out@ =~= seq!['-'] + decimal((-n) as nat));
        out
    } else {
        decimal_chars(n as u64)
    }
}

/// The lower-case hexadecimal digit for `d < 16`.
pub open spec fn hex_lower(d: nat) -> char {
    if d < 10 { digit_char(d) }
    else if d == 10 { 'a' }
    else if d == 11 { 'b' }
    else if d == 12 { 'c' }
    else if d == 13 { 'd' }
    else if d == 14 { 'e' }
    else { 'f' }
}

/// The upper-case hexadecimal digit for `d < 16`.
pub open spec fn hex_upper(d: nat) -> char {
    if d < 10 { digit_char(d) }
    else if d == 10 { 'A' }
    else if d == 11 { 'B' }
    else if d == 12 { 'C' }
    else if d == 13 { 'D' }
    else if d == 14 { 'E' }
    else { 'F' }
}

pub fn hex_digit(d: u8, upper: bool) -> (c: char)
    requires
        d < 16,
    ensures
        upper ==> c == hex_upper(d as nat),
        !upper ==> c == hex_lower(d as nat),
{
    if d < 10 {
        digit(d as u64)
    } else if d == 10 {
        if upper { 'A' } else { 'a' }
    } else if d == 11 {
        if upper { 'B' } else { 'b' }
    } else if d == 12 {
        if upper { 'C' } else { 'c' }
    } else if d == 13 {
        if upper { 'D' } else { 'd' }
    } else if d == 14 {
        if upper { 'E' } else { 'e' }
    } else {
        if upper { 'F' } else { 'f' }
    }
}

/// Lower-case hex of a byte string, two digits per byte (`format!("{:x}")`
/// of a digest).
pub open spec fn hex_string(bytes: Seq<u8>) -> Seq<char>
    decreases bytes.len(),
{
    if bytes.len() == 0 {
        seq![]
    } else {
        hex_string(bytes.drop_last()) + seq![
            hex_lower((bytes.last() / 16) as nat),
            hex_lower((bytes.last() % 16) as nat),
        ]
    }
}

pub fn hex_chars(bytes: &Vec<u8>) -> (res: Vec<char>)
    ensures
        res@ == hex_string(bytes@),
{
    let mut out: Vec<char> = Vec::new();
    let mut i: usize = 0;
    assert(bytes@.subrange(0, 0) =~= Seq::<u8>::empty());
    while i < bytes.len()
        invariant
            i <= bytes@.len(),
            out@ == hex_string(bytes@.subrange(0, i as int)),
        decreases bytes@.len() - i,
    {
        let b = bytes[i];
        out.push(hex_digit(b / 16, false));
        out.push(hex_digit(b % 16, false));
        assert(bytes@.subrange(0, i + 1).drop_last() =~= bytes@.subrange(0, i as int));
        i = i + 1;
    }
    assert(bytes@.subrange(0, bytes@.len() as int) =~= bytes@);
    out
}

// ---------------------------------------------------------------------------
// Lines

/// `str::lines().next()`: the text up to the first `\n`, without a `\r`
/// that precedes it; `None` for the empty string.
pub open spec fn first_line_of(s: Seq<char>) -> Option<Seq<char>> {
    if s.len() == 0 {
        None
    } else {
        let i = first_index(s, '\n');
        if i < 0 {
            Some(s)
        } else {
            let line = s.take(i);
            if line.len() > 0 && line.last() == '\r' {
                Some(line.drop_last())
            } else {
                Some(line)
            }
        }
    }
}

pub fn first_line_chars(v: &Vec<char>) -> (res: Option<Vec<char>>)
    ensures
        match (res, first_line_of(v@)) {
            (Some(a), Some(b)) => a@ == b,
            (None, None) => true,
            _ => false,
        },
{
    if v.len() == 0 {
        return None;
    }
    match find_char(v, '\n') {
        None => Some(slice_chars(v, 0, v.len())),
        Some(i) => {
            if i > 0 && v[i - 1] == '\r' {
                let out = slice_chars(v, 0, i - 1);
                assert(out@ =~= v@.take(i as int).drop_last());
                Some(out)
            } else {
                let out = slice_chars(v, 0, i);
                assert(out@ =~= v@.take(i as int));
                Some(out)
            }
        },
    }
}

} // verus!

verus! {

// ---------------------------------------------------------------------------
// Quoting

/// A small number in lower-case hexadecimal, without leading zeros.
pub open spec fn hex_small(n: nat) -> Seq<char> {
    if n < 16 {
        seq![hex_lower(n)]
    } else {
        seq![hex_lower(n / 16), hex_lower(n % 16)]
    }
}

/// How `Debug for str` writes an ASCII character inside the quotes: the
/// common escapes, `\u{..}` for other control characters, the character
/// itself otherwise. Characters beyond ASCII are written as they are.
pub open spec fn debug_char(c: char) -> Seq<char> {
    if c == '\0' {
        seq!['\\', '0']
    } else if c == '\t' {
        seq!['\\', 't']
    } else if c == '\r' {
        seq!['\\', 'r']
    } else if c == '\n' {
        seq!['\\', 'n']
    } else if c == '\\' {
        seq!['\\', '\\']
    } else if c == '"' {
        seq!['\\', '"']
    } else if (c as u32) < 0x20 || (c as u32) == 0x7f {
        seq!['\\', 'u', '{'] + hex_small(c as u32 as nat) + seq!['}']
    } else {
        seq![c]
    }
}

/// The text between the quotes of `format!("{s:?}")`.
pub open spec fn debug_text(s: Seq<char>) -> Seq<char>
    decreases s.len(),
{
    if s.len() == 0 {
        seq![]
    } else {
        debug_text(s.drop_last()) + debug_char(s.last())
    }
}

fn push_debug_char(out: &mut Vec<char>, c: char)
    ensures
        final(out)@ == old(out)@ + debug_char(c),
{
    let ghost start = out@;
    if c == '\0' {
        out.push('\\');
        out.push('0');
    } else if c == '\t' {
        out.push('\\');
        out.push('t');
    } else if c == '\r' {
        out.push('\\');
        out.push('r');
    } else if c == '\n' {
        out.push('\\');
        out.push('n');
    } else if c == '\\' {
        out.push('\\');
        out.push('\\');
    } else if c == '"' {
        out.push('\\');
        out.push('"');
    } else if (c as u32) < 0x20 || (c as u32) == 0x7f {
        let n = c as u32;
        out.push('\\');
        out.push('u');
        out.push('{');
        if n >= 16 {
            out.push(hex_digit((n / 16) as u8, false));
        }
        out.push(hex_digit((n % 16) as u8, false));
        out.push('}');
    } else {
        out.push(c);
    }
    assert(out@ =~= start + debug_char(c));
}

/// `s` as `format!("{s:?}")` writes it, quotes included.
pub fn debug_quoted(s: &str) -> (res: Vec<char>)
    ensures
        res@ == seq!['"'] + debug_text(s@) + seq!['"'],
{
    let v = chars_of(s);
    let mut out: Vec<char> = Vec::new();
    out.push('"');
    let mut i: usize = 0;
    assert(v@.take(0) =~= Seq::<char>::empty());
    while i < v.len()
        invariant
            i <= v@.len(),
            v@ == s@,
            out@ == seq!['"'] + debug_text(v@.take(i as int)),
        decreases v@.len() - i,
    {
        assert(v@.take(i + 1).drop_last() =~= v@.take(i as int));
        push_debug_char(&mut out, v[i]);
        i = i + 1;
    }
    assert(v@.take(v@.len() as int) =~= v@);
    out.push('"');
    out
}

// ---------------------------------------------------------------------------
// Lists of strings

/// The views of a list of strings.
pub open spec fn strs(v: Seq<String>) -> Seq<Seq<char>> {
    v.map_values(|s: String| s@)
}

/// Appends clones of `src` to `dst`.
pub fn extend_strings(dst: &mut Vec<String>, src: &Vec<String>)
    ensures
        strs(final(dst)@) == strs(old(dst)@) + strs(src@),
{
    let ghost start = strs(dst@);
    let mut i: usize = 0;
    assert(strs(src@).take(0) =~= Seq::<Seq<char>>::empty());
    assert(strs(dst@) =~= start + strs(src@).take(0));
    while i < src.len()
        invariant
            i <= src@.len(),
            strs(dst@) == start + strs(src@).take(i as int),
        decreases src@.len() - i,
    {
        let ghost before = strs(dst@);
        dst.push(src[i].clone());
        assert(strs(dst@) =~= before.push(src@[i as int]@));
        assert(strs(src@).take(i + 1) =~= strs(src@).take(i as int).push(src@[i as int]@));
        i = i + 1;
    }
    assert(strs(src@).take(src@.len() as int) =~= strs(src@));
}

/// Pushes a clone of `s`.
pub fn push_string(dst: &mut Vec<String>, s: String)
    ensures
        strs(final(dst)@) == strs(old(dst)@).push(s@),
{
    let ghost before = strs(dst@);
    dst.push(s);
    assert(strs(dst@) =~= before.push(s@));
}

/// The items of `list` separated by `sep` (`[T]::join`).
pub open spec fn join_with(list: Seq<Seq<char>>, sep: Seq<char>) -> Seq<char>
    decreases list.len(),
{
    if list.len() == 0 {
        seq![]
    } else if list.len() == 1 {
        list[0]
    } else {
        join_with(list.drop_last(), sep) + sep + list.last()
    }
}

/// `list.join(sep)`.
pub fn join_strings(list: &Vec<String>, sep: &str) -> (res: Vec<char>)
    ensures
        res@ == join_with(strs(list@), sep@),
{
    let mut out: Vec<char> = Vec::new();
    let mut i: usize = 0;
    let ghost all = strs(list@);
    assert(all.take(0) =~= Seq::<Seq<char>>::empty());
    while i < list.len()
        invariant
            i <= list@.len(),
            all == strs(list@),
            out@ == join_with(all.take(i as int), sep@),
        decreases list@.len() - i,
    {
        assert(all.take(i + 1).drop_last() =~= all.take(i as int));
        assert(all.take(i + 1).last() == list@[i as int]@);
        if i > 0 {
            push_str(&mut out, sep);
        }
        push_str(&mut out, list[i].as_str());
        if i == 0 {
            assert(out@ =~= all.take(1)[0]);
        }
        i = i + 1;
    }
    assert(all.take(list@.len() as int) =~= all);
    out
}

} // verus!

verus! {

/// What `String::from_utf8_lossy` makes of a byte string.
pub uninterp spec fn utf8_lossy(bytes: Seq<u8>) -> Seq<char>;

/// `String::from_utf8_lossy`: valid UTF-8 is decoded as it is; invalid
/// sequences become U+FFFD.
#[verifier::external_body]
pub(crate) fn string_from_utf8_lossy(bytes: &[u8]) -> (res: String)
    ensures
        res@ == utf8_lossy(bytes@),
        vstd::utf8::valid_utf8(bytes@) ==> res@ == vstd::utf8::decode_utf8(bytes@),
{
    String::from_utf8_lossy(bytes).into_owned()
}

} // verus!
