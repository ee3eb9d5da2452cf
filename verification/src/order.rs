//! The order of strings (`Ord for String`): lexicographic by character.
//! Since UTF-8 preserves the order of code points, comparing characters is
//! the same as comparing the bytes, which is what std does.

use vstd::prelude::*;
use vstd::relations::{sorted_by, total_ordering};
use crate::text::{chars_of, strs};

verus! {

/// `a <= b` in the order of strings.
pub open spec fn str_leq(a: Seq<char>, b: Seq<char>) -> bool
    decreases a.len(),
{
    if a.len() == 0 {
        true
    } else if b.len() == 0 {
        false
    } else if a[0] != b[0] {
        (a[0] as u32) < (b[0] as u32)
    } else {
        str_leq(a.drop_first(), b.drop_first())
    }
}

/// `a < b` in the order of strings.
pub open spec fn str_lt(a: Seq<char>, b: Seq<char>) -> bool {
    str_leq(a, b) && a != b
}

/// The order as a relation, for `Seq::sort_by` and `sorted_by`.
pub open spec fn str_order() -> spec_fn(Seq<char>, Seq<char>) -> bool {
    |a: Seq<char>, b: Seq<char>| str_leq(a, b)
}

/// The strict order as a relation.
pub open spec fn str_strict() -> spec_fn(Seq<char>, Seq<char>) -> bool {
    |a: Seq<char>, b: Seq<char>| str_lt(a, b)
}

pub proof fn lemma_leq_reflexive(a: Seq<char>)
    ensures
        str_leq(a, a),
    decreases a.len(),
{
    if a.len() > 0 {
        lemma_leq_reflexive(a.drop_first());
    }
}

pub proof fn lemma_leq_antisymmetric(a: Seq<char>, b: Seq<char>)
    requires
        str_leq(a, b),
        str_leq(b, a),
    ensures
        a == b,
    decreases a.len(),
{
    if a.len() > 0 && b.len() > 0 {
        lemma_leq_antisymmetric(a.drop_first(), b.drop_first());
        assert(a =~= seq![a[0]] + a.drop_first());
        assert(b =~= seq![b[0]] + b.drop_first());
    }
}

pub proof fn lemma_leq_transitive(a: Seq<char>, b: Seq<char>, c: Seq<char>)
    requires
        str_leq(a, b),
        str_leq(b, c),
    ensures
        str_leq(a, c),
    decreases a.len(),
{
    if a.len() > 0 && b.len() > 0 && c.len() > 0 {
        if a[0] == b[0] && b[0] == c[0] {
            lemma_leq_transitive(a.drop_first(), b.drop_first(), c.drop_first());
        }
    }
}

pub proof fn lemma_leq_total(a: Seq<char>, b: Seq<char>)
    ensures
        str_leq(a, b) || str_leq(b, a),
    decreases a.len(),
{
    if a.len() > 0 && b.len() > 0 {
        if a[0] == b[0] {
            lemma_leq_total(a.drop_first(), b.drop_first());
        } else {
            vstd::utf8::char_u32_cast(a[0], a[0] as u32);
            vstd::utf8::char_u32_cast(b[0], b[0] as u32);
            assert((a[0] as u32) != (b[0] as u32));
        }
    }
}

pub proof fn lemma_total_ordering()
    ensures
        total_ordering(str_order()),
{
    assert forall|a: Seq<char>| #[trigger] str_order()(a, a) by {
        lemma_leq_reflexive(a);
    }
    assert forall|a: Seq<char>, b: Seq<char>| #[trigger] str_order()(a, b) && #[trigger] str_order()(b, a) implies a == b by {
        lemma_leq_antisymmetric(a, b);
    }
    assert forall|a: Seq<char>, b: Seq<char>, c: Seq<char>| #[trigger] str_order()(a, b) && #[trigger] str_order()(b, c) implies str_order()(a, c) by {
        lemma_leq_transitive(a, b, c);
    }
    assert forall|a: Seq<char>, b: Seq<char>| #[trigger] str_order()(a, b) || #[trigger] str_order()(b, a) by {
        lemma_leq_total(a, b);
    }
}

proof fn lemma_leq_common_prefix(a: Seq<char>, b: Seq<char>, k: int)
    requires
        0 <= k <= a.len(),
        k <= b.len(),
        forall|j: int| 0 <= j < k ==> a[j] == b[j],
    ensures
        str_leq(a, b) == str_leq(a.skip(k), b.skip(k)),
    decreases k,
{
    if k > 0 {
        lemma_leq_common_prefix(a.drop_first(), b.drop_first(), k - 1);
        assert(a.drop_first().skip(k - 1) =~= a.skip(k));
        assert(b.drop_first().skip(k - 1) =~= b.skip(k));
    } else {
        assert(a.skip(0) =~= a);
        assert(b.skip(0) =~= b);
    }
}

/// `a <= b`, by comparing characters from the front.
pub fn str_leq_exec(a: &str, b: &str) -> (res: bool)
    ensures
        res == str_leq(a@, b@),
{
    let va = chars_of(a);
    let vb = chars_of(b);
    let mut k: usize = 0;
    while k < va.len() && k < vb.len() && va[k] == vb[k]
        invariant
            k <= va@.len(),
            k <= vb@.len(),
            forall|j: int| 0 <= j < k ==> va@[j] == vb@[j],
        decreases va@.len() - k,
    {
        k = k + 1;
    }
    proof {
        lemma_leq_common_prefix(va@, vb@, k as int);
    }
    if k == va.len() {
        return true;
    }
    if k == vb.len() {
        return false;
    }
    (va[k] as u32) < (vb[k] as u32)
}

/// `a < b`.
pub fn str_lt_exec(a: &str, b: &str) -> (res: bool)
    ensures
        res == str_lt(a@, b@),
{
    str_leq_exec(a, b) && !crate::text::str_eq(a, b)
}

/// Sorts strings into the order of strings (`slice::sort`).
pub fn sort_strings(v: &Vec<String>) -> (res: Vec<String>)
    ensures
        strs(res@) == strs(v@).sort_by(str_order()),
{
    broadcast use vstd::seq_lib::group_to_multiset_ensures;

    let mut out: Vec<String> = Vec::new();
    let ghost input = strs(v@);
    let mut i: usize = 0;
    assert(input.take(0) =~= Seq::<Seq<char>>::empty());
    assert(strs(out@) =~= Seq::<Seq<char>>::empty());
    while i < v.len()
        invariant
            i <= v@.len(),
            input == strs(v@),
            sorted_by(strs(out@), str_order()),
            strs(out@).to_multiset() == input.take(i as int).to_multiset(),
        decreases v@.len() - i,
    {
        let x = &v[i];
        let mut p: usize = 0;
        while p < out.len() && str_leq_exec(out[p].as_str(), x.as_str())
            invariant
                p <= out@.len(),
                forall|k: int| 0 <= k < p ==> str_leq(#[trigger] strs(out@)[k], x@),
            decreases out@.len() - p,
        {
            p = p + 1;
        }
        let ghost before = strs(out@);
        out.insert(p, x.clone());
        proof {
            assert(strs(out@) =~= before.insert(p as int, x@));
            assert forall|a: int, b: int| 0 <= a < b < strs(out@).len() implies #[trigger] str_order()(
                strs(out@)[a],
                strs(out@)[b],
            ) by {
                let s = strs(out@);
                if a < p && b < p + 1 {
                    if b == p {
                        assert(s[a] == before[a]);
                    }
                } else if a < p {
                    assert(s[a] == before[a]);
                    assert(s[b] == before[b - 1]);
                } else if a == p {
                    // x < before[p] <= before[b - 1]
                    lemma_leq_total(before[p as int], x@);
                    if b - 1 > p {
                        assert(str_order()(before[p as int], before[b - 1]));
                        lemma_leq_transitive(x@, before[p as int], before[b - 1]);
                    }
                } else {
                    assert(s[a] == before[a - 1]);
                    assert(s[b] == before[b - 1]);
                }
            }
            assert(input.take(i + 1) =~= input.take(i as int).push(x@));
            vstd::seq_lib::to_multiset_insert(before, p as int, x@);
            vstd::seq_lib::to_multiset_build(input.take(i as int), x@);
        }
        i = i + 1;
    }
    proof {
        assert(input.take(v@.len() as int) =~= input);
        lemma_total_ordering();
        input.lemma_sort_by_ensures(str_order());
        vstd::seq_lib::lemma_sorted_unique(strs(out@), input.sort_by(str_order()), str_order());
    }
    out
}

/// The number of times `x` occurs in `s`.
pub open spec fn count(s: Seq<Seq<char>>, x: Seq<char>) -> nat
    decreases s.len(),
{
    if s.len() == 0 {
        0
    } else {
        count(s.drop_last(), x) + if s.last() == x { 1nat } else { 0nat }
    }
}

pub proof fn lemma_count_contains(s: Seq<Seq<char>>, x: Seq<char>)
    ensures
        count(s, x) > 0 <==> s.contains(x),
    decreases s.len(),
{
    if s.len() > 0 {
        lemma_count_contains(s.drop_last(), x);
        if s.drop_last().contains(x) {
            let i = choose|i: int| 0 <= i < s.drop_last().len() && s.drop_last()[i] == x;
            assert(s[i] == x);
        }
        if s.contains(x) && s.last() != x {
            let i = choose|i: int| 0 <= i < s.len() && s[i] == x;
            assert(s.drop_last()[i] == x);
        }
    }
}

/// How many strings of `v` equal `x`.
pub fn count_exec(v: &Vec<String>, x: &str) -> (res: usize)
    ensures
        res == count(strs(v@), x@),
{
    let ghost s = strs(v@);
    let mut n: usize = 0;
    let mut i: usize = 0;
    assert(s.take(0) =~= Seq::<Seq<char>>::empty());
    while i < v.len()
        invariant
            i <= v@.len(),
            s == strs(v@),
            n == count(s.take(i as int), x@),
            n <= i,
        decreases v@.len() - i,
    {
        assert(s.take(i + 1).drop_last() =~= s.take(i as int));
        if crate::text::str_eq(v[i].as_str(), x) {
            n = n + 1;
        }
        i = i + 1;
    }
    assert(s.take(v@.len() as int) =~= s);
    n
}

/// Inserts `x` into a strictly increasing list unless it is already there.
pub fn insert_unique_sorted(out: &mut Vec<String>, x: &str)
    requires
        sorted_by(strs(old(out)@), str_strict()),
    ensures
        sorted_by(strs(final(out)@), str_strict()),
        forall|y: Seq<char>| strs(final(out)@).contains(y) <==> (strs(old(out)@).contains(y) || y == x@),
{
    let mut p: usize = 0;
    while p < out.len() && str_lt_exec(out[p].as_str(), x)
        invariant
            p <= out@.len(),
            forall|k: int| 0 <= k < p ==> str_lt(#[trigger] strs(out@)[k], x@),
        decreases out@.len() - p,
    {
        p = p + 1;
    }
    let ghost before = strs(out@);
    if p < out.len() && crate::text::str_eq(out[p].as_str(), x) {
        assert(before[p as int] == x@);
        return;
    }
    out.insert(p, crate::text::owned(x));
    proof {
        assert(strs(out@) =~= before.insert(p as int, x@));
        assert forall|a: int, b: int| 0 <= a < b < strs(out@).len() implies #[trigger] str_strict()(
            strs(out@)[a],
            strs(out@)[b],
        ) by {
            let s = strs(out@);
            if a < p && b < p + 1 {
                if b == p {
                    assert(s[a] == before[a]);
                }
            } else if a < p {
                assert(s[a] == before[a]);
                assert(s[b] == before[b - 1]);
            } else if a == p {
                lemma_leq_total(before[p as int], x@);
                assert(str_leq(x@, before[p as int]));
                if b - 1 > p {
                    assert(str_strict()(before[p as int], before[b - 1]));
                    lemma_leq_transitive(x@, before[p as int], before[b - 1]);
                    if x@ == before[b - 1] {
                        lemma_leq_antisymmetric(before[p as int], before[b - 1]);
                    }
                }
            } else {
                assert(s[a] == before[a - 1]);
                assert(s[b] == before[b - 1]);
            }
        }
        assert forall|y: Seq<char>| strs(out@).contains(y) <==> (before.contains(y) || y == x@) by {
            let s = strs(out@);
            if s.contains(y) {
                let k = choose|k: int| 0 <= k < s.len() && s[k] == y;
                if k < p {
                    assert(before[k] == y);
                } else if k > p {
                    assert(before[k - 1] == y);
                }
            }
            if before.contains(y) {
                let k = choose|k: int| 0 <= k < before.len() && before[k] == y;
                if k < p {
                    assert(s[k] == y);
                } else {
                    assert(s[k + 1] == y);
                }
            }
            assert(s[p as int] == x@);
        }
        assert(before == strs(old(out)@));
        assert(forall|y: Seq<char>| strs(out@).contains(y) <==> (strs(old(out)@).contains(y) || y == x@));
    }
}

/// The strings that occur more than once in `v`, each once, in order.
pub fn repeated_strings(v: &Vec<String>) -> (res: Vec<String>)
    ensures
        sorted_by(strs(res@), str_strict()),
        forall|y: Seq<char>| strs(res@).contains(y) <==> count(strs(v@), y) > 1,
{
    let ghost s = strs(v@);
    let mut out: Vec<String> = Vec::new();
    let mut i: usize = 0;
    assert(strs(out@) =~= Seq::<Seq<char>>::empty());
    while i < v.len()
        invariant
            i <= v@.len(),
            s == strs(v@),
            sorted_by(strs(out@), str_strict()),
            forall|y: Seq<char>| strs(out@).contains(y) <==> (exists|j: int| 0 <= j < i && s[j] == y && count(s, y) > 1),
        decreases v@.len() - i,
    {
        let c = count_exec(v, v[i].as_str());
        let ghost before = strs(out@);
        if c > 1 {
            insert_unique_sorted(&mut out, v[i].as_str());
        }
        assert forall|y: Seq<char>| strs(out@).contains(y) <==> (exists|j: int| 0 <= j < i + 1 && s[j] == y && count(s, y) > 1) by {
            if y == s[i as int] && count(s, y) > 1 {
                assert(strs(out@).contains(y));
            }
            if strs(out@).contains(y) && !before.contains(y) {
                assert(s[i as int] == y);
            }
        }
        i = i + 1;
    }
    assert forall|y: Seq<char>| strs(out@).contains(y) <==> count(s, y) > 1 by {
        lemma_count_contains(s, y);
        if count(s, y) > 1 {
            let j = choose|j: int| 0 <= j < s.len() && s[j] == y;
            assert(exists|j: int| 0 <= j < v@.len() && s[j] == y && count(s, y) > 1);
        }
    }
    out
}

} // verus!
