//! Maps from strings to strings as ordered lists of name/value pairs: the
//! environment of a child process, the per-file ETags of the working copy.
//!
//! The meaning of a [`StrMap`] is the map in which a later pair for a name
//! overrides an earlier one; the operations here keep every name unique.

use vstd::prelude::*;
use crate::text::{chars_eq, chars_of, owned};

verus! {

/// The map described by a list of pairs; later pairs win.
pub open spec fn env_map(pairs: Seq<(Seq<char>, Seq<char>)>) -> Map<Seq<char>, Seq<char>>
    decreases pairs.len(),
{
    if pairs.len() == 0 {
        Map::empty()
    } else {
        env_map(pairs.drop_last()).insert(pairs.last().0, pairs.last().1)
    }
}

/// `pairs` without the pairs named `k`.
pub open spec fn without_key(pairs: Seq<(Seq<char>, Seq<char>)>, k: Seq<char>) -> Seq<(Seq<char>, Seq<char>)>
    decreases pairs.len(),
{
    if pairs.len() == 0 {
        seq![]
    } else if pairs.last().0 == k {
        without_key(pairs.drop_last(), k)
    } else {
        without_key(pairs.drop_last(), k).push(pairs.last())
    }
}

pub proof fn lemma_without_key(pairs: Seq<(Seq<char>, Seq<char>)>, k: Seq<char>)
    ensures
        env_map(without_key(pairs, k)) == env_map(pairs).remove(k),
    decreases pairs.len(),
{
    if pairs.len() > 0 {
        lemma_without_key(pairs.drop_last(), k);
        if pairs.last().0 == k {
            assert(env_map(pairs).remove(k) =~= env_map(pairs.drop_last()).remove(k));
        } else {
            let w = without_key(pairs.drop_last(), k);
            assert(w.push(pairs.last()).drop_last() =~= w);
            assert(env_map(pairs).remove(k) =~= env_map(pairs.drop_last()).remove(k).insert(
                pairs.last().0,
                pairs.last().1,
            ));
        }
    }
}

/// Removing a name that does not occur leaves the pairs as they are.
pub proof fn lemma_without_absent(pairs: Seq<(Seq<char>, Seq<char>)>, k: Seq<char>)
    requires
        forall|j: int| 0 <= j < pairs.len() ==> pairs[j].0 != k,
    ensures
        without_key(pairs, k) == pairs,
    decreases pairs.len(),
{
    if pairs.len() > 0 {
        lemma_without_absent(pairs.drop_last(), k);
        assert(pairs.drop_last().push(pairs.last()) =~= pairs);
    }
}

/// A value found by scanning from the end is the map's value.
proof fn lemma_last_match(pairs: Seq<(Seq<char>, Seq<char>)>, k: Seq<char>, i: int)
    requires
        0 <= i < pairs.len(),
        pairs[i].0 == k,
        forall|j: int| i < j < pairs.len() ==> pairs[j].0 != k,
    ensures
        env_map(pairs).contains_key(k),
        env_map(pairs)[k] == pairs[i].1,
    decreases pairs.len(),
{
    if i < pairs.len() - 1 {
        lemma_last_match(pairs.drop_last(), k, i);
    }
}

proof fn lemma_no_match(pairs: Seq<(Seq<char>, Seq<char>)>, k: Seq<char>)
    requires
        forall|j: int| 0 <= j < pairs.len() ==> pairs[j].0 != k,
    ensures
        !env_map(pairs).contains_key(k),
    decreases pairs.len(),
{
    if pairs.len() > 0 {
        lemma_no_match(pairs.drop_last(), k);
    }
}

/// A map from strings to strings, kept as pairs in the order they were set.
/// A `Vec` of pairs rather than a `BTreeMap`: vstd's `BTreeMap` contracts hold
/// only for key types whose ordering it models, and `String` is not one.
#[derive(Debug, Clone)]
pub struct StrMap {
    vars: Vec<(String, String)>,
}

impl StrMap {
    /// The pairs, in order.
    pub closed spec fn pairs(&self) -> Seq<(Seq<char>, Seq<char>)> {
        self.vars@.map_values(|p: (String, String)| (p.0@, p.1@))
    }

    /// The variables as a map.
    pub open spec fn view_map(&self) -> Map<Seq<char>, Seq<char>> {
        env_map(self.pairs())
    }

    pub fn new() -> (res: Self)
        ensures
            res.pairs() == Seq::<(Seq<char>, Seq<char>)>::empty(),
            res.view_map() == Map::<Seq<char>, Seq<char>>::empty(),
    {
        let res = StrMap { vars: Vec::new() };
        assert(res.pairs() =~= Seq::<(Seq<char>, Seq<char>)>::empty());
        res
    }

    /// The number of variables.
    pub fn len(&self) -> (res: usize)
        ensures
            res == self.pairs().len(),
    {
        self.vars.len()
    }

    /// The `i`-th pair.
    pub fn entry(&self, i: usize) -> (res: (&String, &String))
        requires
            i < self.pairs().len(),
        ensures
            res.0@ == self.pairs()[i as int].0,
            res.1@ == self.pairs()[i as int].1,
    {
        let p = &self.vars[i];
        (&p.0, &p.1)
    }

    /// The value of `name`, if it is set.
    pub fn get(&self, name: &str) -> (res: Option<String>)
        ensures
            match res {
                Some(v) => self.view_map().contains_key(name@) && v@ == self.view_map()[name@],
                None => !self.view_map().contains_key(name@),
            },
    {
        let key = chars_of(name);
        let mut i = self.vars.len();
        while i > 0
            invariant
                i <= self.vars@.len(),
                key@ == name@,
                forall|j: int| i <= j < self.pairs().len() ==> self.pairs()[j].0 != name@,
            decreases i,
        {
            let k = chars_of(self.vars[i - 1].0.as_str());
            assert(self.pairs()[i - 1].0 == self.vars@[i - 1].0@);
            if chars_eq(&k, &key) {
                proof {
                    lemma_last_match(self.pairs(), name@, i - 1);
                }
                return Some(self.vars[i - 1].1.clone());
            }
            i = i - 1;
        }
        proof {
            lemma_no_match(self.pairs(), name@);
        }
        None
    }

    /// The names, in order.
    pub fn keys(&self) -> (res: Vec<String>)
        ensures
            res@.len() == self.pairs().len(),
            forall|i: int| 0 <= i < res@.len() ==> #[trigger] res@[i]@ == self.pairs()[i].0,
    {
        let mut out: Vec<String> = Vec::new();
        let mut i: usize = 0;
        while i < self.vars.len()
            invariant
                i <= self.vars@.len(),
                out@.len() == i,
                forall|j: int| 0 <= j < i ==> #[trigger] out@[j]@ == self.pairs()[j].0,
            decreases self.vars@.len() - i,
        {
            out.push(self.vars[i].0.clone());
            i = i + 1;
        }
        out
    }

    /// Sets `name` to `value`, replacing an earlier value.
    pub fn set(&mut self, name: &str, value: &str)
        ensures
            final(self).view_map() == old(self).view_map().insert(name@, value@),
            final(self).pairs() == without_key(old(self).pairs(), name@).push((name@, value@)),
    {
        self.remove(name);
        self.vars.push((owned(name), owned(value)));
        assert(self.pairs().drop_last() =~= without_key(old(self).pairs(), name@));
        proof {
            lemma_without_key(old(self).pairs(), name@);
        }
        assert(self.view_map() =~= old(self).view_map().insert(name@, value@));
    }

    /// Removes `name`.
    pub fn remove(&mut self, name: &str)
        ensures
            final(self).view_map() == old(self).view_map().remove(name@),
            final(self).pairs() == without_key(old(self).pairs(), name@),
    {
        let key = chars_of(name);
        let ghost orig = self.pairs();
        let mut kept: Vec<(String, String)> = Vec::new();
        let mut i: usize = 0;
        assert(orig.take(0) =~= Seq::<(Seq<char>, Seq<char>)>::empty());
        while i < self.vars.len()
            invariant
                i <= self.vars@.len(),
                orig == self.pairs(),
                key@ == name@,
                kept@.map_values(|p: (String, String)| (p.0@, p.1@)) == without_key(
                    orig.take(i as int),
                    name@,
                ),
            decreases self.vars@.len() - i,
        {
            assert(orig.take(i + 1).drop_last() =~= orig.take(i as int));
            assert(orig[i as int] == (self.vars@[i as int].0@, self.vars@[i as int].1@));
            let k = chars_of(self.vars[i].0.as_str());
            if !chars_eq(&k, &key) {
                let ghost before = kept@.map_values(|p: (String, String)| (p.0@, p.1@));
                kept.push((self.vars[i].0.clone(), self.vars[i].1.clone()));
                assert(kept@.map_values(|p: (String, String)| (p.0@, p.1@)) =~= before.push(
                    orig[i as int],
                ));
            }
            i = i + 1;
        }
        assert(orig.take(self.vars@.len() as int) =~= orig);
        self.vars = kept;
        proof {
            lemma_without_key(orig, name@);
        }
    }
}

} // verus!
