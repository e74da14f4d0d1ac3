//! User names held in a vector: the model of a member list and the
//! executable operations on it.

use vstd::prelude::*;
use crate::keyed::{drop_key, remove_key, Keyed};

verus! {

/// Equality of string slices compares their characters.
///
/// Trusted: this is `str`'s implementation of `PartialEq`, which std
/// documents as comparing the two strings' contents.
pub assume_specification[ <str as PartialEq>::eq ](a: &str, b: &str) -> (r: bool)
    ensures
        r == (a@ == b@),
;

/// The character sequences of a vector of strings, in order.
pub open spec fn names(v: Seq<String>) -> Seq<Seq<char>> {
    Seq::new(v.len(), |i: int| v[i]@)
}

/// `s` with every occurrence of `u` taken out; the order of the rest is kept.
pub open spec fn without(s: Seq<Seq<char>>, u: Seq<char>) -> Seq<Seq<char>>
    decreases s.len(),
{
    if s.len() == 0 {
        s
    } else if s.last() == u {
        without(s.drop_last(), u)
    } else {
        without(s.drop_last(), u).push(s.last())
    }
}

/// `s` with `u` appended unless it is already there.
pub open spec fn with_name(s: Seq<Seq<char>>, u: Seq<char>) -> Seq<Seq<char>> {
    if s.contains(u) {
        s
    } else {
        s.push(u)
    }
}

pub proof fn lemma_names_push(v: Seq<String>, s: String)
    ensures
        names(v.push(s)) == names(v).push(s@),
{
    assert(names(v.push(s)) =~= names(v).push(s@));
}

pub proof fn lemma_names_contains(v: Seq<String>, i: int)
    requires
        0 <= i < v.len(),
    ensures
        names(v).contains(v[i]@),
{
    assert(names(v)[i] == v[i]@);
}

/// What `without` keeps: exactly the names of `s` other than `u`.
pub proof fn lemma_without_contains(s: Seq<Seq<char>>, u: Seq<char>, x: Seq<char>)
    ensures
        without(s, u).contains(x) <==> (s.contains(x) && x != u),
    decreases s.len(),
{
    if s.len() > 0 {
        let head = s.drop_last();
        lemma_without_contains(head, u, x);
        if without(s, u).contains(x) {
            let i = choose|i: int| 0 <= i < without(s, u).len() && without(s, u)[i] == x;
            if s.last() != u && i == without(head, u).len() {
                assert(s[s.len() - 1] == x);
            } else {
                assert(without(head, u)[i] == x);
                let j = choose|j: int| 0 <= j < head.len() && head[j] == x;
                assert(s[j] == x);
            }
        }
        if s.contains(x) && x != u {
            let j = choose|j: int| 0 <= j < s.len() && s[j] == x;
            if j == s.len() - 1 {
                assert(without(s, u)[without(head, u).len() as int] == x);
            } else {
                assert(head[j] == x);
                let i = choose|i: int| 0 <= i < without(head, u).len() && without(head, u)[i] == x;
                assert(without(s, u)[i] == x);
            }
        }
    }
}

pub proof fn lemma_without_no_duplicates(s: Seq<Seq<char>>, u: Seq<char>)
    requires
        s.no_duplicates(),
    ensures
        without(s, u).no_duplicates(),
    decreases s.len(),
{
    if s.len() > 0 {
        let head = s.drop_last();
        lemma_without_no_duplicates(head, u);
        if s.last() != u {
            let kept = without(head, u);
            assert forall|i: int| 0 <= i < kept.len() implies kept[i] != s.last() by {
                lemma_without_contains(head, u, kept[i]);
                assert(kept.contains(kept[i]));
                let j = choose|j: int| 0 <= j < head.len() && head[j] == kept[i];
                assert(s[j] == head[j]);
            }
        }
    }
}

pub proof fn lemma_with_name_no_duplicates(s: Seq<Seq<char>>, u: Seq<char>)
    requires
        s.no_duplicates(),
    ensures
        with_name(s, u).no_duplicates(),
        with_name(s, u).contains(u),
        forall|x: Seq<char>| with_name(s, u).contains(x) <==> (s.contains(x) || x == u),
{
    if !s.contains(u) {
        let t = s.push(u);
        assert(t[s.len() as int] == u);
        assert forall|x: Seq<char>| t.contains(x) <==> (s.contains(x) || x == u) by {
            if s.contains(x) {
                let j = choose|j: int| 0 <= j < s.len() && s[j] == x;
                assert(t[j] == x);
            }
            if t.contains(x) && x != u {
                let j = choose|j: int| 0 <= j < t.len() && t[j] == x;
                assert(s[j] == x);
            }
        }
    } else {
        assert(with_name(s, u) == s);
    }
}

/// Whether `a` and `b` hold the same characters.
pub fn same_text(a: &String, b: &str) -> (r: bool)
    ensures
        r == (a@ == b@),
{
    a.as_str().eq(b)
}

/// Whether `name` occurs in `v`.
pub fn contains_name(v: &Vec<String>, name: &str) -> (r: bool)
    ensures
        r == names(v@).contains(name@),
{
    let mut i: usize = 0;
    while i < v.len()
        invariant
            i <= v.len(),
            forall|j: int| 0 <= j < i ==> names(v@)[j] != name@,
        decreases v.len() - i,
    {
        if same_text(&v[i], name) {
            proof {
                lemma_names_contains(v@, i as int);
            }
            return true;
        }
        i += 1;
    }
    false
}

impl Keyed for String {
    open spec fn key(&self) -> Seq<char> {
        self@
    }

    fn has_key(&self, name: &str) -> (r: bool) {
        same_text(self, name)
    }
}

proof fn lemma_names_drop_key(v: Seq<String>, u: Seq<char>)
    ensures
        names(drop_key(v, u)) == without(names(v), u),
    decreases v.len(),
{
    if v.len() > 0 {
        lemma_names_drop_key(v.drop_last(), u);
        assert(names(v).drop_last() =~= names(v.drop_last()));
        if v.last().key() != u {
            lemma_names_push(drop_key(v.drop_last(), u), v.last());
        }
    } else {
        assert(names(v) =~= Seq::empty());
    }
}

/// Takes every occurrence of `name` out of `v`.
pub fn remove_name(v: &mut Vec<String>, name: &str)
    ensures
        names(final(v)@) == without(names(old(v)@), name@),
{
    proof {
        lemma_names_drop_key(v@, name@);
    }
    remove_key(v, name);
}

/// Appends `name` to `v` unless it is already there.
pub fn insert_name(v: &mut Vec<String>, name: &str)
    ensures
        names(final(v)@) == with_name(names(old(v)@), name@),
{
    if !contains_name(v, name) {
        let owned = name.to_owned();
        proof {
            lemma_names_push(v@, owned);
        }
        v.push(owned);
    }
}

/// A copy of `v` with the same names in the same order.
pub fn clone_names(v: &Vec<String>) -> (r: Vec<String>)
    ensures
        names(r@) == names(v@),
{
    let mut out: Vec<String> = Vec::new();
    let mut i: usize = 0;
    while i < v.len()
        invariant
            i <= v.len(),
            names(out@) == names(v@).take(i as int),
        decreases v.len() - i,
    {
        let item = v[i].clone();
        proof {
            lemma_names_push(out@, item);
            assert(names(v@).take(i as int + 1) =~= names(v@).take(i as int).push(v@[i as int]@));
        }
        out.push(item);
        i += 1;
    }
    proof {
        assert(names(v@).take(i as int) =~= names(v@));
    }
    out
}

} // verus!
