//! Entries that are kept under a user's name, and taking them out of a
//! vector.

use vstd::prelude::*;

verus! {

/// An entry that is kept under a user's name.
pub trait Keyed {
    /// The name the entry is kept under.
    spec fn key(&self) -> Seq<char>;

    /// Whether the entry is kept under `name`.
    fn has_key(&self, name: &str) -> (r: bool)
        ensures
            r == (self.key() == name@),
    ;
}

/// `s` with every entry under `u` taken out; the order of the rest is kept.
pub open spec fn drop_key<T: Keyed>(s: Seq<T>, u: Seq<char>) -> Seq<T>
    decreases s.len(),
{
    if s.len() == 0 {
        s
    } else if s.last().key() == u {
        drop_key(s.drop_last(), u)
    } else {
        drop_key(s.drop_last(), u).push(s.last())
    }
}

proof fn lemma_drop_key_push<T: Keyed>(s: Seq<T>, x: T, u: Seq<char>)
    ensures
        drop_key(s.push(x), u) == if x.key() == u {
            drop_key(s, u)
        } else {
            drop_key(s, u).push(x)
        },
{
    assert(s.push(x).drop_last() =~= s);
}

/// Takes every entry under `name` out of `v`.
pub fn remove_key<T: Keyed>(v: &mut Vec<T>, name: &str)
    ensures
        final(v)@ == drop_key(old(v)@, name@),
{
    let ghost before = v@;
    let ghost mut seen: int = 0;
    let mut i: usize = 0;
    while i < v.len()
        invariant
            0 <= seen <= before.len(),
            i <= v.len(),
            v.len() - i == before.len() - seen,
            v@.take(i as int) == drop_key(before.take(seen), name@),
            v@.skip(i as int) == before.skip(seen),
        decreases v.len() - i,
    {
        proof {
            assert(before.take(seen + 1) =~= before.take(seen).push(before[seen]));
            lemma_drop_key_push(before.take(seen), before[seen], name@);
            assert(v@[i as int] == v@.skip(i as int)[0]);
            assert(before.skip(seen)[0] == before[seen]);
        }
        if v[i].has_key(name) {
            let ghost prior = v@;
            v.remove(i);
            proof {
                assert(v@.take(i as int) =~= prior.take(i as int));
                assert(v@.skip(i as int) =~= prior.skip(i as int).skip(1));
                assert(before.skip(seen).skip(1) =~= before.skip(seen + 1));
                seen = seen + 1;
            }
        } else {
            proof {
                assert(v@.take(i as int + 1) =~= v@.take(i as int).push(v@[i as int]));
                assert(v@.skip(i as int + 1) =~= v@.skip(i as int).skip(1));
                assert(before.skip(seen).skip(1) =~= before.skip(seen + 1));
                seen = seen + 1;
            }
            i += 1;
        }
    }
    proof {
        assert(v@.take(i as int) =~= v@);
        assert(before.take(seen) =~= before);
    }
}

} // verus!
