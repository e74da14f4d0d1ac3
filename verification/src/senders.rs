//! The signal pipes registered in a session: which user's signal stream is
//! fed through which pipe.

use vstd::prelude::*;
use crate::keyed::{drop_key, remove_key, Keyed};
use crate::names::same_text;

verus! {

/// One registered signal stream: the user it belongs to and the pipe that
/// feeds it. The transport layer keeps the sending end under the pipe's
/// number.
#[derive(Debug)]
pub struct SignalSender {
    pub username: String,
    pub pipe: u64,
}

impl Clone for SignalSender {
    fn clone(&self) -> (r: Self)
        ensures
            r.username@ == self.username@,
            r.pipe == self.pipe,
    {
        SignalSender { username: self.username.clone(), pipe: self.pipe }
    }
}

/// The registrations of a vector, as pairs of user name and pipe.
pub open spec fn sender_views(v: Seq<SignalSender>) -> Seq<(Seq<char>, u64)> {
    Seq::new(v.len(), |i: int| (v[i].username@, v[i].pipe))
}

/// `s` with every registration of `u` taken out; the order of the rest is kept.
pub open spec fn senders_without(s: Seq<(Seq<char>, u64)>, u: Seq<char>) -> Seq<(Seq<char>, u64)>
    decreases s.len(),
{
    if s.len() == 0 {
        s
    } else if s.last().0 == u {
        senders_without(s.drop_last(), u)
    } else {
        senders_without(s.drop_last(), u).push(s.last())
    }
}

/// `s` after `u` registers `pipe`: an earlier registration of `u` is replaced.
pub open spec fn senders_with(s: Seq<(Seq<char>, u64)>, u: Seq<char>, pipe: u64) -> Seq<
    (Seq<char>, u64),
> {
    senders_without(s, u).push((u, pipe))
}

/// The pipes of `s`, in order.
pub open spec fn pipes(s: Seq<(Seq<char>, u64)>) -> Seq<u64> {
    Seq::new(s.len(), |i: int| s[i].1)
}

/// The pipe that `u` registered last, if any.
pub open spec fn pipe_of(s: Seq<(Seq<char>, u64)>, u: Seq<char>) -> Option<u64>
    decreases s.len(),
{
    if s.len() == 0 {
        None
    } else if s.last().0 == u {
        Some(s.last().1)
    } else {
        pipe_of(s.drop_last(), u)
    }
}

/// Whether `u` has a registration in `s`.
pub open spec fn has_sender(s: Seq<(Seq<char>, u64)>, u: Seq<char>) -> bool {
    exists|i: int| 0 <= i < s.len() && (#[trigger] s[i]).0 == u
}

/// Whether no user has two registrations in `s`.
pub open spec fn distinct_senders(s: Seq<(Seq<char>, u64)>) -> bool {
    forall|i: int, j: int| 0 <= i < j < s.len() ==> (#[trigger] s[i]).0 != (#[trigger] s[j]).0
}

/// Taking a user's registrations out leaves the others with one each.
pub proof fn lemma_senders_without_distinct(s: Seq<(Seq<char>, u64)>, u: Seq<char>)
    requires
        distinct_senders(s),
    ensures
        distinct_senders(senders_without(s, u)),
    decreases s.len(),
{
    if s.len() > 0 {
        let head = s.drop_last();
        assert forall|i: int, j: int| 0 <= i < j < head.len() implies (#[trigger] head[i]).0 != (
        #[trigger] head[j]).0 by {
            assert(s[i].0 != s[j].0);
        }
        lemma_senders_without_distinct(head, u);
        if s.last().0 != u {
            let kept = senders_without(head, u);
            let all = senders_without(s, u);
            assert forall|i: int, j: int| 0 <= i < j < all.len() implies (#[trigger] all[i]).0 != (
            #[trigger] all[j]).0 by {
                if j == kept.len() {
                    assert(kept[i].0 == all[i].0);
                    lemma_senders_without_has(head, u, kept[i].0);
                    let k = choose|k: int| 0 <= k < head.len() && (#[trigger] head[k]).0 == kept[i].0;
                    assert(s[k].0 != s[s.len() - 1].0);
                } else {
                    assert(kept[i].0 != kept[j].0);
                }
            }
        }
    }
}

/// A registration leaves every user with one at most: it takes the place
/// of the user's earlier one.
pub proof fn lemma_senders_with_distinct(s: Seq<(Seq<char>, u64)>, u: Seq<char>, pipe: u64)
    requires
        distinct_senders(s),
    ensures
        distinct_senders(senders_with(s, u, pipe)),
{
    let kept = senders_without(s, u);
    let all = senders_with(s, u, pipe);
    lemma_senders_without_distinct(s, u);
    lemma_senders_without_has(s, u, u);
    assert forall|i: int, j: int| 0 <= i < j < all.len() implies (#[trigger] all[i]).0 != (
    #[trigger] all[j]).0 by {
        if j == kept.len() {
            assert(kept[i].0 == all[i].0);
        } else {
            assert(kept[i].0 != kept[j].0);
        }
    }
}

/// What `senders_without` keeps: exactly the registrations of other users.
pub proof fn lemma_senders_without_has(s: Seq<(Seq<char>, u64)>, u: Seq<char>, x: Seq<char>)
    ensures
        has_sender(senders_without(s, u), x) <==> (has_sender(s, x) && x != u),
    decreases s.len(),
{
    if s.len() > 0 {
        let head = s.drop_last();
        let kept = senders_without(head, u);
        let all = senders_without(s, u);
        lemma_senders_without_has(head, u, x);
        if has_sender(all, x) {
            let i = choose|i: int| 0 <= i < all.len() && (#[trigger] all[i]).0 == x;
            if s.last().0 != u && i == kept.len() {
                assert(s[s.len() - 1].0 == x);
            } else {
                assert(kept[i].0 == x);
                let j = choose|j: int| 0 <= j < head.len() && (#[trigger] head[j]).0 == x;
                assert(s[j].0 == x);
            }
        }
        if has_sender(s, x) && x != u {
            let j = choose|j: int| 0 <= j < s.len() && (#[trigger] s[j]).0 == x;
            if j == s.len() - 1 {
                assert(all[kept.len() as int].0 == x);
            } else {
                assert(head[j].0 == x);
                let i = choose|i: int| 0 <= i < kept.len() && (#[trigger] kept[i]).0 == x;
                assert(all[i].0 == x);
            }
        }
    }
}

/// Taking out the registrations of a user who has none changes nothing.
pub proof fn lemma_senders_without_absent(s: Seq<(Seq<char>, u64)>, u: Seq<char>)
    requires
        !has_sender(s, u),
    ensures
        senders_without(s, u) == s,
    decreases s.len(),
{
    if s.len() > 0 {
        let head = s.drop_last();
        assert(s[s.len() - 1].0 != u);
        assert forall|i: int| 0 <= i < head.len() implies (#[trigger] head[i]).0 != u by {
            assert(s[i].0 != u);
        }
        lemma_senders_without_absent(head, u);
        assert(senders_without(s, u) =~= s);
    }
}

/// After `u` registers, `u` has a registration, and so has everybody who
/// had one before.
pub proof fn lemma_senders_with_has(s: Seq<(Seq<char>, u64)>, u: Seq<char>, pipe: u64, x: Seq<char>)
    ensures
        has_sender(senders_with(s, u, pipe), x) <==> (x == u || has_sender(s, x)),
{
    let kept = senders_without(s, u);
    let all = senders_with(s, u, pipe);
    lemma_senders_without_has(s, u, x);
    assert(all[kept.len() as int].0 == u);
    if has_sender(kept, x) {
        let i = choose|i: int| 0 <= i < kept.len() && (#[trigger] kept[i]).0 == x;
        assert(all[i].0 == x);
    }
    if has_sender(all, x) && x != u {
        let i = choose|i: int| 0 <= i < all.len() && (#[trigger] all[i]).0 == x;
        assert(kept[i].0 == x);
    }
}

/// After `u` registers `pipe`, that is `u`'s pipe, and the other users keep
/// theirs.
pub proof fn lemma_senders_with(s: Seq<(Seq<char>, u64)>, u: Seq<char>, pipe: u64, x: Seq<char>)
    ensures
        pipe_of(senders_with(s, u, pipe), u) == Some(pipe),
        x != u ==> pipe_of(senders_with(s, u, pipe), x) == pipe_of(s, x),
{
    assert(senders_with(s, u, pipe).drop_last() =~= senders_without(s, u));
    if x != u {
        lemma_pipe_of_without(s, u, x);
    }
}

pub proof fn lemma_pipe_of_without(s: Seq<(Seq<char>, u64)>, u: Seq<char>, x: Seq<char>)
    requires
        x != u,
    ensures
        pipe_of(senders_without(s, u), x) == pipe_of(s, x),
    decreases s.len(),
{
    if s.len() > 0 {
        let head = s.drop_last();
        lemma_pipe_of_without(head, u, x);
        if s.last().0 != u {
            assert(senders_without(s, u).drop_last() =~= senders_without(head, u));
        }
    }
}

proof fn lemma_sender_views_push(v: Seq<SignalSender>, e: SignalSender)
    ensures
        sender_views(v.push(e)) == sender_views(v).push((e.username@, e.pipe)),
{
    assert(sender_views(v.push(e)) =~= sender_views(v).push((e.username@, e.pipe)));
}

impl Keyed for SignalSender {
    open spec fn key(&self) -> Seq<char> {
        self.username@
    }

    fn has_key(&self, name: &str) -> (r: bool) {
        same_text(&self.username, name)
    }
}

proof fn lemma_senders_drop_key(v: Seq<SignalSender>, u: Seq<char>)
    ensures
        sender_views(drop_key(v, u)) == senders_without(sender_views(v), u),
    decreases v.len(),
{
    if v.len() > 0 {
        lemma_senders_drop_key(v.drop_last(), u);
        assert(sender_views(v).drop_last() =~= sender_views(v.drop_last()));
        if v.last().key() != u {
            lemma_sender_views_push(drop_key(v.drop_last(), u), v.last());
        }
    } else {
        assert(sender_views(v) =~= Seq::empty());
    }
}

/// Takes every registration of `name` out of `v`.
pub fn remove_sender(v: &mut Vec<SignalSender>, name: &str)
    ensures
        sender_views(final(v)@) == senders_without(sender_views(old(v)@), name@),
{
    proof {
        lemma_senders_drop_key(v@, name@);
    }
    remove_key(v, name);
}

/// Registers `pipe` for `name`, in place of any pipe `name` had before.
pub fn register_sender(v: &mut Vec<SignalSender>, name: &str, pipe: u64)
    ensures
        sender_views(final(v)@) == senders_with(sender_views(old(v)@), name@, pipe),
{
    remove_sender(v, name);
    let entry = SignalSender { username: name.to_owned(), pipe };
    proof {
        lemma_sender_views_push(v@, entry);
    }
    v.push(entry);
}

/// The pipe registered for `name`, if any.
pub fn find_pipe(v: &Vec<SignalSender>, name: &str) -> (r: Option<u64>)
    ensures
        r == pipe_of(sender_views(v@), name@),
{
    let mut i: usize = v.len();
    proof {
        assert(sender_views(v@).take(i as int) =~= sender_views(v@));
    }
    while i > 0
        invariant
            i <= v.len(),
            pipe_of(sender_views(v@), name@) == pipe_of(sender_views(v@).take(i as int), name@),
        decreases i,
    {
        let ghost prefix = sender_views(v@).take(i as int);
        proof {
            assert(prefix.last() == sender_views(v@)[i - 1]);
            assert(prefix.drop_last() =~= sender_views(v@).take(i - 1));
        }
        if same_text(&v[i - 1].username, name) {
            return Some(v[i - 1].pipe);
        }
        i -= 1;
    }
    proof {
        assert(sender_views(v@).take(0) =~= Seq::empty());
    }
    None
}

/// A copy of `v` with the same registrations in the same order.
pub fn clone_senders(v: &Vec<SignalSender>) -> (r: Vec<SignalSender>)
    ensures
        sender_views(r@) == sender_views(v@),
{
    let mut out: Vec<SignalSender> = Vec::new();
    let mut i: usize = 0;
    while i < v.len()
        invariant
            i <= v.len(),
            sender_views(out@) == sender_views(v@).take(i as int),
        decreases v.len() - i,
    {
        let entry = v[i].clone();
        proof {
            lemma_sender_views_push(out@, entry);
            assert(sender_views(v@).take(i as int + 1) =~= sender_views(v@).take(i as int).push(
                (v@[i as int].username@, v@[i as int].pipe),
            ));
        }
        out.push(entry);
        i += 1;
    }
    proof {
        assert(sender_views(v@).take(i as int) =~= sender_views(v@));
    }
    out
}

/// The pipes of all registrations, in order.
pub fn collect_pipes(v: &Vec<SignalSender>) -> (r: Vec<u64>)
    ensures
        r@ == pipes(sender_views(v@)),
{
    let mut out: Vec<u64> = Vec::new();
    let mut i: usize = 0;
    while i < v.len()
        invariant
            i <= v.len(),
            out@ == pipes(sender_views(v@)).take(i as int),
        decreases v.len() - i,
    {
        out.push(v[i].pipe);
        proof {
            assert(out@ =~= pipes(sender_views(v@)).take(i as int + 1));
        }
        i += 1;
    }
    proof {
        assert(pipes(sender_views(v@)).take(i as int) =~= pipes(sender_views(v@)));
    }
    out
}

} // verus!
