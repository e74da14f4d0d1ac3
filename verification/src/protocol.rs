//! What the request surface guarantees over several requests: joins that
//! compete for the last place of a session, repeated leaves, and signals
//! between peers that have their streams open.

use vstd::prelude::*;
use crate::invariants::{lemma_join_consistent, lemma_leave_consistent, lemma_leave_members};
use crate::messages::{event_signal, Code, SignalKind, SignalView};
use crate::model::{global_id, StateView};
use crate::names::{lemma_without_contains, without};
use crate::senders::{
    distinct_senders, has_sender, lemma_senders_with, lemma_senders_without_absent,
    lemma_senders_without_distinct, lemma_senders_without_has, pipes, senders_without,
};
use crate::service::helpers::{fanout, leave_effects};
use crate::service::sessions::{join_effects, join_refusal, join_state};
use crate::service::signals::route;
use crate::service::EffectsView;

verus! {

/// The state after the users of `users` asked to join `session_id`, one
/// after the other.
pub open spec fn join_all(st: StateView, session_id: Seq<char>, users: Seq<Seq<char>>) -> StateView
    decreases users.len(),
{
    if users.len() == 0 {
        st
    } else {
        join_all(join_state(st, session_id, users.first()), session_id, users.drop_first())
    }
}

/// How many of those joins were not refused.
pub open spec fn admitted(st: StateView, session_id: Seq<char>, users: Seq<Seq<char>>) -> nat
    decreases users.len(),
{
    if users.len() == 0 {
        0
    } else {
        let rest = admitted(
            join_state(st, session_id, users.first()),
            session_id,
            users.drop_first(),
        );
        if join_refusal(st, session_id).is_none() {
            rest + 1
        } else {
            rest
        }
    }
}

/// Whether every one of those joins was refused because the session was
/// full.
pub open spec fn all_refused_full(st: StateView, session_id: Seq<char>, users: Seq<Seq<char>>)
    -> bool
    decreases users.len(),
{
    users.len() == 0 || (join_refusal(st, session_id) == Some(Code::ResourceExhausted)
        && all_refused_full(
        join_state(st, session_id, users.first()),
        session_id,
        users.drop_first(),
    ))
}

/// A full session refuses every join and stays as it is.
pub proof fn lemma_full_refuses_all(st: StateView, session_id: Seq<char>, users: Seq<Seq<char>>)
    requires
        st.sessions.contains_key(session_id),
        st.sessions[session_id].full(),
    ensures
        admitted(st, session_id, users) == 0,
        all_refused_full(st, session_id, users),
        join_all(st, session_id, users) == st,
    decreases users.len(),
{
    if users.len() > 0 {
        lemma_full_refuses_all(st, session_id, users.drop_first());
    }
}

/// Of any number of joins that compete for the one place left in a
/// session, exactly the first is admitted; the others are refused because
/// the session is full, and the session ends with that one member more.
pub proof fn lemma_last_place_taken_once(
    st: StateView,
    session_id: Seq<char>,
    users: Seq<Seq<char>>,
)
    requires
        st.sessions.contains_key(session_id),
        st.sessions[session_id].max_members > 0,
        st.sessions[session_id].members.len() + 1 == st.sessions[session_id].max_members,
        users.len() >= 1,
        forall|i: int| 0 <= i < users.len() ==> !st.sessions[session_id].members.contains(users[i]),
    ensures
        admitted(st, session_id, users) == 1,
        join_refusal(st, session_id).is_none(),
        all_refused_full(join_state(st, session_id, users.first()), session_id, users.drop_first()),
        join_all(st, session_id, users).sessions.contains_key(session_id),
        join_all(st, session_id, users).sessions[session_id].members
            == st.sessions[session_id].members.push(users.first()),
{
    let first = users.first();
    let next = join_state(st, session_id, first);
    assert(!st.sessions[session_id].members.contains(users[0]));
    let vacated = st.vacate(session_id, first);
    assert(vacated.sessions.contains_key(session_id));
    assert(vacated.sessions[session_id] == st.sessions[session_id]);
    assert(next.sessions[session_id].members == st.sessions[session_id].members.push(first));
    lemma_full_refuses_all(next, session_id, users.drop_first());
}

/// A join that is not refused keeps a limited session within its limit.
pub proof fn lemma_join_within_limit(st: StateView, session_id: Seq<char>, user: Seq<char>)
    requires
        join_refusal(st, session_id).is_none(),
        st.sessions[session_id].max_members > 0,
    ensures
        join_state(st, session_id, user).sessions.contains_key(session_id),
        join_state(st, session_id, user).sessions[session_id].members.len()
            <= st.sessions[session_id].max_members,
        join_state(st, session_id, user).sessions[session_id].max_members
            == st.sessions[session_id].max_members,
{
    let vacated = st.vacate(session_id, user);
    assert(vacated.sessions.contains_key(session_id));
    assert(vacated.sessions[session_id] == st.sessions[session_id]);
}

/// After a leave that took effect, any further leave by the same user
/// changes nothing and has no effect: no signal is sent a second time.
pub proof fn lemma_second_leave_silent(
    st: StateView,
    session_id: Seq<char>,
    user: Seq<char>,
    again: Seq<char>,
)
    requires
        st.leave_info(session_id, user).is_some(),
    ensures
        st.leave(session_id, user).leave(again, user) == st.leave(session_id, user),
        leave_effects(st.leave(session_id, user), again, user) == EffectsView::none(),
{
}

/// A signal addressed to a user who has a signal stream open in the
/// signal's session is delivered once, unchanged, down that stream's pipe.
pub proof fn lemma_streaming_peer_reached(st: StateView, signal: SignalView, pipe: u64)
    requires
        st.sessions.contains_key(signal.session_id),
    ensures
        route(st.register(signal.session_id, signal.to_user, pipe), signal) == seq![(pipe, signal)],
{
    let senders = st.sessions[signal.session_id].signal_senders;
    lemma_senders_with(senders, signal.to_user, pipe, signal.to_user);
}

/// Host migration. When the host leaves a session in which somebody
/// remains, the longest-standing remaining member becomes host. Every
/// remaining peer with a signal stream is sent `MemberLeft` and then
/// `HostChanged` with the new host's name, once each, and the leaver's own
/// stream is sent neither.
pub proof fn lemma_host_migration(st: StateView, session_id: Seq<char>, host: Seq<char>)
    requires
        st.consistent(),
        session_id != global_id(),
        st.member(host, session_id),
        st.sessions[session_id].host == host,
        without(st.sessions[session_id].members, host).len() > 0,
    ensures
        ({
            let before = st.sessions[session_id];
            let rest = senders_without(before.signal_senders, host);
            let remaining = without(before.members, host);
            let after = st.leave(session_id, host);
            &&& after.sessions.contains_key(session_id)
            &&& after.sessions[session_id].members == remaining
            &&& after.sessions[session_id].host == remaining[0]
            &&& after.sessions[session_id].members.contains(after.sessions[session_id].host)
            &&& !remaining.contains(host)
            &&& leave_effects(st, session_id, host).deliveries == fanout(
                pipes(rest),
                event_signal(SignalKind::MemberLeft, host, session_id, host),
            ) + fanout(
                pipes(rest),
                event_signal(SignalKind::HostChanged, Seq::empty(), session_id, remaining[0]),
            )
            &&& distinct_senders(rest)
            &&& !has_sender(rest, host)
            &&& forall|u: Seq<char>|
                u != host && has_sender(before.signal_senders, u) ==> #[trigger] has_sender(rest, u)
        }),
{
    let before = st.sessions[session_id];
    let rest = senders_without(before.signal_senders, host);
    let remaining = without(before.members, host);
    assert(st.bound(host, session_id));
    lemma_leave_consistent(st, session_id, host);
    lemma_without_contains(before.members, host, host);
    lemma_senders_without_distinct(before.signal_senders, host);
    lemma_senders_without_has(before.signal_senders, host, host);
    assert forall|u: Seq<char>|
        u != host && has_sender(before.signal_senders, u) implies #[trigger] has_sender(
        rest,
        u,
    ) by {
        lemma_senders_without_has(before.signal_senders, host, u);
    }
}

/// Implicit leave. When the signal stream of a member ends, the member is
/// out of the session: out of its members, its signal streams and the
/// index. Every remaining peer with a signal stream is sent `MemberLeft`
/// first and once; the session list is marked changed exactly where the
/// session is public; and a leave request that follows has no effect.
pub proof fn lemma_implicit_leave(st: StateView, session_id: Seq<char>, user: Seq<char>)
    requires
        st.consistent(),
        session_id != global_id(),
        st.member(user, session_id),
    ensures
        ({
            let before = st.sessions[session_id];
            let rest = senders_without(before.signal_senders, user);
            let closed = st.unregister(session_id, user);
            let after = closed.leave(session_id, user);
            let effects = leave_effects(closed, session_id, user);
            let told = fanout(
                pipes(rest),
                event_signal(SignalKind::MemberLeft, user, session_id, user),
            );
            &&& !after.member(user, session_id)
            &&& !after.index.contains_key(user)
            &&& after.sessions.contains_key(session_id) ==> !has_sender(
                after.sessions[session_id].signal_senders,
                user,
            )
            &&& told.is_prefix_of(effects.deliveries)
            &&& distinct_senders(rest)
            &&& !has_sender(rest, user)
            &&& effects.sessions_changed == before.is_public
            &&& after.leave(session_id, user) == after
            &&& leave_effects(after, session_id, user) == EffectsView::none()
        }),
{
    let before = st.sessions[session_id];
    let rest = senders_without(before.signal_senders, user);
    let closed = st.unregister(session_id, user);
    let after = closed.leave(session_id, user);
    let effects = leave_effects(closed, session_id, user);
    let told = fanout(pipes(rest), event_signal(SignalKind::MemberLeft, user, session_id, user));
    assert(st.bound(user, session_id));
    assert(closed.bound(user, session_id));
    lemma_senders_without_distinct(before.signal_senders, user);
    lemma_senders_without_has(before.signal_senders, user, user);
    lemma_senders_without_absent(rest, user);
    lemma_without_contains(before.members, user, user);
    assert(closed.sessions[session_id].leave(user).signal_senders == rest);
    assert(effects.deliveries.len() >= told.len());
    assert(told =~= effects.deliveries.take(told.len() as int));
}

/// Automatic leave on join. A member of one session who joins another is
/// out of the first and in the second, and bound to the second by the
/// index. The peers streaming in the session left are sent `MemberLeft`
/// first; the peers streaming in the session joined are sent
/// `MemberJoined` last, once each, and nobody else is.
pub proof fn lemma_auto_leave_on_join(
    st: StateView,
    from: Seq<char>,
    to: Seq<char>,
    user: Seq<char>,
)
    requires
        st.consistent(),
        from != global_id(),
        to != global_id(),
        from != to,
        st.member(user, from),
        join_refusal(st, to).is_none(),
    ensures
        ({
            let left = senders_without(st.sessions[from].signal_senders, user);
            let peers = senders_without(st.sessions[to].signal_senders, user);
            let after = join_state(st, to, user);
            let effects = join_effects(st, to, user);
            let goodbye = fanout(
                pipes(left),
                event_signal(SignalKind::MemberLeft, user, from, user),
            );
            let hello = fanout(
                pipes(peers),
                event_signal(SignalKind::MemberJoined, user, to, user),
            );
            &&& after.bound(user, to)
            &&& after.member(user, to)
            &&& !after.member(user, from)
            &&& goodbye.is_prefix_of(effects.deliveries)
            &&& effects.deliveries.len() >= goodbye.len() + hello.len()
            &&& effects.deliveries.skip(effects.deliveries.len() - hello.len()) == hello
            &&& distinct_senders(left)
            &&& distinct_senders(peers)
            &&& !has_sender(peers, user)
        }),
{
    let left = senders_without(st.sessions[from].signal_senders, user);
    let peers = senders_without(st.sessions[to].signal_senders, user);
    let after = join_state(st, to, user);
    let effects = join_effects(st, to, user);
    let goodbye = fanout(pipes(left), event_signal(SignalKind::MemberLeft, user, from, user));
    let hello = fanout(pipes(peers), event_signal(SignalKind::MemberJoined, user, to, user));
    assert(st.bound(user, from));
    assert(st.previous(to, user) == Some(from));
    let vacated = st.leave(from, user);
    lemma_leave_consistent(st, from, user);
    lemma_leave_members(st, from, user);
    lemma_join_consistent(st, to, user);
    assert(vacated.sessions.contains_key(to));
    assert(vacated.sessions[to] == st.sessions[to]);
    assert(after.sessions[to].signal_senders == st.sessions[to].signal_senders);
    assert(after.sessions[to].id == to);
    lemma_senders_without_distinct(st.sessions[from].signal_senders, user);
    lemma_senders_without_distinct(st.sessions[to].signal_senders, user);
    lemma_senders_without_has(st.sessions[to].signal_senders, user, user);
    let base = leave_effects(st, from, user).deliveries;
    assert(effects.deliveries == base + hello);
    assert(goodbye =~= base.take(goodbye.len() as int));
    assert(goodbye =~= effects.deliveries.take(goodbye.len() as int));
    assert(effects.deliveries.skip(effects.deliveries.len() - hello.len()) =~= hello);
}

} // verus!
