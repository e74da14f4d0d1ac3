//! What several handlers share: the public session list and the fan-out
//! of membership events.

use vstd::prelude::*;
use crate::messages::{event_signal, SessionInfo, SessionInfoView, Signal, SignalKind, SignalView};
use crate::model::{global_id, LeaveView, SessionView, StateView};
use crate::names::same_text;
use crate::registry::{registry_contains, registry_snapshot};
use crate::service::{delivery_views, Delivery, Effects, EffectsView};
use crate::session::LeaveInfo;
use crate::state::{ServerState, SessionData, GLOBAL_SESSION_ID};

verus! {

/// Whether a session shows in the public session list: it is public and is
/// not the global session.
pub open spec fn listed(s: SessionView) -> bool {
    s.is_public && s.id != global_id()
}

/// The line of the public session list for `s`. The member count is the
/// number of members as far as 32 bits hold it.
pub open spec fn info_of(s: SessionView) -> SessionInfoView {
    SessionInfoView {
        id: s.id,
        name: s.name,
        member_count: s.members.len() as u32,
        is_public: s.is_public,
        max_members: s.max_members,
    }
}

/// Whether `infos` lists the sessions stored under `keys`, in that order,
/// and `keys` names every listed session of `st` once.
pub open spec fn lists(st: StateView, keys: Seq<Seq<char>>, infos: Seq<SessionInfoView>) -> bool {
    &&& keys.no_duplicates()
    &&& keys.len() == infos.len()
    &&& forall|i: int|
        0 <= i < keys.len() ==> st.sessions.contains_key(#[trigger] keys[i]) && listed(
            st.sessions[keys[i]],
        ) && infos[i] == info_of(st.sessions[keys[i]])
    &&& forall|k: Seq<char>| #[trigger]
        st.sessions.contains_key(k) && listed(st.sessions[k]) ==> keys.contains(k)
}

/// Whether `infos` is the public session list of `st`: one line for each
/// listed session, in any order.
pub open spec fn is_session_list(st: StateView, infos: Seq<SessionInfoView>) -> bool {
    exists|keys: Seq<Seq<char>>| lists(st, keys, infos)
}

/// Whether `key` is the key of one of the first `upto` entries.
spec fn among(entries: Seq<(String, SessionData)>, upto: int, key: Seq<char>) -> bool {
    exists|a: int| 0 <= a < upto && (#[trigger] entries[a]).0@ == key
}

/// The lines of a vector.
pub open spec fn info_views(v: Seq<SessionInfo>) -> Seq<SessionInfoView> {
    Seq::new(v.len(), |i: int| v[i]@)
}

/// The public session list: every public session but the global one, each
/// with its current member count. The order follows the registry and is not
/// specified.
pub fn public_sessions(state: &ServerState) -> (r: Vec<SessionInfo>)
    ensures
        is_session_list(state@, info_views(r@)),
{
    let snapshot = registry_snapshot(&state.sessions);
    let mut result: Vec<SessionInfo> = Vec::new();
    let ghost mut keys: Seq<Seq<char>> = Seq::empty();
    let mut i: usize = 0;
    while i < snapshot.len()
        invariant
            i <= snapshot.len(),
            keys.no_duplicates(),
            keys.len() == result.len(),
            forall|j: int|
                0 <= j < snapshot.len() ==> state@.sessions.contains_key((#[trigger] snapshot[j]).0@)
                    && snapshot[j].1@ == state@.sessions[snapshot[j].0@],
            forall|a: int, b: int|
                0 <= a < b < snapshot.len() ==> (#[trigger] snapshot[a]).0@ != (
                #[trigger] snapshot[b]).0@,
            forall|k: Seq<char>| #[trigger]
                state@.sessions.contains_key(k) ==> exists|a: int|
                    0 <= a < snapshot.len() && (#[trigger] snapshot[a]).0@ == k,
            forall|j: int|
                0 <= j < keys.len() ==> state@.sessions.contains_key(#[trigger] keys[j]) && listed(
                    state@.sessions[keys[j]],
                ) && info_views(result@)[j] == info_of(state@.sessions[keys[j]]),
            forall|j: int| 0 <= j < keys.len() ==> among(snapshot@, i as int, #[trigger] keys[j]),
            forall|a: int|
                0 <= a < i && listed(state@.sessions[(#[trigger] snapshot[a]).0@])
                    ==> keys.contains(snapshot[a].0@),
        decreases snapshot.len() - i,
    {
        let session = &snapshot[i].1;
        if !same_text(&session.id, GLOBAL_SESSION_ID) && session.is_public {
            let ghost key = snapshot[i as int].0@;
            let ghost old_keys = keys;
            let ghost old_infos = info_views(result@);
            let info = SessionInfo {
                id: session.id.clone(),
                name: session.name.clone(),
                member_count: #[verifier::truncate]
                (session.inner.members.len() as u32),
                is_public: session.is_public,
                max_members: session.max_members,
            };
            result.push(info);
            proof {
                keys = keys.push(key);
                assert(info@ == info_of(state@.sessions[key]));
                assert(info_views(result@) =~= old_infos.push(info@));
                assert forall|j: int| 0 <= j < old_keys.len() implies old_keys[j] != key by {
                    assert(among(snapshot@, i as int, old_keys[j]));
                    let a = choose|a: int| 0 <= a < i && (#[trigger] snapshot[a]).0@ == old_keys[j];
                    assert(snapshot[a].0@ != snapshot[i as int].0@);
                }
                assert forall|a: int|
                    0 <= a < i + 1 && listed(
                        state@.sessions[(#[trigger] snapshot[a]).0@],
                    ) implies keys.contains(snapshot[a].0@) by {
                    if a < i {
                        let j = choose|j: int|
                            0 <= j < old_keys.len() && old_keys[j] == snapshot[a].0@;
                        assert(keys[j] == snapshot[a].0@);
                    } else {
                        assert(keys[old_keys.len() as int] == key);
                    }
                }
                assert forall|j: int| 0 <= j < keys.len() implies among(
                    snapshot@,
                    i + 1,
                    #[trigger] keys[j],
                ) by {
                    if j < old_keys.len() {
                        assert(among(snapshot@, i as int, old_keys[j]));
                        let a = choose|a: int|
                            0 <= a < i && (#[trigger] snapshot[a]).0@ == old_keys[j];
                        assert(snapshot[a].0@ == keys[j]);
                    } else {
                        assert(snapshot[i as int].0@ == keys[j]);
                    }
                }
            }
        }
        i += 1;
    }
    proof {
        assert forall|k: Seq<char>| #[trigger]
            state@.sessions.contains_key(k) && listed(state@.sessions[k]) implies keys.contains(
            k,
        ) by {
            let a = choose|a: int| 0 <= a < snapshot.len() && (#[trigger] snapshot[a]).0@ == k;
            assert(keys.contains(snapshot[a].0@));
        }
        assert(lists(state@, keys, info_views(result@)));
    }
    result
}

/// One signal for every pipe of `senders`, in their order.
pub open spec fn fanout(senders: Seq<u64>, signal: SignalView) -> Seq<(u64, SignalView)> {
    Seq::new(senders.len(), |i: int| (senders[i], signal))
}

/// What a leave that took effect sends: `MemberLeft` to the peers that
/// remain, then `HostChanged` with the new host's name where the host
/// changed.
pub open spec fn leave_deliveries(session_id: Seq<char>, user: Seq<char>, info: LeaveView) -> Seq<
    (u64, SignalView),
> {
    fanout(info.senders, event_signal(SignalKind::MemberLeft, user, session_id, user)) + match info.new_host {
        Some((host, host_senders)) => fanout(
            host_senders,
            event_signal(SignalKind::HostChanged, Seq::empty(), session_id, host),
        ),
        None => Seq::empty(),
    }
}

/// The effects of a leave of `session_id` by `user`, given what the leave
/// handed back and whether the session is still on the registry. A leave
/// that did not take effect has none.
pub open spec fn leave_effects_of(
    session_id: Seq<char>,
    user: Seq<char>,
    info: Option<LeaveView>,
    still_open: bool,
) -> EffectsView {
    match info {
        None => EffectsView::none(),
        Some(info) => EffectsView {
            deliveries: leave_deliveries(session_id, user, info),
            chat: None,
            sessions_changed: info.is_public,
            global_members_changed: session_id == global_id(),
            removed_session: if still_open {
                None
            } else {
                Some(session_id)
            },
        },
    }
}

/// The effects of a leave of `session_id` by `user` in state `st`.
pub open spec fn leave_effects(st: StateView, session_id: Seq<char>, user: Seq<char>)
    -> EffectsView {
    leave_effects_of(
        session_id,
        user,
        st.leave_info(session_id, user),
        st.leave(session_id, user).sessions.contains_key(session_id),
    )
}

/// The view of what a leave handed back.
pub open spec fn info_view(info: Option<LeaveInfo>) -> Option<LeaveView> {
    match info {
        Some(info) => Some(info@),
        None => None,
    }
}

/// Builds one event signal and addresses a copy of it to every pipe of
/// `senders`.
pub fn fanout_signal(
    senders: &[u64],
    kind: SignalKind,
    from: &str,
    session_id: &str,
    payload: &str,
) -> (r: Vec<Delivery>)
    ensures
        delivery_views(r@) == fanout(senders@, event_signal(kind, from@, session_id@, payload@)),
{
    let signal = Signal {
        from_user: from.to_owned(),
        to_user: String::new(),
        session_id: session_id.to_owned(),
        kind,
        payload: payload.to_owned(),
    };
    let ghost target = fanout(senders@, signal@);
    let mut out: Vec<Delivery> = Vec::new();
    let mut i: usize = 0;
    while i < senders.len()
        invariant
            i <= senders.len(),
            target == fanout(senders@, signal@),
            delivery_views(out@) == target.take(i as int),
        decreases senders.len() - i,
    {
        let copy = signal.clone();
        let ghost prior = delivery_views(out@);
        out.push(Delivery { pipe: senders[i], signal: copy });
        proof {
            assert(delivery_views(out@) =~= prior.push((senders@[i as int], signal@)));
            assert(delivery_views(out@) =~= target.take(i as int + 1));
        }
        i += 1;
    }
    proof {
        assert(target.take(i as int) =~= target);
        assert(signal@ =~= event_signal(kind, from@, session_id@, payload@));
    }
    out
}

/// The signals that tell a session of a leave that took effect.
pub fn leave_signals(session_id: &str, username: &str, info: &LeaveInfo) -> (r: Vec<Delivery>)
    ensures
        delivery_views(r@) == leave_deliveries(session_id@, username@, info@),
{
    let mut out = fanout_signal(
        info.senders.as_slice(),
        SignalKind::MemberLeft,
        username,
        session_id,
        username,
    );
    let ghost first = delivery_views(out@);
    match &info.new_host {
        Some((host, host_senders)) => {
            let mut more = fanout_signal(
                host_senders.as_slice(),
                SignalKind::HostChanged,
                "",
                session_id,
                host.as_str(),
            );
            proof {
                reveal_strlit("");
                assert(""@ =~= Seq::<char>::empty());
            }
            let ghost second = delivery_views(more@);
            out.append(&mut more);
            proof {
                assert(delivery_views(out@) =~= first + second);
            }
        },
        None => {
            proof {
                assert(delivery_views(out@) =~= first + Seq::empty());
            }
        },
    }
    out
}

/// Moves the deliveries of `more` to the end of `out`.
pub fn append_deliveries(out: &mut Vec<Delivery>, more: Vec<Delivery>)
    ensures
        delivery_views(final(out)@) == delivery_views(old(out)@) + delivery_views(more@),
{
    let ghost added = delivery_views(more@);
    let mut more = more;
    out.append(&mut more);
    proof {
        assert(delivery_views(out@) =~= delivery_views(old(out)@) + added);
    }
}

/// The effects of a leave, worked out once the leave is done: `state` is
/// the state after it.
pub fn effects_of_leave(
    state: &ServerState,
    session_id: &str,
    username: &str,
    info: &Option<LeaveInfo>,
) -> (r: Effects)
    ensures
        r@ == leave_effects_of(
            session_id@,
            username@,
            info_view(*info),
            state@.sessions.contains_key(session_id@),
        ),
{
    match info {
        None => Effects::none(),
        Some(info) => {
            let deliveries = leave_signals(session_id, username, info);
            let removed_session = if registry_contains(&state.sessions, session_id) {
                None
            } else {
                Some(session_id.to_owned())
            };
            let r = Effects {
                deliveries,
                chat: None,
                sessions_changed: info.is_public,
                global_members_changed: session_id.eq(GLOBAL_SESSION_ID),
                removed_session,
            };
            proof {
                assert(r@ =~= leave_effects_of(
                    session_id@,
                    username@,
                    Some(info@),
                    state@.sessions.contains_key(session_id@),
                ));
            }
            r
        },
    }
}

} // verus!
