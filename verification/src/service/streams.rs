//! The lifecycle of message streams, and the snapshots sent down the
//! session-update and global-member streams.

use vstd::prelude::*;
use crate::invariants::{lemma_close_global_consistent, lemma_open_global_consistent};
use crate::messages::{
    Code, GlobalMembersEvent, SessionsUpdatedEvent, Status, StreamGlobalMembersRequest,
    StreamMessagesRequest, StreamSessionUpdatesRequest,
};
use crate::model::{global_id, SessionView, StateView};
use crate::names::{insert_name, names, remove_name};
use crate::registry::{
    refs_get, refs_insert, refs_remove, registry_contains, registry_get, registry_insert,
    registry_remove,
};
use crate::service::helpers::{info_views, is_session_list, public_sessions};
use crate::service::{Effects, EffectsView};
use crate::state::{ServerState, GLOBAL_SESSION_ID};

verus! {

/// The state after a message stream on `session_id` was asked for: a
/// stream on the global session counts towards the user's presence.
pub open spec fn stream_opened(st: StateView, session_id: Seq<char>, user: Seq<char>)
    -> StateView {
    if st.sessions.contains_key(session_id) && session_id == global_id() {
        st.open_global(user)
    } else {
        st
    }
}

/// The effects of opening a message stream: the global members changed
/// where this is the user's first stream on the global session.
pub open spec fn stream_opened_effects(st: StateView, session_id: Seq<char>, user: Seq<char>)
    -> EffectsView {
    EffectsView {
        global_members_changed: st.sessions.contains_key(session_id) && session_id == global_id()
            && st.stream_count(user) == 0,
        ..EffectsView::none()
    }
}

/// The state after a message stream on `session_id` ended. Only a stream on
/// the global session that the client ended counts; the end of any other
/// stream leaves membership alone.
pub open spec fn stream_closed(
    st: StateView,
    session_id: Seq<char>,
    user: Seq<char>,
    client_disconnected: bool,
) -> StateView {
    if client_disconnected && session_id == global_id() {
        st.close_global(user)
    } else {
        st
    }
}

/// The effects of the end of a message stream: the global members changed
/// where the client ended the user's last stream on the global session.
pub open spec fn stream_closed_effects(
    st: StateView,
    session_id: Seq<char>,
    user: Seq<char>,
    client_disconnected: bool,
) -> EffectsView {
    EffectsView {
        global_members_changed: client_disconnected && session_id == global_id()
            && st.stream_count(user) == 1,
        ..EffectsView::none()
    }
}

/// The number of global message streams that `username` has open.
pub fn global_stream_count(state: &ServerState, username: &str) -> (r: usize)
    ensures
        r == state@.stream_count(username@),
{
    match refs_get(&state.global_stream_refs, username) {
        Some(count) => count,
        None => 0,
    }
}

/// Opens a message stream for the requesting user. Refused with
/// `NotFound`, and without effect, where the session does not exist. A
/// stream on the global session is counted, and the first one brings the
/// user into the global session.
pub fn handle_stream_messages(state: &mut ServerState, req: StreamMessagesRequest) -> (r: Result<
    Effects,
    Status,
>)
    requires
        req.session_id@ == global_id() ==> old(state)@.stream_count(req.username@) < usize::MAX,
    ensures
        final(state).same_info(old(state)),
        final(state)@ == stream_opened(old(state)@, req.session_id@, req.username@),
        old(state)@.consistent() ==> final(state)@.consistent(),
        old(state)@.consistent() && old(state)@.streams_of_members()
            ==> final(state)@.streams_of_members(),
        old(state)@.consistent() && old(state)@.presence_consistent()
            ==> final(state)@.presence_consistent(),
        match r {
            Ok(effects) => old(state)@.sessions.contains_key(req.session_id@) && effects@
                == stream_opened_effects(old(state)@, req.session_id@, req.username@),
            Err(status) => !old(state)@.sessions.contains_key(req.session_id@) && status.code
                == Code::NotFound && status.message@ == "Session not found"@,
        },
{
    let ghost before = state@;
    proof {
        if before.consistent() && req.session_id@ == global_id() {
            lemma_open_global_consistent(before, req.username@);
        }
    }
    if !registry_contains(&state.sessions, req.session_id.as_str()) {
        return Err(Status::not_found("Session not found"));
    }
    let mut effects = Effects::none();
    if req.session_id.as_str().eq(GLOBAL_SESSION_ID) {
        let count = global_stream_count(state, req.username.as_str());
        refs_insert(&mut state.global_stream_refs, req.username.clone(), count + 1);
        if count == 0 {
            match registry_remove(&mut state.sessions, GLOBAL_SESSION_ID) {
                Some(global) => {
                    let mut global = global;
                    let ghost record = global@;
                    insert_name(&mut global.inner.members, req.username.as_str());
                    proof {
                        assert(global@ =~= record.join(req.username@));
                    }
                    registry_insert(&mut state.sessions, GLOBAL_SESSION_ID.to_owned(), global);
                    proof {
                        assert(before.sessions.remove(global_id()).insert(
                            global_id(),
                            record.join(req.username@),
                        ) =~= before.sessions.insert(global_id(), record.join(req.username@)));
                    }
                },
                None => {},
            }
            effects.global_members_changed = true;
        }
        proof {
            assert(state@ =~= before.open_global(req.username@));
        }
    }
    proof {
        assert(effects@ =~= stream_opened_effects(before, req.session_id@, req.username@));
    }
    Ok(effects)
}

/// The end of a message stream. Where the client ended a stream on the
/// global session, the user's count goes down, and with the last stream
/// the user leaves the global session. The end of a stream on any other
/// session changes nothing: leaving is tied to the signal stream.
pub fn close_message_stream(
    state: &mut ServerState,
    session_id: &str,
    username: &str,
    client_disconnected: bool,
) -> (r: Effects)
    ensures
        final(state).same_info(old(state)),
        final(state)@ == stream_closed(old(state)@, session_id@, username@, client_disconnected),
        r@ == stream_closed_effects(old(state)@, session_id@, username@, client_disconnected),
        old(state)@.consistent() ==> final(state)@.consistent(),
        old(state)@.consistent() && old(state)@.streams_of_members()
            ==> final(state)@.streams_of_members(),
        old(state)@.consistent() && old(state)@.presence_consistent()
            ==> final(state)@.presence_consistent(),
{
    let ghost before = state@;
    proof {
        if before.consistent() {
            lemma_close_global_consistent(before, username@);
        }
    }
    let mut effects = Effects::none();
    if client_disconnected && session_id.eq(GLOBAL_SESSION_ID) {
        let count = global_stream_count(state, username);
        if count == 1 {
            refs_remove(&mut state.global_stream_refs, username);
            match registry_remove(&mut state.sessions, GLOBAL_SESSION_ID) {
                Some(global) => {
                    let mut global = global;
                    let ghost record = global@;
                    remove_name(&mut global.inner.members, username);
                    registry_insert(&mut state.sessions, GLOBAL_SESSION_ID.to_owned(), global);
                    proof {
                        assert(global@ =~= SessionView {
                            members: crate::names::without(record.members, username@),
                            ..record
                        });
                        assert(before.sessions.remove(global_id()).insert(global_id(), global@)
                            =~= before.sessions.insert(global_id(), global@));
                    }
                },
                None => {
                    proof {
                        assert(before.sessions.remove(global_id()) =~= before.sessions);
                    }
                },
            }
            effects.global_members_changed = true;
        } else if count > 1 {
            refs_insert(&mut state.global_stream_refs, username.to_owned(), count - 1);
        }
        proof {
            assert(state@ =~= before.close_global(username@));
        }
    }
    proof {
        assert(effects@ =~= stream_closed_effects(
            before,
            session_id@,
            username@,
            client_disconnected,
        ));
    }
    effects
}

/// The snapshot that a session-update stream sends, first when it opens
/// and then after every change of the session list.
pub fn handle_stream_session_updates(state: &ServerState, _req: StreamSessionUpdatesRequest) -> (r:
    Result<SessionsUpdatedEvent, Status>)
    ensures
        r matches Ok(event) && is_session_list(state@, info_views(event.sessions@)),
{
    Ok(SessionsUpdatedEvent { sessions: public_sessions(state) })
}

/// The members of the global session in `st`; nobody where it is missing.
pub open spec fn global_members(st: StateView) -> Seq<Seq<char>> {
    if st.sessions.contains_key(global_id()) {
        st.sessions[global_id()].members
    } else {
        Seq::empty()
    }
}

/// The snapshot that a global-member stream sends, first when it opens and
/// then after every change of the global members.
pub fn handle_stream_global_members(state: &ServerState, _req: StreamGlobalMembersRequest) -> (r:
    Result<GlobalMembersEvent, Status>)
    ensures
        r matches Ok(event) && names(event.members@) == global_members(state@),
{
    let members = match registry_get(&state.sessions, GLOBAL_SESSION_ID) {
        Some(global) => global.inner.members,
        None => Vec::new(),
    };
    proof {
        assert(names(members@) =~= global_members(state@));
    }
    Ok(GlobalMembersEvent { members })
}

} // verus!
