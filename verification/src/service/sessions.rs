//! Listing, creating, joining and leaving sessions.

use vstd::prelude::*;
use crate::invariants::lemma_create_consistent;
use crate::messages::{
    event_signal, Code, CreateSessionRequest, CreateSessionResponse, GetMembersRequest,
    GetMembersResponse, JoinSessionRequest, JoinSessionResponse, LeaveSessionRequest,
    LeaveSessionResponse, ListSessionsRequest, ListSessionsResponse, SessionReplyView,
    SignalKind, Status,
};
use crate::model::{global_id, SessionView, StateView};
use crate::names::{clone_names, names, remove_name, without};
use crate::registry::{registry_get, registry_insert};
use crate::senders::{clone_senders, collect_pipes, pipes, remove_sender, senders_without};
use crate::service::helpers::{
    append_deliveries, effects_of_leave, fanout, fanout_signal, info_views, is_session_list,
    leave_effects, public_sessions,
};
use crate::service::{Effects, EffectsView, Reply};
use crate::session::{
    code_in_use, generate_lobby_code, is_lobby_code, join_session_inner, leave_session_inner,
    LeaveInfo,
};
use crate::state::{
    ServerState, SessionData, SessionInner, GLOBAL_SESSION_ID, SESSION_MAX_MEMBERS,
    SESSION_MIN_MEMBERS,
};

verus! {

/// The member limit of a created session: the requested one, brought into
/// the range from 2 to 16.
pub open spec fn clamp_members(requested: u32) -> u32 {
    if requested < 2 {
        2
    } else if requested > 16 {
        16
    } else {
        requested
    }
}

/// The effects of the automatic leave that precedes a join of `session_id`
/// by `user`.
pub open spec fn vacate_effects(st: StateView, session_id: Seq<char>, user: Seq<char>)
    -> EffectsView {
    match st.previous(session_id, user) {
        Some(p) => leave_effects(st, p, user),
        None => EffectsView::none(),
    }
}

/// The state after `user` created a session under `code` with the
/// requested member limit brought into range.
pub open spec fn create_state(
    st: StateView,
    code: Seq<char>,
    user: Seq<char>,
    is_public: bool,
    requested: u32,
) -> StateView {
    st.create(code, user, is_public, clamp_members(requested))
}

/// What the creator is told.
pub open spec fn create_reply(code: Seq<char>, user: Seq<char>, is_public: bool, requested: u32)
    -> SessionReplyView {
    SessionReplyView {
        session_id: code,
        session_name: code,
        is_public,
        max_members: clamp_members(requested),
        existing_peers: Seq::empty(),
        host: user,
    }
}

/// The effects of a creation: those of the creator's automatic leave, and
/// a change of the session list where the new session is public.
pub open spec fn create_effects(
    st: StateView,
    code: Seq<char>,
    user: Seq<char>,
    is_public: bool,
    requested: u32,
) -> EffectsView {
    let base = vacate_effects(
        st.open_session(code, user, is_public, clamp_members(requested)),
        code,
        user,
    );
    EffectsView { sessions_changed: base.sessions_changed || is_public, ..base }
}

/// Why a join is refused, if it is: the session does not exist, or it is
/// full.
pub open spec fn join_refusal(st: StateView, session_id: Seq<char>) -> Option<Code> {
    if !st.sessions.contains_key(session_id) {
        Some(Code::NotFound)
    } else if st.sessions[session_id].full() {
        Some(Code::ResourceExhausted)
    } else {
        None
    }
}

/// The message that goes with a refusal.
pub open spec fn refusal_message(code: Code) -> Seq<char> {
    match code {
        Code::ResourceExhausted => "Session is full"@,
        _ => "Session not found"@,
    }
}

/// The state after a join request: changed only where the join is not
/// refused.
pub open spec fn join_state(st: StateView, session_id: Seq<char>, user: Seq<char>) -> StateView {
    if join_refusal(st, session_id).is_none() {
        st.join(session_id, user)
    } else {
        st
    }
}

/// What the joiner is told: the session's attributes, the other members
/// and the host, as they are after the join.
pub open spec fn join_reply(st: StateView, session_id: Seq<char>, user: Seq<char>)
    -> SessionReplyView {
    let s = st.join(session_id, user).sessions[session_id];
    SessionReplyView {
        session_id: s.id,
        session_name: s.name,
        is_public: s.is_public,
        max_members: s.max_members,
        existing_peers: without(s.members, user),
        host: s.host,
    }
}

/// The effects of a join that is not refused: those of the automatic
/// leave; then `MemberJoined` to the signal stream of every peer in the
/// session joined, the joiner's own stream left out; and a change of the
/// session list where that session is public.
pub open spec fn join_effects(st: StateView, session_id: Seq<char>, user: Seq<char>)
    -> EffectsView {
    let s = st.join(session_id, user).sessions[session_id];
    let base = vacate_effects(st, session_id, user);
    EffectsView {
        deliveries: base.deliveries + fanout(
            pipes(senders_without(s.signal_senders, user)),
            event_signal(SignalKind::MemberJoined, user, s.id, user),
        ),
        sessions_changed: base.sessions_changed || s.is_public,
        global_members_changed: base.global_members_changed || session_id == global_id(),
        ..base
    }
}

/// A join finds its target whenever the target exists beforehand: the
/// automatic leave touches another session only.
pub proof fn lemma_join_finds(st: StateView, session_id: Seq<char>, user: Seq<char>)
    requires
        st.sessions.contains_key(session_id),
    ensures
        st.join_finds(session_id, user),
        st.previous(session_id, user) matches Some(p) ==> (st.join(
            session_id,
            user,
        ).sessions.contains_key(p) <==> st.leave(p, user).sessions.contains_key(p)),
{
}

fn clamp(requested: u32) -> (r: u32)
    ensures
        r == clamp_members(requested),
{
    if requested < SESSION_MIN_MEMBERS {
        SESSION_MIN_MEMBERS
    } else if requested > SESSION_MAX_MEMBERS {
        SESSION_MAX_MEMBERS
    } else {
        requested
    }
}

/// The effects of the automatic leave that a join reported, worked out
/// once the join is done.
fn effects_of_vacate(state: &ServerState, username: &str, left: Option<(String, LeaveInfo)>) -> (r:
    Effects)
    ensures
        r@ == match left {
            Some((p, info)) => crate::service::helpers::leave_effects_of(
                p@,
                username@,
                Some(info@),
                state@.sessions.contains_key(p@),
            ),
            None => EffectsView::none(),
        },
{
    match left {
        Some((previous, info)) => {
            let info = Some(info);
            effects_of_leave(state, previous.as_str(), username, &info)
        },
        None => Effects::none(),
    }
}

/// The public session list.
pub fn handle_list_sessions(state: &ServerState, _req: ListSessionsRequest) -> (r: Result<
    ListSessionsResponse,
    Status,
>)
    ensures
        r matches Ok(response) && is_session_list(state@, info_views(response.sessions@)),
{
    Ok(ListSessionsResponse { sessions: public_sessions(state) })
}

/// Creates a session under `code` for the requesting user, who becomes its
/// host and only member.
pub fn create_session_with_code(state: &mut ServerState, req: CreateSessionRequest, code: String)
    -> (r: Result<Reply<CreateSessionResponse>, Status>)
    requires
        !old(state)@.sessions.contains_key(code@),
    ensures
        final(state).same_info(old(state)),
        final(state)@ == create_state(
            old(state)@,
            code@,
            req.username@,
            req.is_public,
            req.max_members,
        ),
        old(state)@.consistent() ==> final(state)@.consistent(),
        old(state)@.consistent() && old(state)@.streams_of_members()
            ==> final(state)@.streams_of_members(),
        old(state)@.consistent() && old(state)@.presence_consistent()
            ==> final(state)@.presence_consistent(),
        r matches Ok(reply) && reply.message@ == create_reply(
            code@,
            req.username@,
            req.is_public,
            req.max_members,
        ) && reply.effects@ == create_effects(
            old(state)@,
            code@,
            req.username@,
            req.is_public,
            req.max_members,
        ),
{
    let ghost before = state@;
    proof {
        if before.consistent() {
            lemma_create_consistent(
                before,
                code@,
                req.username@,
                req.is_public,
                clamp_members(req.max_members),
            );
        }
    }
    let max_members = clamp(req.max_members);
    let session = SessionData {
        id: code.clone(),
        name: code.clone(),
        is_public: req.is_public,
        max_members,
        inner: SessionInner {
            host: req.username.clone(),
            members: Vec::new(),
            signal_senders: Vec::new(),
        },
    };
    proof {
        assert(session@ =~= SessionView::created(
            code@,
            req.username@,
            req.is_public,
            clamp_members(req.max_members),
        ));
    }
    registry_insert(&mut state.sessions, code.clone(), session);
    let ghost fresh = state@;
    proof {
        assert(fresh =~= before.open_session(
            code@,
            req.username@,
            req.is_public,
            clamp_members(req.max_members),
        ));
        lemma_join_finds(fresh, code@, req.username@);
    }
    let left = match join_session_inner(state, code.as_str(), req.username.as_str()) {
        Ok(left) => left,
        Err(message) => {
            return Err(Status::internal(message.as_str()));
        },
    };
    let mut effects = effects_of_vacate(state, req.username.as_str(), left);
    if req.is_public {
        effects.sessions_changed = true;
    }
    proof {
        assert(effects@ =~= create_effects(
            before,
            code@,
            req.username@,
            req.is_public,
            req.max_members,
        ));
    }
    let response = CreateSessionResponse {
        session_id: code.clone(),
        session_name: code,
        is_public: req.is_public,
        max_members,
        existing_peers: Vec::new(),
        host: req.username,
    };
    proof {
        assert(response@ =~= create_reply(
            code@,
            req.username@,
            req.is_public,
            req.max_members,
        ));
    }
    Ok(Reply { message: response, effects })
}

/// Creates a session under a fresh lobby code. Fails with `Internal`, and
/// changes nothing, only where no unused code could be drawn; that takes a
/// session stored under a lobby code, so that the first creation on a new
/// server succeeds.
pub fn handle_create_session(state: &mut ServerState, req: CreateSessionRequest) -> (r: Result<
    Reply<CreateSessionResponse>,
    Status,
>)
    ensures
        final(state).same_info(old(state)),
        old(state)@.consistent() ==> final(state)@.consistent(),
        old(state)@.consistent() && old(state)@.streams_of_members()
            ==> final(state)@.streams_of_members(),
        old(state)@.consistent() && old(state)@.presence_consistent()
            ==> final(state)@.presence_consistent(),
        match r {
            Ok(reply) => {
                let code = reply.message.session_id@;
                &&& is_lobby_code(code)
                &&& !old(state)@.sessions.contains_key(code)
                &&& final(state)@ == create_state(
                    old(state)@,
                    code,
                    req.username@,
                    req.is_public,
                    req.max_members,
                )
                &&& reply.message@ == create_reply(
                    code,
                    req.username@,
                    req.is_public,
                    req.max_members,
                )
                &&& reply.effects@ == create_effects(
                    old(state)@,
                    code,
                    req.username@,
                    req.is_public,
                    req.max_members,
                )
            },
            Err(status) => {
                &&& status.code == Code::Internal
                &&& final(state)@ == old(state)@
                &&& code_in_use(old(state)@)
            },
        },
{
    match generate_lobby_code(state) {
        Some(code) => create_session_with_code(state, req, code),
        None => Err(Status::internal("No unused session code was found")),
    }
}

/// Puts the requesting user into a session. Refused with `NotFound` where
/// the session does not exist and with `ResourceExhausted` where it is
/// full; a refused join changes nothing.
pub fn handle_join_session(state: &mut ServerState, req: JoinSessionRequest) -> (r: Result<
    Reply<JoinSessionResponse>,
    Status,
>)
    ensures
        final(state).same_info(old(state)),
        final(state)@ == join_state(old(state)@, req.session_id@, req.username@),
        old(state)@.consistent() ==> final(state)@.consistent(),
        old(state)@.consistent() && old(state)@.streams_of_members()
            ==> final(state)@.streams_of_members(),
        old(state)@.consistent() && old(state)@.presence_consistent() && req.session_id@
            != global_id() ==> final(state)@.presence_consistent(),
        match r {
            Ok(reply) => {
                &&& join_refusal(old(state)@, req.session_id@).is_none()
                &&& reply.message@ == join_reply(old(state)@, req.session_id@, req.username@)
                &&& reply.effects@ == join_effects(old(state)@, req.session_id@, req.username@)
            },
            Err(status) => {
                &&& join_refusal(old(state)@, req.session_id@) == Some(status.code)
                &&& status.message@ == refusal_message(status.code)
            },
        },
{
    let ghost before = state@;
    match registry_get(&state.sessions, req.session_id.as_str()) {
        None => {
            return Err(Status::not_found("Session not found"));
        },
        Some(session) => {
            if session.max_members > 0 && session.inner.members.len() as u64
                >= session.max_members as u64 {
                return Err(Status::resource_exhausted("Session is full"));
            }
        },
    }
    proof {
        lemma_join_finds(before, req.session_id@, req.username@);
    }
    let left = match join_session_inner(state, req.session_id.as_str(), req.username.as_str()) {
        Ok(left) => left,
        Err(message) => {
            return Err(Status::not_found(message.as_str()));
        },
    };
    let session = registry_get(&state.sessions, req.session_id.as_str()).unwrap();
    let mut existing_peers = clone_names(&session.inner.members);
    remove_name(&mut existing_peers, req.username.as_str());
    let mut peer_senders = clone_senders(&session.inner.signal_senders);
    remove_sender(&mut peer_senders, req.username.as_str());
    let mut effects = effects_of_vacate(state, req.username.as_str(), left);
    let ghost base = effects@;
    let joined = fanout_signal(
        collect_pipes(&peer_senders).as_slice(),
        SignalKind::MemberJoined,
        req.username.as_str(),
        session.id.as_str(),
        req.username.as_str(),
    );
    append_deliveries(&mut effects.deliveries, joined);
    if session.is_public {
        effects.sessions_changed = true;
    }
    if req.session_id.as_str().eq(GLOBAL_SESSION_ID) {
        effects.global_members_changed = true;
    }
    proof {
        assert(base == vacate_effects(before, req.session_id@, req.username@));
        assert(effects@ =~= join_effects(before, req.session_id@, req.username@));
    }
    let response = JoinSessionResponse {
        session_id: session.id,
        session_name: session.name,
        is_public: session.is_public,
        max_members: session.max_members,
        existing_peers,
        host: session.inner.host,
    };
    proof {
        assert(response@ =~= join_reply(before, req.session_id@, req.username@));
    }
    Ok(Reply { message: response, effects })
}

/// Takes the requesting user out of a session. A leave by a user whom the
/// index does not bind to the session, a second leave among them,
/// succeeds and has no effect.
pub fn handle_leave_session(state: &mut ServerState, req: LeaveSessionRequest) -> (r: Result<
    Reply<LeaveSessionResponse>,
    Status,
>)
    ensures
        final(state).same_info(old(state)),
        final(state)@ == old(state)@.leave(req.session_id@, req.username@),
        old(state)@.consistent() ==> final(state)@.consistent(),
        old(state)@.consistent() && old(state)@.streams_of_members()
            ==> final(state)@.streams_of_members(),
        old(state)@.consistent() && old(state)@.presence_consistent()
            ==> final(state)@.presence_consistent(),
        r matches Ok(reply) && reply.effects@ == leave_effects(
            old(state)@,
            req.session_id@,
            req.username@,
        ),
{
    let info = leave_session_inner(state, req.session_id.as_str(), req.username.as_str());
    let effects = effects_of_leave(state, req.session_id.as_str(), req.username.as_str(), &info);
    Ok(Reply { message: LeaveSessionResponse {  }, effects })
}

/// The members of a session, or `NotFound`.
pub fn handle_get_members(state: &ServerState, req: GetMembersRequest) -> (r: Result<
    GetMembersResponse,
    Status,
>)
    ensures
        match r {
            Ok(response) => state@.sessions.contains_key(req.session_id@) && names(
                response.members@,
            ) == state@.sessions[req.session_id@].members,
            Err(status) => !state@.sessions.contains_key(req.session_id@) && status.code
                == Code::NotFound && status.message@ == "Session not found"@,
        },
{
    match registry_get(&state.sessions, req.session_id.as_str()) {
        Some(session) => Ok(GetMembersResponse { members: session.inner.members }),
        None => Err(Status::not_found("Session not found")),
    }
}

} // verus!
