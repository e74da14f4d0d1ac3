//! Point-to-point signals and the lifecycle of signal streams.

use vstd::prelude::*;
use crate::invariants::lemma_register_consistent;
use crate::messages::{
    Code, SendSignalRequest, SendSignalResponse, SignalView, Status, StreamSignalsRequest,
};
use crate::model::{global_id, StateView};
use crate::registry::{registry_get, registry_insert, registry_remove};
use crate::senders::{find_pipe, pipe_of, register_sender, remove_sender};
use crate::service::helpers::{effects_of_leave, leave_effects};
use crate::service::{Delivery, Effects, EffectsView, Reply};
use crate::session::leave_session_inner;
use crate::state::ServerState;

verus! {

/// Where a directed signal goes: down the pipe of its addressee in its
/// session, once and unchanged; nowhere where the session does not exist or
/// the addressee has no signal stream open in it.
pub open spec fn route(st: StateView, signal: SignalView) -> Seq<(u64, SignalView)> {
    if st.sessions.contains_key(signal.session_id) {
        match pipe_of(st.sessions[signal.session_id].signal_senders, signal.to_user) {
            Some(pipe) => seq![(pipe, signal)],
            None => Seq::empty(),
        }
    } else {
        Seq::empty()
    }
}

/// The effects of a routed signal: its delivery and nothing else.
pub open spec fn signal_effects(st: StateView, signal: SignalView) -> EffectsView {
    EffectsView { deliveries: route(st, signal), ..EffectsView::none() }
}

/// Routes a signal to its addressee. A request without a signal is refused
/// with `InvalidArgument`; every other request succeeds, also where the
/// signal reaches nobody.
pub fn handle_send_signal(state: &ServerState, req: SendSignalRequest) -> (r: Result<
    Reply<SendSignalResponse>,
    Status,
>)
    ensures
        match r {
            Ok(reply) => req.signal matches Some(signal) && reply.effects@ == signal_effects(
                state@,
                signal@,
            ),
            Err(status) => req.signal.is_none() && status.code == Code::InvalidArgument
                && status.message@ == "Missing signal"@,
        },
{
    let signal = match req.signal {
        Some(signal) => signal,
        None => {
            return Err(Status::invalid_argument("Missing signal"));
        },
    };
    let mut effects = Effects::none();
    let sender = match registry_get(&state.sessions, signal.session_id.as_str()) {
        Some(session) => find_pipe(&session.inner.signal_senders, signal.to_user.as_str()),
        None => None,
    };
    let ghost target = signal@;
    if let Some(pipe) = sender {
        effects.deliveries.push(Delivery { pipe, signal });
    }
    proof {
        assert(effects@ =~= signal_effects(state@, target));
    }
    Ok(Reply { message: SendSignalResponse {  }, effects })
}

/// Registers `pipe` as the signal stream of the requesting user in the
/// session, in place of a stream the user had open there. Refused with
/// `NotFound`, and without effect, where the session does not exist.
pub fn handle_stream_signals(state: &mut ServerState, req: StreamSignalsRequest, pipe: u64) -> (r:
    Result<(), Status>)
    ensures
        final(state).same_info(old(state)),
        final(state)@ == old(state)@.register(req.session_id@, req.username@, pipe),
        old(state)@.consistent() ==> final(state)@.consistent(),
        old(state)@.consistent() && old(state)@.streams_of_members() && (old(state)@.member(
            req.username@,
            req.session_id@,
        ) || req.session_id@ == global_id()) ==> final(state)@.streams_of_members(),
        old(state)@.consistent() && old(state)@.presence_consistent()
            ==> final(state)@.presence_consistent(),
        match r {
            Ok(_) => old(state)@.sessions.contains_key(req.session_id@),
            Err(status) => !old(state)@.sessions.contains_key(req.session_id@) && status.code
                == Code::NotFound && status.message@ == "Session not found"@,
        },
{
    let ghost before = state@;
    proof {
        if before.consistent() {
            lemma_register_consistent(before, req.session_id@, req.username@, pipe);
        }
    }
    match registry_remove(&mut state.sessions, req.session_id.as_str()) {
        Some(session) => {
            let mut session = session;
            let ghost record = session@;
            register_sender(&mut session.inner.signal_senders, req.username.as_str(), pipe);
            proof {
                assert(session@ =~= record.register(req.username@, pipe));
            }
            registry_insert(&mut state.sessions, req.session_id.clone(), session);
            proof {
                assert(before.sessions.remove(req.session_id@).insert(
                    req.session_id@,
                    record.register(req.username@, pipe),
                ) =~= before.sessions.insert(
                    req.session_id@,
                    record.register(req.username@, pipe),
                ));
                assert(state@ =~= before.register(req.session_id@, req.username@, pipe));
            }
            Ok(())
        },
        None => {
            proof {
                assert(before.sessions.remove(req.session_id@) =~= before.sessions);
                assert(state@ =~= before);
            }
            Err(Status::not_found("Session not found"))
        },
    }
}

/// The end of a signal stream, whichever side ended it: the user's pipe
/// is taken off the session, and the user leaves the session unless a
/// leave has already taken effect. The effects are those of that leave.
pub fn close_signal_stream(state: &mut ServerState, session_id: &str, username: &str) -> (r:
    Effects)
    ensures
        final(state).same_info(old(state)),
        final(state)@ == old(state)@.unregister(session_id@, username@).leave(
            session_id@,
            username@,
        ),
        r@ == leave_effects(old(state)@.unregister(session_id@, username@), session_id@, username@),
        old(state)@.consistent() ==> final(state)@.consistent(),
        old(state)@.consistent() && old(state)@.streams_of_members()
            ==> final(state)@.streams_of_members(),
        old(state)@.consistent() && old(state)@.presence_consistent()
            ==> final(state)@.presence_consistent(),
{
    let ghost before = state@;
    proof {
        if before.consistent() {
            lemma_register_consistent(before, session_id@, username@, 0);
        }
    }
    match registry_remove(&mut state.sessions, session_id) {
        Some(session) => {
            let mut session = session;
            let ghost record = session@;
            remove_sender(&mut session.inner.signal_senders, username);
            proof {
                assert(session@ =~= record.unregister(username@));
            }
            registry_insert(&mut state.sessions, session_id.to_owned(), session);
            proof {
                assert(before.sessions.remove(session_id@).insert(
                    session_id@,
                    record.unregister(username@),
                ) =~= before.sessions.insert(session_id@, record.unregister(username@)));
            }
        },
        None => {
            proof {
                assert(before.sessions.remove(session_id@) =~= before.sessions);
            }
        },
    }
    proof {
        assert(state@ =~= before.unregister(session_id@, username@));
    }
    let info = leave_session_inner(state, session_id, username);
    effects_of_leave(state, session_id, username, &info)
}

} // verus!
