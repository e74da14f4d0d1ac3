//! Chat.

use vstd::prelude::*;
use crate::messages::{
    ChatMessage, ChatMessageView, Code, SendMessageRequest, SendMessageResponse, Status,
};
use crate::registry::registry_contains;
use crate::service::{Effects, EffectsView, Reply};
use crate::session::now_timestamp;
use crate::state::ServerState;

verus! {

/// The effects of a chat line: its publication and nothing else.
pub open spec fn chat_effects(username: Seq<char>, content: Seq<char>, timestamp: i64)
    -> EffectsView {
    EffectsView {
        chat: Some(ChatMessageView { username, content, timestamp }),
        ..EffectsView::none()
    }
}

/// Publishes a chat line stamped `timestamp` in the request's session.
/// Refused with `NotFound` where the session does not exist.
pub fn send_message_at(state: &ServerState, req: SendMessageRequest, timestamp: i64) -> (r: Result<
    Reply<SendMessageResponse>,
    Status,
>)
    ensures
        match r {
            Ok(reply) => state@.sessions.contains_key(req.session_id@) && reply.effects@
                == chat_effects(req.username@, req.content@, timestamp),
            Err(status) => !state@.sessions.contains_key(req.session_id@) && status.code
                == Code::NotFound && status.message@ == "Session not found"@,
        },
{
    if !registry_contains(&state.sessions, req.session_id.as_str()) {
        return Err(Status::not_found("Session not found"));
    }
    let mut effects = Effects::none();
    effects.chat = Some(ChatMessage { username: req.username, content: req.content, timestamp });
    proof {
        assert(effects@ =~= chat_effects(req.username@, req.content@, timestamp));
    }
    Ok(Reply { message: SendMessageResponse {  }, effects })
}

/// Publishes a chat line in the request's session, stamped with the
/// server's clock. Refused with `NotFound` where the session does not
/// exist. Where it exists, the only failure is `Internal`, for a clock set
/// before the start of Unix time.
pub fn handle_send_message(state: &ServerState, req: SendMessageRequest) -> (r: Result<
    Reply<SendMessageResponse>,
    Status,
>)
    ensures
        match r {
            Ok(reply) => state@.sessions.contains_key(req.session_id@) && exists|timestamp: i64|
                reply.effects@ == chat_effects(req.username@, req.content@, timestamp),
            Err(status) => if state@.sessions.contains_key(req.session_id@) {
                status.code == Code::Internal && status.message@
                    == "System clock is set before the Unix epoch"@
            } else {
                status.code == Code::NotFound && status.message@ == "Session not found"@
            },
        },
{
    if !registry_contains(&state.sessions, req.session_id.as_str()) {
        return Err(Status::not_found("Session not found"));
    }
    match now_timestamp() {
        Some(timestamp) => send_message_at(state, req, timestamp),
        None => Err(Status::internal("System clock is set before the Unix epoch")),
    }
}

} // verus!
