use weyvelength::messages::{
    Code, CreateSessionRequest, JoinSessionRequest, SendMessageRequest, SendSignalRequest, Signal,
    SignalKind, StreamGlobalMembersRequest, StreamMessagesRequest, StreamSessionUpdatesRequest,
    StreamSignalsRequest,
};
use weyvelength::service::helpers::fanout_signal;
use weyvelength::service::messaging::{handle_send_message, send_message_at};
use weyvelength::service::sessions::{create_session_with_code, handle_join_session};
use weyvelength::service::signals::{
    close_signal_stream, handle_send_signal, handle_stream_signals,
};
use weyvelength::service::streams::{
    close_message_stream, global_stream_count, handle_stream_global_members,
    handle_stream_messages, handle_stream_session_updates,
};
use weyvelength::service::{bridge_step, get_server_info, BridgeAction, BridgeEvent};
use weyvelength::messages::{GetServerInfoRequest, Status};
use weyvelength::session::now_timestamp;
use weyvelength::state::{IceServerConfig, ServerState};

fn fresh() -> ServerState {
    ServerState::new("Test".to_string(), "Welcome!".to_string(), Vec::new())
}

fn two_peers() -> ServerState {
    let mut state = fresh();
    let req = CreateSessionRequest { username: "Alice".to_string(), is_public: false, max_members: 4 };
    create_session_with_code(&mut state, req, "ROOM0001".to_string()).unwrap();
    let req = JoinSessionRequest { session_id: "ROOM0001".to_string(), username: "Bob".to_string() };
    handle_join_session(&mut state, req).unwrap();
    for (user, pipe) in [("Alice", 1u64), ("Bob", 2u64)] {
        let req = StreamSignalsRequest {
            session_id: "ROOM0001".to_string(),
            username: user.to_string(),
        };
        handle_stream_signals(&mut state, req, pipe).unwrap();
    }
    state
}

fn offer(to: &str, session: &str) -> Signal {
    Signal {
        from_user: "Alice".to_string(),
        to_user: to.to_string(),
        session_id: session.to_string(),
        kind: SignalKind::SdpOffer,
        payload: "v=0 sdp".to_string(),
    }
}

fn open_global(state: &mut ServerState, user: &str) -> bool {
    let req = StreamMessagesRequest {
        session_id: "__global__".to_string(),
        username: user.to_string(),
    };
    handle_stream_messages(state, req).unwrap().global_members_changed
}

fn global_members(state: &ServerState) -> Vec<String> {
    handle_stream_global_members(state, StreamGlobalMembersRequest {}).unwrap().members
}

#[test]
fn signal_is_delivered_once_unchanged() {
    let state = two_peers();
    let reply = handle_send_signal(&state, SendSignalRequest {
        signal: Some(offer("Bob", "ROOM0001")),
    })
    .unwrap();
    assert_eq!(reply.effects.deliveries.len(), 1);
    let delivery = &reply.effects.deliveries[0];
    assert_eq!(delivery.pipe, 2);
    assert_eq!(delivery.signal.from_user, "Alice");
    assert_eq!(delivery.signal.to_user, "Bob");
    assert_eq!(delivery.signal.session_id, "ROOM0001");
    assert_eq!(delivery.signal.kind, SignalKind::SdpOffer);
    assert_eq!(delivery.signal.payload, "v=0 sdp");
    assert!(reply.effects.chat.is_none());
    assert!(!reply.effects.sessions_changed);
}

#[test]
fn signal_to_absent_peer_or_session_succeeds_silently() {
    let state = two_peers();
    let reply = handle_send_signal(&state, SendSignalRequest {
        signal: Some(offer("Carol", "ROOM0001")),
    })
    .unwrap();
    assert!(reply.effects.deliveries.is_empty());
    let reply = handle_send_signal(&state, SendSignalRequest {
        signal: Some(offer("Bob", "GONE0000")),
    })
    .unwrap();
    assert!(reply.effects.deliveries.is_empty());
}

#[test]
fn signal_request_without_signal_is_invalid() {
    let state = two_peers();
    let refused = handle_send_signal(&state, SendSignalRequest { signal: None }).unwrap_err();
    assert_eq!(refused.code, Code::InvalidArgument);
    assert_eq!(refused.message, "Missing signal");
}

#[test]
fn signal_stream_on_missing_session_is_not_found() {
    let mut state = fresh();
    let req = StreamSignalsRequest {
        session_id: "GONE0000".to_string(),
        username: "Alice".to_string(),
    };
    let refused = handle_stream_signals(&mut state, req, 1).unwrap_err();
    assert_eq!(refused.code, Code::NotFound);
    assert_eq!(refused.message, "Session not found");
}

#[test]
fn reopened_signal_stream_replaces_the_pipe() {
    let mut state = two_peers();
    let req = StreamSignalsRequest {
        session_id: "ROOM0001".to_string(),
        username: "Bob".to_string(),
    };
    handle_stream_signals(&mut state, req, 9).unwrap();
    let reply = handle_send_signal(&state, SendSignalRequest {
        signal: Some(offer("Bob", "ROOM0001")),
    })
    .unwrap();
    assert_eq!(reply.effects.deliveries.len(), 1);
    assert_eq!(reply.effects.deliveries[0].pipe, 9);
}

#[test]
fn fanout_addresses_every_pipe_in_order() {
    let out = fanout_signal(&[5, 6, 7], SignalKind::MemberLeft, "Alice", "ROOM0001", "Alice");
    assert_eq!(out.len(), 3);
    for (delivery, pipe) in out.iter().zip([5u64, 6, 7]) {
        assert_eq!(delivery.pipe, pipe);
        assert_eq!(delivery.signal.kind, SignalKind::MemberLeft);
        assert_eq!(delivery.signal.from_user, "Alice");
        assert_eq!(delivery.signal.to_user, "");
        assert_eq!(delivery.signal.session_id, "ROOM0001");
        assert_eq!(delivery.signal.payload, "Alice");
    }
    assert!(fanout_signal(&[], SignalKind::HostChanged, "", "ROOM0001", "Bob").is_empty());
}

#[test]
fn chat_line_keeps_its_content() {
    let state = two_peers();
    let req = SendMessageRequest {
        session_id: "ROOM0001".to_string(),
        username: "Alice".to_string(),
        content: "hello".to_string(),
    };
    let reply = send_message_at(&state, req, 1_700_000_000).unwrap();
    let message = reply.effects.chat.unwrap();
    assert_eq!(message.username, "Alice");
    assert_eq!(message.content, "hello");
    assert_eq!(message.timestamp, 1_700_000_000);
    assert!(reply.effects.deliveries.is_empty());
}

#[test]
fn chat_line_is_stamped_by_the_clock() {
    let state = two_peers();
    let before = now_timestamp().unwrap();
    let req = SendMessageRequest {
        session_id: "__global__".to_string(),
        username: "Alice".to_string(),
        content: "hi all".to_string(),
    };
    let reply = handle_send_message(&state, req).unwrap();
    let message = reply.effects.chat.unwrap();
    assert_eq!(message.content, "hi all");
    assert!(message.timestamp >= before);
    assert!(before > 1_600_000_000);
}

#[test]
fn chat_in_missing_session_is_not_found() {
    let state = fresh();
    let req = SendMessageRequest {
        session_id: "GONE0000".to_string(),
        username: "Alice".to_string(),
        content: "hello".to_string(),
    };
    let refused = handle_send_message(&state, req).unwrap_err();
    assert_eq!(refused.code, Code::NotFound);
    assert_eq!(refused.message, "Session not found");
}

#[test]
fn global_presence_ref_count() {
    let mut state = fresh();
    let mut events = 0;
    if open_global(&mut state, "Alice") {
        events += 1;
    }
    if open_global(&mut state, "Alice") {
        events += 1;
    }
    assert_eq!(global_members(&state), vec!["Alice".to_string()]);
    assert_eq!(global_stream_count(&state, "Alice"), 2);

    if close_message_stream(&mut state, "__global__", "Alice", true).global_members_changed {
        events += 1;
    }
    assert_eq!(global_members(&state), vec!["Alice".to_string()]);
    assert_eq!(global_stream_count(&state, "Alice"), 1);

    if close_message_stream(&mut state, "__global__", "Alice", true).global_members_changed {
        events += 1;
    }
    assert!(global_members(&state).is_empty());
    assert_eq!(global_stream_count(&state, "Alice"), 0);
    assert!(!state.global_stream_refs.contains_key("Alice"));
    assert_eq!(events, 2);
}

#[test]
fn close_without_open_stream_changes_nothing() {
    let mut state = fresh();
    open_global(&mut state, "Bob");
    let effects = close_message_stream(&mut state, "__global__", "Alice", true);
    assert!(!effects.global_members_changed);
    assert_eq!(global_members(&state), vec!["Bob".to_string()]);
}

#[test]
fn source_side_end_of_global_stream_keeps_presence() {
    let mut state = fresh();
    open_global(&mut state, "Alice");
    let effects = close_message_stream(&mut state, "__global__", "Alice", false);
    assert!(!effects.global_members_changed);
    assert_eq!(global_stream_count(&state, "Alice"), 1);
    assert_eq!(global_members(&state), vec!["Alice".to_string()]);
}

#[test]
fn session_message_stream_close_does_not_leave() {
    let mut state = two_peers();
    let req = StreamMessagesRequest {
        session_id: "ROOM0001".to_string(),
        username: "Bob".to_string(),
    };
    let opened = handle_stream_messages(&mut state, req).unwrap();
    assert!(!opened.global_members_changed);
    assert_eq!(global_stream_count(&state, "Bob"), 0);
    let effects = close_message_stream(&mut state, "ROOM0001", "Bob", true);
    assert!(effects.deliveries.is_empty());
    assert!(!effects.sessions_changed);
    let stored = state.sessions.get("ROOM0001").unwrap().value().clone();
    assert_eq!(stored.inner.members, vec!["Alice".to_string(), "Bob".to_string()]);
}

#[test]
fn message_stream_on_missing_session_is_not_found() {
    let mut state = fresh();
    let req = StreamMessagesRequest {
        session_id: "GONE0000".to_string(),
        username: "Alice".to_string(),
    };
    let refused = handle_stream_messages(&mut state, req).unwrap_err();
    assert_eq!(refused.code, Code::NotFound);
}

#[test]
fn session_update_snapshot_lists_public_sessions() {
    let mut state = fresh();
    assert!(handle_stream_session_updates(&state, StreamSessionUpdatesRequest {})
        .unwrap()
        .sessions
        .is_empty());
    let req = CreateSessionRequest { username: "Alice".to_string(), is_public: true, max_members: 5 };
    create_session_with_code(&mut state, req, "OPEN0001".to_string()).unwrap();
    let req = JoinSessionRequest { session_id: "OPEN0001".to_string(), username: "Bob".to_string() };
    handle_join_session(&mut state, req).unwrap();
    let snapshot = handle_stream_session_updates(&state, StreamSessionUpdatesRequest {})
        .unwrap()
        .sessions;
    assert_eq!(snapshot.len(), 1);
    assert_eq!(snapshot[0].id, "OPEN0001");
    assert_eq!(snapshot[0].member_count, 2);
    assert_eq!(snapshot[0].max_members, 5);
}

#[test]
fn lagging_stream_goes_on() {
    assert_eq!(bridge_step(BridgeEvent::Lagged), BridgeAction::Continue);
    assert_eq!(bridge_step(BridgeEvent::Item), BridgeAction::Forward);
    assert_eq!(
        bridge_step(BridgeEvent::DownstreamClosed),
        BridgeAction::Stop { client_disconnected: true }
    );
    assert_eq!(
        bridge_step(BridgeEvent::ForwardFailed),
        BridgeAction::Stop { client_disconnected: true }
    );
    assert_eq!(
        bridge_step(BridgeEvent::SourceClosed),
        BridgeAction::Stop { client_disconnected: false }
    );
}

#[test]
fn server_info_repeats_the_configuration() {
    let ice = vec![
        IceServerConfig {
            url: "stun:stun.example.org:3478".to_string(),
            username: String::new(),
            credential: String::new(),
            name: String::new(),
        },
        IceServerConfig {
            url: "turn:turn.example.org:3478".to_string(),
            username: "user".to_string(),
            credential: "pass".to_string(),
            name: "Relay".to_string(),
        },
    ];
    let state = ServerState::new("My Server".to_string(), "Hello".to_string(), ice);
    let info = get_server_info(&state, GetServerInfoRequest {}).unwrap();
    assert_eq!(info.server_name, "My Server");
    assert_eq!(info.motd, "Hello");
    assert_eq!(info.ice_servers.len(), 2);
    assert_eq!(info.ice_servers[0].url, "stun:stun.example.org:3478");
    assert_eq!(info.ice_servers[1].name, "Relay");
    assert_eq!(info.ice_servers[1].username, "user");
    assert_eq!(info.ice_servers[1].credential, "pass");
}

#[test]
fn new_server_has_only_the_global_session() {
    let state = fresh();
    assert_eq!(state.sessions.len(), 1);
    let global = state.sessions.get("__global__").unwrap().value().clone();
    assert_eq!(global.id, "__global__");
    assert_eq!(global.name, "global");
    assert!(!global.is_public);
    assert_eq!(global.max_members, 0);
    assert_eq!(global.inner.host, "");
    assert!(global.inner.members.is_empty());
    assert!(state.user_session_index.is_empty());
    assert!(state.global_stream_refs.is_empty());
}

#[test]
fn signal_kinds_have_their_wire_codes_and_labels() {
    let kinds = [
        SignalKind::SdpOffer,
        SignalKind::SdpAnswer,
        SignalKind::IceCandidate,
        SignalKind::MemberJoined,
        SignalKind::MemberLeft,
        SignalKind::HostChanged,
    ];
    for (expected, kind) in kinds.iter().enumerate() {
        assert_eq!(kind.code(), expected as i32);
        assert_eq!(SignalKind::from_code(expected as i32), Some(*kind));
    }
    assert_eq!(SignalKind::from_code(6), None);
    assert_eq!(SignalKind::from_code(-1), None);
    assert_eq!(SignalKind::SdpOffer.label(), "offer");
    assert_eq!(SignalKind::SdpAnswer.label(), "answer");
    assert_eq!(SignalKind::IceCandidate.label(), "ice");
    assert_eq!(SignalKind::MemberLeft.label(), "unknown");
}

#[test]
fn statuses_carry_their_class_and_message() {
    let status = Status::internal("broken");
    assert_eq!(status.code, Code::Internal);
    assert_eq!(status.message, "broken");
    assert_eq!(Status::not_found("a").code, Code::NotFound);
    assert_eq!(Status::resource_exhausted("b").code, Code::ResourceExhausted);
    assert_eq!(Status::invalid_argument("c").code, Code::InvalidArgument);
}

#[test]
fn closing_a_signal_stream_of_a_user_who_left_changes_nothing() {
    let mut state = two_peers();
    let effects = close_signal_stream(&mut state, "ROOM0001", "Bob");
    assert_eq!(effects.deliveries.len(), 1);
    assert_eq!(effects.deliveries[0].pipe, 1);
    let again = close_signal_stream(&mut state, "ROOM0001", "Bob");
    assert!(again.deliveries.is_empty());
    assert!(!again.sessions_changed);
    let gone = close_signal_stream(&mut state, "GONE0000", "Bob");
    assert!(gone.deliveries.is_empty());
}
