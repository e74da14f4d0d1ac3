use weyvelength::client::commands::{
    get_server_info, list_sessions, unix_secs, ChatMessagePayload, SessionInfoPayload,
    SessionPayload,
};
use weyvelength::client::state::{AppState, IceServerEntry, StreamKind};
use weyvelength::client::webrtc::{
    handle_incoming_signal, join_session_webrtc, leave_session_webrtc, peer_state_label,
    received_session_message, rtc_ice_servers, send_session_message, DataChannelMessage,
    PeerConnectionState, SignalAction,
};
use weyvelength::messages::{
    ChatMessage, CreateSessionResponse, GetServerInfoResponse, IceServer, JoinSessionResponse,
    SessionInfo, Signal, SignalKind,
};

fn entry(url: &str, name: &str) -> IceServerEntry {
    IceServerEntry {
        url: url.to_string(),
        username: String::new(),
        credential: String::new(),
        name: name.to_string(),
    }
}

fn signal(kind: SignalKind, payload: &str) -> Signal {
    Signal {
        from_user: "Bob".to_string(),
        to_user: "Alice".to_string(),
        session_id: "ROOM0001".to_string(),
        kind,
        payload: payload.to_string(),
    }
}

fn in_session() -> AppState {
    let mut state = AppState::new();
    state.username = Some("Alice".to_string());
    state.current_session_id = Some("ROOM0001".to_string());
    state
}

#[test]
fn effective_servers_are_stun_and_the_selected_turn() {
    let mut state = AppState::new();
    state.ice_servers = vec![
        entry("stun:a.example:3478", ""),
        entry("turn:b.example:3478", "East"),
        entry("stuns:c.example:5349", ""),
        entry("turns:d.example:5349", "West"),
        entry("turn:e.example:3478", ""),
    ];
    let urls = |state: &AppState| -> Vec<String> {
        state.effective_ice_servers().into_iter().map(|e| e.url).collect()
    };
    assert_eq!(urls(&state), vec!["stun:a.example:3478", "stuns:c.example:5349"]);
    state.set_turn_server(Some("West".to_string()));
    assert_eq!(
        urls(&state),
        vec!["stun:a.example:3478", "stuns:c.example:5349", "turns:d.example:5349"]
    );
    state.set_turn_server(Some(String::new()));
    assert_eq!(urls(&state), vec!["stun:a.example:3478", "stuns:c.example:5349"]);
    state.set_turn_server(None);
    assert_eq!(urls(&state), vec!["stun:a.example:3478", "stuns:c.example:5349"]);
}

#[test]
fn a_url_that_only_holds_stun_later_is_no_stun_server() {
    let mut state = AppState::new();
    state.ice_servers = vec![entry("xstun:a.example", ""), entry("stun", "")];
    assert!(state.effective_ice_servers().is_empty());
}

#[test]
fn reopening_a_stream_hands_back_the_previous_token() {
    let mut state = AppState::new();
    assert_eq!(state.reset_stream(StreamKind::Signals, 1), None);
    assert_eq!(state.reset_stream(StreamKind::Global, 2), None);
    assert_eq!(state.reset_stream(StreamKind::Signals, 3), Some(1));
    assert_eq!(state.signals_cancel_tx, Some(3));
    assert_eq!(state.global_cancel_tx, Some(2));
    assert_eq!(state.cancel_stream(StreamKind::Signals), Some(3));
    assert_eq!(state.cancel_stream(StreamKind::Signals), None);
    assert_eq!(state.global_cancel_tx, Some(2));
}

#[test]
fn cancelling_all_streams_hands_back_every_token_in_order() {
    let mut state = AppState::new();
    state.reset_stream(StreamKind::SessionMessages, 50);
    state.reset_stream(StreamKind::GlobalMembers, 40);
    state.reset_stream(StreamKind::Global, 10);
    state.reset_stream(StreamKind::SessionUpdates, 30);
    assert_eq!(state.cancel_all_streams(), vec![10, 30, 40, 50]);
    assert_eq!(state.cancel_all_streams(), Vec::<u64>::new());
}

#[test]
fn disconnect_clears_the_session_and_the_name() {
    let mut state = in_session();
    state.reset_stream(StreamKind::Signals, 8);
    state.set_turn_server(Some("East".to_string()));
    assert_eq!(state.disconnect(), vec![8]);
    assert!(state.username.is_none());
    assert!(state.current_session_id.is_none());
    assert_eq!(state.selected_turn, Some("East".to_string()));
    assert_eq!(state.get_username().unwrap_err(), "No username set");
}

#[test]
fn username_is_returned_when_set() {
    let state = in_session();
    assert_eq!(state.get_username().unwrap(), "Alice");
}

#[test]
fn offer_is_answered_in_the_current_session() {
    let state = in_session();
    match handle_incoming_signal(&state, signal(SignalKind::SdpOffer, "sdp-offer"), false) {
        SignalAction::Answer { local_username, peer, session_id, offer } => {
            assert_eq!(local_username, "Alice");
            assert_eq!(peer, "Bob");
            assert_eq!(session_id, "ROOM0001");
            assert_eq!(offer, "sdp-offer");
        }
        other => panic!("unexpected action {:?}", other),
    }
}

#[test]
fn offer_is_ignored_outside_a_session() {
    let mut state = in_session();
    state.current_session_id = None;
    let action = handle_incoming_signal(&state, signal(SignalKind::SdpOffer, "sdp"), true);
    assert!(matches!(action, SignalAction::Ignore));
    let mut state = in_session();
    state.username = None;
    let action = handle_incoming_signal(&state, signal(SignalKind::SdpOffer, "sdp"), true);
    assert!(matches!(action, SignalAction::Ignore));
}

#[test]
fn answer_and_candidate_go_to_a_connected_peer_only() {
    let state = in_session();
    match handle_incoming_signal(&state, signal(SignalKind::SdpAnswer, "sdp-answer"), true) {
        SignalAction::AcceptAnswer { peer, sdp } => {
            assert_eq!(peer, "Bob");
            assert_eq!(sdp, "sdp-answer");
        }
        other => panic!("unexpected action {:?}", other),
    }
    match handle_incoming_signal(&state, signal(SignalKind::IceCandidate, "{}"), true) {
        SignalAction::AddIceCandidate { peer, candidate } => {
            assert_eq!(peer, "Bob");
            assert_eq!(candidate, "{}");
        }
        other => panic!("unexpected action {:?}", other),
    }
    let action = handle_incoming_signal(&state, signal(SignalKind::SdpAnswer, "sdp"), false);
    assert!(matches!(action, SignalAction::Ignore));
    let action = handle_incoming_signal(&state, signal(SignalKind::IceCandidate, "{}"), false);
    assert!(matches!(action, SignalAction::Ignore));
}

#[test]
fn member_events_reach_the_user_interface() {
    let state = in_session();
    match handle_incoming_signal(&state, signal(SignalKind::MemberJoined, "Carol"), false) {
        SignalAction::MemberEvent { username, joined } => {
            assert_eq!(username, "Carol");
            assert!(joined);
        }
        other => panic!("unexpected action {:?}", other),
    }
    match handle_incoming_signal(&state, signal(SignalKind::MemberLeft, "Carol"), false) {
        SignalAction::MemberEvent { username, joined } => {
            assert_eq!(username, "Carol");
            assert!(!joined);
        }
        other => panic!("unexpected action {:?}", other),
    }
    let action = handle_incoming_signal(&state, signal(SignalKind::HostChanged, "Carol"), true);
    assert!(matches!(action, SignalAction::Ignore));
}

#[test]
fn peer_states_have_their_labels() {
    assert_eq!(peer_state_label(PeerConnectionState::Connecting), "checking");
    assert_eq!(peer_state_label(PeerConnectionState::Connected), "connected");
    assert_eq!(peer_state_label(PeerConnectionState::Disconnected), "disconnected");
    assert_eq!(peer_state_label(PeerConnectionState::Failed), "disconnected");
    assert_eq!(peer_state_label(PeerConnectionState::Closed), "closed");
    assert_eq!(peer_state_label(PeerConnectionState::New), "");
    assert_eq!(peer_state_label(PeerConnectionState::Unspecified), "");
}

#[test]
fn connection_without_servers_uses_the_default_stun_server() {
    let servers = rtc_ice_servers(Vec::new());
    assert_eq!(servers.len(), 1);
    assert_eq!(servers[0].url, "stun:stun.l.google.com:19302");
    assert_eq!(servers[0].username, "");
    assert_eq!(servers[0].credential, "");
    let given = rtc_ice_servers(vec![entry("turn:b.example:3478", "East")]);
    assert_eq!(given.len(), 1);
    assert_eq!(given[0].url, "turn:b.example:3478");
}

#[test]
fn session_message_is_sent_and_echoed() {
    let (envelope, echo) = send_session_message("Alice".to_string(), "hi".to_string(), 99);
    assert_eq!(envelope.username, "Alice");
    assert_eq!(envelope.content, "hi");
    assert_eq!(envelope.timestamp, 99);
    assert_eq!(echo.username, "Alice");
    assert_eq!(echo.content, "hi");
    assert_eq!(echo.timestamp, 99);
    let shown = received_session_message(DataChannelMessage {
        username: "Bob".to_string(),
        content: "yo".to_string(),
        timestamp: 100,
    });
    assert_eq!(shown.username, "Bob");
    assert_eq!(shown.content, "yo");
    assert_eq!(shown.timestamp, 100);
}

#[test]
fn payloads_repeat_the_server_messages() {
    let info = SessionInfo {
        id: "ROOM0001".to_string(),
        name: "ROOM0001".to_string(),
        member_count: 3,
        is_public: true,
        max_members: 8,
    };
    let payload = SessionInfoPayload::from_info(&info);
    assert_eq!(payload.id, "ROOM0001");
    assert_eq!(payload.member_count, 3);
    assert_eq!(payload.max_members, 8);
    assert!(payload.is_public);
    let listed = list_sessions(&vec![info]);
    assert_eq!(listed.len(), 1);
    assert_eq!(listed[0].name, "ROOM0001");

    let created = SessionPayload::from_created(CreateSessionResponse {
        session_id: "ROOM0001".to_string(),
        session_name: "ROOM0001".to_string(),
        is_public: false,
        max_members: 4,
        existing_peers: Vec::new(),
        host: "Alice".to_string(),
    });
    assert_eq!(created.host, "Alice");
    assert!(created.existing_peers.is_empty());
    let joined = SessionPayload::from_joined(JoinSessionResponse {
        session_id: "ROOM0001".to_string(),
        session_name: "ROOM0001".to_string(),
        is_public: false,
        max_members: 4,
        existing_peers: vec!["Alice".to_string()],
        host: "Alice".to_string(),
    });
    assert_eq!(joined.existing_peers, vec!["Alice".to_string()]);
    assert_eq!(joined.max_members, 4);

    let chat: ChatMessagePayload = ChatMessagePayload::from_message(ChatMessage {
        username: "Bob".to_string(),
        content: "hello".to_string(),
        timestamp: 5,
    });
    assert_eq!(chat.username, "Bob");
    assert_eq!(chat.content, "hello");
    assert_eq!(chat.timestamp, 5);
}

#[test]
fn server_info_is_kept_and_shown() {
    let reply = GetServerInfoResponse {
        server_name: "Srv".to_string(),
        motd: "Hi".to_string(),
        ice_servers: vec![IceServer {
            url: "turn:b.example:3478".to_string(),
            username: "u".to_string(),
            credential: "c".to_string(),
            name: "East".to_string(),
        }],
    };
    let (entries, payload) = get_server_info(reply);
    assert_eq!(entries.len(), 1);
    assert_eq!(entries[0].url, "turn:b.example:3478");
    assert_eq!(entries[0].name, "East");
    assert_eq!(payload.server_name, "Srv");
    assert_eq!(payload.motd, "Hi");
    assert_eq!(payload.ice_servers.len(), 1);
    assert_eq!(payload.ice_servers[0].username, "u");
    assert_eq!(payload.ice_servers[0].credential, "c");
}

#[test]
fn client_clock_reads_unix_seconds() {
    assert!(unix_secs() > 1_600_000_000);
}

#[test]
fn entering_the_mesh_opens_the_signal_stream_first() {
    let mut state = in_session();
    state.current_session_id = None;
    state.ice_servers = vec![entry("stun:a.example:3478", ""), entry("turn:b.example", "East")];
    state.reset_stream(StreamKind::Signals, 4);
    state.reset_stream(StreamKind::Global, 5);
    let step = join_session_webrtc(&mut state, "ROOM0002".to_string(), 6);
    assert_eq!(step.cancelled, Some(4));
    let (name, servers) = step.setup.unwrap();
    assert_eq!(name, "Alice");
    assert_eq!(servers.len(), 1);
    assert_eq!(servers[0].url, "stun:a.example:3478");
    assert_eq!(state.current_session_id, Some("ROOM0002".to_string()));
    assert_eq!(state.signals_cancel_tx, Some(6));
    assert_eq!(state.global_cancel_tx, Some(5));

    assert_eq!(leave_session_webrtc(&mut state), Some(6));
    assert!(state.current_session_id.is_none());
    assert!(state.signals_cancel_tx.is_none());
    assert_eq!(state.global_cancel_tx, Some(5));
    assert_eq!(leave_session_webrtc(&mut state), None);
}

#[test]
fn entering_the_mesh_without_a_name_fails_after_the_state_changed() {
    let mut state = AppState::new();
    let step = join_session_webrtc(&mut state, "ROOM0002".to_string(), 6);
    assert_eq!(step.cancelled, None);
    assert_eq!(step.setup.unwrap_err(), "No username set");
    assert_eq!(state.current_session_id, Some("ROOM0002".to_string()));
    assert_eq!(state.signals_cancel_tx, Some(6));
}
