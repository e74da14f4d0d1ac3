use weyvelength::messages::{
    Code, CreateSessionRequest, GetMembersRequest, JoinSessionRequest, LeaveSessionRequest,
    ListSessionsRequest, SignalKind, StreamSignalsRequest,
};
use weyvelength::service::sessions::{
    create_session_with_code, handle_create_session, handle_get_members, handle_join_session,
    handle_leave_session, handle_list_sessions,
};
use weyvelength::service::signals::{close_signal_stream, handle_stream_signals};
use weyvelength::session::{join_session_inner, leave_session_inner};
use weyvelength::state::ServerState;

fn server() -> ServerState {
    ServerState::new("Test".to_string(), "Welcome!".to_string(), Vec::new())
}

fn create(state: &mut ServerState, user: &str, code: &str, is_public: bool, max_members: u32) {
    let req = CreateSessionRequest { username: user.to_string(), is_public, max_members };
    create_session_with_code(state, req, code.to_string()).unwrap();
}

fn join(state: &mut ServerState, user: &str, code: &str) {
    let req = JoinSessionRequest { session_id: code.to_string(), username: user.to_string() };
    handle_join_session(state, req).unwrap();
}

fn stream(state: &mut ServerState, user: &str, code: &str, pipe: u64) {
    let req = StreamSignalsRequest { session_id: code.to_string(), username: user.to_string() };
    handle_stream_signals(state, req, pipe).unwrap();
}

fn members(state: &ServerState, code: &str) -> Vec<String> {
    handle_get_members(state, GetMembersRequest { session_id: code.to_string() }).unwrap().members
}

fn bound_to(state: &ServerState, user: &str) -> Option<String> {
    state.user_session_index.get(user).map(|entry| entry.value().clone())
}

#[test]
fn create_then_join() {
    let mut state = server();
    let req = CreateSessionRequest { username: "Alice".to_string(), is_public: true, max_members: 3 };
    let created = handle_create_session(&mut state, req).unwrap();
    let code = created.message.session_id.clone();
    assert_eq!(created.message.session_name, code);
    assert_eq!(created.message.host, "Alice");
    assert_eq!(created.message.max_members, 3);
    assert!(created.message.is_public);
    assert!(created.message.existing_peers.is_empty());
    assert!(created.effects.sessions_changed);
    assert!(created.effects.deliveries.is_empty());

    let list = handle_list_sessions(&state, ListSessionsRequest {}).unwrap().sessions;
    assert_eq!(list.len(), 1);
    assert_eq!(list[0].id, code);
    assert_eq!(list[0].name, code);
    assert_eq!(list[0].member_count, 1);
    assert_eq!(list[0].max_members, 3);
    assert!(list[0].is_public);

    stream(&mut state, "Alice", &code, 7);
    let req = JoinSessionRequest { session_id: code.clone(), username: "Bob".to_string() };
    let joined = handle_join_session(&mut state, req).unwrap();
    assert_eq!(joined.message.existing_peers, vec!["Alice".to_string()]);
    assert_eq!(joined.message.host, "Alice");
    assert_eq!(joined.message.session_id, code);
    assert!(joined.effects.sessions_changed);
    assert_eq!(joined.effects.deliveries.len(), 1);
    let delivery = &joined.effects.deliveries[0];
    assert_eq!(delivery.pipe, 7);
    assert_eq!(delivery.signal.kind, SignalKind::MemberJoined);
    assert_eq!(delivery.signal.payload, "Bob");
    assert_eq!(delivery.signal.from_user, "Bob");
    assert_eq!(delivery.signal.to_user, "");
    assert_eq!(delivery.signal.session_id, code);
    assert_eq!(bound_to(&state, "Bob"), Some(code));
}

#[test]
fn host_migration() {
    let mut state = server();
    create(&mut state, "Alice", "AAAA1111", false, 4);
    join(&mut state, "Bob", "AAAA1111");
    join(&mut state, "Carol", "AAAA1111");
    stream(&mut state, "Bob", "AAAA1111", 2);
    stream(&mut state, "Carol", "AAAA1111", 3);

    let req = LeaveSessionRequest {
        session_id: "AAAA1111".to_string(),
        username: "Alice".to_string(),
    };
    let left = handle_leave_session(&mut state, req).unwrap();
    let deliveries = &left.effects.deliveries;
    assert_eq!(deliveries.len(), 4);
    assert_eq!(deliveries[0].pipe, 2);
    assert_eq!(deliveries[1].pipe, 3);
    for delivery in &deliveries[0..2] {
        assert_eq!(delivery.signal.kind, SignalKind::MemberLeft);
        assert_eq!(delivery.signal.payload, "Alice");
        assert_eq!(delivery.signal.from_user, "Alice");
        assert_eq!(delivery.signal.session_id, "AAAA1111");
    }
    assert_eq!(deliveries[2].pipe, 2);
    assert_eq!(deliveries[3].pipe, 3);
    for delivery in &deliveries[2..4] {
        assert_eq!(delivery.signal.kind, SignalKind::HostChanged);
        assert!(delivery.signal.payload == "Bob" || delivery.signal.payload == "Carol");
        assert_eq!(delivery.signal.from_user, "");
        assert_eq!(delivery.signal.to_user, "");
    }
    let new_host = deliveries[2].signal.payload.clone();
    assert_eq!(new_host, "Bob");
    let stored = state.sessions.get("AAAA1111").unwrap().value().clone();
    assert_eq!(stored.inner.host, new_host);
    let mut now = members(&state, "AAAA1111");
    now.sort();
    assert_eq!(now, vec!["Bob".to_string(), "Carol".to_string()]);
    assert!(!left.effects.sessions_changed);
    assert!(left.effects.removed_session.is_none());
}

#[test]
fn full_session_rejection() {
    let mut state = server();
    create(&mut state, "Alice", "BBBB2222", true, 2);
    join(&mut state, "Bob", "BBBB2222");
    let req = JoinSessionRequest {
        session_id: "BBBB2222".to_string(),
        username: "Carol".to_string(),
    };
    let refused = handle_join_session(&mut state, req).unwrap_err();
    assert_eq!(refused.code, Code::ResourceExhausted);
    assert_eq!(refused.message, "Session is full");
    assert_eq!(members(&state, "BBBB2222"), vec!["Alice".to_string(), "Bob".to_string()]);
    assert_eq!(bound_to(&state, "Carol"), None);
}

#[test]
fn implicit_leave_on_stream_death() {
    let mut state = server();
    create(&mut state, "Bob", "CCCC3333", true, 4);
    stream(&mut state, "Bob", "CCCC3333", 11);
    join(&mut state, "Alice", "CCCC3333");
    stream(&mut state, "Alice", "CCCC3333", 12);

    let effects = close_signal_stream(&mut state, "CCCC3333", "Alice");
    assert_eq!(effects.deliveries.len(), 1);
    assert_eq!(effects.deliveries[0].pipe, 11);
    assert_eq!(effects.deliveries[0].signal.kind, SignalKind::MemberLeft);
    assert_eq!(effects.deliveries[0].signal.payload, "Alice");
    assert!(effects.sessions_changed);
    assert_eq!(members(&state, "CCCC3333"), vec!["Bob".to_string()]);

    let req = LeaveSessionRequest {
        session_id: "CCCC3333".to_string(),
        username: "Alice".to_string(),
    };
    let again = handle_leave_session(&mut state, req).unwrap();
    assert!(again.effects.deliveries.is_empty());
    assert!(!again.effects.sessions_changed);
    assert!(again.effects.removed_session.is_none());
    assert_eq!(members(&state, "CCCC3333"), vec!["Bob".to_string()]);
}

#[test]
fn auto_leave_on_join() {
    let mut state = server();
    create(&mut state, "Dave", "SSSS0001", false, 4);
    stream(&mut state, "Dave", "SSSS0001", 21);
    join(&mut state, "Alice", "SSSS0001");
    create(&mut state, "Erin", "SSSS0002", false, 4);
    stream(&mut state, "Erin", "SSSS0002", 22);

    let req = JoinSessionRequest {
        session_id: "SSSS0002".to_string(),
        username: "Alice".to_string(),
    };
    let joined = handle_join_session(&mut state, req).unwrap();
    let deliveries = &joined.effects.deliveries;
    assert_eq!(deliveries.len(), 2);
    assert_eq!(deliveries[0].pipe, 21);
    assert_eq!(deliveries[0].signal.kind, SignalKind::MemberLeft);
    assert_eq!(deliveries[0].signal.payload, "Alice");
    assert_eq!(deliveries[0].signal.session_id, "SSSS0001");
    assert_eq!(deliveries[1].pipe, 22);
    assert_eq!(deliveries[1].signal.kind, SignalKind::MemberJoined);
    assert_eq!(deliveries[1].signal.payload, "Alice");
    assert_eq!(deliveries[1].signal.session_id, "SSSS0002");
    assert_eq!(bound_to(&state, "Alice"), Some("SSSS0002".to_string()));
    assert_eq!(members(&state, "SSSS0001"), vec!["Dave".to_string()]);
    assert_eq!(members(&state, "SSSS0002"), vec!["Erin".to_string(), "Alice".to_string()]);
}

#[test]
fn join_missing_session_is_not_found() {
    let mut state = server();
    let req = JoinSessionRequest {
        session_id: "NOPE0000".to_string(),
        username: "Alice".to_string(),
    };
    let refused = handle_join_session(&mut state, req).unwrap_err();
    assert_eq!(refused.code, Code::NotFound);
    assert_eq!(refused.message, "Session not found");
    assert_eq!(bound_to(&state, "Alice"), None);
}

#[test]
fn join_inner_reports_missing_session_by_name() {
    let mut state = server();
    let err = join_session_inner(&mut state, "NOPE0000", "Alice").unwrap_err();
    assert_eq!(err, "Session 'NOPE0000' not found");
}

#[test]
fn join_inner_leaves_previous_session_even_when_target_is_missing() {
    let mut state = server();
    create(&mut state, "Alice", "DDDD4444", false, 4);
    join(&mut state, "Bob", "DDDD4444");
    assert!(join_session_inner(&mut state, "NOPE0000", "Bob").is_err());
    assert_eq!(members(&state, "DDDD4444"), vec!["Alice".to_string()]);
    assert_eq!(bound_to(&state, "Bob"), None);
}

#[test]
fn join_inner_does_not_reject_a_full_session() {
    let mut state = server();
    create(&mut state, "Alice", "EEEE5555", false, 2);
    join(&mut state, "Bob", "EEEE5555");
    let left = join_session_inner(&mut state, "EEEE5555", "Carol").unwrap();
    assert!(left.is_none());
    assert_eq!(members(&state, "EEEE5555").len(), 3);
}

#[test]
fn join_is_idempotent_for_a_member() {
    let mut state = server();
    create(&mut state, "Alice", "FFFF6666", false, 4);
    join(&mut state, "Alice", "FFFF6666");
    assert_eq!(members(&state, "FFFF6666"), vec!["Alice".to_string()]);
}

#[test]
fn member_limit_is_clamped() {
    let mut state = server();
    let low = create_session_with_code(
        &mut state,
        CreateSessionRequest { username: "A".to_string(), is_public: false, max_members: 0 },
        "LOW00000".to_string(),
    )
    .unwrap();
    assert_eq!(low.message.max_members, 2);
    let high = create_session_with_code(
        &mut state,
        CreateSessionRequest { username: "B".to_string(), is_public: false, max_members: 99 },
        "HIGH0000".to_string(),
    )
    .unwrap();
    assert_eq!(high.message.max_members, 16);
    let kept = create_session_with_code(
        &mut state,
        CreateSessionRequest { username: "C".to_string(), is_public: false, max_members: 16 },
        "KEPT0000".to_string(),
    )
    .unwrap();
    assert_eq!(kept.message.max_members, 16);
    assert!(!kept.effects.sessions_changed);
}

#[test]
fn last_leave_removes_the_session() {
    let mut state = server();
    create(&mut state, "Alice", "GGGG7777", true, 4);
    let req = LeaveSessionRequest {
        session_id: "GGGG7777".to_string(),
        username: "Alice".to_string(),
    };
    let left = handle_leave_session(&mut state, req).unwrap();
    assert_eq!(left.effects.removed_session, Some("GGGG7777".to_string()));
    assert!(left.effects.sessions_changed);
    assert!(left.effects.deliveries.is_empty());
    assert!(!state.sessions.contains_key("GGGG7777"));
    assert!(state.sessions.contains_key("__global__"));
    let missing = handle_get_members(&state, GetMembersRequest {
        session_id: "GGGG7777".to_string(),
    })
    .unwrap_err();
    assert_eq!(missing.code, Code::NotFound);
    assert_eq!(missing.message, "Session not found");
}

#[test]
fn leave_of_another_session_changes_nothing() {
    let mut state = server();
    create(&mut state, "Alice", "HHHH8888", false, 4);
    create(&mut state, "Bob", "IIII9999", false, 4);
    let out = leave_session_inner(&mut state, "IIII9999", "Alice");
    assert!(out.is_none());
    assert_eq!(members(&state, "HHHH8888"), vec!["Alice".to_string()]);
    assert_eq!(members(&state, "IIII9999"), vec!["Bob".to_string()]);
    assert_eq!(bound_to(&state, "Alice"), Some("HHHH8888".to_string()));
}

#[test]
fn leave_inner_reports_remaining_pipes_and_new_host() {
    let mut state = server();
    create(&mut state, "Alice", "JJJJ0000", true, 4);
    join(&mut state, "Bob", "JJJJ0000");
    stream(&mut state, "Alice", "JJJJ0000", 1);
    stream(&mut state, "Bob", "JJJJ0000", 2);
    let info = leave_session_inner(&mut state, "JJJJ0000", "Alice").unwrap();
    assert_eq!(info.senders, vec![2]);
    assert!(info.is_public);
    assert_eq!(info.new_host, Some(("Bob".to_string(), vec![2])));
    assert!(leave_session_inner(&mut state, "JJJJ0000", "Alice").is_none());
}

#[test]
fn leave_by_a_member_who_is_not_host_keeps_the_host() {
    let mut state = server();
    create(&mut state, "Alice", "KKKK0000", false, 4);
    join(&mut state, "Bob", "KKKK0000");
    let info = leave_session_inner(&mut state, "KKKK0000", "Bob").unwrap();
    assert!(info.new_host.is_none());
    assert!(!info.is_public);
    let stored = state.sessions.get("KKKK0000").unwrap().value().clone();
    assert_eq!(stored.inner.host, "Alice");
}

#[test]
fn one_place_left_admits_one_joiner() {
    let mut state = server();
    create(&mut state, "Alice", "LLLL0000", false, 2);
    let mut admitted = 0;
    let mut refused = 0;
    for user in ["Bob", "Carol", "Dave", "Erin"] {
        let req = JoinSessionRequest {
            session_id: "LLLL0000".to_string(),
            username: user.to_string(),
        };
        match handle_join_session(&mut state, req) {
            Ok(_) => admitted += 1,
            Err(status) => {
                assert_eq!(status.code, Code::ResourceExhausted);
                refused += 1;
            }
        }
    }
    assert_eq!(admitted, 1);
    assert_eq!(refused, 3);
    assert_eq!(members(&state, "LLLL0000"), vec!["Alice".to_string(), "Bob".to_string()]);
}

#[test]
fn index_and_members_agree_after_a_run_of_requests() {
    let mut state = server();
    create(&mut state, "Alice", "MMMM0001", true, 4);
    create(&mut state, "Bob", "MMMM0002", true, 4);
    join(&mut state, "Carol", "MMMM0001");
    join(&mut state, "Carol", "MMMM0002");
    join(&mut state, "Alice", "MMMM0002");
    for user in ["Alice", "Bob", "Carol"] {
        let mut found = Vec::new();
        for code in ["MMMM0001", "MMMM0002"] {
            if state.sessions.contains_key(code) && members(&state, code).contains(&user.to_string())
            {
                found.push(code.to_string());
            }
        }
        assert!(found.len() <= 1);
        assert_eq!(bound_to(&state, user), found.first().cloned());
    }
    assert!(!state.sessions.contains_key("MMMM0001"));
    let host = state.sessions.get("MMMM0002").unwrap().value().inner.host.clone();
    assert!(members(&state, "MMMM0002").contains(&host));
}

#[test]
fn private_sessions_and_the_global_session_are_not_listed() {
    let mut state = server();
    create(&mut state, "Alice", "PRIV0000", false, 4);
    create(&mut state, "Bob", "PUBL0000", true, 4);
    let list = handle_list_sessions(&state, ListSessionsRequest {}).unwrap().sessions;
    assert_eq!(list.len(), 1);
    assert_eq!(list[0].id, "PUBL0000");
    assert_eq!(list[0].member_count, 1);
}

#[test]
fn created_code_has_eight_code_characters() {
    let mut state = server();
    let req = CreateSessionRequest { username: "Alice".to_string(), is_public: false, max_members: 4 };
    let created = handle_create_session(&mut state, req).unwrap();
    let code = created.message.session_id;
    assert_eq!(code.chars().count(), 8);
    assert!(code.chars().all(|c| c.is_ascii_uppercase() || c.is_ascii_digit()));
    assert!(state.sessions.contains_key(code.as_str()));
    assert_eq!(bound_to(&state, "Alice"), Some(code));
}

#[test]
fn session_without_limit_is_never_full() {
    let mut state = server();
    for user in ["Alice", "Bob", "Carol", "Dave"] {
        let req = JoinSessionRequest {
            session_id: "__global__".to_string(),
            username: user.to_string(),
        };
        let joined = handle_join_session(&mut state, req).unwrap();
        assert_eq!(joined.message.max_members, 0);
        assert!(joined.effects.global_members_changed);
        assert!(!joined.effects.sessions_changed);
    }
    assert_eq!(members(&state, "__global__").len(), 4);
}

#[test]
fn global_session_is_never_removed() {
    let mut state = server();
    join(&mut state, "Alice", "__global__");
    let req = LeaveSessionRequest {
        session_id: "__global__".to_string(),
        username: "Alice".to_string(),
    };
    let left = handle_leave_session(&mut state, req).unwrap();
    assert!(left.effects.removed_session.is_none());
    assert!(left.effects.global_members_changed);
    assert!(state.sessions.contains_key("__global__"));
    assert!(members(&state, "__global__").is_empty());
}

#[test]
fn creator_leaves_the_session_they_were_in() {
    let mut state = server();
    create(&mut state, "Alice", "OLD00000", true, 4);
    join(&mut state, "Bob", "OLD00000");
    stream(&mut state, "Bob", "OLD00000", 31);
    let req = CreateSessionRequest { username: "Alice".to_string(), is_public: false, max_members: 4 };
    let created = create_session_with_code(&mut state, req, "NEW00000".to_string()).unwrap();
    assert!(created.message.existing_peers.is_empty());
    assert_eq!(created.message.host, "Alice");
    assert!(created.effects.sessions_changed);
    let deliveries = &created.effects.deliveries;
    assert_eq!(deliveries.len(), 2);
    assert_eq!(deliveries[0].pipe, 31);
    assert_eq!(deliveries[0].signal.kind, SignalKind::MemberLeft);
    assert_eq!(deliveries[0].signal.payload, "Alice");
    assert_eq!(deliveries[1].pipe, 31);
    assert_eq!(deliveries[1].signal.kind, SignalKind::HostChanged);
    assert_eq!(deliveries[1].signal.payload, "Bob");
    assert_eq!(members(&state, "OLD00000"), vec!["Bob".to_string()]);
    assert_eq!(members(&state, "NEW00000"), vec!["Alice".to_string()]);
    assert_eq!(bound_to(&state, "Alice"), Some("NEW00000".to_string()));
}

#[test]
fn join_that_empties_the_previous_session_removes_it() {
    let mut state = server();
    create(&mut state, "Alice", "ONE00000", true, 4);
    create(&mut state, "Bob", "TWO00000", false, 4);
    let req = JoinSessionRequest { session_id: "TWO00000".to_string(), username: "Alice".to_string() };
    let joined = handle_join_session(&mut state, req).unwrap();
    assert_eq!(joined.effects.removed_session, Some("ONE00000".to_string()));
    assert!(joined.effects.sessions_changed);
    assert!(!state.sessions.contains_key("ONE00000"));
}

#[test]
fn first_creation_on_a_new_server_succeeds_with_the_limit_in_range() {
    let mut state = server();
    let req = CreateSessionRequest { username: "Alice".to_string(), is_public: false, max_members: 100 };
    let created = handle_create_session(&mut state, req).unwrap();
    assert_eq!(created.message.max_members, 16);
    let stored = state.sessions.get(created.message.session_id.as_str()).unwrap().value().clone();
    assert_eq!(stored.max_members, 16);

    let mut state = server();
    let req = CreateSessionRequest { username: "Alice".to_string(), is_public: true, max_members: 0 };
    let created = handle_create_session(&mut state, req).unwrap();
    assert_eq!(created.message.max_members, 2);
    assert!(created.message.is_public);
    assert_eq!(created.message.host, "Alice");
    assert!(created.message.existing_peers.is_empty());
    assert_eq!(created.message.session_name, created.message.session_id);
    assert_eq!(created.message.session_id.chars().count(), 8);
}

#[test]
fn joiner_with_an_open_stream_is_not_told_of_their_own_join() {
    let mut state = server();
    create(&mut state, "Alice", "REJO0000", false, 4);
    join(&mut state, "Bob", "REJO0000");
    stream(&mut state, "Alice", "REJO0000", 41);
    stream(&mut state, "Bob", "REJO0000", 42);
    let req = JoinSessionRequest { session_id: "REJO0000".to_string(), username: "Bob".to_string() };
    let joined = handle_join_session(&mut state, req).unwrap();
    assert_eq!(joined.message.existing_peers, vec!["Alice".to_string()]);
    assert_eq!(joined.effects.deliveries.len(), 1);
    assert_eq!(joined.effects.deliveries[0].pipe, 41);
    assert_eq!(joined.effects.deliveries[0].signal.kind, SignalKind::MemberJoined);
    assert_eq!(joined.effects.deliveries[0].signal.payload, "Bob");
}

#[test]
fn a_session_copy_holds_what_the_session_holds() {
    let mut state = server();
    create(&mut state, "Alice", "COPY0000", true, 5);
    join(&mut state, "Bob", "COPY0000");
    stream(&mut state, "Bob", "COPY0000", 51);
    let stored = state.sessions.get("COPY0000").unwrap().value().clone();
    assert_eq!(stored.id, "COPY0000");
    assert_eq!(stored.name, "COPY0000");
    assert!(stored.is_public);
    assert_eq!(stored.max_members, 5);
    assert_eq!(stored.inner.host, "Alice");
    assert_eq!(stored.inner.members, vec!["Alice".to_string(), "Bob".to_string()]);
    assert_eq!(stored.inner.signal_senders.len(), 1);
    assert_eq!(stored.inner.signal_senders[0].username, "Bob");
    assert_eq!(stored.inner.signal_senders[0].pipe, 51);
}
