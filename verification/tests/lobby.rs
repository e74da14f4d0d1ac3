use weyvelength::clock::{timestamp_from_reading, timestamp_from_secs};
use weyvelength::names::{clone_names, contains_name, insert_name, remove_name, same_text};
use weyvelength::senders::{
    collect_pipes, find_pipe, register_sender, remove_sender, SignalSender,
};
use weyvelength::messages::CreateSessionRequest;
use weyvelength::service::sessions::create_session_with_code;
use weyvelength::session::{
    generate_lobby_code, lobby_code_from_bytes, now_timestamp, try_lobby_code,
};
use weyvelength::state::ServerState;

#[test]
fn lobby_code_spells_the_random_bytes_in_base_36() {
    let mut bytes: [u8; 16] = [0; 16];
    assert_eq!(lobby_code_from_bytes(&bytes), "AAAAAAAA");
    bytes[15] = 1;
    assert_eq!(lobby_code_from_bytes(&bytes), "BAAAAAAA");
    bytes[15] = 36;
    assert_eq!(lobby_code_from_bytes(&bytes), "ABAAAAAA");
    bytes[14] = 5;
    bytes[15] = 20;
    assert_eq!(lobby_code_from_bytes(&bytes), "EABAAAAA");
    let mixed: [u8; 16] = [0, 25, 26, 35, 36, 61, 62, 255, 1, 2, 3, 4, 5, 6, 7, 8];
    assert_eq!(lobby_code_from_bytes(&mixed), "II0FL0SN");
    assert_eq!(lobby_code_from_bytes(&[255; 16]), "PAX8113Z");
}

#[test]
fn lobby_code_ignores_the_version_and_variant_bytes() {
    let a: [u8; 16] = [7; 16];
    let mut b: [u8; 16] = [7; 16];
    b[6] = 200;
    b[8] = 9;
    assert_eq!(lobby_code_from_bytes(&a), lobby_code_from_bytes(&b));
    assert_eq!(lobby_code_from_bytes(&a), "LLDZGZKX");
    b[7] = 8;
    assert_ne!(lobby_code_from_bytes(&a), lobby_code_from_bytes(&b));
}

#[test]
fn generated_codes_are_unused_codes() {
    let state = ServerState::new("Test".to_string(), "Welcome!".to_string(), Vec::new());
    for _ in 0..20 {
        let code = generate_lobby_code(&state).unwrap();
        assert_eq!(code.len(), 8);
        assert!(code.bytes().all(|b| b.is_ascii_uppercase() || b.is_ascii_digit()));
        assert!(!state.sessions.contains_key(code.as_str()));
    }
}

#[test]
fn timestamps_count_seconds() {
    assert_eq!(timestamp_from_secs(0), 0);
    assert_eq!(timestamp_from_secs(1_700_000_000), 1_700_000_000);
    assert_eq!(timestamp_from_secs(u64::MAX), -1);
    assert_eq!(timestamp_from_reading(Some(42)), 42);
    assert_eq!(timestamp_from_reading(None), 0);
    assert!(now_timestamp().unwrap() > 1_600_000_000);
}

#[test]
fn names_are_kept_as_a_set_in_order() {
    let mut v: Vec<String> = Vec::new();
    insert_name(&mut v, "Alice");
    insert_name(&mut v, "Bob");
    insert_name(&mut v, "Alice");
    assert_eq!(v, vec!["Alice".to_string(), "Bob".to_string()]);
    assert!(contains_name(&v, "Bob"));
    assert!(!contains_name(&v, "bob"));
    assert_eq!(clone_names(&v), v);
    remove_name(&mut v, "Alice");
    assert_eq!(v, vec!["Bob".to_string()]);
    remove_name(&mut v, "Carol");
    assert_eq!(v, vec!["Bob".to_string()]);
    let mut twice = vec!["x".to_string(), "y".to_string(), "x".to_string()];
    remove_name(&mut twice, "x");
    assert_eq!(twice, vec!["y".to_string()]);
    assert!(same_text(&"abc".to_string(), "abc"));
    assert!(!same_text(&"abc".to_string(), "abd"));
}

#[test]
fn senders_keep_one_pipe_per_user() {
    let mut v: Vec<SignalSender> = Vec::new();
    register_sender(&mut v, "Alice", 1);
    register_sender(&mut v, "Bob", 2);
    assert_eq!(collect_pipes(&v), vec![1, 2]);
    assert_eq!(find_pipe(&v, "Alice"), Some(1));
    assert_eq!(find_pipe(&v, "Carol"), None);
    register_sender(&mut v, "Alice", 3);
    assert_eq!(collect_pipes(&v), vec![2, 3]);
    assert_eq!(find_pipe(&v, "Alice"), Some(3));
    remove_sender(&mut v, "Bob");
    assert_eq!(collect_pipes(&v), vec![3]);
    assert_eq!(find_pipe(&v, "Bob"), None);
}

#[test]
fn a_code_in_use_is_not_offered() {
    let mut state = ServerState::new("Test".to_string(), "Welcome!".to_string(), Vec::new());
    let bytes: [u8; 16] = [1; 16];
    assert_eq!(try_lobby_code(&state, &bytes), Some("R6P8ATB3".to_string()));
    let req = CreateSessionRequest { username: "Alice".to_string(), is_public: false, max_members: 2 };
    create_session_with_code(&mut state, req, "R6P8ATB3".to_string()).unwrap();
    assert_eq!(try_lobby_code(&state, &bytes), None);
}
