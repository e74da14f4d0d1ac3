use weyvelength::flags::{ice_servers_from_flags, parse_turn_spec};

#[test]
fn turn_value_has_four_fields() {
    let config = parse_turn_spec("US East|turn:us.example.com:3478|alice|s3cr3t").unwrap();
    assert_eq!(config.name, "US East");
    assert_eq!(config.url, "turn:us.example.com:3478");
    assert_eq!(config.username, "alice");
    assert_eq!(config.credential, "s3cr3t");
}

#[test]
fn credential_may_hold_bars() {
    let config = parse_turn_spec("n|u|user|a|b|").unwrap();
    assert_eq!(config.name, "n");
    assert_eq!(config.url, "u");
    assert_eq!(config.username, "user");
    assert_eq!(config.credential, "a|b|");
}

#[test]
fn three_bars_alone_are_four_empty_fields() {
    let config = parse_turn_spec("|||").unwrap();
    assert_eq!(config.name, "");
    assert_eq!(config.url, "");
    assert_eq!(config.username, "");
    assert_eq!(config.credential, "");
}

#[test]
fn fewer_than_three_bars_is_malformed() {
    assert!(parse_turn_spec("").is_none());
    assert!(parse_turn_spec("turn:us.example.com:3478").is_none());
    assert!(parse_turn_spec("name|url|user").is_none());
}

#[test]
fn fields_may_hold_characters_of_several_bytes() {
    let config = parse_turn_spec("Zürich|turn:zh.example|renée|pässwörd").unwrap();
    assert_eq!(config.name, "Zürich");
    assert_eq!(config.url, "turn:zh.example");
    assert_eq!(config.username, "renée");
    assert_eq!(config.credential, "pässwörd");
}

#[test]
fn flags_give_stun_then_turn_and_skip_malformed_values() {
    let flags = ice_servers_from_flags(
        vec!["stun:stun.l.google.com:19302".to_string(), "stun:b.example".to_string()],
        vec![
            "bad value".to_string(),
            "East|turn:e.example|u|c".to_string(),
            "also|bad".to_string(),
            "West|turns:w.example|v|d".to_string(),
        ],
    );
    assert_eq!(flags.servers.len(), 4);
    assert_eq!(flags.servers[0].url, "stun:stun.l.google.com:19302");
    assert_eq!(flags.servers[0].name, "");
    assert_eq!(flags.servers[0].username, "");
    assert_eq!(flags.servers[0].credential, "");
    assert_eq!(flags.servers[1].url, "stun:b.example");
    assert_eq!(flags.servers[2].name, "East");
    assert_eq!(flags.servers[2].url, "turn:e.example");
    assert_eq!(flags.servers[3].name, "West");
    assert_eq!(flags.servers[3].credential, "d");
    assert_eq!(flags.skipped, vec!["bad value".to_string(), "also|bad".to_string()]);
}
