use crewlink::listing::{Field, PublicLobbyInput};

fn field(value: &serde_json::Value) -> Option<Field> {
    match value {
        serde_json::Value::Null => None,
        serde_json::Value::Bool(flag) => Some(Field::Flag(*flag)),
        serde_json::Value::Number(number) => {
            Some(Field::Number { bits: number.as_f64()?.to_bits() })
        }
        serde_json::Value::String(text) => Some(Field::Text(text.clone())),
        _ => Some(Field::Other),
    }
}

fn input(json: &str) -> PublicLobbyInput {
    let value: serde_json::Value = serde_json::from_str(json).expect("the shape is optional throughout");
    let at = |key: &str| value.get(key).and_then(field);
    PublicLobbyInput {
        title: at("title"),
        host: at("host"),
        current_players: at("current_players"),
        max_players: at("max_players"),
        language: at("language"),
        mods: at("mods"),
        is_public: at("isPublic"),
        is_public2: at("isPublic2"),
        server: at("server"),
        game_state: at("gameState"),
    }
}

#[test]
fn a_number_where_a_string_belongs_becomes_empty() {
    let lobby = input(r#"{ "title": 42, "host": true }"#).sanitise(1, 0);
    assert_eq!(lobby.title, "ERROR", "an unusable title falls back rather than panicking");
    assert_eq!(lobby.host, "");
}

#[test]
fn text_is_truncated_by_characters_and_not_by_bytes() {
    let lobby = input(&format!(r#"{{ "title": "{}" }}"#, "ü".repeat(40))).sanitise(1, 0);
    assert_eq!(lobby.title.chars().count(), 20);
    assert!(lobby.title.is_char_boundary(lobby.title.len()));
}

#[test]
fn counts_are_clamped_and_truncated() {
    let lobby = input(r#"{ "current_players": 3.7, "max_players": -5 }"#).sanitise(1, 0);
    assert_eq!(lobby.current_players, 3);
    assert_eq!(lobby.max_players, 0);
}

#[test]
fn a_string_where_a_count_belongs_becomes_zero() {
    let lobby = input(r#"{ "max_players": "15" }"#).sanitise(1, 0);
    assert_eq!(lobby.max_players, 0);
}

#[test]
fn either_public_flag_publishes() {
    assert!(input(r#"{ "isPublic": true }"#).is_public());
    assert!(input(r#"{ "isPublic2": true }"#).is_public());
    assert!(!input(r#"{ "isPublic": "yes" }"#).is_public());
    assert!(!input("{}").is_public());
}

#[test]
fn mods_are_upper_cased() {
    assert_eq!(input(r#"{ "mods": "none" }"#).sanitise(1, 0).mods, "NONE");
    assert_eq!(input(r#"{ "mods": "straße" }"#).sanitise(1, 0).mods, "STRASSE");
}

#[test]
fn a_card_holds_what_was_given() {
    let lobby = input(
        r#"{ "title": "Polus", "host": "a host with a long name", "current_players": 4, "max_players": 15,
             "language": "en-GB-x", "server": "https://x", "isPublic": true, "gameState": 2 }"#,
    )
    .sanitise(7, 123);
    assert_eq!(lobby.id, 7);
    assert_eq!(lobby.title, "Polus");
    assert_eq!(lobby.host, "a host wit");
    assert_eq!(lobby.current_players, 4);
    assert_eq!(lobby.max_players, 15);
    assert_eq!(lobby.language, "en-GB");
    assert_eq!(lobby.mods, "");
    assert_eq!(lobby.server, "https://x");
    assert!(lobby.is_public);
    assert_eq!(lobby.game_state, 2);
    assert_eq!(lobby.state_time, 123);
}

#[test]
fn a_count_is_what_the_double_holds() {
    for value in [
        0.0,
        0.5,
        1.0,
        1.999,
        42.75,
        1e15,
        4503599627370496.5,
        9007199254740993.0,
        9.2e18,
        9223372036854775807.0,
        1e19,
        1e300,
        f64::MAX,
        f64::MIN_POSITIVE,
        5e-324,
        -0.0,
        -0.5,
        -1e30,
        f64::INFINITY,
        f64::NEG_INFINITY,
        f64::NAN,
    ] {
        let expected = if value.is_finite() { value.trunc().max(0.0) as i64 } else { 0 };
        let input = PublicLobbyInput {
            max_players: Some(Field::Number { bits: value.to_bits() }),
            ..Default::default()
        };
        assert_eq!(input.sanitise(1, 0).max_players, expected, "{value}");
    }
}

#[test]
fn the_reported_state_is_the_one_on_the_card() {
    for (json, state) in [
        (r#"{ "gameState": 3 }"#, 3),
        (r#"{ "gameState": -3 }"#, 0),
        (r#"{ "gameState": 1.5 }"#, 1),
        (r#"{ "gameState": 1e300 }"#, i64::MAX),
        (r#"{ "gameState": "3" }"#, 0),
        (r#"{ "gameState": [3] }"#, 0),
        ("{}", 0),
    ] {
        assert_eq!(input(json).incoming_state(), state);
        assert_eq!(input(json).sanitise(1, 0).game_state, state);
    }
}
