use crewlink::config::{PeerConfigFile, RelayEnvironment};
use crewlink::listing::{Field, PublicLobbyInput};
use crewlink::lobby::Client;
use crewlink::registry::{BrowserEvent, MAX_SIGNAL_BYTES};
use crewlink::socket::{Action, Event, JoinIn, JoinReply, Limit, Message, SignalIn, SignalVerdict};
use crewlink::state::AppState;
use crewlink::web::CodeReply;

const A: &str = "AAAAAAAAAAAAAAAA";
const B: &str = "BBBBBBBBBBBBBBBB";
const C: &str = "CCCCCCCCCCCCCCCC";
const D: &str = "zzzz-zzzz_zzzz09";

fn sid(text: &str) -> u128 {
    u128::from_be_bytes(text.as_bytes().try_into().expect("sixteen characters"))
}

fn state() -> AppState {
    AppState::new(
        PeerConfigFile::default().resolve(RelayEnvironment::default()),
        None,
        "http://x".to_owned(),
    )
}

fn client(n: i64) -> Client {
    Client { player_id: n, client_id: 10 * n }
}

fn join_in(code: &str, n: i64, is_host: Option<bool>) -> Option<JoinIn> {
    Some(JoinIn { code: code.to_owned(), player_id: n, client_id: 10 * n, is_host })
}

/// A server with three sockets, all of them in one lobby. The first one hosts it.
fn lobby_of_three() -> AppState {
    let mut state = state();
    for text in [A, B, C, D] {
        state.on_admission(sid(text));
    }
    state.on_join(sid(A), join_in("ABCDEF", 1, Some(true)), true);
    state.on_join(sid(B), join_in("ABCDEF", 2, None), true);
    state.on_join(sid(C), join_in("ABCDEF", 3, Some(false)), true);
    state
}

fn delivered(actions: &[Action]) -> Vec<(u128, Message)> {
    let mut out: Vec<(u128, Message)> = actions
        .iter()
        .filter_map(|action| match action {
            Action::Deliver { to, message } => Some((*to, *message)),
            _ => None,
        })
        .collect();
    out.sort_by_key(|(to, message)| (*to, message.event_name()));
    out
}

fn public_input(state: i64) -> PublicLobbyInput {
    input_in_state(state as f64)
}

fn input_in_state(state: f64) -> PublicLobbyInput {
    PublicLobbyInput {
        title: Some(Field::Text("Skeld".to_owned())),
        server: Some(Field::Text("https://voice.example".to_owned())),
        is_public: Some(Field::Flag(true)),
        game_state: Some(Field::Number { bits: state.to_bits() }),
        ..Default::default()
    }
}

fn listed_id(state: &mut AppState, who: &str, code: &str) -> u64 {
    let announced =
        state.on_lobby(sid(who), Some((code.to_owned(), public_input(0))), true).expect("it is announced");
    match announced.event {
        BrowserEvent::UpdateLobby(card) => card.id,
        other => panic!("{other:?}"),
    }
}

#[test]
fn a_newcomer_is_introduced_to_the_lobby() {
    let mut state = state();
    for text in [A, B, C] {
        state.on_admission(sid(text));
    }
    let first = state.on_join(sid(A), join_in("ABCDEF", 1, Some(true)), true);
    assert_eq!(first.len(), 2);
    assert!(matches!(first[0], Action::Reply { message: Message::SetHost { host_id: 10 } }));
    assert!(matches!(&first[1], Action::SetClients { others } if others.is_empty()));

    state.on_join(sid(B), join_in("ABCDEF", 2, None), true);
    let third = state.on_join(sid(C), join_in("ABCDEF", 3, Some(true)), true);
    assert_eq!(
        delivered(&third),
        vec![
            (sid(A), Message::Join { sid: sid(C), client: client(3) }),
            (sid(A), Message::SetHost { host_id: 10 }),
            (sid(B), Message::Join { sid: sid(C), client: client(3) }),
            (sid(B), Message::SetHost { host_id: 10 }),
        ]
    );
    assert!(matches!(third[4], Action::Reply { message: Message::SetHost { host_id: 10 } }));
    match &third[5] {
        Action::SetClients { others } => {
            let mut others = others.clone();
            others.sort_by_key(|(sid, _)| *sid);
            assert_eq!(others, vec![(sid(A), client(1)), (sid(B), client(2))]);
        }
        other => panic!("{other:?}"),
    }
    for pair in [0usize, 2] {
        assert!(matches!(third[pair], Action::Deliver { message: Message::Join { .. }, .. }));
        assert!(matches!(third[pair + 1], Action::Deliver { message: Message::SetHost { .. }, .. }));
    }
}

#[test]
fn an_unhosted_lobby_has_the_unset_host() {
    let mut state = state();
    state.on_admission(sid(A));
    let actions = state.on_join(sid(A), join_in("X", 1, None), true);
    assert!(matches!(actions[0], Action::Reply { message: Message::SetHost { host_id: -1 } }));
    assert_eq!(state.lobby_count(), 1);
}

#[test]
fn the_first_claim_to_host_holds_until_its_holder_leaves() {
    let mut state = lobby_of_three();
    assert!(state.on_set_host(sid(B), Some(("ABCDEF".to_owned(), 20))).is_empty());
    let joined = state.on_join(sid(D), join_in("ABCDEF", 4, Some(true)), true);
    assert!(joined.iter().any(|a| matches!(a, Action::Reply { message: Message::SetHost { host_id: 10 } })));

    assert_eq!(state.on_set_host(sid(A), Some(("ABCDEF".to_owned(), 99))).len(), 3);

    let left = state.on_leave(sid(A));
    for peer in [B, C, D] {
        assert!(delivered(&left).contains(&(sid(peer), Message::Left { sid: sid(A) })));
        assert!(delivered(&left).contains(&(sid(peer), Message::SetHost { host_id: -1 })));
    }
    assert_eq!(left.len(), 6);
    let claimed = state.on_set_host(sid(B), Some(("ABCDEF".to_owned(), 20)));
    assert_eq!(
        delivered(&claimed),
        vec![(sid(C), Message::SetHost { host_id: 20 }), (sid(D), Message::SetHost { host_id: 20 })]
    );
}

#[test]
fn a_host_is_named_only_in_the_lobby_the_sender_is_in() {
    let mut state = lobby_of_three();
    assert!(state.on_set_host(sid(A), Some(("OTHER".to_owned(), 1))).is_empty());
    assert!(state.on_set_host(sid(D), Some(("ABCDEF".to_owned(), 1))).is_empty());
    assert!(state.on_set_host(sid(A), None).is_empty());
}

#[test]
fn leaving_and_then_disconnecting_tells_nothing_twice() {
    let mut state = lobby_of_three();
    let left = state.on_leave(sid(B));
    assert_eq!(
        delivered(&left),
        vec![(sid(A), Message::Left { sid: sid(B) }), (sid(C), Message::Left { sid: sid(B) })]
    );
    assert_eq!(left.len(), 2);
    assert!(state.on_leave(sid(B)).is_empty());
    assert!(state.on_disconnect(sid(B)).is_empty());
    assert_eq!(state.health().connection_count, 3);
}

#[test]
fn disconnecting_is_told_like_leaving() {
    let mut state = lobby_of_three();
    let left = state.on_disconnect(sid(C));
    assert_eq!(
        delivered(&left),
        vec![(sid(A), Message::Left { sid: sid(C) }), (sid(B), Message::Left { sid: sid(C) })]
    );
    assert!(!state.are_co_members(sid(A), sid(C)));
    assert_eq!(state.health().connection_count, 3);
}

#[test]
fn joining_another_lobby_leaves_the_first() {
    let mut state = lobby_of_three();
    let moved = state.on_join(sid(B), join_in("GHIJKL", 2, Some(true)), true);
    assert_eq!(
        delivered(&moved),
        vec![(sid(A), Message::Left { sid: sid(B) }), (sid(C), Message::Left { sid: sid(B) })]
    );
    assert!(matches!(moved[2], Action::Reply { message: Message::SetHost { host_id: 20 } }));
    assert!(!state.are_co_members(sid(A), sid(B)));
    assert_eq!(state.lobby_count(), 2);
    let mut peers = state.peers_in("ABCDEF", sid(A));
    peers.sort();
    assert_eq!(peers, vec![sid(C)]);
    assert!(state.peers_in("NOWHERE", sid(A)).is_empty());
}

#[test]
fn joining_the_same_lobby_again_leaves_nothing() {
    let mut state = lobby_of_three();
    let again = state.on_join(sid(B), join_in("ABCDEF", 7, None), true);
    assert!(delivered(&again).iter().all(|(_, message)| !matches!(message, Message::Left { .. })));
    assert_eq!(state.peers_in("ABCDEF", sid(B)).len(), 2);
}

#[test]
fn an_identity_is_told_to_the_lobby() {
    let mut state = lobby_of_three();
    let told = state.on_id(sid(A), Some(client(5)));
    assert_eq!(
        delivered(&told),
        vec![
            (sid(B), Message::SetClient { sid: sid(A), client: client(5) }),
            (sid(C), Message::SetClient { sid: sid(A), client: client(5) }),
        ]
    );
    assert!(state.on_id(sid(D), Some(client(5))).is_empty());
    assert!(state.on_id(4, Some(client(5))).is_empty());
    let spoken = state.on_vad(sid(A), Some(true), true);
    assert!(delivered(&spoken)
        .contains(&(sid(B), Message::Vad { activity: true, client: client(5), sid: sid(A) })));
}

#[test]
fn a_malformed_command_is_counted_and_disconnects() {
    let mut state = lobby_of_three();
    for actions in [state.on_join(sid(A), None, true), state.on_id(sid(A), None)] {
        assert_eq!(actions.len(), 1);
        assert!(matches!(actions[0], Action::Disconnect));
    }
    assert!(matches!(state.on_signal(sid(A), None, true), SignalVerdict::Malformed));
    assert_eq!(state.health().counters.refused_malformed, 3);
}

#[test]
fn an_event_over_the_limit_is_dropped_and_counted() {
    let mut state = lobby_of_three();
    assert!(state.on_join(sid(A), join_in("OTHER", 1, None), false).is_empty());
    assert!(state.on_vad(sid(A), Some(true), false).is_empty());
    assert!(state.on_impostor_radio(sid(A), Some(true), false).is_empty());
    assert!(state.on_lobby(sid(A), Some(("ABCDEF".to_owned(), public_input(0))), false).is_none());
    assert!(matches!(state.on_signal(sid(A), None, false), SignalVerdict::OverLimit));
    assert_eq!(state.health().counters.refused_rate_limited, 5);
    assert_eq!(state.health().counters.refused_malformed, 0);
    assert_eq!(state.lobby_count(), 1);
    assert!(state.within_limit(4, false), "a socket that was not admitted is let through");
}

#[test]
fn speech_and_radio_reach_the_rest_of_the_lobby() {
    let mut state = lobby_of_three();
    assert_eq!(
        delivered(&state.on_vad(sid(B), Some(true), true)),
        vec![
            (sid(A), Message::Vad { activity: true, client: client(2), sid: sid(B) }),
            (sid(C), Message::Vad { activity: true, client: client(2), sid: sid(B) }),
        ]
    );
    assert_eq!(
        delivered(&state.on_impostor_radio(sid(B), Some(false), true)),
        vec![
            (sid(A), Message::ImpostorRadio { on_radio: false, client: client(2), sid: sid(B) }),
            (sid(C), Message::ImpostorRadio { on_radio: false, client: client(2), sid: sid(B) }),
        ]
    );
    assert!(state.on_vad(sid(B), None, true).is_empty());
    assert!(state.on_impostor_radio(sid(B), None, true).is_empty());
    assert!(state.on_vad(sid(D), Some(true), true).is_empty());
    assert!(state.on_impostor_radio(sid(D), Some(true), true).is_empty());
}

fn signal(to: &str, data: String) -> Option<SignalIn> {
    Some(SignalIn { data, to: to.to_owned() })
}

#[test]
fn a_signal_reaches_a_socket_in_the_same_lobby() {
    let mut state = lobby_of_three();
    match state.on_signal(sid(A), signal(B, "{\"type\":\"offer\"}".to_owned()), true) {
        SignalVerdict::Relay { to, from, data } => {
            assert_eq!(to, sid(B));
            assert_eq!(from, sid(A));
            assert_eq!(data, "{\"type\":\"offer\"}");
        }
        other => panic!("{other:?}"),
    }
    assert_eq!(state.health().counters.refused_signals, 0);
}

#[test]
fn a_signal_out_of_the_lobby_is_refused() {
    let mut state = lobby_of_three();
    for target in [A, D, "ABCDEF_mobile", "", "BBBBBBBBBBBBBBB", "BBBBBBBBBBBBBBBBB", "BBBBBBBBBBBBBBB+"] {
        assert!(matches!(state.on_signal(sid(A), signal(target, "1".to_owned()), true), SignalVerdict::Refused));
    }
    assert!(matches!(state.on_signal(sid(D), signal(A, "1".to_owned()), true), SignalVerdict::Refused));
    assert_eq!(state.health().counters.refused_signals, 8);
}

#[test]
fn a_signal_above_the_cap_is_refused() {
    let mut state = lobby_of_three();
    assert!(matches!(
        state.on_signal(sid(A), signal(B, "x".repeat(MAX_SIGNAL_BYTES)), true),
        SignalVerdict::Relay { .. }
    ));
    assert!(matches!(
        state.on_signal(sid(A), signal(B, "x".repeat(MAX_SIGNAL_BYTES + 1)), true),
        SignalVerdict::Oversize
    ));
    assert!(matches!(
        state.on_signal(sid(A), signal(B, "ü".repeat(MAX_SIGNAL_BYTES / 2 + 1)), true),
        SignalVerdict::Oversize
    ));
    assert!(matches!(
        state.on_signal(sid(A), signal(D, "x".repeat(MAX_SIGNAL_BYTES + 1)), true),
        SignalVerdict::Refused
    ));
    assert_eq!(state.health().counters.refused_oversize, 2);
}

#[test]
fn co_membership_goes_both_ways() {
    let state = lobby_of_three();
    assert!(state.are_co_members(sid(A), sid(B)) && state.are_co_members(sid(B), sid(A)));
    assert!(!state.are_co_members(sid(A), sid(D)) && !state.are_co_members(sid(D), sid(A)));
    assert!(!state.are_co_members(1, 2));
}

#[test]
fn a_published_lobby_can_be_joined_by_its_id() {
    let mut state = lobby_of_three();
    let id = listed_id(&mut state, A, "ABCDEF");
    match state.on_join_lobby(Some(id)) {
        JoinReply::Joinable { code, server, lobby } => {
            assert_eq!(code, "ABCDEF");
            assert_eq!(server, "https://voice.example");
            assert_eq!(lobby.id, id);
            assert_eq!(lobby.title, "Skeld");
        }
        other => panic!("{other:?}"),
    }
    assert_eq!(state.on_join_lobby(Some(id)).refusal(), None);
    assert!(matches!(state.lobby_code(id), CodeReply::Found(code) if code == "ABCDEF"));
    assert_eq!(state.snapshot().len(), 1);

    state.on_lobby(sid(B), Some(("ABCDEF".to_owned(), public_input(2))), true).expect("it is announced");
    assert_eq!(state.on_join_lobby(Some(id)).refusal(), Some("Lobby is not public anymore"));
    assert!(matches!(state.lobby_code(id), CodeReply::Found(_)));

    assert_eq!(state.on_join_lobby(Some(id ^ 1)).refusal(), Some("Lobby not found :C"));
    assert_eq!(state.on_join_lobby(None).refusal(), Some("Lobby not found :C"));
}

#[test]
fn a_lobby_that_is_not_public_any_more_is_gone() {
    let mut state = lobby_of_three();
    let id = listed_id(&mut state, A, "ABCDEF");
    let removed = state
        .on_lobby(sid(A), Some(("ABCDEF".to_owned(), PublicLobbyInput::default())), true)
        .expect("it is announced");
    assert!(matches!(removed.event, BrowserEvent::RemoveLobby(gone) if gone == id));
    assert_eq!(removed.position, 2);
    assert_eq!(state.on_join_lobby(Some(id)).refusal(), Some("Lobby not found :C"));
    assert!(matches!(state.lobby_code(id), CodeReply::Gone));
    assert!(state.snapshot().is_empty());
    assert!(state
        .on_lobby(sid(A), Some(("ABCDEF".to_owned(), PublicLobbyInput::default())), true)
        .is_none());

    let again = listed_id(&mut state, A, "ABCDEF");
    assert_ne!(again, id);
    assert!(matches!(
        state.on_remove_lobby(sid(C), Some("ABCDEF".to_owned())),
        Some(announced) if announced.position == 4
    ));
    assert!(state.on_remove_lobby(sid(C), Some("ABCDEF".to_owned())).is_none());
}

#[test]
fn an_id_that_was_drawn_and_never_listed_is_unknown() {
    let mut state = state();
    let id = state.next_lobby_id();
    assert!(matches!(state.lobby_code(id), CodeReply::Unknown));
    assert_eq!(state.lobby_code(id).status(), 404);
}

#[test]
fn a_lobby_taken_off_is_gone_whichever_id_it_had() {
    let mut state = lobby_of_three();
    state.list_lobby("ABCDEF".to_owned(), &public_input(0), 77, 5);
    assert!(matches!(state.lobby_code(77), CodeReply::Found(_)));
    state.on_remove_lobby(sid(A), Some("ABCDEF".to_owned())).expect("it is announced");
    assert!(matches!(state.lobby_code(77), CodeReply::Gone));
    assert_eq!(state.lobby_code(77).status(), 410);
    assert!(matches!(state.lobby_code(78), CodeReply::Unknown));
}

#[test]
fn a_lobby_is_published_only_from_inside() {
    let mut state = lobby_of_three();
    assert!(state.on_lobby(sid(D), Some(("ABCDEF".to_owned(), public_input(0))), true).is_none());
    assert!(state.on_lobby(sid(A), Some(("OTHER".to_owned(), public_input(0))), true).is_none());
    assert!(state.on_lobby(sid(A), None, true).is_none());
    listed_id(&mut state, A, "ABCDEF");
    assert!(state.on_remove_lobby(sid(D), Some("ABCDEF".to_owned())).is_none());
    assert!(state.on_remove_lobby(sid(A), None).is_none());
    assert_eq!(state.snapshot().len(), 1);
}

#[test]
fn the_last_to_leave_takes_the_card_off_the_list() {
    let mut state = lobby_of_three();
    let id = listed_id(&mut state, A, "ABCDEF");
    assert_eq!(state.on_leave(sid(A)).len(), 4);
    assert_eq!(state.on_leave(sid(B)).len(), 1);
    let last = state.on_disconnect(sid(C));
    assert_eq!(last.len(), 1);
    match &last[0] {
        Action::Announce { announcement } => {
            assert!(matches!(announcement.event, BrowserEvent::RemoveLobby(gone) if gone == id));
            assert_eq!(announcement.position, 2);
        }
        other => panic!("{other:?}"),
    }
    assert_eq!(state.lobby_count(), 0);
    assert!(state.snapshot().is_empty());
}

#[test]
fn the_time_on_a_card_moves_when_waiting_starts_or_ends() {
    let mut state = lobby_of_three();
    let mut at = |game_state: i64, now: i64| {
        let announced = state
            .on_lobby_at(sid(A), Some(("ABCDEF".to_owned(), public_input(game_state))), true, now)
            .expect("it is announced");
        match announced.event {
            BrowserEvent::UpdateLobby(card) => (card.id, card.state_time),
            other => panic!("{other:?}"),
        }
    };
    let (id, time) = at(0, 1_000);
    assert_eq!(time, 1_000);
    assert_eq!(at(0, 2_000), (id, 1_000));
    assert_eq!(at(1, 3_000), (id, 3_000));
    assert_eq!(at(2, 4_000), (id, 3_000));
    assert_eq!(at(0, 5_000), (id, 5_000));
}

#[test]
fn the_time_on_a_card_follows_the_state_on_the_card() {
    let mut state = lobby_of_three();
    let mut at = |game_state: f64, now: i64| {
        let announced = state
            .on_lobby_at(sid(A), Some(("ABCDEF".to_owned(), input_in_state(game_state))), true, now)
            .expect("it is announced");
        match announced.event {
            BrowserEvent::UpdateLobby(card) => (card.game_state, card.state_time),
            other => panic!("{other:?}"),
        }
    };
    assert_eq!(at(0.0, 1), (0, 1));
    assert_eq!(at(1.5, 10), (1, 10));
    assert_eq!(at(1.5, 20), (1, 10));
    assert_eq!(at(-1.0, 30), (0, 30));
    assert_eq!(at(0.0, 40), (0, 30));
    assert_eq!(at(0.5, 50), (0, 30));
    assert_eq!(at(1e300, 60), (i64::MAX, 60));
}

#[test]
fn an_identity_that_contradicts_an_earlier_one_is_told_apart() {
    let mut state = lobby_of_three();
    assert!(!state.contradicts(sid(A), client(1)));
    assert!(!state.contradicts(sid(A), Client { player_id: 9, client_id: 10 }));
    assert!(state.contradicts(sid(A), client(2)));
    assert!(!state.contradicts(sid(D), client(2)), "it has claimed none");
    assert!(!state.contradicts(4, client(2)), "it was not admitted");
    state.on_id(sid(A), Some(client(2)));
    assert!(!state.contradicts(sid(A), client(2)));
}

#[test]
fn who_may_name_the_host_can_be_asked() {
    let state = lobby_of_three();
    assert!(state.is_in(sid(B), "ABCDEF") && !state.is_in(sid(B), "OTHER") && !state.is_in(sid(D), "ABCDEF"));
    assert!(state.accepts_host(sid(A), "ABCDEF"));
    assert!(!state.accepts_host(sid(B), "ABCDEF"));
    assert!(!state.accepts_host(sid(A), "OTHER"));
    assert!(!state.accepts_host(sid(D), "ABCDEF"));
}

#[test]
fn a_lobby_is_listed_under_the_id_it_is_given_and_keeps_it() {
    let mut state = state();
    let first = state.list_lobby("ABCDEF".to_owned(), &public_input(0), 77, 5);
    assert_eq!(first.position, 1);
    assert!(matches!(first.event, BrowserEvent::UpdateLobby(card) if card.id == 77 && card.state_time == 5));
    let second = state.list_lobby("ABCDEF".to_owned(), &public_input(0), 78, 6);
    assert!(matches!(second.event, BrowserEvent::UpdateLobby(card) if card.id == 77 && card.state_time == 5));
}

#[test]
fn a_lobby_listed_now_carries_the_time() {
    let mut state = lobby_of_three();
    let before = crewlink::time::now_millis();
    listed_id(&mut state, A, "ABCDEF");
    let after = crewlink::time::now_millis();
    let time = state.snapshot()[0].state_time;
    assert!(before <= time && time <= after);
    assert!(before > 1_600_000_000_000);
}

#[test]
fn a_watcher_is_sent_the_list() {
    let mut state = lobby_of_three();
    listed_id(&mut state, A, "ABCDEF");
    assert_eq!(state.on_lobby_browser(sid(D), Some(true)).expect("it is open").len(), 1);
    assert!(state.on_lobby_browser(sid(D), Some(false)).is_none());
    assert!(state.on_lobby_browser(sid(D), None).is_none());
    assert_eq!(state.on_lobby_browser(4, Some(true)).expect("it is open").len(), 1);
}

#[test]
fn a_socket_that_connects_is_told_the_peer_configuration() {
    let config = state().on_connect(A);
    assert!(!config.force_relay_only);
    assert_eq!(config.ice_servers.len(), 1);
}

#[test]
fn a_dropped_delivery_is_counted() {
    let mut state = state();
    state.count_dropped();
    state.count_dropped();
    assert_eq!(state.health().counters.dropped_full_buffer, 2);
}

#[test]
fn messages_go_by_the_names_clients_listen_for() {
    let names: Vec<&str> = [
        Message::Left { sid: 1 },
        Message::SetHost { host_id: 1 },
        Message::Join { sid: 1, client: client(1) },
        Message::SetClient { sid: 1, client: client(1) },
        Message::Vad { activity: true, client: client(1), sid: 1 },
        Message::ImpostorRadio { on_radio: true, client: client(1), sid: 1 },
    ]
    .iter()
    .map(|message| message.event_name())
    .collect();
    assert_eq!(names, vec!["left", "setHost", "join", "setClient", "VAD", "impostorRadio"]);
}

#[test]
fn a_token_is_spent_by_limited_events_only() {
    assert_eq!(Event::Join.limit(true), Some(Limit::Join));
    assert_eq!(Event::Lobby.limit(true), Some(Limit::Lobby));
    assert_eq!(Event::Vad.limit(true), Some(Limit::Vad));
    assert_eq!(Event::ImpostorRadio.limit(true), Some(Limit::Radio));
    assert_eq!(Event::Signal.limit(true), Some(Limit::Signal));
    assert_eq!(Event::Signal.limit(false), Some(Limit::Signal));
    assert_eq!(Event::Join.limit(false), None);
    assert_eq!(Event::Lobby.limit(false), None);
    assert_eq!(Event::Vad.limit(false), None);
    assert_eq!(Event::ImpostorRadio.limit(false), None);
    for event in [Event::SetHost, Event::Id, Event::Leave, Event::JoinLobby, Event::RemoveLobby, Event::LobbyBrowser] {
        assert_eq!(event.limit(true), None);
    }
}
