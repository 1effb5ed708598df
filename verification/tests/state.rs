use crewlink::config::{PeerConfigFile, RelayEnvironment};
use crewlink::registry::{BrowserEvent, BROWSER_LOG_LEN, LOBBY_IDS, MAX_STREAM_SUBSCRIBERS};
use crewlink::state::AppState;

fn state() -> AppState {
    AppState::new(
        PeerConfigFile::default().resolve(RelayEnvironment::default()),
        None,
        "http://x".to_owned(),
    )
}

#[test]
fn a_lobby_id_stays_inside_what_a_browser_can_hold_exactly() {
    let mut state = state();
    for _ in 0..1000 {
        let id = state.next_lobby_id();
        assert!(id < (1u64 << 53), "{id} is above Number.MAX_SAFE_INTEGER and a browser cannot hold it");
    }
}

#[test]
fn lobby_ids_are_not_a_sequence_anybody_can_walk() {
    let mut state = state();
    let ids: Vec<u64> = (0..64).map(|_| state.next_lobby_id()).collect();
    assert!(ids.windows(2).filter(|w| w[1] == w[0] + 1).count() < 2, "ids look consecutive: {ids:?}");
    let unique: std::collections::HashSet<u64> = ids.iter().copied().collect();
    assert_eq!(unique.len(), ids.len(), "an id was issued twice");
}

#[test]
fn the_stream_cap_holds_and_a_finished_subscriber_gives_its_slot_back() {
    let mut state = state();
    let held: Vec<_> = (0..MAX_STREAM_SUBSCRIBERS)
        .map(|i| state.take_stream_slot().unwrap_or_else(|| panic!("slot {i} should be available")))
        .collect();
    assert!(state.take_stream_slot().is_none(), "the cap has to actually stop the next one");
    assert_eq!(state.health().counters.refused_subscribers, 1);

    for slot in held {
        state.release_stream_slot(slot);
    }
    assert!(
        state.take_stream_slot().is_some(),
        "dropping a subscriber has to release its slot, or the server fills up for good"
    );
}

#[test]
fn a_last_event_id_at_the_maximum_is_answered_rather_than_overflowing() {
    let mut state = state();
    state.publish(BrowserEvent::RemoveLobby(1));
    assert!(
        state.replay_since(Some(u64::MAX)).is_none(),
        "a position beyond anything held has to fall back to a snapshot"
    );
}

#[test]
fn a_position_ahead_of_anything_issued_also_falls_back_to_a_snapshot() {
    let mut state = state();
    state.publish(BrowserEvent::RemoveLobby(1));
    assert!(state.replay_since(Some(99)).is_none());
}

#[test]
fn a_position_still_held_replays_only_what_came_after_it() {
    let mut state = state();
    state.publish(BrowserEvent::RemoveLobby(1));
    state.publish(BrowserEvent::RemoveLobby(2));
    let replayed = state.replay_since(Some(1)).expect("position 1 is still held");
    assert_eq!(replayed.len(), 1);
    assert_eq!(replayed[0].0, 2);
}

#[test]
fn no_position_means_a_snapshot() {
    assert!(state().replay_since(None).is_none());
}

#[test]
fn a_replay_has_no_gap_once_the_log_is_full() {
    let mut state = state();
    assert!(state.replay_since(Some(0)).is_none(), "nothing has been published");
    for id in 0..300 {
        assert_eq!(state.publish(BrowserEvent::RemoveLobby(id)), id + 1);
    }
    assert_eq!(state.browser_position(), 300);
    let oldest = 300 - BROWSER_LOG_LEN as u64;
    assert!(state.replay_since(Some(oldest - 1)).is_none());
    let replayed = state.replay_since(Some(oldest)).expect("everything since is held");
    assert_eq!(replayed.len(), BROWSER_LOG_LEN);
    for (i, (position, event)) in replayed.iter().enumerate() {
        assert_eq!(*position, oldest + 1 + i as u64);
        assert!(matches!(event, BrowserEvent::RemoveLobby(id) if *id == *position - 1));
    }
    assert_eq!(state.replay_since(Some(300)).expect("it is up to date").len(), 0);
}

#[test]
fn an_id_that_has_been_issued_is_stepped_over() {
    let mut state = state();
    let id = state.next_lobby_id();
    assert_eq!(state.lobby_id_from(id), if id + 1 == LOBBY_IDS { 0 } else { id + 1 });
    assert_eq!(state.lobby_id_from(id + LOBBY_IDS), state.lobby_id_from(id));
    let free = (id + 5) % LOBBY_IDS;
    assert_eq!(state.lobby_id_from(free), free);
}

#[test]
fn two_servers_draw_different_ids() {
    let (mut a, mut b) = (state(), state());
    let first: Vec<u64> = (0..8).map(|_| a.next_lobby_id()).collect();
    let second: Vec<u64> = (0..8).map(|_| b.next_lobby_id()).collect();
    assert_ne!(first, second);
}
