use crewlink::config::{PeerConfigFile, RelayEnvironment};
use crewlink::listing::{Field, PublicLobbyInput};
use crewlink::registry::{BrowserEvent, MAX_STREAM_SUBSCRIBERS};
use crewlink::state::AppState;
use crewlink::web::{html_escape, CodeReply};

fn state(name: Option<&str>) -> AppState {
    AppState::new(
        PeerConfigFile::default().resolve(RelayEnvironment::default()),
        name.map(str::to_owned),
        "http://x/?a=1&b='2'".to_owned(),
    )
}

#[test]
fn markup_is_escaped() {
    assert_eq!(html_escape("a<b>&\"c'd"), "a&lt;b&gt;&amp;&quot;c&#39;d");
    assert_eq!(html_escape("plain ü"), "plain ü");
    assert_eq!(html_escape(""), "");
}

#[test]
fn the_status_page_shows_the_name_the_address_and_the_counts() {
    let mut named = state(Some("A <b>"));
    named.on_admission(1);
    named.on_admission(2);
    assert_eq!(
        named.index(),
        "<!doctype html>\n<html lang=\"en\">\n<head><meta charset=\"utf-8\"><title>A &lt;b&gt;</title>\n\
         <style>body{font-family:system-ui,sans-serif;margin:3rem auto;max-width:32rem;line-height:1.6}\
         dt{font-weight:600}dd{margin:0 0 .75rem}</style></head>\n<body>\n<h1>A &lt;b&gt;</h1>\n\
         <p>A voice relay server for <a href=\"https://github.com/greluc/AnotherCrewLink\">AnotherCrewLink</a>. \
         Point the client at <code>http://x/?a=1&amp;b=&#39;2&#39;</code> under Settings &rarr; Server.</p>\n\
         <dl>\n<dt>Connected</dt><dd>2</dd>\n<dt>Lobbies</dt><dd>0</dd>\n</dl>\n</body></html>\n"
    );
    let mut unnamed = state(None);
    unnamed.on_disconnect(1);
    assert!(unnamed.index().contains("<title>AnotherCrewLink</title>"));
    assert!(unnamed.index().contains("<dd>-1</dd>"));
}

#[test]
fn the_health_report_counts() {
    let mut state = state(Some("n"));
    state.on_admission(1);
    state.on_id(1, None);
    let health = state.health();
    assert_eq!(health.connection_count, 1);
    assert_eq!(health.lobbies_count, 0);
    assert_eq!(health.address, "http://x/?a=1&b='2'");
    assert_eq!(health.name.as_deref(), Some("n"));
    assert_eq!(
        health.counters.snapshot(),
        vec![
            ("droppedFullBuffer", 0),
            ("refusedSignals", 0),
            ("refusedOversize", 0),
            ("refusedMalformed", 1),
            ("refusedRateLimited", 0),
            ("refusedSubscribers", 0),
        ]
    );
}

#[test]
fn a_code_is_answered_with_its_status() {
    assert_eq!(CodeReply::Found("X".to_owned()).status(), 200);
    assert_eq!(CodeReply::Found("X".to_owned()).error(), None);
    assert_eq!(CodeReply::Gone.status(), 410);
    assert_eq!(CodeReply::Gone.error(), Some("Lobby is not public anymore"));
    assert_eq!(CodeReply::Unknown.status(), 404);
    assert_eq!(CodeReply::Unknown.error(), Some("Lobby not found"));
    assert!(matches!(state(None).lobby_code(3), CodeReply::Unknown));
}

#[test]
fn a_card_that_does_not_ask_to_be_public_is_gone() {
    let mut state = state(None);
    state.list_lobby("ABCDEF".to_owned(), &PublicLobbyInput::default(), 3, 0);
    assert!(matches!(state.lobby_code(3), CodeReply::Gone));
}

#[test]
fn a_stream_starts_with_the_whole_list_or_resumes() {
    let mut state = state(None);
    let input = PublicLobbyInput { is_public: Some(Field::Flag(true)), ..Default::default() };
    state.list_lobby("ABCDEF".to_owned(), &input, 3, 0);
    state.list_lobby("GHIJKL".to_owned(), &input, 4, 0);

    for header in [None, Some("x"), Some(""), Some("3"), Some("-1"), Some("18446744073709551616")] {
        let start = state.stream_start(header);
        assert_eq!(start.len(), 1);
        assert_eq!(start[0].0, 2);
        match &start[0].1 {
            BrowserEvent::Snapshot(cards) => {
                let mut ids: Vec<u64> = cards.iter().map(|card| card.id).collect();
                ids.sort();
                assert_eq!(ids, vec![3, 4]);
            }
            other => panic!("{other:?}"),
        }
    }
    let resumed = state.stream_start(Some("1"));
    assert_eq!(resumed.len(), 1);
    assert_eq!(resumed[0].0, 2);
    assert!(matches!(&resumed[0].1, BrowserEvent::UpdateLobby(card) if card.id == 4));
    assert_eq!(state.stream_start(Some("0")).len(), 2);
    assert_eq!(state.stream_start(Some("+2")).len(), 0);
}

#[test]
fn a_stream_is_refused_at_the_cap() {
    let mut state = state(None);
    let mut held = Vec::new();
    for _ in 0..MAX_STREAM_SUBSCRIBERS {
        let (slot, events) = state.open_stream(None).expect("there is a place");
        assert_eq!(events.len(), 1);
        held.push(slot);
    }
    assert!(state.open_stream(None).is_none());
    assert_eq!(state.health().counters.refused_subscribers, 1);
    state.release_stream_slot(held.pop().expect("one is held"));
    assert!(state.open_stream(Some("7")).is_some());
}
