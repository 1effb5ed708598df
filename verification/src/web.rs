//! What the HTTP surface answers: the status page, the health report, the code of a public
//! lobby, and where a subscriber of the lobby stream starts.

use crate::config::copy_text;
use crate::listing::PublicLobby;
use crate::registry::{BrowserEvent, Counters, Registry, MAX_STREAM_SUBSCRIBERS};
use crate::state::{AppState, StreamSlot};
use crate::tables::{get_code, get_public, list_public};
use crate::text::{decimal_text, parse_decimal, signed_decimal_text};
use vstd::prelude::*;

verus! {

/// How a character stands in HTML: itself, or as an entity when it has a meaning there.
pub open spec fn escaped_char(c: char) -> Seq<char> {
    if c == '&' {
        "&amp;"@
    } else if c == '<' {
        "&lt;"@
    } else if c == '>' {
        "&gt;"@
    } else if c == '"' {
        "&quot;"@
    } else if c == '\'' {
        "&#39;"@
    } else {
        seq![c]
    }
}

/// How a text stands in HTML.
pub open spec fn escaped(text: Seq<char>) -> Seq<char>
    decreases text.len(),
{
    if text.len() == 0 {
        Seq::empty()
    } else {
        escaped(text.drop_last()) + escaped_char(text.last())
    }
}

/// Escapes a text for HTML.
pub fn html_escape(text: &str) -> (r: String)
    ensures
        r@ == escaped(text@),
{
    let mut out = String::new();
    for ch in it: text.chars()
        invariant
            it.seq() == text@,
            out@ == escaped(text@.take(it.index() as int)),
    {
        assert(text@.take(it.index() + 1).drop_last() == text@.take(it.index() as int));
        if ch == '&' {
            out.append("&amp;");
        } else if ch == '<' {
            out.append("&lt;");
        } else if ch == '>' {
            out.append("&gt;");
        } else if ch == '"' {
            out.append("&quot;");
        } else if ch == '\'' {
            out.append("&#39;");
        } else {
            let ghost before = out@;
            out.push(ch);
            assert(out@ == before + seq![ch]);
        }
    }
    assert(text@.take(text@.len() as int) == text@);
    out
}

/// The status page, up to the title.
pub const PAGE_TITLE: &'static str = "<!doctype html>\n\
    <html lang=\"en\">\n\
    <head><meta charset=\"utf-8\"><title>";

/// The status page, from the title to the heading.
pub const PAGE_HEADING: &'static str = "</title>\n\
    <style>body{font-family:system-ui,sans-serif;margin:3rem auto;max-width:32rem;\
    line-height:1.6}dt{font-weight:600}dd{margin:0 0 .75rem}</style></head>\n\
    <body>\n\
    <h1>";

/// The status page, from the heading to the address.
pub const PAGE_ADDRESS: &'static str = "</h1>\n\
    <p>A voice relay server for <a href=\"https://github.com/greluc/AnotherCrewLink\">\
    AnotherCrewLink</a>. Point the client at <code>";

/// The status page, from the address to the number of connections.
pub const PAGE_CONNECTIONS: &'static str = "</code> under \
    Settings &rarr; Server.</p>\n\
    <dl>\n\
    <dt>Connected</dt><dd>";

/// The status page, from the number of connections to the number of lobbies.
pub const PAGE_LOBBIES: &'static str = "</dd>\n\
    <dt>Lobbies</dt><dd>";

/// The status page, from the number of lobbies to its end.
pub const PAGE_END: &'static str = "</dd>\n\
    </dl>\n\
    </body></html>\n";

/// The name a server goes by when it was given none.
pub const DEFAULT_NAME: &'static str = "AnotherCrewLink";

impl Registry {
    /// The name on the status page.
    pub open spec fn shown_name(self) -> Seq<char> {
        match self.name {
            Some(name) => name,
            None => DEFAULT_NAME@,
        }
    }

    /// The status page.
    pub open spec fn status_page(self) -> Seq<char> {
        PAGE_TITLE@ + escaped(self.shown_name()) + PAGE_HEADING@ + escaped(self.shown_name()) + PAGE_ADDRESS@
            + escaped(self.public_address) + PAGE_CONNECTIONS@ + crate::text::signed_decimal(
            self.connections as int,
        ) + PAGE_LOBBIES@ + crate::text::decimal(self.lobbies.len()) + PAGE_END@
    }

    /// Where a subscriber of the lobby stream left off, by the last position it reports. It
    /// counts only when it is a number, and when everything since is still held.
    pub open spec fn resumed(self, last_event_id: Option<Seq<char>>) -> Option<Seq<
        (u64, crate::registry::BrowserEventView),
    >> {
        match last_event_id {
            Some(text) => match crate::text::parsed_decimal(text, u64::MAX as nat) {
                Some(position) => self.replay(position as u64),
                None => None,
            },
            None => None,
        }
    }

    /// `events` are what a subscriber of the lobby stream is sent first: everything since the
    /// position it reports, or else the whole list, at the position the stream is at.
    pub open spec fn starts_with(self, last_event_id: Option<Seq<char>>, events: Seq<(u64, BrowserEvent)>) -> bool {
        match self.resumed(last_event_id) {
            Some(replayed) => crate::state::events_view(events) == replayed,
            None => {
                &&& events.len() == 1
                &&& events[0].0 == self.browser_seq
                &&& events[0].1 matches BrowserEvent::Snapshot(cards) && crate::tables::lists_cards(
                    cards@,
                    self.public_lobbies,
                )
            },
        }
    }
}

/// What the health report says, apart from how long the server has been up.
#[derive(Debug)]
pub struct Health {
    pub connection_count: i64,
    pub lobbies_count: usize,
    pub address: String,
    pub name: Option<String>,
    /// What the server has refused or dropped since it started.
    pub counters: Counters,
}

/// The answer to somebody who asks for the code of a lobby.
#[derive(Debug)]
pub enum CodeReply {
    Found(String),
    /// The lobby was public, and is not any more.
    Gone,
    Unknown,
}

impl CodeReply {
    /// The HTTP status of the answer.
    pub fn status(&self) -> (r: u16)
        ensures
            r == match self {
                CodeReply::Found(_) => 200u16,
                CodeReply::Gone => 410u16,
                CodeReply::Unknown => 404u16,
            },
    {
        match self {
            CodeReply::Found(_) => 200,
            CodeReply::Gone => 410,
            CodeReply::Unknown => 404,
        }
    }

    /// What is said when there is no code to give.
    pub fn error(&self) -> (r: Option<&'static str>)
        ensures
            match self {
                CodeReply::Found(_) => r is None,
                CodeReply::Gone => r is Some && r->0@ == "Lobby is not public anymore"@,
                CodeReply::Unknown => r is Some && r->0@ == "Lobby not found"@,
            },
    {
        match self {
            CodeReply::Found(_) => None,
            CodeReply::Gone => Some("Lobby is not public anymore"),
            CodeReply::Unknown => Some("Lobby not found"),
        }
    }
}

impl AppState {
    /// The status page.
    pub fn index(&self) -> (r: String)
        ensures
            r@ == self@.status_page(),
    {
        let name = match &self.name {
            Some(name) => html_escape(name.as_str()),
            None => html_escape(DEFAULT_NAME),
        };
        let mut page = String::new();
        page.append(PAGE_TITLE);
        page.append(name.as_str());
        page.append(PAGE_HEADING);
        page.append(name.as_str());
        page.append(PAGE_ADDRESS);
        page.append(html_escape(self.public_address.as_str()).as_str());
        page.append(PAGE_CONNECTIONS);
        page.append(signed_decimal_text(self.connections).as_str());
        page.append(PAGE_LOBBIES);
        page.append(decimal_text(self.lobby_count() as u64).as_str());
        page.append(PAGE_END);
        page
    }

    /// What the health report says.
    pub fn health(&self) -> (r: Health)
        ensures
            r.connection_count == self@.connections,
            r.lobbies_count == self@.lobbies.len(),
            r.address@ == self@.public_address,
            crate::config::optional_text(r.name) == self@.name,
            r.counters == self@.counters,
    {
        Health {
            connection_count: self.connections,
            lobbies_count: self.lobby_count(),
            address: self.public_address.clone(),
            name: copy_text(&self.name),
            counters: self.counters,
        }
    }

    /// The cards of the public lobbies, in no particular order.
    pub fn snapshot(&self) -> (r: Vec<PublicLobby>)
        ensures
            crate::tables::lists_cards(r@, self@.public_lobbies),
    {
        list_public(&self.public_lobbies)
    }

    /// The code of a public lobby, by its id. One that was on the public list and is not any
    /// more is told apart from one that never was.
    pub fn lobby_code(&self, id: u64) -> (r: CodeReply)
        ensures
            match (r, self@.public_lobby(id)) {
                (CodeReply::Found(code), Some((expected, card))) => card.is_public && code@ == expected,
                (CodeReply::Gone, Some((_, card))) => !card.is_public,
                (CodeReply::Gone, None) => self@.lobby_codes.contains_key(id) || self@.once_public(id),
                (CodeReply::Unknown, None) => !self@.lobby_codes.contains_key(id) && !self@.once_public(id),
                _ => false,
            },
    {
        match get_code(&self.lobby_codes, id) {
            Some(code) => {
                let joinable = match get_public(&self.public_lobbies, code.as_str()) {
                    Some(lobby) => lobby.is_public,
                    None => false,
                };
                if joinable {
                    CodeReply::Found(code)
                } else {
                    CodeReply::Gone
                }
            },
            None => if self.once_listed.contains_key(&id) {
                CodeReply::Gone
            } else {
                CodeReply::Unknown
            },
        }
    }

    /// What a subscriber of the lobby stream is sent first.
    pub fn stream_start(&self, last_event_id: Option<&str>) -> (r: Vec<(u64, BrowserEvent)>)
        ensures
            self@.starts_with(
                match last_event_id {
                    Some(text) => Some(text@),
                    None => None,
                },
                r@,
            ),
    {
        let last_seen = match last_event_id {
            Some(text) => parse_decimal(text, u64::MAX),
            None => None,
        };
        match self.replay_since(last_seen) {
            Some(events) => events,
            None => {
                let mut events: Vec<(u64, BrowserEvent)> = Vec::new();
                events.push((self.browser_position(), BrowserEvent::Snapshot(self.snapshot())));
                events
            },
        }
    }

    /// Lets a subscriber onto the lobby stream, with its place there and what it is sent
    /// first, or turns it away when the server is at its cap.
    pub fn open_stream(&mut self, last_event_id: Option<&str>) -> (r: Option<(StreamSlot, Vec<(u64, BrowserEvent)>)>)
        ensures
            final(self)@ == old(self)@.subscribed(),
            r is Some <==> old(self)@.stream_subscribers < MAX_STREAM_SUBSCRIBERS,
            r matches Some((_, events)) ==> old(self)@.starts_with(
                match last_event_id {
                    Some(text) => Some(text@),
                    None => None,
                },
                events@,
            ),
    {
        match self.take_stream_slot() {
            Some(slot) => {
                let events = self.stream_start(last_event_id);
                Some((slot, events))
            },
            None => None,
        }
    }
}

/// An escaped text holds no character that starts or ends markup or an attribute.
pub proof fn an_escaped_text_holds_no_markup(text: Seq<char>)
    ensures
        forall|i: int|
            0 <= i < escaped(text).len() ==> (#[trigger] escaped(text)[i]) != '<' && escaped(text)[i] != '>'
                && escaped(text)[i] != '"' && escaped(text)[i] != '\'',
    decreases text.len(),
{
    reveal_strlit("&amp;");
    reveal_strlit("&lt;");
    reveal_strlit("&gt;");
    reveal_strlit("&quot;");
    reveal_strlit("&#39;");
    if text.len() > 0 {
        let front = escaped(text.drop_last());
        let back = escaped_char(text.last());
        an_escaped_text_holds_no_markup(text.drop_last());
        assert forall|i: int| 0 <= i < escaped(text).len() implies (#[trigger] escaped(text)[i]) != '<'
            && escaped(text)[i] != '>' && escaped(text)[i] != '"' && escaped(text)[i] != '\'' by {
            if i < front.len() {
                assert(escaped(text)[i] == front[i]);
            } else {
                assert(escaped(text)[i] == back[i - front.len()]);
            }
        }
    }
}

/// A text without a character that has a meaning in HTML stands for itself.
pub proof fn a_plain_text_is_kept(text: Seq<char>)
    requires
        forall|i: int| 0 <= i < text.len() ==> escaped_char(#[trigger] text[i]) == seq![text[i]],
    ensures
        escaped(text) == text,
    decreases text.len(),
{
    if text.len() > 0 {
        let rest = text.drop_last();
        assert forall|i: int| 0 <= i < rest.len() implies escaped_char(#[trigger] rest[i]) == seq![rest[i]] by {
            assert(rest[i] == text[i]);
        }
        a_plain_text_is_kept(rest);
        assert(escaped_char(text.last()) == seq![text.last()]);
        assert(escaped(text) =~= text);
    }
}

/// How each character stands in HTML: five of them as entities, every other as itself.
pub proof fn how_a_character_is_escaped(c: char)
    ensures
        escaped(seq![c]) == (if c == '&' {
            "&amp;"@
        } else if c == '<' {
            "&lt;"@
        } else if c == '>' {
            "&gt;"@
        } else if c == '"' {
            "&quot;"@
        } else if c == '\'' {
            "&#39;"@
        } else {
            seq![c]
        }),
{
    assert(seq![c].drop_last() =~= Seq::<char>::empty());
    assert(escaped(Seq::<char>::empty()) =~= Seq::<char>::empty());
    assert(escaped(seq![c]) =~= escaped_char(c));
}

/// A text is escaped piece by piece: nothing is lost or added where two pieces meet.
pub proof fn a_text_is_escaped_piece_by_piece(a: Seq<char>, b: Seq<char>)
    ensures
        escaped(a + b) == escaped(a) + escaped(b),
    decreases b.len(),
{
    if b.len() == 0 {
        assert(a + b =~= a);
        assert(escaped(b) =~= Seq::<char>::empty());
        assert(escaped(a) + escaped(b) =~= escaped(a));
    } else {
        assert((a + b).drop_last() =~= a + b.drop_last());
        a_text_is_escaped_piece_by_piece(a, b.drop_last());
        assert(escaped(a + b) =~= escaped(a) + escaped(b));
    }
}

/// The status page shows the name twice and the address once, all escaped, and how many sockets
/// and how many lobbies there are. A server without a name is called AnotherCrewLink.
pub proof fn what_the_status_page_shows(s: Registry)
    ensures
        ({
            let name = match s.name {
                Some(name) => name,
                None => "AnotherCrewLink"@,
            };
            s.status_page() == PAGE_TITLE@ + escaped(name) + PAGE_HEADING@ + escaped(name) + PAGE_ADDRESS@ + escaped(
                s.public_address,
            ) + PAGE_CONNECTIONS@ + crate::text::signed_decimal(s.connections as int) + PAGE_LOBBIES@
                + crate::text::decimal(s.lobbies.dom().len()) + PAGE_END@
        }),
{
}

/// A subscriber that reports a position is resumed from there, if that is still held. One that
/// reports nothing, or no number, or a position that is not held, starts with the whole list at
/// the position the stream is at.
pub proof fn where_a_subscriber_starts(s: Registry, position: u64, events: Seq<(u64, BrowserEvent)>)
    ensures
        s.resumed(Some(crate::text::decimal(position as nat))) == s.replay(position),
        s.resumed(None) is None,
        forall|text: Seq<char>|
            crate::text::parsed_decimal(text, 0xffff_ffff_ffff_ffff) is None ==> (#[trigger] s.resumed(Some(text))) is None,
        s.replay(position) matches Some(missed) ==> (s.starts_with(
            Some(crate::text::decimal(position as nat)),
            events,
        ) ==> {
            &&& events.len() == missed.len()
            &&& forall|i: int|
                0 <= i < events.len() ==> (#[trigger] events[i]).0 == missed[i].0 && events[i].1@ == missed[i].1
        }),
        s.starts_with(None, events) ==> {
            &&& events.len() == 1
            &&& events[0].0 == s.browser_seq
            &&& events[0].1 matches BrowserEvent::Snapshot(cards) && crate::tables::lists_cards(
                cards@,
                s.public_lobbies,
            )
        },
        s.replay(position) is None && s.starts_with(Some(crate::text::decimal(position as nat)), events) ==> {
            &&& events.len() == 1
            &&& events[0].0 == s.browser_seq
            &&& events[0].1 matches BrowserEvent::Snapshot(cards) && crate::tables::lists_cards(
                cards@,
                s.public_lobbies,
            )
        },
{
    crate::text::a_number_reads_back(position as nat, u64::MAX as nat);
    if s.starts_with(Some(crate::text::decimal(position as nat)), events) && s.replay(position) is Some {
        let missed = s.replay(position)->0;
        let view = crate::state::events_view(events);
        assert(view == missed);
        assert forall|i: int| 0 <= i < events.len() implies (#[trigger] events[i]).0 == missed[i].0 && events[i].1@
            == missed[i].1 by {
            assert(view[i] == (events[i].0, events[i].1@));
        }
    }
}

} // verus!
