//! What the server knows, as a value, and how each event changes it.

use crate::config::PeerConfigProviderView;
use crate::listing::{PublicLobby, PublicLobbyInput, PublicLobbyView};
use crate::lobby::{Client, LobbyView, MembershipView};
use crate::sid::Sid;
use vstd::prelude::*;

verus! {

/// How many things the server has refused or dropped since it started.
#[derive(Clone, Copy, PartialEq, Eq, Structural, Debug)]
pub struct Counters {
    /// Emits that could not be queued because the recipient's buffer was full.
    pub dropped_full_buffer: u64,
    /// Signals refused by the envelope rules.
    pub refused_signals: u64,
    /// Payloads refused for exceeding the size cap.
    pub refused_oversize: u64,
    /// Sockets disconnected for sending a malformed command.
    pub refused_malformed: u64,
    /// Events dropped because the sender was over its rate limit.
    pub refused_rate_limited: u64,
    /// Lobby-stream subscribers turned away because the server was at its cap.
    pub refused_subscribers: u64,
}

impl Counters {
    /// Nothing has been refused or dropped.
    pub open spec fn none() -> Counters {
        Counters {
            dropped_full_buffer: 0,
            refused_signals: 0,
            refused_oversize: 0,
            refused_malformed: 0,
            refused_rate_limited: 0,
            refused_subscribers: 0,
        }
    }

    /// The counters with the names the health report gives them.
    pub open spec fn named(self) -> Seq<(Seq<char>, u64)> {
        seq![
            ("droppedFullBuffer"@, self.dropped_full_buffer),
            ("refusedSignals"@, self.refused_signals),
            ("refusedOversize"@, self.refused_oversize),
            ("refusedMalformed"@, self.refused_malformed),
            ("refusedRateLimited"@, self.refused_rate_limited),
            ("refusedSubscribers"@, self.refused_subscribers),
        ]
    }

    /// The counters with the names the health report gives them.
    pub fn snapshot(&self) -> (r: Vec<(&'static str, u64)>)
        ensures
            r@.map_values(|entry: (&'static str, u64)| (entry.0@, entry.1)) == self.named(),
    {
        let mut out: Vec<(&'static str, u64)> = Vec::new();
        out.push(("droppedFullBuffer", self.dropped_full_buffer));
        out.push(("refusedSignals", self.refused_signals));
        out.push(("refusedOversize", self.refused_oversize));
        out.push(("refusedMalformed", self.refused_malformed));
        out.push(("refusedRateLimited", self.refused_rate_limited));
        out.push(("refusedSubscribers", self.refused_subscribers));
        out
    }
}

impl Default for Counters {
    fn default() -> (r: Self)
        ensures
            r == Counters::none(),
    {
        Counters {
            dropped_full_buffer: 0,
            refused_signals: 0,
            refused_oversize: 0,
            refused_malformed: 0,
            refused_rate_limited: 0,
            refused_subscribers: 0,
        }
    }
}

/// What the lobby browser stream carries.
#[derive(Debug)]
pub enum BrowserEvent {
    /// The whole list, sent to a subscriber that cannot be resumed from where it left off.
    Snapshot(Vec<PublicLobby>),
    UpdateLobby(PublicLobby),
    RemoveLobby(u64),
}

/// What the lobby browser stream carries, as a value.
pub enum BrowserEventView {
    Snapshot(Seq<PublicLobbyView>),
    UpdateLobby(PublicLobbyView),
    RemoveLobby(u64),
}

impl View for BrowserEvent {
    type V = BrowserEventView;

    open spec fn view(&self) -> BrowserEventView {
        match self {
            BrowserEvent::Snapshot(cards) => BrowserEventView::Snapshot(
                cards@.map_values(|card: PublicLobby| card@),
            ),
            BrowserEvent::UpdateLobby(card) => BrowserEventView::UpdateLobby(card@),
            BrowserEvent::RemoveLobby(id) => BrowserEventView::RemoveLobby(*id),
        }
    }
}

impl Clone for BrowserEvent {
    fn clone(&self) -> (r: Self)
        ensures
            r@ == self@,
    {
        match self {
            BrowserEvent::Snapshot(cards) => {
                let mut copy: Vec<PublicLobby> = Vec::new();
                for i in 0..cards.len()
                    invariant
                        copy@.len() == i,
                        forall|k: int| 0 <= k < i ==> (#[trigger] copy@[k])@ == cards@[k]@,
                {
                    copy.push(cards[i].clone());
                }
                assert(copy@.map_values(|card: PublicLobby| card@) == cards@.map_values(|card: PublicLobby| card@));
                BrowserEvent::Snapshot(copy)
            },
            BrowserEvent::UpdateLobby(card) => BrowserEvent::UpdateLobby(card.clone()),
            BrowserEvent::RemoveLobby(id) => BrowserEvent::RemoveLobby(*id),
        }
    }
}

/// How many events are kept for subscribers that reconnect.
pub const BROWSER_LOG_LEN: usize = 256;

/// How many lobby-stream subscribers are served at once.
pub const MAX_STREAM_SUBSCRIBERS: usize = 256;

/// How many lobby ids there are: those a JSON number holds exactly.
pub const LOBBY_IDS: u64 = 0x20_0000_0000_0000;

/// A signal payload above this many bytes is refused.
pub const MAX_SIGNAL_BYTES: usize = 65536;

/// A counter one further, starting over after the last value it can hold.
pub open spec fn next_count(n: u64) -> u64 {
    if n == u64::MAX {
        0
    } else {
        (n + 1) as u64
    }
}

/// Everything the server knows.
#[verifier::ext_equal]
pub struct Registry {
    pub name: Option<Seq<char>>,
    pub public_address: Seq<char>,
    pub peer_config: PeerConfigProviderView,
    /// The lobbies, by code.
    pub lobbies: Map<Seq<char>, LobbyView>,
    /// What each admitted socket is part of.
    pub members: Map<Sid, MembershipView>,
    /// The cards of the public lobbies, by code.
    pub public_lobbies: Map<Seq<char>, PublicLobbyView>,
    /// The codes of the public lobbies, by id.
    pub lobby_codes: Map<u64, Seq<char>>,
    /// How many lobby ids have been asked for.
    pub lobby_seq: u64,
    /// The lobby ids that have been issued.
    pub issued: Set<u64>,
    /// The ids under which a lobby has been on the public list.
    pub once_listed: Set<u64>,
    /// How many sockets are connected.
    pub connections: i64,
    /// How many subscribers the lobby stream has.
    pub stream_subscribers: usize,
    pub counters: Counters,
    /// The position of the last event on the lobby stream.
    pub browser_seq: u64,
    /// The last events on the lobby stream, oldest first, each with its position.
    pub browser_log: Seq<(u64, BrowserEventView)>,
}

impl Registry {
    /// A server that has just started.
    pub open spec fn started(
        peer_config: PeerConfigProviderView,
        name: Option<Seq<char>>,
        public_address: Seq<char>,
    ) -> Registry {
        Registry {
            name,
            public_address,
            peer_config,
            lobbies: Map::empty(),
            members: Map::empty(),
            public_lobbies: Map::empty(),
            lobby_codes: Map::empty(),
            lobby_seq: 0,
            issued: Set::empty(),
            once_listed: Set::empty(),
            connections: 0,
            stream_subscribers: 0,
            counters: Counters::none(),
            browser_seq: 0,
            browser_log: Seq::empty(),
        }
    }

    /// After a lobby id has been issued.
    pub open spec fn id_taken(self, id: u64) -> Registry {
        Registry { lobby_seq: next_count(self.lobby_seq), issued: self.issued.insert(id), ..self }
    }

    /// After a subscriber of the lobby stream has gone.
    pub open spec fn unsubscribed(self) -> Registry {
        Registry {
            stream_subscribers: if self.stream_subscribers == 0 {
                usize::MAX
            } else {
                (self.stream_subscribers - 1) as usize
            },
            ..self
        }
    }

    /// The lobby a socket is in.
    pub open spec fn lobby_of(self, sid: Sid) -> Option<Seq<char>> {
        if self.members.contains_key(sid) {
            self.members[sid].code
        } else {
            None
        }
    }

    /// The lobby a socket is in and the identity it goes by, when both are known.
    pub open spec fn speaker(self, sid: Sid) -> Option<(Seq<char>, Client)> {
        if self.members.contains_key(sid) && self.members[sid].code is Some && self.members[sid].client is Some {
            Some((self.members[sid].code->0, self.members[sid].client->0))
        } else {
            None
        }
    }

    /// The code and the card of the public lobby with an id.
    pub open spec fn public_lobby(self, id: u64) -> Option<(Seq<char>, PublicLobbyView)> {
        if self.lobby_codes.contains_key(id) && self.public_lobbies.contains_key(self.lobby_codes[id]) {
            Some((self.lobby_codes[id], self.public_lobbies[self.lobby_codes[id]]))
        } else {
            None
        }
    }

    /// Whether a lobby with an id is, or once was, on the public list.
    pub open spec fn once_public(self, id: u64) -> bool {
        self.once_listed.contains(id)
    }

    /// Whether an identity contradicts the one a socket has claimed before.
    pub open spec fn contradicts(self, sid: Sid, client: Client) -> bool {
        &&& self.members.contains_key(sid)
        &&& self.members[sid].client is Some
        &&& self.members[sid].client->0.client_id != client.client_id
    }

    /// The public lobby somebody asks for by an id, or by something that is not one.
    pub open spec fn asked_for(self, id: Option<u64>) -> Option<(Seq<char>, PublicLobbyView)> {
        match id {
            Some(id) => self.public_lobby(id),
            None => None,
        }
    }

    /// The sockets in a lobby other than one. A lobby that does not exist has none.
    pub open spec fn peers_in(self, code: Seq<char>, except: Sid) -> Set<Sid> {
        if self.lobbies.contains_key(code) {
            self.lobbies[code].peers(except)
        } else {
            Set::empty()
        }
    }

    /// Whether a socket is in the lobby another one is in.
    pub open spec fn co_members(self, from: Sid, to: Sid) -> bool {
        match self.lobby_of(from) {
            Some(code) => self.lobbies.contains_key(code) && self.lobbies[code].members.contains_key(to),
            None => false,
        }
    }

    /// After an event has been put on the lobby stream.
    pub open spec fn published(self, event: BrowserEventView) -> Registry {
        let position = next_count(self.browser_seq);
        let kept = if self.browser_log.len() == BROWSER_LOG_LEN {
            self.browser_log.skip(1)
        } else {
            self.browser_log
        };
        Registry { browser_seq: position, browser_log: kept.push((position, event)), ..self }
    }

    /// After a lobby has been taken off the public list, if it was on it.
    pub open spec fn unlisted(self, code: Seq<char>) -> Registry {
        if self.public_lobbies.contains_key(code) {
            let id = self.public_lobbies[code].id;
            Registry {
                public_lobbies: self.public_lobbies.remove(code),
                lobby_codes: self.lobby_codes.remove(id),
                ..self
            }.published(BrowserEventView::RemoveLobby(id))
        } else {
            self
        }
    }

    /// After a subscriber of the lobby stream has been let in, or turned away at the cap.
    pub open spec fn subscribed(self) -> Registry {
        if self.stream_subscribers < MAX_STREAM_SUBSCRIBERS {
            Registry { stream_subscribers: (self.stream_subscribers + 1) as usize, ..self }
        } else {
            Registry {
                counters: Counters {
                    refused_subscribers: next_count(self.counters.refused_subscribers),
                    ..self.counters
                },
                ..self
            }
        }
    }

    /// The events after a position on the lobby stream, or nothing when that position is not
    /// held: it is ahead of anything issued, or further back than the events kept.
    pub open spec fn replay(self, last_seen: u64) -> Option<Seq<(u64, BrowserEventView)>> {
        if last_seen > self.browser_seq || self.browser_log.len() == 0 || last_seen + 1 < self.browser_log[0].0 {
            None
        } else {
            Some(self.browser_log.filter(|entry: (u64, BrowserEventView)| entry.0 > last_seen))
        }
    }

    /// Whether an event is to be dropped: the sender has been admitted, and its bucket had no
    /// token left.
    pub open spec fn over_limit(self, sid: Sid, token: bool) -> bool {
        self.members.contains_key(sid) && !token
    }

    /// After an event has been dropped because the sender was over its rate limit.
    pub open spec fn rate_limited(self) -> Registry {
        Registry {
            counters: Counters {
                refused_rate_limited: next_count(self.counters.refused_rate_limited),
                ..self.counters
            },
            ..self
        }
    }

    /// After a malformed command.
    pub open spec fn malformed(self) -> Registry {
        Registry {
            counters: Counters { refused_malformed: next_count(self.counters.refused_malformed), ..self.counters },
            ..self
        }
    }

    /// After a signal has been refused by the envelope rules.
    pub open spec fn signal_refused(self) -> Registry {
        Registry {
            counters: Counters { refused_signals: next_count(self.counters.refused_signals), ..self.counters },
            ..self
        }
    }

    /// After a signal has been refused for its size.
    pub open spec fn oversize_refused(self) -> Registry {
        Registry {
            counters: Counters { refused_oversize: next_count(self.counters.refused_oversize), ..self.counters },
            ..self
        }
    }

    /// After an event could not be queued for one socket.
    pub open spec fn delivery_dropped(self) -> Registry {
        Registry {
            counters: Counters {
                dropped_full_buffer: next_count(self.counters.dropped_full_buffer),
                ..self.counters
            },
            ..self
        }
    }

    /// After a socket has been admitted.
    pub open spec fn admitted(self, sid: Sid) -> Registry {
        Registry {
            connections: if self.connections == i64::MAX { i64::MIN } else { (self.connections + 1) as i64 },
            members: self.members.insert(sid, MembershipView::fresh()),
            ..self
        }
    }

    /// After a socket has left a lobby. A lobby nobody is in any more goes, and its card on the
    /// public list with it.
    pub open spec fn left(self, sid: Sid, code: Seq<char>) -> Registry {
        if !self.lobbies.contains_key(code) {
            self
        } else if self.lobbies[code].without(sid).members.is_empty() {
            Registry { lobbies: self.lobbies.remove(code), ..self }.unlisted(code)
        } else {
            Registry { lobbies: self.lobbies.insert(code, self.lobbies[code].without(sid)), ..self }
        }
    }

    /// Whether a socket that joins a lobby leaves another one.
    pub open spec fn moves(self, sid: Sid, code: Seq<char>) -> bool {
        self.lobby_of(sid) is Some && self.lobby_of(sid) != Some(code)
    }

    /// After a socket that joins a lobby has left the one it was in, if that is another one.
    pub open spec fn before_joining(self, sid: Sid, code: Seq<char>) -> Registry {
        if self.moves(sid, code) {
            self.left(sid, self.lobby_of(sid)->0)
        } else {
            self
        }
    }

    /// The lobby of a code, or a vacant one when there is none yet.
    pub open spec fn lobby_or_vacant(self, code: Seq<char>) -> LobbyView {
        if self.lobbies.contains_key(code) {
            self.lobbies[code]
        } else {
            LobbyView::vacant()
        }
    }

    /// After a socket has joined a lobby under an identity, perhaps claiming to host it.
    pub open spec fn joined(self, sid: Sid, code: Seq<char>, client: Client, claims_host: bool) -> Registry {
        let base = self.before_joining(sid, code);
        Registry {
            lobbies: base.lobbies.insert(code, base.lobby_or_vacant(code).joined(sid, client, claims_host)),
            members: if base.members.contains_key(sid) {
                base.members.insert(
                    sid,
                    MembershipView { code: Some(code), client: Some(client), ..base.members[sid] },
                )
            } else {
                base.members
            },
            ..base
        }
    }

    /// Whether a socket may name the host of a lobby: it is in it, and no other socket holds
    /// the claim.
    pub open spec fn accepts_host(self, sid: Sid, code: Seq<char>) -> bool {
        &&& self.lobby_of(sid) == Some(code)
        &&& self.lobbies.contains_key(code)
        &&& self.lobbies[code].accepts_host(sid)
    }

    /// After a socket has named the host of a lobby, if it may.
    pub open spec fn host_set(self, sid: Sid, code: Seq<char>, client_id: i64) -> Registry {
        if self.accepts_host(sid, code) {
            Registry {
                lobbies: self.lobbies.insert(code, self.lobbies[code].claimed(sid, client_id)),
                ..self
            }
        } else {
            self
        }
    }

    /// After a socket has claimed an identity.
    pub open spec fn identified(self, sid: Sid, client: Client) -> Registry {
        if !self.members.contains_key(sid) {
            self
        } else {
            let code = self.members[sid].code;
            Registry {
                members: self.members.insert(sid, MembershipView { client: Some(client), ..self.members[sid] }),
                lobbies: if code is Some && self.lobbies.contains_key(code->0) {
                    self.lobbies.insert(code->0, self.lobbies[code->0].identified(sid, client))
                } else {
                    self.lobbies
                },
                ..self
            }
        }
    }

    /// After a socket has left the lobby it is in. It is in none then.
    pub open spec fn quit(self, sid: Sid) -> Registry {
        match self.lobby_of(sid) {
            Some(code) => Registry {
                members: self.members.insert(sid, MembershipView { code: None, ..self.members[sid] }),
                ..self
            }.left(sid, code),
            None => self,
        }
    }

    /// After a socket has disconnected.
    pub open spec fn disconnected(self, sid: Sid) -> Registry {
        let gone = Registry { members: self.members.remove(sid), ..self };
        let base = match self.lobby_of(sid) {
            Some(code) => gone.left(sid, code),
            None => gone,
        };
        Registry {
            connections: if base.connections == i64::MIN { i64::MAX } else { (base.connections - 1) as i64 },
            ..base
        }
    }

    /// After a socket has started or stopped watching the public list.
    pub open spec fn watching(self, sid: Sid, open: bool) -> Registry {
        if self.members.contains_key(sid) {
            Registry {
                members: self.members.insert(
                    sid,
                    MembershipView { watching_lobbies: open, ..self.members[sid] },
                ),
                ..self
            }
        } else {
            self
        }
    }

    /// The id a lobby has on the public list: the one it has already, or else a new one.
    pub open spec fn listing_id(self, code: Seq<char>, id: u64) -> u64 {
        if self.public_lobbies.contains_key(code) {
            self.public_lobbies[code].id
        } else {
            id
        }
    }

    /// The time a card shows: it only moves when the lobby crosses into or out of the waiting
    /// state.
    pub open spec fn listing_time(self, code: Seq<char>, game_state: i64, now: i64) -> i64 {
        let waiting = game_state == crate::listing::GAME_STATE_LOBBY;
        if self.public_lobbies.contains_key(code) && waiting == (self.public_lobbies[code].game_state
            == crate::listing::GAME_STATE_LOBBY) {
            self.public_lobbies[code].state_time
        } else {
            now
        }
    }

    /// The card a lobby gets on the public list. `id` is for one that is not on it yet.
    pub open spec fn listing_card(
        self,
        code: Seq<char>,
        input: PublicLobbyInput,
        id: u64,
        now: i64,
    ) -> PublicLobbyView {
        input.card(
            self.listing_id(code, id),
            self.listing_time(code, crate::listing::count_in(input.game_state) as i64, now),
        )
    }

    /// After a lobby has been put on the public list, or its card there has been replaced.
    pub open spec fn listed(self, code: Seq<char>, input: PublicLobbyInput, id: u64, now: i64) -> Registry {
        let card = self.listing_card(code, input, id, now);
        Registry {
            lobby_codes: self.lobby_codes.insert(card.id, code),
            public_lobbies: self.public_lobbies.insert(code, card),
            once_listed: self.once_listed.insert(card.id),
            ..self
        }.published(BrowserEventView::UpdateLobby(card))
    }

    /// Whether a socket may signal a target: the target is a socket id, it is not the sender's
    /// own, and it is in the sender's lobby.
    pub open spec fn may_signal(self, sid: Sid, target: Seq<char>) -> bool {
        &&& crate::sid::is_sid_text(target)
        &&& crate::sid::sid_value(target) != sid
        &&& self.co_members(sid, crate::sid::sid_value(target) as Sid)
    }
}

/// The id a hash of a counter gives: as many of its bits as an id has.
pub open spec fn id_of_hash(hash: u64) -> nat {
    hash as nat % LOBBY_IDS as nat
}

/// The id `steps` after the one a hash gives, starting over after the last.
pub open spec fn id_after(hash: u64, steps: nat) -> nat {
    (hash as nat + steps) % LOBBY_IDS as nat
}

/// `id` is the first one, from the one a hash gives, that has not been issued.
pub open spec fn first_unissued(issued: Set<u64>, hash: u64, id: u64) -> bool {
    &&& !issued.contains(id)
    &&& exists|steps: nat|
        {
            &&& id == #[trigger] id_after(hash, steps)
            &&& forall|k: nat| k < steps ==> issued.contains(#[trigger] id_after(hash, k) as u64)
        }
}

/// `id` is what is issued for a hash: the first id from there that has not been issued. When
/// every id has been, it is the one the hash gives.
pub open spec fn issues(issued: Set<u64>, hash: u64, id: u64) -> bool {
    if issued.len() < LOBBY_IDS {
        first_unissued(issued, hash, id)
    } else {
        id == id_of_hash(hash)
    }
}

} // verus!
