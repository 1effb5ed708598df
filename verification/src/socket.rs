//! The socket events: what each one changes, and what has to be sent because of it.
//!
//! A signal is relayed only to a socket in the sender's own lobby, never back to the sender,
//! and never above a size cap.

use crate::config::{copy_text, ClientPeerConfig};
use crate::listing::{PublicLobby, PublicLobbyInput, GAME_STATE_LOBBY};
use crate::lobby::{Client, Lobby, Membership};
use crate::registry::{BrowserEvent, BrowserEventView, Registry, LOBBY_IDS, MAX_SIGNAL_BYTES};
use crate::sid::{parse_sid, Sid};
use crate::state::AppState;
use crate::tables::{
    get_code, get_lobby, get_member, get_public, insert_code, insert_lobby, insert_member, insert_public,
    list_public, remove_code, remove_lobby, remove_member, remove_public,
};
use crate::text::same_text;
use crate::time::{now_millis, Span};
use vstd::prelude::*;

verus! {

/// What a socket is told about another one, or about its lobby.
#[derive(Clone, Copy, PartialEq, Eq, Structural, Debug)]
pub enum Message {
    /// A socket has left the lobby.
    Left { sid: Sid },
    /// The client id of the host, or -1 when nobody is.
    SetHost { host_id: i64 },
    /// A socket has joined the lobby.
    Join { sid: Sid, client: Client },
    /// A socket in the lobby goes by an identity.
    SetClient { sid: Sid, client: Client },
    /// A socket in the lobby has started or stopped speaking.
    Vad { activity: bool, client: Client, sid: Sid },
    /// A socket in the lobby has switched the impostor radio on or off.
    ImpostorRadio { on_radio: bool, client: Client, sid: Sid },
}

impl Message {
    /// The name of the event that carries it.
    pub open spec fn name(self) -> Seq<char> {
        match self {
            Message::Left { .. } => "left"@,
            Message::SetHost { .. } => "setHost"@,
            Message::Join { .. } => "join"@,
            Message::SetClient { .. } => "setClient"@,
            Message::Vad { .. } => "VAD"@,
            Message::ImpostorRadio { .. } => "impostorRadio"@,
        }
    }

    /// The name of the event that carries it.
    pub fn event_name(&self) -> (r: &'static str)
        ensures
            r@ == self.name(),
    {
        match self {
            Message::Left { .. } => "left",
            Message::SetHost { .. } => "setHost",
            Message::Join { .. } => "join",
            Message::SetClient { .. } => "setClient",
            Message::Vad { .. } => "VAD",
            Message::ImpostorRadio { .. } => "impostorRadio",
        }
    }
}

/// An event a socket sends.
#[derive(Clone, Copy, PartialEq, Eq, Structural, Debug)]
pub enum Event {
    Join,
    SetHost,
    Id,
    Leave,
    Vad,
    ImpostorRadio,
    JoinLobby,
    Lobby,
    RemoveLobby,
    Signal,
    LobbyBrowser,
}

/// The rate limits a socket has, one for each kind of event that is limited.
#[derive(Clone, Copy, PartialEq, Eq, Structural, Debug)]
pub enum Limit {
    Join,
    Lobby,
    Vad,
    Radio,
    Signal,
}

impl Event {
    /// The rate limit an event spends a token of, if any. A signal spends one whatever it
    /// holds; the other limited events spend one only when their payload is well formed.
    pub open spec fn spends(self, well_formed: bool) -> Option<Limit> {
        match self {
            Event::Signal => Some(Limit::Signal),
            Event::Join if well_formed => Some(Limit::Join),
            Event::Lobby if well_formed => Some(Limit::Lobby),
            Event::Vad if well_formed => Some(Limit::Vad),
            Event::ImpostorRadio if well_formed => Some(Limit::Radio),
            _ => None,
        }
    }

    /// The rate limit an event spends a token of, if any.
    pub fn limit(&self, well_formed: bool) -> (r: Option<Limit>)
        ensures
            r == self.spends(well_formed),
    {
        match self {
            Event::Signal => Some(Limit::Signal),
            Event::Join if well_formed => Some(Limit::Join),
            Event::Lobby if well_formed => Some(Limit::Lobby),
            Event::Vad if well_formed => Some(Limit::Vad),
            Event::ImpostorRadio if well_formed => Some(Limit::Radio),
            _ => None,
        }
    }
}

/// Something for everybody who watches the public list: an event, and its position on the
/// lobby stream.
#[derive(Debug)]
pub struct Announcement {
    pub position: u64,
    pub event: BrowserEvent,
}

/// Something to be sent because of an event, or done to its sender.
#[derive(Debug)]
pub enum Action {
    /// Send to another socket. If its buffer is full, that is counted.
    Deliver { to: Sid, message: Message },
    /// Send to the sender of the event.
    Reply { message: Message },
    /// Send the sender of the event the identities of those who are in its lobby already.
    SetClients { others: Vec<(Sid, Client)> },
    /// Send to everybody who watches the public list.
    Announce { announcement: Announcement },
    /// Disconnect the sender of the event.
    Disconnect,
}

/// The same message to each of a list of sockets.
pub open spec fn to_each(peers: Seq<Sid>, message: Message) -> Seq<Action> {
    peers.map_values(|to: Sid| Action::Deliver { to, message })
}

/// What is announced when a lobby is taken off the public list.
pub open spec fn unlisting(before: Registry, code: Seq<char>) -> Option<Announcement> {
    if before.public_lobbies.contains_key(code) {
        Some(
            Announcement {
                position: crate::registry::next_count(before.browser_seq),
                event: BrowserEvent::RemoveLobby(before.public_lobbies[code].id),
            },
        )
    } else {
        None
    }
}

/// What is sent when a socket leaves a lobby, to its peers there in some order: that it has
/// left, then that there is no host when it was it, then that the lobby is no longer public
/// when nobody is left in it.
pub open spec fn departure(before: Registry, sid: Sid, code: Seq<char>, peers: Seq<Sid>) -> Seq<Action> {
    let exists = before.lobbies.contains_key(code);
    let left = to_each(peers, Message::Left { sid });
    let released = if exists && before.lobbies[code].hosted_by(sid) {
        to_each(peers, Message::SetHost { host_id: -1i64 })
    } else {
        Seq::empty()
    };
    let unlisted = if exists && before.lobbies[code].without(sid).members.is_empty() && unlisting(before, code) is Some {
        seq![Action::Announce { announcement: unlisting(before, code)->0 }]
    } else {
        Seq::empty()
    };
    left + released + unlisted
}

/// `actions` are what is sent when a socket leaves a lobby.
pub open spec fn departs(before: Registry, sid: Sid, code: Seq<char>, actions: Seq<Action>) -> bool {
    exists|peers: Seq<Sid>|
        {
            &&& #[trigger] crate::lobby::enumerates(peers, before.peers_in(code, sid))
            &&& actions == departure(before, sid, code, peers)
        }
}

/// What the peers of a socket that has joined are sent: for each of them that it has joined,
/// and who the host is.
pub open spec fn arrival(peers: Seq<Sid>, sid: Sid, client: Client, host_id: i64) -> Seq<Action> {
    Seq::new(
        2 * peers.len(),
        |i: int|
            Action::Deliver {
                to: peers[i / 2],
                message: if i % 2 == 0 {
                    Message::Join { sid, client }
                } else {
                    Message::SetHost { host_id }
                },
            },
    )
}

/// What is sent when a socket joins a lobby: first what is sent when it leaves the one it was
/// in, then what its new peers are sent, and last, to itself, who the host is and who is
/// there already.
pub open spec fn joins(
    before: Registry,
    sid: Sid,
    code: Seq<char>,
    client: Client,
    claims_host: bool,
    actions: Seq<Action>,
) -> bool {
    let base = before.before_joining(sid, code);
    let host_id = before.joined(sid, code, client, claims_host).lobbies[code].host_id_or_unset();
    exists|gone: Seq<Action>, peers: Seq<Sid>, others: Vec<(Sid, Client)>|
        {
            &&& if before.moves(sid, code) {
                departs(before, sid, before.lobby_of(sid)->0, gone)
            } else {
                gone.len() == 0
            }
            &&& #[trigger] crate::lobby::enumerates(peers, base.peers_in(code, sid))
            &&& #[trigger] base.lobby_or_vacant(code).lists_clients(others@, sid)
            &&& actions == #[trigger] (gone + arrival(peers, sid, client, host_id)) + seq![
                Action::Reply { message: Message::SetHost { host_id } },
                Action::SetClients { others },
            ]
        }
}

/// `actions` send a message to every socket in a lobby but one.
pub open spec fn relays(
    before: Registry,
    code: Seq<char>,
    except: Sid,
    message: Message,
    actions: Seq<Action>,
) -> bool {
    exists|peers: Seq<Sid>|
        {
            &&& #[trigger] crate::lobby::enumerates(peers, before.peers_in(code, except))
            &&& actions == to_each(peers, message)
        }
}

/// Adds the same message to each of a list of sockets.
fn push_to_each(actions: &mut Vec<Action>, peers: &Vec<Sid>, message: Message)
    ensures
        final(actions)@ == old(actions)@ + to_each(peers@, message),
{
    assert(actions@ == old(actions)@ + to_each(peers@.take(0), message));
    for i in 0..peers.len()
        invariant
            actions@ == old(actions)@ + to_each(peers@.take(i as int), message),
    {
        actions.push(Action::Deliver { to: peers[i], message });
        assert(actions@ == old(actions)@ + to_each(peers@.take(i + 1), message));
    }
    assert(peers@.take(peers@.len() as int) == peers@);
}

/// Adds what the peers of a socket that has joined are sent.
fn push_arrival(actions: &mut Vec<Action>, peers: &Vec<Sid>, sid: Sid, client: Client, host_id: i64)
    ensures
        final(actions)@ == old(actions)@ + arrival(peers@, sid, client, host_id),
{
    assert(actions@ =~= old(actions)@ + arrival(peers@.take(0), sid, client, host_id));
    for i in 0..peers.len()
        invariant
            actions@ == old(actions)@ + arrival(peers@.take(i as int), sid, client, host_id),
    {
        actions.push(Action::Deliver { to: peers[i], message: Message::Join { sid, client } });
        actions.push(Action::Deliver { to: peers[i], message: Message::SetHost { host_id } });
        assert(actions@ =~= old(actions)@ + arrival(peers@.take(i + 1), sid, client, host_id));
    }
    assert(peers@.take(peers@.len() as int) == peers@);
}

/// What a client sends when it joins a lobby.
#[derive(Debug)]
pub struct JoinIn {
    pub code: String,
    pub player_id: i64,
    pub client_id: i64,
    pub is_host: Option<bool>,
}

impl JoinIn {
    /// The identity the sender goes by.
    pub open spec fn client(self) -> Client {
        Client { player_id: self.player_id, client_id: self.client_id }
    }

    /// Whether the sender claims to host the lobby.
    pub open spec fn claims_host(self) -> bool {
        self.is_host == Some(true)
    }
}

/// A signal as it arrives: an arbitrary document, kept as the bytes that were received, and
/// the socket it is for.
#[derive(Debug)]
pub struct SignalIn {
    pub data: String,
    pub to: String,
}

/// The answer to somebody who asks to join a public lobby.
#[derive(Debug)]
pub enum JoinReply {
    Joinable { code: String, server: String, lobby: PublicLobby },
    /// The lobby is known, but it is not public or not waiting.
    NotPublic,
    NotFound,
}

impl JoinReply {
    /// What is said to somebody who cannot join.
    pub fn refusal(&self) -> (r: Option<&'static str>)
        ensures
            match self {
                JoinReply::Joinable { .. } => r is None,
                JoinReply::NotPublic => r is Some && r->0@ == "Lobby is not public anymore"@,
                JoinReply::NotFound => r is Some && r->0@ == "Lobby not found :C"@,
            },
    {
        match self {
            JoinReply::Joinable { .. } => None,
            JoinReply::NotPublic => Some("Lobby is not public anymore"),
            JoinReply::NotFound => Some("Lobby not found :C"),
        }
    }
}

/// What becomes of a signal.
#[derive(Debug)]
pub enum SignalVerdict {
    /// It is dropped: the sender is over its rate limit.
    OverLimit,
    /// It is not a signal at all. The sender is disconnected.
    Malformed,
    /// The sender may not signal that target.
    Refused,
    /// It is above the size cap.
    Oversize,
    /// It is delivered.
    Relay { to: Sid, from: Sid, data: String },
}

/// Whether a signal's document is within the size cap, in the bytes that were received.
pub open spec fn fits(data: Seq<char>) -> bool {
    vstd::utf8::encode_utf8(data).len() <= MAX_SIGNAL_BYTES
}

/// What `lobby` does at a time: the state before and after it, and what is announced.
pub open spec fn lobby_handled(
    before: Registry,
    after: Registry,
    sid: Sid,
    payload: Option<(String, PublicLobbyInput)>,
    token: bool,
    now: i64,
    r: Option<Announcement>,
) -> bool {
    match payload {
        None => after == before && r is None,
        Some((code, input)) => if before.over_limit(sid, token) {
            after == before.rate_limited() && r is None
        } else if before.lobby_of(sid) != Some(code@) {
            after == before && r is None
        } else if !input.asks_public() {
            after == before.unlisted(code@) && r == unlisting(before, code@)
        } else if before.public_lobbies.contains_key(code@) {
            lists(before, after, code@, input, before.public_lobbies[code@].id, now, r)
        } else {
            exists|hash: u64, id: u64|
                {
                    &&& #[trigger] crate::registry::issues(before.issued, hash, id)
                    &&& id < LOBBY_IDS
                    &&& lists(before.id_taken(id), after, code@, input, id, now, r)
                }
        },
    }
}

/// A lobby is put on the public list, and that is announced.
pub open spec fn lists(
    before: Registry,
    after: Registry,
    code: Seq<char>,
    input: PublicLobbyInput,
    id: u64,
    now: i64,
    r: Option<Announcement>,
) -> bool {
    &&& after == before.listed(code, input, id, now)
    &&& r is Some
    &&& r->0.position == after.browser_seq
    &&& r->0.event@ == BrowserEventView::UpdateLobby(before.listing_card(code, input, id, now))
}

impl AppState {
    /// Takes a lobby off the public list, if it is on it.
    pub(crate) fn remove_public_lobby(&mut self, code: &str) -> (r: Option<Announcement>)
        ensures
            final(self)@ == old(self)@.unlisted(code@),
            r == unlisting(old(self)@, code@),
    {
        match remove_public(&mut self.public_lobbies, code) {
            Some(card) => {
                remove_code(&mut self.lobby_codes, card.id);
                let position = self.publish(BrowserEvent::RemoveLobby(card.id));
                assert(self@ =~= old(self)@.unlisted(code@));
                Some(Announcement { position, event: BrowserEvent::RemoveLobby(card.id) })
            },
            None => {
                assert(self@.public_lobbies =~= old(self)@.public_lobbies);
                assert(self@ =~= old(self)@);
                None
            },
        }
    }

    /// Removes a socket from a lobby and tells the others.
    pub(crate) fn leave_room(&mut self, sid: Sid, code: &str) -> (r: Vec<Action>)
        ensures
            final(self)@ == old(self)@.left(sid, code@),
            departs(old(self)@, sid, code@, r@),
    {
        let mut actions: Vec<Action> = Vec::new();
        match remove_lobby(&mut self.lobbies, code) {
            Some(mut lobby) => {
                let released = lobby.leave(sid);
                let peers = lobby.peers(sid);
                assert(crate::lobby::enumerates(peers@, old(self)@.peers_in(code@, sid))) by {
                    assert(lobby@.peers(sid) =~= old(self)@.peers_in(code@, sid));
                }
                push_to_each(&mut actions, &peers, Message::Left { sid });
                if released {
                    push_to_each(&mut actions, &peers, Message::SetHost { host_id: -1 });
                }
                if lobby.members.is_empty() {
                    if let Some(announcement) = self.remove_public_lobby(code) {
                        actions.push(Action::Announce { announcement });
                    }
                } else {
                    insert_lobby(&mut self.lobbies, code.to_owned(), lobby);
                    assert(self@.lobbies =~= old(self)@.left(sid, code@).lobbies);
                }
                assert(self@ =~= old(self)@.left(sid, code@));
                assert(actions@ =~= departure(old(self)@, sid, code@, peers@));
            },
            None => {
                assert(self@.lobbies =~= old(self)@.lobbies);
                assert(self@ =~= old(self)@);
                let ghost nobody = Seq::<Sid>::empty();
                assert(nobody.to_set() =~= Set::<Sid>::empty());
                assert(crate::lobby::enumerates(nobody, old(self)@.peers_in(code@, sid)));
                assert(actions@ =~= departure(old(self)@, sid, code@, nobody));
            },
        }
        actions
    }

    /// Counts an event that could not be queued for one socket.
    pub fn count_dropped(&mut self)
        ensures
            final(self)@ == old(self)@.delivery_dropped(),
    {
        self.counters.dropped_full_buffer = self.counters.dropped_full_buffer.wrapping_add(1);
        assert(self@ =~= old(self)@.delivery_dropped());
    }

    /// Counts a malformed command.
    fn refuse_malformed(&mut self)
        ensures
            final(self)@ == old(self)@.malformed(),
    {
        self.counters.refused_malformed = self.counters.refused_malformed.wrapping_add(1);
        assert(self@ =~= old(self)@.malformed());
    }

    /// Whether an event of a socket is to be handled. `token` says whether the sender's bucket
    /// for it had a token left. Over the limit the event is dropped, and that is counted. A
    /// socket that has not been admitted is let through: every handler checks that for itself.
    pub fn within_limit(&mut self, sid: Sid, token: bool) -> (allowed: bool)
        ensures
            allowed == !old(self)@.over_limit(sid, token),
            final(self)@ == if allowed {
                old(self)@
            } else {
                old(self)@.rate_limited()
            },
    {
        let allowed = match get_member(&self.members, sid) {
            Some(_) => token,
            None => true,
        };
        if !allowed {
            self.counters.refused_rate_limited = self.counters.refused_rate_limited.wrapping_add(1);
            assert(self@ =~= old(self)@.rate_limited());
        }
        allowed
    }

    /// Admits a socket.
    pub fn on_admission(&mut self, sid: Sid)
        ensures
            final(self)@ == old(self)@.admitted(sid),
    {
        self.connections = self.connections.wrapping_add(1);
        insert_member(&mut self.members, sid, Membership::default());
        assert(self@ =~= old(self)@.admitted(sid));
    }

    /// Lets a socket into a lobby under an identity. Whatever it was in before, it is not in
    /// it any more.
    fn enter(&mut self, sid: Sid, code: &str, client: Client, claims_host: bool) -> (r: Vec<Action>)
        ensures
            final(self)@ == old(self)@.joined(sid, code@, client, claims_host),
            joins(old(self)@, sid, code@, client, claims_host, r@),
    {
        let mut actions: Vec<Action> = Vec::new();
        if let Some(previous) = self.lobby_code_of(sid) {
            if !same_text(previous.as_str(), code) {
                actions = self.leave_room(sid, previous.as_str());
            }
        }
        let ghost base = self@;
        let ghost gone = actions@;
        assert(base == old(self)@.before_joining(sid, code@));
        let mut lobby = match remove_lobby(&mut self.lobbies, code) {
            Some(lobby) => lobby,
            None => Lobby::default(),
        };
        assert(lobby@ == base.lobby_or_vacant(code@));
        let others = lobby.clients(sid);
        let peers = lobby.peers(sid);
        assert(crate::lobby::enumerates(peers@, base.peers_in(code@, sid))) by {
            assert(lobby@.peers(sid) =~= base.peers_in(code@, sid));
        }
        lobby.join(sid, client, claims_host);
        let host_id = lobby.host_id_or_unset();
        insert_lobby(&mut self.lobbies, code.to_owned(), lobby);
        if let Some(mut membership) = get_member(&self.members, sid) {
            membership.code = Some(code.to_owned());
            membership.client = Some(client);
            insert_member(&mut self.members, sid, membership);
        }
        assert(self@ =~= old(self)@.joined(sid, code@, client, claims_host));
        push_arrival(&mut actions, &peers, sid, client, host_id);
        actions.push(Action::Reply { message: Message::SetHost { host_id } });
        actions.push(Action::SetClients { others });
        assert(actions@ =~= (gone + arrival(peers@, sid, client, host_id)) + seq![
            Action::Reply { message: Message::SetHost { host_id } },
            Action::SetClients { others },
        ]);
        assert(base.lobby_or_vacant(code@).lists_clients(others@, sid));
        actions
    }

    /// Handles `join`: lets the sender into a lobby. The first to claim to host it holds that
    /// until they leave.
    pub fn on_join(&mut self, sid: Sid, payload: Option<JoinIn>, token: bool) -> (r: Vec<Action>)
        ensures
            match payload {
                None => {
                    &&& final(self)@ == old(self)@.malformed()
                    &&& r@ == seq![Action::Disconnect]
                },
                Some(join) => if old(self)@.over_limit(sid, token) {
                    &&& final(self)@ == old(self)@.rate_limited()
                    &&& r@.len() == 0
                } else {
                    &&& final(self)@ == old(self)@.joined(sid, join.code@, join.client(), join.claims_host())
                    &&& joins(old(self)@, sid, join.code@, join.client(), join.claims_host(), r@)
                },
            },
    {
        match payload {
            Some(join) => {
                if !self.within_limit(sid, token) {
                    return Vec::new();
                }
                let client = Client { player_id: join.player_id, client_id: join.client_id };
                let claims_host = match join.is_host {
                    Some(claims) => claims,
                    None => false,
                };
                self.enter(sid, join.code.as_str(), client, claims_host)
            },
            None => {
                self.refuse_malformed();
                let mut actions: Vec<Action> = Vec::new();
                actions.push(Action::Disconnect);
                assert(actions@ =~= seq![Action::Disconnect]);
                actions
            },
        }
    }

    /// Sends the same message to every socket in a lobby but one.
    fn relay(&self, code: &str, except: Sid, message: Message) -> (r: Vec<Action>)
        ensures
            relays(self@, code@, except, message, r@),
    {
        let peers = self.peers_in(code, except);
        let mut actions: Vec<Action> = Vec::new();
        push_to_each(&mut actions, &peers, message);
        assert(actions@ =~= to_each(peers@, message));
        actions
    }

    /// Whether a socket is in the lobby with a code.
    pub fn is_in(&self, sid: Sid, code: &str) -> (r: bool)
        ensures
            r == (self@.lobby_of(sid) == Some(code@)),
    {
        match self.lobby_code_of(sid) {
            Some(current) => same_text(current.as_str(), code),
            None => false,
        }
    }

    /// Whether a socket may name the host of a lobby.
    pub fn accepts_host(&self, sid: Sid, code: &str) -> (r: bool)
        ensures
            r == self@.accepts_host(sid, code@),
    {
        if !self.is_in(sid, code) {
            return false;
        }
        match get_lobby(&self.lobbies, code) {
            Some(lobby) => match lobby.host_sid {
                Some(holder) => holder == sid,
                None => true,
            },
            None => false,
        }
    }

    /// Handles `setHost`: lets the sender name the host of the lobby it is in, unless another
    /// socket holds the claim.
    pub fn on_set_host(&mut self, sid: Sid, payload: Option<(String, i64)>) -> (r: Vec<Action>)
        ensures
            match payload {
                None => final(self)@ == old(self)@ && r@.len() == 0,
                Some((code, client_id)) => {
                    &&& final(self)@ == old(self)@.host_set(sid, code@, client_id)
                    &&& if old(self)@.accepts_host(sid, code@) {
                        relays(old(self)@, code@, sid, Message::SetHost { host_id: client_id }, r@)
                    } else {
                        r@.len() == 0
                    }
                },
            },
    {
        if let Some((code, client_id)) = payload {
            if !self.accepts_host(sid, code.as_str()) {
                return Vec::new();
            }
            if let Some(mut lobby) = get_lobby(&self.lobbies, code.as_str()) {
                if lobby.set_host(sid, client_id) {
                    insert_lobby(&mut self.lobbies, code.clone(), lobby);
                    assert(self@ =~= old(self)@.host_set(sid, code@, client_id));
                    assert(self@.peers_in(code@, sid) =~= old(self)@.peers_in(code@, sid));
                    return self.relay(code.as_str(), sid, Message::SetHost { host_id: client_id });
                }
            }
        }
        Vec::new()
    }

    /// Whether an identity contradicts the one a socket has claimed before. It is worth a line
    /// in the log, no more: a client may change its identity between games.
    pub fn contradicts(&self, sid: Sid, client: Client) -> (r: bool)
        ensures
            r == self@.contradicts(sid, client),
    {
        match get_member(&self.members, sid) {
            Some(membership) => match membership.client {
                Some(previous) => previous.client_id != client.client_id,
                None => false,
            },
            None => false,
        }
    }

    /// Handles `id`: records the identity the sender claims, and tells its lobby.
    pub fn on_id(&mut self, sid: Sid, payload: Option<Client>) -> (r: Vec<Action>)
        ensures
            match payload {
                None => {
                    &&& final(self)@ == old(self)@.malformed()
                    &&& r@ == seq![Action::Disconnect]
                },
                Some(client) => {
                    &&& final(self)@ == old(self)@.identified(sid, client)
                    &&& match old(self)@.lobby_of(sid) {
                        Some(code) => relays(old(self)@, code, sid, Message::SetClient { sid, client }, r@),
                        None => r@.len() == 0,
                    }
                },
            },
    {
        let client = match payload {
            Some(client) => client,
            None => {
                self.refuse_malformed();
                let mut actions: Vec<Action> = Vec::new();
                actions.push(Action::Disconnect);
                assert(actions@ =~= seq![Action::Disconnect]);
                return actions;
            },
        };
        let mut membership = match get_member(&self.members, sid) {
            Some(membership) => membership,
            None => return Vec::new(),
        };
        let code = copy_text(&membership.code);
        membership.client = Some(client);
        insert_member(&mut self.members, sid, membership);
        match code {
            Some(code) => {
                if let Some(mut lobby) = get_lobby(&self.lobbies, code.as_str()) {
                    lobby.identify(sid, client);
                    insert_lobby(&mut self.lobbies, code.clone(), lobby);
                }
                assert(self@ =~= old(self)@.identified(sid, client));
                assert(self@.peers_in(code@, sid) =~= old(self)@.peers_in(code@, sid));
                self.relay(code.as_str(), sid, Message::SetClient { sid, client })
            },
            None => {
                assert(self@ =~= old(self)@.identified(sid, client));
                Vec::new()
            },
        }
    }

    /// Handles `leave`: takes the sender out of the lobby it is in. It is in none then, so the
    /// disconnect that follows announces nothing a second time.
    pub fn on_leave(&mut self, sid: Sid) -> (r: Vec<Action>)
        ensures
            final(self)@ == old(self)@.quit(sid),
            match old(self)@.lobby_of(sid) {
                Some(code) => departs(old(self)@, sid, code, r@),
                None => r@.len() == 0,
            },
    {
        if let Some(mut membership) = get_member(&self.members, sid) {
            if let Some(code) = membership.code {
                membership.code = None;
                insert_member(&mut self.members, sid, membership);
                let actions = self.leave_room(sid, code.as_str());
                proof {
                    lemma_departs_alike(
                        Registry {
                            members: old(self)@.members.insert(sid, membership@),
                            ..old(self)@
                        },
                        old(self)@,
                        sid,
                        code@,
                        actions@,
                    );
                }
                return actions;
            }
        }
        Vec::new()
    }

    /// Handles `VAD`: tells the sender's lobby whether it is speaking.
    pub fn on_vad(&mut self, sid: Sid, payload: Option<bool>, token: bool) -> (r: Vec<Action>)
        ensures
            match payload {
                None => final(self)@ == old(self)@ && r@.len() == 0,
                Some(activity) => if old(self)@.over_limit(sid, token) {
                    final(self)@ == old(self)@.rate_limited() && r@.len() == 0
                } else {
                    &&& final(self)@ == old(self)@
                    &&& match old(self)@.speaker(sid) {
                        Some((code, client)) => relays(
                            old(self)@,
                            code,
                            sid,
                            Message::Vad { activity, client, sid },
                            r@,
                        ),
                        None => r@.len() == 0,
                    }
                },
            },
    {
        if let Some(activity) = payload {
            if self.within_limit(sid, token) {
                if let Some((code, client)) = self.speaker(sid) {
                    return self.relay(code.as_str(), sid, Message::Vad { activity, client, sid });
                }
            }
        }
        Vec::new()
    }

    /// Handles `impostorRadio`: tells the sender's lobby whether it has its radio on. Who may
    /// claim that is a fact about the game, and both ends check it; it is not decided here.
    pub fn on_impostor_radio(&mut self, sid: Sid, payload: Option<bool>, token: bool) -> (r: Vec<Action>)
        ensures
            match payload {
                None => final(self)@ == old(self)@ && r@.len() == 0,
                Some(on_radio) => if old(self)@.over_limit(sid, token) {
                    final(self)@ == old(self)@.rate_limited() && r@.len() == 0
                } else {
                    &&& final(self)@ == old(self)@
                    &&& match old(self)@.speaker(sid) {
                        Some((code, client)) => relays(
                            old(self)@,
                            code,
                            sid,
                            Message::ImpostorRadio { on_radio, client, sid },
                            r@,
                        ),
                        None => r@.len() == 0,
                    }
                },
            },
    {
        if let Some(on_radio) = payload {
            if self.within_limit(sid, token) {
                if let Some((code, client)) = self.speaker(sid) {
                    return self.relay(code.as_str(), sid, Message::ImpostorRadio { on_radio, client, sid });
                }
            }
        }
        Vec::new()
    }

    /// The lobby a socket is in and the identity it goes by, when both are known.
    fn speaker(&self, sid: Sid) -> (r: Option<(String, Client)>)
        ensures
            match (r, self@.speaker(sid)) {
                (Some((code, client)), Some((expected, identity))) => code@ == expected && client == identity,
                (None, None) => true,
                _ => false,
            },
    {
        match get_member(&self.members, sid) {
            Some(membership) => match (membership.code, membership.client) {
                (Some(code), Some(client)) => Some((code, client)),
                _ => None,
            },
            None => None,
        }
    }

    /// Handles `join_lobby`: tells how to join a public lobby, by its id.
    pub fn on_join_lobby(&self, id: Option<u64>) -> (r: JoinReply)
        ensures
            match (r, self@.asked_for(id)) {
                (JoinReply::Joinable { code, server, lobby }, Some((expected, card))) => {
                    &&& card.joinable()
                    &&& code@ == expected
                    &&& server@ == card.server
                    &&& lobby@ == card
                },
                (JoinReply::NotPublic, Some((_, card))) => !card.joinable(),
                (JoinReply::NotFound, None) => true,
                _ => false,
            },
    {
        let id = match id {
            Some(id) => id,
            None => return JoinReply::NotFound,
        };
        let code = match get_code(&self.lobby_codes, id) {
            Some(code) => code,
            None => return JoinReply::NotFound,
        };
        match get_public(&self.public_lobbies, code.as_str()) {
            Some(lobby) => {
                if lobby.is_public && lobby.game_state == GAME_STATE_LOBBY {
                    let server = lobby.server.clone();
                    JoinReply::Joinable { code, server, lobby }
                } else {
                    JoinReply::NotPublic
                }
            },
            None => JoinReply::NotFound,
        }
    }

    /// Puts a lobby on the public list, or replaces its card there. A lobby keeps the id it has
    /// on the list; `id` is for one that is not on it yet. The time on the card moves only when
    /// the lobby crosses into or out of the waiting state.
    pub fn list_lobby(&mut self, code: String, input: &PublicLobbyInput, id: u64, now: i64) -> (r: Announcement)
        ensures
            final(self)@ == old(self)@.listed(code@, *input, id, now),
            r.position == final(self)@.browser_seq,
            r.event@ == BrowserEventView::UpdateLobby(old(self)@.listing_card(code@, *input, id, now)),
    {
        let waiting = input.incoming_state() == GAME_STATE_LOBBY;
        let (id, state_time) = match get_public(&self.public_lobbies, code.as_str()) {
            Some(previous) => (
                previous.id,
                if (previous.game_state == GAME_STATE_LOBBY) == waiting {
                    previous.state_time
                } else {
                    now
                },
            ),
            None => (id, now),
        };
        let card = input.sanitise(id, state_time);
        insert_code(&mut self.lobby_codes, id, code.clone());
        self.once_listed.insert(id, ());
        insert_public(&mut self.public_lobbies, code, card.clone());
        let event = BrowserEvent::UpdateLobby(card);
        let position = self.publish(event.clone());
        Announcement { position, event }
    }

    /// Handles `lobby` at a time, in milliseconds since the Unix epoch: publishes the sender's
    /// lobby, or takes it off the public list when the sender does not ask for it to be public.
    pub fn on_lobby_at(
        &mut self,
        sid: Sid,
        payload: Option<(String, PublicLobbyInput)>,
        token: bool,
        now: i64,
    ) -> (r: Option<Announcement>)
        ensures
            lobby_handled(old(self)@, final(self)@, sid, payload, token, now, r),
    {
        let (code, input) = match payload {
            Some(payload) => payload,
            None => return None,
        };
        if !self.within_limit(sid, token) {
            return None;
        }
        if !self.is_in(sid, code.as_str()) {
            return None;
        }
        if !input.is_public() {
            return self.remove_public_lobby(code.as_str());
        }
        let id: u64 = match get_public(&self.public_lobbies, code.as_str()) {
            Some(previous) => previous.id,
            None => self.next_lobby_id(),
        };
        Some(self.list_lobby(code, &input, id, now))
    }

    /// Handles `lobby`, now.
    pub fn on_lobby(&mut self, sid: Sid, payload: Option<(String, PublicLobbyInput)>, token: bool) -> (r: Option<
        Announcement,
    >)
        ensures
            exists|now: i64| #[trigger] lobby_handled(old(self)@, final(self)@, sid, payload, token, now, r),
    {
        self.on_lobby_at(sid, payload, token, now_millis())
    }

    /// Handles `remove_lobby`: takes the sender's lobby off the public list.
    pub fn on_remove_lobby(&mut self, sid: Sid, payload: Option<String>) -> (r: Option<Announcement>)
        ensures
            if payload is Some && old(self)@.lobby_of(sid) == Some(payload->0@) {
                &&& final(self)@ == old(self)@.unlisted(payload->0@)
                &&& r == unlisting(old(self)@, payload->0@)
            } else {
                final(self)@ == old(self)@ && r is None
            },
    {
        if let Some(code) = payload {
            if self.is_in(sid, code.as_str()) {
                return self.remove_public_lobby(code.as_str());
            }
        }
        None
    }

    /// Handles `signal`: relays it to a socket in the sender's own lobby, never back to the
    /// sender, and never above the size cap.
    pub fn on_signal(&mut self, sid: Sid, payload: Option<SignalIn>, token: bool) -> (r: SignalVerdict)
        ensures
            if old(self)@.over_limit(sid, token) {
                r is OverLimit && final(self)@ == old(self)@.rate_limited()
            } else {
                match payload {
                    None => r is Malformed && final(self)@ == old(self)@.malformed(),
                    Some(signal) => if !old(self)@.may_signal(sid, signal.to@) {
                        r is Refused && final(self)@ == old(self)@.signal_refused()
                    } else if !fits(signal.data@) {
                        r is Oversize && final(self)@ == old(self)@.oversize_refused()
                    } else {
                        &&& r matches SignalVerdict::Relay { to, from, data }
                        &&& to == crate::sid::sid_value(signal.to@)
                        &&& from == sid
                        &&& data@ == signal.data@
                        &&& final(self)@ == old(self)@
                    },
                }
            },
    {
        if !self.within_limit(sid, token) {
            return SignalVerdict::OverLimit;
        }
        let signal = match payload {
            Some(signal) => signal,
            None => {
                self.refuse_malformed();
                return SignalVerdict::Malformed;
            },
        };
        match parse_sid(signal.to.as_str()) {
            Some(target) if target != sid && self.are_co_members(sid, target) => {
                if signal.data.as_str().as_bytes().len() > MAX_SIGNAL_BYTES {
                    self.counters.refused_oversize = self.counters.refused_oversize.wrapping_add(1);
                    assert(self@ =~= old(self)@.oversize_refused());
                    return SignalVerdict::Oversize;
                }
                SignalVerdict::Relay { to: target, from: sid, data: signal.data }
            },
            _ => {
                self.counters.refused_signals = self.counters.refused_signals.wrapping_add(1);
                assert(self@ =~= old(self)@.signal_refused());
                SignalVerdict::Refused
            },
        }
    }

    /// Handles `lobbybrowser`: the sender starts or stops watching the public list. One that
    /// starts is sent the list as it is.
    pub fn on_lobby_browser(&mut self, sid: Sid, payload: Option<bool>) -> (r: Option<Vec<PublicLobby>>)
        ensures
            final(self)@ == old(self)@.watching(sid, payload == Some(true)),
            match r {
                Some(cards) => payload == Some(true) && crate::tables::lists_cards(
                    cards@,
                    old(self)@.public_lobbies,
                ),
                None => payload != Some(true),
            },
    {
        let open = match payload {
            Some(open) => open,
            None => false,
        };
        if let Some(mut membership) = get_member(&self.members, sid) {
            membership.watching_lobbies = open;
            insert_member(&mut self.members, sid, membership);
        }
        assert(self@ =~= old(self)@.watching(sid, open));
        if open {
            Some(list_public(&self.public_lobbies))
        } else {
            None
        }
    }

    /// Handles a disconnect: takes the socket out of the lobby it is in, and forgets it.
    pub fn on_disconnect(&mut self, sid: Sid) -> (r: Vec<Action>)
        ensures
            final(self)@ == old(self)@.disconnected(sid),
            match old(self)@.lobby_of(sid) {
                Some(code) => departs(old(self)@, sid, code, r@),
                None => r@.len() == 0,
            },
    {
        let mut actions: Vec<Action> = Vec::new();
        let ghost gone = Registry { members: old(self)@.members.remove(sid), ..old(self)@ };
        if let Some(membership) = remove_member(&mut self.members, sid) {
            assert(self@ =~= gone);
            if let Some(code) = membership.code {
                actions = self.leave_room(sid, code.as_str());
                proof {
                    lemma_departs_alike(gone, old(self)@, sid, code@, actions@);
                }
            }
        }
        self.connections = self.connections.wrapping_sub(1);
        assert(self@ =~= old(self)@.disconnected(sid));
        actions
    }

    /// What a socket is sent once it is connected: how to reach its peers. `client` is its id
    /// as a text.
    pub fn on_connect(&self, client: &str) -> (r: ClientPeerConfig)
        ensures
            exists|now: Span| r@ == #[trigger] self@.peer_config.issued_at(now, client@),
            self@.peer_config.ephemeral is None ==> r@ == self@.peer_config.base,
    {
        self.peer_config.issue(client)
    }
}

/// What is sent when a socket leaves does not depend on the memberships.
proof fn lemma_departs_alike(a: Registry, b: Registry, sid: Sid, code: Seq<char>, actions: Seq<Action>)
    requires
        a.lobbies == b.lobbies,
        a.public_lobbies == b.public_lobbies,
        a.browser_seq == b.browser_seq,
        departs(a, sid, code, actions),
    ensures
        departs(b, sid, code, actions),
{
    let peers = choose|peers: Seq<Sid>|
        {
            &&& #[trigger] crate::lobby::enumerates(peers, a.peers_in(code, sid))
            &&& actions == departure(a, sid, code, peers)
        };
    assert(crate::lobby::enumerates(peers, b.peers_in(code, sid)));
    assert(departure(a, sid, code, peers) == departure(b, sid, code, peers));
}

} // verus!
