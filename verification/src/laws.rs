//! What always holds of the server, whatever its sockets do.

use crate::config::PeerConfigProviderView;
use crate::listing::{PublicLobbyInput, GAME_STATE_LOBBY};
use crate::lobby::{Client, LobbyView};
use crate::registry::{BrowserEventView, Registry, BROWSER_LOG_LEN, LOBBY_IDS, MAX_STREAM_SUBSCRIBERS};
use crate::sid::Sid;
use crate::socket::{Action, Announcement, Message};
use vstd::prelude::*;

verus! {

impl LobbyView {
    /// A lobby that exists: somebody is in it, and if there is a host, it is one of them.
    pub open spec fn well_formed(self) -> bool {
        &&& exists|sid: Sid| self.members.contains_key(sid)
        &&& self.host_id is Some <==> self.host_sid is Some
        &&& self.host_sid is Some ==> self.members.contains_key(self.host_sid->0)
    }
}

impl Registry {
    /// The lobbies and the memberships agree on who is where, and under which identity.
    pub open spec fn rooms_agree(self) -> bool {
        &&& forall|sid: Sid|
            (#[trigger] self.lobby_of(sid)) is Some ==> {
                &&& self.lobbies.contains_key(self.lobby_of(sid)->0)
                &&& self.lobbies[self.lobby_of(sid)->0].members.contains_key(sid)
                &&& self.lobbies[self.lobby_of(sid)->0].members[sid].client == self.members[sid].client
                &&& self.members[sid].client is Some
            }
        &&& forall|code: Seq<char>, sid: Sid|
            self.lobbies.contains_key(code) && #[trigger] self.lobbies[code].members.contains_key(sid)
                ==> self.lobby_of(sid) == Some(code)
        &&& forall|code: Seq<char>| #[trigger] self.lobbies.contains_key(code) ==> self.lobbies[code].well_formed()
    }

    /// The public list holds only lobbies that exist and ask to be public, each under an id of
    /// its own that has been issued, by which its code is found.
    pub open spec fn listing_agrees(self) -> bool {
        &&& forall|code: Seq<char>| #[trigger]
            self.public_lobbies.contains_key(code) ==> {
                &&& self.lobbies.contains_key(code)
                &&& self.public_lobbies[code].is_public
                &&& self.issued.contains(self.public_lobbies[code].id)
                &&& self.lobby_codes.contains_key(self.public_lobbies[code].id)
                &&& self.lobby_codes[self.public_lobbies[code].id] == code
            }
        &&& forall|id: u64| #[trigger]
            self.lobby_codes.contains_key(id) ==> {
                &&& self.public_lobbies.contains_key(self.lobby_codes[id])
                &&& self.public_lobbies[self.lobby_codes[id]].id == id
                &&& self.once_listed.contains(id)
            }
        &&& forall|id: u64| #[trigger] self.issued.contains(id) ==> id < LOBBY_IDS
    }

    /// The events kept are the last ones, as many as there is room for, with no gap.
    pub open spec fn log_agrees(self) -> bool {
        &&& self.browser_log.len() == if self.browser_seq < BROWSER_LOG_LEN {
            self.browser_seq as nat
        } else {
            BROWSER_LOG_LEN as nat
        }
        &&& forall|i: int|
            0 <= i < self.browser_log.len() ==> (#[trigger] self.browser_log[i]).0 == self.browser_seq
                - self.browser_log.len() + 1 + i
    }

    /// As many sockets are counted as have been admitted and have not disconnected, and no
    /// more subscribers are served than the cap allows.
    pub open spec fn counts_agree(self) -> bool {
        &&& self.members.dom().finite()
        &&& self.connections == self.members.len()
        &&& self.stream_subscribers <= MAX_STREAM_SUBSCRIBERS
    }

    /// What always holds of the server.
    pub open spec fn inv(self) -> bool {
        &&& self.rooms_agree()
        &&& self.listing_agrees()
        &&& self.log_agrees()
        &&& self.counts_agree()
    }
}

/// A server that has just started is consistent.
pub proof fn a_started_server_is_consistent(
    peer_config: PeerConfigProviderView,
    name: Option<Seq<char>>,
    public_address: Seq<char>,
)
    ensures
        Registry::started(peer_config, name, public_address).inv(),
{
}

/// Publishing an event keeps the log in step.
proof fn lemma_published(s: Registry, event: BrowserEventView)
    requires
        s.log_agrees(),
        s.browser_seq < u64::MAX,
    ensures
        s.published(event).log_agrees(),
{
}

/// Putting an event on the lobby stream keeps the server consistent.
pub proof fn publishing_keeps_the_server_consistent(s: Registry, event: BrowserEventView)
    requires
        s.inv(),
        s.browser_seq < u64::MAX,
    ensures
        s.published(event).inv(),
{
    let u = s.published(event);
    lemma_published(s, event);
    assert(forall|o: Sid| #[trigger] u.lobby_of(o) == s.lobby_of(o));
    assert(u.rooms_agree());
}

/// Issuing a lobby id keeps the server consistent.
pub proof fn issuing_an_id_keeps_the_server_consistent(s: Registry, id: u64)
    requires
        s.inv(),
        id < LOBBY_IDS,
    ensures
        s.id_taken(id).inv(),
{
    let u = s.id_taken(id);
    assert(forall|o: Sid| #[trigger] u.lobby_of(o) == s.lobby_of(o));
    assert(u.rooms_agree());
}

/// Taking a lobby off the public list keeps the server consistent.
pub proof fn unlisting_keeps_the_server_consistent(s: Registry, code: Seq<char>)
    requires
        s.inv(),
        s.browser_seq < u64::MAX,
    ensures
        s.unlisted(code).inv(),
{
    if s.public_lobbies.contains_key(code) {
        let id = s.public_lobbies[code].id;
        let t = Registry {
            public_lobbies: s.public_lobbies.remove(code),
            lobby_codes: s.lobby_codes.remove(id),
            ..s
        };
        lemma_published(t, BrowserEventView::RemoveLobby(id));
        let u = s.unlisted(code);
        assert(forall|sid: Sid| u.lobby_of(sid) == s.lobby_of(sid));
        assert(u.rooms_agree());
        assert forall|other: Seq<char>| #[trigger] u.public_lobbies.contains_key(other) implies {
            &&& u.lobby_codes.contains_key(u.public_lobbies[other].id)
            &&& u.lobby_codes[u.public_lobbies[other].id] == other
        } by {
            assert(s.public_lobbies.contains_key(other));
        }
        assert forall|other: u64| #[trigger] u.lobby_codes.contains_key(other) implies {
            u.public_lobbies.contains_key(u.lobby_codes[other])
        } by {
            assert(s.lobby_codes.contains_key(other));
        }
        assert(u.listing_agrees());
    }
}

impl Registry {
    /// The lobbies and the memberships agree on everybody but one socket, which is in no
    /// lobby.
    spec fn rooms_agree_apart(self, apart: Sid) -> bool {
        &&& forall|sid: Sid|
            sid != apart && (#[trigger] self.lobby_of(sid)) is Some ==> {
                &&& self.lobbies.contains_key(self.lobby_of(sid)->0)
                &&& self.lobbies[self.lobby_of(sid)->0].members.contains_key(sid)
                &&& self.lobbies[self.lobby_of(sid)->0].members[sid].client == self.members[sid].client
                &&& self.members[sid].client is Some
            }
        &&& forall|code: Seq<char>, sid: Sid|
            self.lobbies.contains_key(code) && #[trigger] self.lobbies[code].members.contains_key(sid) ==> {
                &&& sid != apart
                &&& self.lobby_of(sid) == Some(code)
            }
        &&& forall|code: Seq<char>| #[trigger] self.lobbies.contains_key(code) ==> self.lobbies[code].well_formed()
    }
}

/// A map that is not empty has a key.
proof fn lemma_some_key<V>(m: Map<Sid, V>)
    requires
        !m.is_empty(),
    ensures
        exists|sid: Sid| m.contains_key(sid),
{
    if forall|sid: Sid| !m.contains_key(sid) {
        assert(m.dom() =~= Set::empty());
    }
}

/// A socket that leaves its lobby is in none, and the rest stays consistent. `t` is `s` but
/// for what is recorded of that socket.
proof fn lemma_left(s: Registry, t: Registry, sid: Sid, code: Seq<char>)
    requires
        s.rooms_agree(),
        s.listing_agrees(),
        s.log_agrees(),
        s.browser_seq < u64::MAX,
        s.lobby_of(sid) == Some(code),
        t == (Registry { members: t.members, connections: t.connections, ..s }),
        t.members.remove(sid) == s.members.remove(sid),
    ensures
        t.left(sid, code).rooms_agree_apart(sid),
        t.left(sid, code).listing_agrees(),
        t.left(sid, code).log_agrees(),
{
    let u = t.left(sid, code);
    let lobby = s.lobbies[code];
    assert forall|o: Sid| o != sid implies #[trigger] u.lobby_of(o) == s.lobby_of(o) && u.members.contains_key(o)
        == s.members.contains_key(o) && (s.members.contains_key(o) ==> u.members[o] == s.members[o]) by {
        assert(t.members.remove(sid).contains_key(o) == t.members.contains_key(o));
        assert(s.members.remove(sid).contains_key(o) == s.members.contains_key(o));
        if s.members.contains_key(o) {
            assert(t.members.remove(sid)[o] == t.members[o]);
            assert(s.members.remove(sid)[o] == s.members[o]);
        }
    }
    assert(s.lobbies.contains_key(code) && lobby.well_formed());
    if lobby.without(sid).members.is_empty() {
        let w = Registry { lobbies: t.lobbies.remove(code), ..t };
        if t.public_lobbies.contains_key(code) {
            let id = t.public_lobbies[code].id;
            lemma_published(
                Registry {
                    public_lobbies: w.public_lobbies.remove(code),
                    lobby_codes: w.lobby_codes.remove(id),
                    ..w
                },
                BrowserEventView::RemoveLobby(id),
            );
            assert forall|other: u64| #[trigger] u.lobby_codes.contains_key(other) implies {
                &&& u.public_lobbies.contains_key(u.lobby_codes[other])
                &&& u.public_lobbies[u.lobby_codes[other]].id == other
            } by {
                assert(s.lobby_codes.contains_key(other));
            }
        }
        assert(u.lobbies == s.lobbies.remove(code));
        assert forall|o: Sid| o != sid && (#[trigger] u.lobby_of(o)) is Some implies {
            &&& u.lobbies.contains_key(u.lobby_of(o)->0)
            &&& u.lobbies[u.lobby_of(o)->0].members.contains_key(o)
            &&& u.lobbies[u.lobby_of(o)->0].members[o].client == u.members[o].client
            &&& u.members[o].client is Some
        } by {
            assert(s.lobby_of(o) is Some);
            if s.lobby_of(o) == Some(code) {
                assert(lobby.without(sid).members.contains_key(o));
                assert(lobby.without(sid).members.dom().contains(o));
            }
        }
    } else {
        lemma_some_key(lobby.without(sid).members);
        assert(u.lobbies == s.lobbies.insert(code, lobby.without(sid)));
        assert(lobby.without(sid).well_formed());
        assert forall|o: Sid| o != sid && (#[trigger] u.lobby_of(o)) is Some implies {
            &&& u.lobbies.contains_key(u.lobby_of(o)->0)
            &&& u.lobbies[u.lobby_of(o)->0].members.contains_key(o)
            &&& u.lobbies[u.lobby_of(o)->0].members[o].client == u.members[o].client
            &&& u.members[o].client is Some
        } by {
            assert(s.lobby_of(o) is Some);
        }
        assert forall|other: Seq<char>| #[trigger] u.lobbies.contains_key(other) implies u.lobbies[other].well_formed() by {
            if other != code {
                assert(s.lobbies.contains_key(other));
            }
        }
    }
    assert forall|other: Seq<char>, o: Sid|
        u.lobbies.contains_key(other) && #[trigger] u.lobbies[other].members.contains_key(o) implies {
        &&& o != sid
        &&& u.lobby_of(o) == Some(other)
    } by {
        assert(s.lobbies[other].members.contains_key(o));
    }
}

/// A socket that leaves its lobby keeps the server consistent.
pub proof fn leaving_keeps_the_server_consistent(s: Registry, sid: Sid)
    requires
        s.inv(),
        s.browser_seq < u64::MAX,
    ensures
        s.quit(sid).inv(),
        s.quit(sid).lobby_of(sid) is None,
{
    if let Some(code) = s.lobby_of(sid) {
        let t = Registry {
            members: s.members.insert(sid, crate::lobby::MembershipView { code: None, ..s.members[sid] }),
            ..s
        };
        assert(t.members.remove(sid) =~= s.members.remove(sid));
        lemma_left(s, t, sid, code);
        let u = s.quit(sid);
        assert(u.members == t.members);
        assert(u.lobby_of(sid) is None);
        assert(t.members.dom() =~= s.members.dom());
    }
}

/// A socket that disconnects keeps the server consistent, and is forgotten.
pub proof fn disconnecting_keeps_the_server_consistent(s: Registry, sid: Sid)
    requires
        s.inv(),
        s.browser_seq < u64::MAX,
        s.members.contains_key(sid),
    ensures
        s.disconnected(sid).inv(),
        !s.disconnected(sid).members.contains_key(sid),
{
    let gone = Registry { members: s.members.remove(sid), ..s };
    let u = s.disconnected(sid);
    assert(gone.members.remove(sid) =~= s.members.remove(sid));
    if let Some(code) = s.lobby_of(sid) {
        lemma_left(s, gone, sid, code);
        let v = gone.left(sid, code);
        assert(u.members == gone.members);
        assert(forall|o: Sid| u.lobby_of(o) == v.lobby_of(o));
        assert(u.lobby_of(sid) is None);
        assert(u.rooms_agree());
    } else {
        assert(forall|o: Sid| #[trigger] u.lobby_of(o) == s.lobby_of(o));
        assert(u.rooms_agree());
    }
}

/// Admitting a socket keeps the server consistent.
pub proof fn admission_keeps_the_server_consistent(s: Registry, sid: Sid)
    requires
        s.inv(),
        !s.members.contains_key(sid),
        s.connections < i64::MAX,
    ensures
        s.admitted(sid).inv(),
        s.admitted(sid).lobby_of(sid) is None,
{
    let u = s.admitted(sid);
    assert(forall|o: Sid| #[trigger] u.lobby_of(o) == s.lobby_of(o));
    assert(u.rooms_agree());
}

/// A socket that joins a lobby keeps the server consistent, and is in that lobby.
pub proof fn joining_keeps_the_server_consistent(
    s: Registry,
    sid: Sid,
    code: Seq<char>,
    client: Client,
    claims_host: bool,
)
    requires
        s.inv(),
        s.browser_seq < u64::MAX,
        s.members.contains_key(sid),
    ensures
        s.joined(sid, code, client, claims_host).inv(),
        s.joined(sid, code, client, claims_host).lobby_of(sid) == Some(code),
{
    let base = s.before_joining(sid, code);
    let u = s.joined(sid, code, client, claims_host);
    if s.moves(sid, code) {
        lemma_left(s, s, sid, s.lobby_of(sid)->0);
    }
    assert(base.members == s.members);
    assert(u.members.dom() =~= s.members.dom());
    let before = base.lobby_or_vacant(code);
    let lobby = before.joined(sid, client, claims_host);
    assert(u.lobbies == base.lobbies.insert(code, lobby));
    assert(lobby.members.contains_key(sid));
    assert(lobby.well_formed());
    assert forall|o: Sid| o != sid implies #[trigger] u.lobby_of(o) == s.lobby_of(o) && base.lobby_of(o) == s.lobby_of(o) by {}
    assert forall|o: Sid| (#[trigger] u.lobby_of(o)) is Some implies {
        &&& u.lobbies.contains_key(u.lobby_of(o)->0)
        &&& u.lobbies[u.lobby_of(o)->0].members.contains_key(o)
        &&& u.lobbies[u.lobby_of(o)->0].members[o].client == u.members[o].client
            &&& u.members[o].client is Some
    } by {
        if o != sid {
            assert(base.lobby_of(o) is Some);
        }
    }
    assert forall|other: Seq<char>, o: Sid|
        u.lobbies.contains_key(other) && #[trigger] u.lobbies[other].members.contains_key(o) implies u.lobby_of(o)
        == Some(other) by {
        if other != code {
            assert(base.lobbies[other].members.contains_key(o));
            if o == sid {
                assert(s.lobbies[other].members.contains_key(sid));
            }
        } else if o != sid {
            assert(base.lobbies.contains_key(code) && base.lobbies[code].members.contains_key(o));
        }
    }
    assert forall|other: Seq<char>| #[trigger] u.lobbies.contains_key(other) implies u.lobbies[other].well_formed() by {
        if other != code {
            assert(base.lobbies.contains_key(other));
        }
    }
    assert(u.rooms_agree());
    assert forall|other: Seq<char>| #[trigger] u.public_lobbies.contains_key(other) implies u.lobbies.contains_key(other) by {
        assert(base.public_lobbies.contains_key(other));
    }
    assert(u.listing_agrees());
}

/// Naming a host keeps the server consistent.
pub proof fn naming_a_host_keeps_the_server_consistent(s: Registry, sid: Sid, code: Seq<char>, client_id: i64)
    requires
        s.inv(),
    ensures
        s.host_set(sid, code, client_id).inv(),
{
    let u = s.host_set(sid, code, client_id);
    assert(forall|o: Sid| #[trigger] u.lobby_of(o) == s.lobby_of(o));
    if s.accepts_host(sid, code) {
        assert forall|other: Seq<char>, o: Sid|
            u.lobbies.contains_key(other) && #[trigger] u.lobbies[other].members.contains_key(o) implies u.lobby_of(o)
            == Some(other) by {
            assert(s.lobbies[other].members.contains_key(o));
        }
        let lobby = u.lobbies[code];
        assert(s.lobbies[code].well_formed());
        assert(lobby.members.contains_key(sid));
        assert(lobby.well_formed());
        assert(u.rooms_agree());
    }
}

/// Claiming an identity keeps the server consistent.
pub proof fn an_identity_keeps_the_server_consistent(s: Registry, sid: Sid, client: Client)
    requires
        s.inv(),
    ensures
        s.identified(sid, client).inv(),
{
    let u = s.identified(sid, client);
    assert(forall|o: Sid| #[trigger] u.lobby_of(o) == s.lobby_of(o));
    if s.members.contains_key(sid) {
        assert(u.members.dom() =~= s.members.dom());
        if let Some(code) = s.lobby_of(sid) {
            let lobby = s.lobbies[code].identified(sid, client);
            assert(u.lobbies == s.lobbies.insert(code, lobby));
            assert(s.lobbies[code].well_formed());
            assert(lobby.members.contains_key(sid));
            assert(lobby.well_formed());
            assert forall|other: Seq<char>, o: Sid|
                u.lobbies.contains_key(other) && #[trigger] u.lobbies[other].members.contains_key(o) implies u.lobby_of(
                o,
            ) == Some(other) by {
                if o != sid || other != code {
                    assert(s.lobbies[other].members.contains_key(o));
                }
            }
        }
        assert(u.rooms_agree());
    }
}

/// Watching the public list, or stopping to, keeps the server consistent.
pub proof fn watching_keeps_the_server_consistent(s: Registry, sid: Sid, open: bool)
    requires
        s.inv(),
    ensures
        s.watching(sid, open).inv(),
{
    let u = s.watching(sid, open);
    assert(forall|o: Sid| #[trigger] u.lobby_of(o) == s.lobby_of(o));
    assert(u.members.dom() =~= s.members.dom());
    assert(u.rooms_agree());
}

/// Publishing a lobby that is not on the public list yet, under an id that has just been
/// issued, keeps the server consistent.
pub proof fn a_first_listing_keeps_the_server_consistent(
    s: Registry,
    code: Seq<char>,
    input: PublicLobbyInput,
    id: u64,
    now: i64,
)
    requires
        s.inv(),
        s.browser_seq < u64::MAX,
        s.lobbies.contains_key(code),
        !s.public_lobbies.contains_key(code),
        input.asks_public(),
        id < LOBBY_IDS,
        !s.issued.contains(id),
    ensures
        s.id_taken(id).listed(code, input, id, now).inv(),
{
    let t = s.id_taken(id);
    let u = t.listed(code, input, id, now);
    assert(forall|o: Sid| #[trigger] u.lobby_of(o) == s.lobby_of(o));
    assert(u.rooms_agree());
    lemma_listed(t, code, input, id, now);
    assert(!s.lobby_codes.contains_key(id)) by {
        if s.lobby_codes.contains_key(id) {
            assert(s.public_lobbies.contains_key(s.lobby_codes[id]));
        }
    }
    assert forall|other: Seq<char>| #[trigger] u.public_lobbies.contains_key(other) implies {
        &&& u.lobbies.contains_key(other)
        &&& u.public_lobbies[other].is_public
        &&& u.issued.contains(u.public_lobbies[other].id)
        &&& u.lobby_codes.contains_key(u.public_lobbies[other].id)
        &&& u.lobby_codes[u.public_lobbies[other].id] == other
    } by {
        if other != code {
            assert(s.public_lobbies.contains_key(other));
        }
    }
    assert forall|other: u64| #[trigger] u.lobby_codes.contains_key(other) implies {
        &&& u.public_lobbies.contains_key(u.lobby_codes[other])
        &&& u.public_lobbies[u.lobby_codes[other]].id == other
    } by {
        if other != id {
            assert(s.lobby_codes.contains_key(other));
        }
    }
    assert(u.listing_agrees());
}

/// Replacing the card of a lobby that is on the public list keeps the server consistent.
pub proof fn a_later_listing_keeps_the_server_consistent(
    s: Registry,
    code: Seq<char>,
    input: PublicLobbyInput,
    id: u64,
    now: i64,
)
    requires
        s.inv(),
        s.browser_seq < u64::MAX,
        s.public_lobbies.contains_key(code),
        input.asks_public(),
    ensures
        s.listed(code, input, id, now).inv(),
{
    let u = s.listed(code, input, id, now);
    assert(forall|o: Sid| #[trigger] u.lobby_of(o) == s.lobby_of(o));
    assert(u.rooms_agree());
    lemma_listed(s, code, input, id, now);
    assert forall|other: Seq<char>| #[trigger] u.public_lobbies.contains_key(other) implies {
        &&& u.lobbies.contains_key(other)
        &&& u.public_lobbies[other].is_public
        &&& u.issued.contains(u.public_lobbies[other].id)
        &&& u.lobby_codes.contains_key(u.public_lobbies[other].id)
        &&& u.lobby_codes[u.public_lobbies[other].id] == other
    } by {
        assert(s.public_lobbies.contains_key(other));
        assert(s.public_lobbies.contains_key(code));
    }
    assert forall|other: u64| #[trigger] u.lobby_codes.contains_key(other) implies {
        &&& u.public_lobbies.contains_key(u.lobby_codes[other])
        &&& u.public_lobbies[u.lobby_codes[other]].id == other
    } by {
        assert(s.lobby_codes.contains_key(other));
    }
    assert(u.listing_agrees());
}

/// Publishing a lobby keeps the log in step.
proof fn lemma_listed(s: Registry, code: Seq<char>, input: PublicLobbyInput, id: u64, now: i64)
    requires
        s.log_agrees(),
        s.browser_seq < u64::MAX,
    ensures
        s.listed(code, input, id, now).log_agrees(),
{
    let card = s.listing_card(code, input, id, now);
    lemma_published(
        Registry {
            lobby_codes: s.lobby_codes.insert(card.id, code),
            public_lobbies: s.public_lobbies.insert(code, card),
            once_listed: s.once_listed.insert(card.id),
            ..s
        },
        BrowserEventView::UpdateLobby(card),
    );
}

/// Letting a subscriber onto the lobby stream, or turning it away, keeps the server
/// consistent; so does a subscriber's leaving.
pub proof fn subscribers_keep_the_server_consistent(s: Registry)
    requires
        s.inv(),
    ensures
        s.subscribed().inv(),
        s.stream_subscribers > 0 ==> s.unsubscribed().inv(),
{
    let u = s.subscribed();
    let v = s.unsubscribed();
    assert(forall|o: Sid| #[trigger] u.lobby_of(o) == s.lobby_of(o));
    assert(forall|o: Sid| #[trigger] v.lobby_of(o) == s.lobby_of(o));
    assert(u.rooms_agree());
    assert(v.rooms_agree());
}

/// What is refused or dropped is counted, and nothing else changes: the server stays
/// consistent.
pub proof fn refusals_keep_the_server_consistent(s: Registry)
    requires
        s.inv(),
    ensures
        s.rate_limited().inv(),
        s.malformed().inv(),
        s.signal_refused().inv(),
        s.oversize_refused().inv(),
        s.delivery_dropped().inv(),
        s.rate_limited() == (Registry { counters: s.rate_limited().counters, ..s }),
        s.malformed() == (Registry { counters: s.malformed().counters, ..s }),
        s.signal_refused() == (Registry { counters: s.signal_refused().counters, ..s }),
        s.oversize_refused() == (Registry { counters: s.oversize_refused().counters, ..s }),
        s.delivery_dropped() == (Registry { counters: s.delivery_dropped().counters, ..s }),
{
    lemma_recounted(s, s.rate_limited());
    lemma_recounted(s, s.malformed());
    lemma_recounted(s, s.signal_refused());
    lemma_recounted(s, s.oversize_refused());
    lemma_recounted(s, s.delivery_dropped());
}

/// Only the counters differ.
proof fn lemma_recounted(s: Registry, t: Registry)
    requires
        s.inv(),
        t == (Registry { counters: t.counters, ..s }),
    ensures
        t.inv(),
{
    assert(forall|o: Sid| #[trigger] t.lobby_of(o) == s.lobby_of(o));
    assert(t.rooms_agree());
}

/// Whatever a `lobby` event does, the server stays consistent, as long as there is an id left
/// to issue.
pub proof fn the_lobby_event_keeps_the_server_consistent(
    before: Registry,
    after: Registry,
    sid: Sid,
    payload: Option<(String, PublicLobbyInput)>,
    token: bool,
    now: i64,
    r: Option<Announcement>,
)
    requires
        before.inv(),
        before.browser_seq < u64::MAX,
        before.issued.len() < LOBBY_IDS,
        crate::socket::lobby_handled(before, after, sid, payload, token, now, r),
    ensures
        after.inv(),
{
    if let Some((code, input)) = payload {
        refusals_keep_the_server_consistent(before);
        unlisting_keeps_the_server_consistent(before, code@);
        if !before.over_limit(sid, token) && before.lobby_of(sid) == Some(code@) && input.asks_public() {
            if before.public_lobbies.contains_key(code@) {
                a_later_listing_keeps_the_server_consistent(
                    before,
                    code@,
                    input,
                    before.public_lobbies[code@].id,
                    now,
                );
            } else {
                let (hash, id) = choose|hash: u64, id: u64|
                    {
                        &&& #[trigger] crate::registry::issues(before.issued, hash, id)
                        &&& id < LOBBY_IDS
                        &&& crate::socket::lists(before.id_taken(id), after, code@, input, id, now, r)
                    };
                a_first_listing_keeps_the_server_consistent(before, code@, input, id, now);
            }
        }
    }
}

/// A socket is in one lobby at most.
pub proof fn a_socket_is_in_one_lobby(s: Registry, sid: Sid, a: Seq<char>, b: Seq<char>)
    requires
        s.inv(),
        s.lobbies.contains_key(a),
        s.lobbies.contains_key(b),
        s.lobbies[a].members.contains_key(sid),
        s.lobbies[b].members.contains_key(sid),
    ensures
        a == b,
{
}

/// Being in the same lobby goes both ways.
pub proof fn co_membership_is_mutual(s: Registry, a: Sid, b: Sid)
    requires
        s.inv(),
    ensures
        s.co_members(a, b) == s.co_members(b, a),
        s.co_members(a, b) <==> s.lobby_of(a) is Some && s.lobby_of(a) == s.lobby_of(b),
{
    lemma_co_members(s, a, b);
    lemma_co_members(s, b, a);
}

/// Two sockets are in the same lobby when the memberships say so.
proof fn lemma_co_members(s: Registry, a: Sid, b: Sid)
    requires
        s.inv(),
    ensures
        s.co_members(a, b) <==> s.lobby_of(a) is Some && s.lobby_of(a) == s.lobby_of(b),
{
    if s.co_members(a, b) {
        assert(s.lobbies[s.lobby_of(a)->0].members.contains_key(b));
    }
}

/// A signal goes to a socket in the sender's own lobby, and never back to the sender.
pub proof fn a_signal_stays_in_the_lobby(s: Registry, sid: Sid, target: Seq<char>)
    requires
        s.inv(),
        s.may_signal(sid, target),
    ensures
        crate::sid::sid_value(target) != sid,
        s.lobby_of(sid) is Some,
        s.lobby_of(crate::sid::sid_value(target) as Sid) == s.lobby_of(sid),
{
    lemma_co_members(s, sid, crate::sid::sid_value(target) as Sid);
}

/// What is relayed to a lobby reaches every socket in it but the sender, each exactly once,
/// and nobody else.
pub proof fn a_relay_reaches_each_peer_once(
    s: Registry,
    code: Seq<char>,
    sid: Sid,
    message: Message,
    actions: Seq<Action>,
)
    requires
        s.inv(),
        crate::socket::relays(s, code, sid, message, actions),
    ensures
        forall|i: int|
            0 <= i < actions.len() ==> ((#[trigger] actions[i]) matches Action::Deliver { to, message: m } && m == message
                && to != sid && s.lobby_of(to) == Some(code)),
        forall|peer: Sid|
            peer != sid && #[trigger] s.lobby_of(peer) == Some(code) ==> exists|i: int|
                0 <= i < actions.len() && #[trigger] actions[i] == (Action::Deliver { to: peer, message }),
        actions.no_duplicates(),
{
    let peers = choose|peers: Seq<Sid>|
        {
            &&& #[trigger] crate::lobby::enumerates(peers, s.peers_in(code, sid))
            &&& actions == crate::socket::to_each(peers, message)
        };
    lemma_to_each(s, code, sid, message, peers);
}

/// The same message to each peer.
proof fn lemma_to_each(s: Registry, code: Seq<char>, sid: Sid, message: Message, peers: Seq<Sid>)
    requires
        s.inv(),
        crate::lobby::enumerates(peers, s.peers_in(code, sid)),
    ensures
        forall|i: int|
            0 <= i < peers.len() ==> ((#[trigger] crate::socket::to_each(peers, message)[i]) matches Action::Deliver {
                to,
                message: m,
            } && m == message && to != sid && s.lobby_of(to) == Some(code)),
        forall|peer: Sid|
            peer != sid && #[trigger] s.lobby_of(peer) == Some(code) ==> exists|i: int|
                0 <= i < peers.len() && #[trigger] crate::socket::to_each(peers, message)[i] == (Action::Deliver {
                    to: peer,
                    message,
                }),
        crate::socket::to_each(peers, message).no_duplicates(),
{
    let actions = crate::socket::to_each(peers, message);
    assert forall|i: int| 0 <= i < peers.len() implies ((#[trigger] actions[i]) matches Action::Deliver {
        to,
        message: m,
    } && m == message && to != sid && s.lobby_of(to) == Some(code)) by {
        assert(peers.to_set().contains(peers[i]));
        assert(s.peers_in(code, sid).contains(peers[i]));
        assert(s.lobbies[code].members.contains_key(peers[i]));
    }
    assert forall|peer: Sid| peer != sid && #[trigger] s.lobby_of(peer) == Some(code) implies exists|i: int|
        0 <= i < peers.len() && #[trigger] actions[i] == (Action::Deliver { to: peer, message }) by {
        assert(s.peers_in(code, sid).contains(peer));
        assert(peers.to_set().contains(peer));
        let i = peers.index_of(peer);
        assert(actions[i] == (Action::Deliver { to: peer, message }));
    }
    assert forall|i: int, j: int| 0 <= i < actions.len() && 0 <= j < actions.len() && i != j implies actions[i]
        != actions[j] by {
        assert(peers[i] != peers[j]);
    }
}

/// When a socket leaves a lobby, everybody left in it is told, and nobody else is told
/// anything but those who watch the public list.
#[verifier::spinoff_prover]
#[verifier::rlimit(40)]
pub proof fn a_departure_is_told_to_those_left(s: Registry, sid: Sid, code: Seq<char>, actions: Seq<Action>)
    requires
        s.inv(),
        s.lobby_of(sid) == Some(code),
        crate::socket::departs(s, sid, code, actions),
    ensures
        forall|peer: Sid|
            peer != sid && #[trigger] s.lobby_of(peer) == Some(code) ==> exists|i: int|
                0 <= i < actions.len() && #[trigger] actions[i] == (Action::Deliver {
                    to: peer,
                    message: Message::Left { sid },
                }),
        forall|i: int|
            0 <= i < actions.len() ==> match #[trigger] actions[i] {
                Action::Deliver { to, message } => to != sid && s.lobby_of(to) == Some(code),
                Action::Announce { .. } => s.public_lobbies.contains_key(code),
                _ => false,
            },
{
    let peers = choose|peers: Seq<Sid>|
        {
            &&& #[trigger] crate::lobby::enumerates(peers, s.peers_in(code, sid))
            &&& actions == crate::socket::departure(s, sid, code, peers)
        };
    let left = crate::socket::to_each(peers, Message::Left { sid });
    let released = crate::socket::to_each(peers, Message::SetHost { host_id: -1i64 });
    lemma_to_each(s, code, sid, Message::Left { sid }, peers);
    lemma_to_each(s, code, sid, Message::SetHost { host_id: -1i64 }, peers);
    assert forall|i: int| 0 <= i < left.len() implies actions[i] == left[i] by {}
    assert forall|i: int| left.len() <= i < actions.len() implies match #[trigger] actions[i] {
        Action::Deliver { to, message } => to != sid && s.lobby_of(to) == Some(code),
        Action::Announce { .. } => s.public_lobbies.contains_key(code),
        _ => false,
    } by {
        if s.lobbies[code].hosted_by(sid) && i < left.len() + released.len() {
            assert(actions[i] == released[i - left.len()]);
        }
    }
    assert forall|peer: Sid| peer != sid && #[trigger] s.lobby_of(peer) == Some(code) implies exists|i: int|
        0 <= i < actions.len() && #[trigger] actions[i] == (Action::Deliver {
            to: peer,
            message: Message::Left { sid },
        }) by {
        let i = choose|i: int|
            0 <= i < peers.len() && #[trigger] left[i] == (Action::Deliver {
                to: peer,
                message: Message::Left { sid },
            });
        assert(actions[i] == left[i]);
    }
}

/// A socket that leaves and then disconnects ends up as one that just disconnects. It is in
/// no lobby in between, so its departure is not told a second time.
pub proof fn leaving_and_disconnecting_is_disconnecting(s: Registry, sid: Sid)
    ensures
        s.quit(sid).disconnected(sid) == s.disconnected(sid),
        s.quit(sid).lobby_of(sid) is None,
{
    if let Some(code) = s.lobby_of(sid) {
        let t = Registry {
            members: s.members.insert(sid, crate::lobby::MembershipView { code: None, ..s.members[sid] }),
            ..s
        };
        assert(s.quit(sid).members == t.members);
        assert(t.members.remove(sid) =~= s.members.remove(sid));
        assert(s.quit(sid).disconnected(sid) =~= s.disconnected(sid));
    }
}

/// What is announced when a lobby is taken off the public list is what is put on the lobby
/// stream, at the same position.
pub proof fn an_announced_removal_is_on_the_stream(s: Registry, code: Seq<char>)
    ensures
        crate::socket::unlisting(s, code) matches Some(announcement) ==> {
            &&& s.unlisted(code).browser_log.len() > 0
            &&& s.unlisted(code).browser_log.last() == (announcement.position, announcement.event@)
            &&& s.unlisted(code).browser_seq == announcement.position
        },
        crate::socket::unlisting(s, code) is None ==> s.unlisted(code) == s,
{
}

/// The parts of what is sent when a socket joins a lobby: what those it leaves are sent, whom
/// it finds in the lobby, and the identities it is told.
pub(crate) proof fn lemma_join_parts(
    s: Registry,
    sid: Sid,
    code: Seq<char>,
    client: Client,
    claims_host: bool,
    actions: Seq<Action>,
) -> (r: (Seq<Action>, Seq<Sid>, Vec<(Sid, Client)>))
    requires
        crate::socket::joins(s, sid, code, client, claims_host, actions),
    ensures
        if s.moves(sid, code) {
            crate::socket::departs(s, sid, s.lobby_of(sid)->0, r.0)
        } else {
            r.0.len() == 0
        },
        s.before_joining(sid, code).lobby_or_vacant(code) == s.lobby_or_vacant(code),
        crate::lobby::enumerates(r.1, s.before_joining(sid, code).peers_in(code, sid)),
        s.lobby_or_vacant(code).lists_clients(r.2@, sid),
        ({
            let host_id = s.joined(sid, code, client, claims_host).lobbies[code].host_id_or_unset();
            actions == (r.0 + crate::socket::arrival(r.1, sid, client, host_id)) + seq![
                Action::Reply { message: Message::SetHost { host_id } },
                Action::SetClients { others: r.2 },
            ]
        }),
{
    let base = s.before_joining(sid, code);
    let host_id = s.joined(sid, code, client, claims_host).lobbies[code].host_id_or_unset();
    choose|gone: Seq<Action>, peers: Seq<Sid>, others: Vec<(Sid, Client)>|
        {
            &&& if s.moves(sid, code) {
                crate::socket::departs(s, sid, s.lobby_of(sid)->0, gone)
            } else {
                gone.len() == 0
            }
            &&& #[trigger] crate::lobby::enumerates(peers, base.peers_in(code, sid))
            &&& #[trigger] base.lobby_or_vacant(code).lists_clients(others@, sid)
            &&& actions == #[trigger] (gone + crate::socket::arrival(peers, sid, client, host_id)) + seq![
                Action::Reply { message: Message::SetHost { host_id } },
                Action::SetClients { others },
            ]
        }
}

/// A socket that joins a lobby is made known to everybody there, who are told who the host is
/// as well. Last, it is told itself who the host is, and who everybody there is.
#[verifier::spinoff_prover]
#[verifier::rlimit(40)]
pub proof fn a_newcomer_and_the_lobby_are_introduced(
    s: Registry,
    sid: Sid,
    code: Seq<char>,
    client: Client,
    claims_host: bool,
    actions: Seq<Action>,
)
    requires
        s.inv(),
        s.members.contains_key(sid),
        crate::socket::joins(s, sid, code, client, claims_host, actions),
    ensures
        ({
            let host_id = s.joined(sid, code, client, claims_host).lobbies[code].host_id_or_unset();
            &&& forall|peer: Sid|
                peer != sid && #[trigger] s.lobby_of(peer) == Some(code) ==> {
                    &&& actions.contains(Action::Deliver { to: peer, message: Message::Join { sid, client } })
                    &&& actions.contains(Action::Deliver { to: peer, message: Message::SetHost { host_id } })
                }
            &&& actions.len() >= 2
            &&& actions[actions.len() - 2] == (Action::Reply { message: Message::SetHost { host_id } })
            &&& actions.last() matches Action::SetClients { others } && forall|peer: Sid, identity: Client| #[trigger]
                others@.contains((peer, identity)) <==> {
                    &&& peer != sid
                    &&& s.lobby_of(peer) == Some(code)
                    &&& s.members[peer].client == Some(identity)
                }
        }),
{
    let base = s.before_joining(sid, code);
    let host_id = s.joined(sid, code, client, claims_host).lobbies[code].host_id_or_unset();
    let (gone, peers, others) = lemma_join_parts(s, sid, code, client, claims_host, actions);
    let arrival = crate::socket::arrival(peers, sid, client, host_id);
    assert forall|peer: Sid| peer != sid && #[trigger] s.lobby_of(peer) == Some(code) implies {
        &&& actions.contains(Action::Deliver { to: peer, message: Message::Join { sid, client } })
        &&& actions.contains(Action::Deliver { to: peer, message: Message::SetHost { host_id } })
    } by {
        assert(base.peers_in(code, sid).contains(peer));
        assert(peers.to_set().contains(peer));
        let i = peers.index_of(peer);
        assert(arrival[2 * i] == actions[gone.len() + 2 * i]);
        assert(arrival[2 * i + 1] == actions[gone.len() + 2 * i + 1]);
        assert((2 * i) / 2 == i && (2 * i + 1) / 2 == i);
    }
    assert(actions.last() == (Action::SetClients { others }));
    assert forall|peer: Sid, identity: Client| #[trigger] others@.contains((peer, identity)) <==> {
        &&& peer != sid
        &&& s.lobby_of(peer) == Some(code)
        &&& s.members[peer].client == Some(identity)
    } by {
        if s.lobbies.contains_key(code) && s.lobbies[code].members.contains_key(peer) {
            assert(s.lobby_of(peer) == Some(code));
        }
    }
}

/// When a socket joins a lobby, only those in that lobby, and in the one it leaves, are told.
#[verifier::spinoff_prover]
#[verifier::rlimit(40)]
pub proof fn a_newcomer_is_told_to_nobody_else(
    s: Registry,
    sid: Sid,
    code: Seq<char>,
    client: Client,
    claims_host: bool,
    actions: Seq<Action>,
)
    requires
        s.inv(),
        s.members.contains_key(sid),
        crate::socket::joins(s, sid, code, client, claims_host, actions),
    ensures
        forall|i: int|
            0 <= i < actions.len() ==> ((#[trigger] actions[i]) matches Action::Deliver { to, message } ==> {
                &&& to != sid
                &&& s.lobby_of(to) == Some(code) || (s.lobby_of(sid) is Some && s.lobby_of(to) == s.lobby_of(sid))
            }),
{
    let base = s.before_joining(sid, code);
    let host_id = s.joined(sid, code, client, claims_host).lobbies[code].host_id_or_unset();
    let (gone, peers, others) = lemma_join_parts(s, sid, code, client, claims_host, actions);
    let arrival = crate::socket::arrival(peers, sid, client, host_id);
    if s.moves(sid, code) {
        a_departure_is_told_to_those_left(s, sid, s.lobby_of(sid)->0, gone);
    }
    assert forall|i: int| 0 <= i < actions.len() implies ((#[trigger] actions[i]) matches Action::Deliver {
        to,
        message,
    } ==> {
        &&& to != sid
        &&& s.lobby_of(to) == Some(code) || (s.lobby_of(sid) is Some && s.lobby_of(to) == s.lobby_of(sid))
    }) by {
        if i < gone.len() {
            assert(actions[i] == gone[i]);
        } else if i < gone.len() + arrival.len() {
            let k = i - gone.len();
            assert(actions[i] == arrival[k]);
            let to = peers[k / 2];
            assert(peers.to_set().contains(to));
            assert(base.peers_in(code, sid).contains(to));
            assert(s.lobbies[code].members.contains_key(to));
        } else {
            assert(actions[i] == seq![
                Action::Reply { message: Message::SetHost { host_id } },
                Action::SetClients { others },
            ][i - gone.len() - arrival.len()]);
        }
    }
}

/// The first to claim to host a lobby holds that until they leave: nothing another socket
/// does changes who the host is.
pub proof fn the_first_claim_holds(
    s: Registry,
    code: Seq<char>,
    holder: Sid,
    sid: Sid,
    client: Client,
    claims_host: bool,
    client_id: i64,
)
    requires
        s.inv(),
        s.lobbies.contains_key(code),
        s.lobbies[code].hosted_by(holder),
        sid != holder,
    ensures
        s.host_set(sid, code, client_id) == s,
        s.joined(sid, code, client, claims_host).lobbies[code].hosted_by(holder),
        s.joined(sid, code, client, claims_host).lobbies[code].host_id == s.lobbies[code].host_id,
        s.identified(sid, client).lobbies[code].hosted_by(holder),
        s.identified(sid, client).lobbies[code].host_id == s.lobbies[code].host_id,
        s.quit(sid).lobbies.contains_key(code),
        s.quit(sid).lobbies[code].hosted_by(holder),
        s.quit(sid).lobbies[code].host_id == s.lobbies[code].host_id,
        s.disconnected(sid).lobbies.contains_key(code),
        s.disconnected(sid).lobbies[code].hosted_by(holder),
        s.disconnected(sid).lobbies[code].host_id == s.lobbies[code].host_id,
{
    assert(s.lobbies[code].well_formed());
    assert(s.lobbies[code].without(sid).members.dom().contains(holder));
    assert(!s.lobbies[code].without(sid).members.is_empty());
}

/// A host that leaves makes room for the next: nobody hosts the lobby then, whoever is left
/// in it is told so, and may be named.
pub proof fn a_host_that_leaves_makes_room(s: Registry, code: Seq<char>, holder: Sid, peer: Sid, actions: Seq<Action>)
    requires
        s.inv(),
        s.lobbies.contains_key(code),
        s.lobbies[code].hosted_by(holder),
        peer != holder,
        s.lobby_of(peer) == Some(code),
        crate::socket::departs(s, holder, code, actions),
    ensures
        s.quit(holder).lobbies.contains_key(code),
        s.quit(holder).lobbies[code].host_sid is None,
        s.quit(holder).lobbies[code].host_id_or_unset() == -1,
        s.quit(holder).accepts_host(peer, code),
        actions.contains(Action::Deliver { to: peer, message: Message::SetHost { host_id: -1i64 } }),
{
    assert(s.lobbies[code].well_formed());
    assert(s.lobbies[code].without(holder).members.dom().contains(peer));
    assert(!s.lobbies[code].without(holder).members.is_empty());
    let peers = choose|peers: Seq<Sid>|
        {
            &&& #[trigger] crate::lobby::enumerates(peers, s.peers_in(code, holder))
            &&& actions == crate::socket::departure(s, holder, code, peers)
        };
    lemma_to_each(s, code, holder, Message::SetHost { host_id: -1i64 }, peers);
    let released = crate::socket::to_each(peers, Message::SetHost { host_id: -1i64 });
    let i = choose|i: int|
        0 <= i < peers.len() && #[trigger] released[i] == (Action::Deliver {
            to: peer,
            message: Message::SetHost { host_id: -1i64 },
        });
    assert(actions[peers.len() + i] == released[i]);
}

/// Whoever joins a lobby nobody hosts and claims to host it, does.
pub proof fn a_claim_nobody_holds_succeeds(s: Registry, sid: Sid, code: Seq<char>, client: Client)
    requires
        s.inv(),
        s.lobby_or_vacant(code).host_id is None,
    ensures
        s.joined(sid, code, client, true).lobbies[code].hosted_by(sid),
        s.joined(sid, code, client, true).lobbies[code].host_id_or_unset() == client.client_id,
{
    assert(s.before_joining(sid, code).lobby_or_vacant(code) == s.lobby_or_vacant(code));
}

/// The last socket to leave a lobby takes the lobby with it, and its card on the public list.
pub proof fn the_last_to_leave_takes_the_card_off(s: Registry, sid: Sid, code: Seq<char>)
    requires
        s.inv(),
        s.lobby_of(sid) == Some(code),
        forall|peer: Sid| #[trigger] s.lobby_of(peer) == Some(code) ==> peer == sid,
    ensures
        !s.quit(sid).lobbies.contains_key(code),
        !s.quit(sid).public_lobbies.contains_key(code),
        s.public_lobbies.contains_key(code) ==> !s.quit(sid).lobby_codes.contains_key(s.public_lobbies[code].id),
{
    assert(s.lobbies[code].without(sid).members.dom() =~= Set::empty()) by {
        assert forall|o: Sid| !s.lobbies[code].without(sid).members.contains_key(o) by {
            if s.lobbies[code].without(sid).members.contains_key(o) {
                assert(s.lobbies[code].members.contains_key(o));
            }
        }
    }
    assert(s.lobbies[code].without(sid).members.is_empty());
}

/// A lobby that has been published is found by the id on its card.
pub proof fn a_published_lobby_is_found_by_its_id(
    s: Registry,
    code: Seq<char>,
    input: PublicLobbyInput,
    id: u64,
    now: i64,
)
    requires
        input.asks_public(),
    ensures
        ({
            let card = s.listing_card(code, input, id, now);
            &&& s.listed(code, input, id, now).public_lobby(card.id) == Some((code, card))
            &&& s.listed(code, input, id, now).once_public(card.id)
            &&& card.is_public
            &&& card.joinable() <==> card.game_state == GAME_STATE_LOBBY
        }),
{
}

/// A lobby that has been taken off the public list is not found any more, but it is known
/// that it was there.
pub proof fn a_lobby_taken_off_is_found_no_more(s: Registry, code: Seq<char>)
    requires
        s.inv(),
        s.public_lobbies.contains_key(code),
    ensures
        s.unlisted(code).once_public(s.public_lobbies[code].id),
        s.unlisted(code).public_lobby(s.public_lobbies[code].id) is None,
        !s.unlisted(code).lobby_codes.contains_key(s.public_lobbies[code].id),
        !s.unlisted(code).public_lobbies.contains_key(code),
{
}

/// Drawing an id puts nothing on the public list: which ids were ever there stays the same.
pub proof fn drawing_an_id_lists_nothing(s: Registry, id: u64, other: u64)
    ensures
        s.id_taken(id).once_public(other) == s.once_public(other),
        s.id_taken(id).public_lobby(other) == s.public_lobby(other),
{
}

/// A lobby keeps its id for as long as it is on the public list.
pub proof fn a_listed_lobby_keeps_its_id(s: Registry, code: Seq<char>, input: PublicLobbyInput, id: u64, now: i64)
    requires
        s.public_lobbies.contains_key(code),
    ensures
        s.listed(code, input, id, now).public_lobbies[code].id == s.public_lobbies[code].id,
{
}

/// The time on a card moves exactly when the lobby crosses into or out of the waiting state.
pub proof fn the_time_moves_when_waiting_starts_or_ends(
    s: Registry,
    code: Seq<char>,
    input: PublicLobbyInput,
    id: u64,
    now: i64,
)
    requires
        s.public_lobbies.contains_key(code),
    ensures
        ({
            let before = s.public_lobbies[code];
            let after = s.listed(code, input, id, now).public_lobbies[code];
            after.state_time == if (before.game_state == GAME_STATE_LOBBY) == (after.game_state == GAME_STATE_LOBBY) {
                before.state_time
            } else {
                now
            }
        }),
{
}

/// What a subscriber that reconnects is sent has no gap: every event after the one it saw
/// last, in order, up to the newest. It is given that exactly when all of it is still held.
pub proof fn a_replay_has_no_gap(s: Registry, last_seen: u64)
    requires
        s.inv(),
    ensures
        s.replay(last_seen) is Some <==> {
            &&& s.browser_seq > 0
            &&& last_seen <= s.browser_seq
            &&& s.browser_seq - last_seen <= BROWSER_LOG_LEN
        },
        s.replay(last_seen) matches Some(events) ==> {
            &&& events.len() == s.browser_seq - last_seen
            &&& forall|i: int| 0 <= i < events.len() ==> (#[trigger] events[i]).0 == last_seen + 1 + i
            &&& events == s.browser_log.skip(s.browser_log.len() - events.len())
        },
{
    if s.replay(last_seen) is Some {
        let later = |entry: (u64, BrowserEventView)| entry.0 > last_seen;
        lemma_filter_later(s.browser_log, last_seen, s.browser_log.len() - (s.browser_seq - last_seen));
        assert(s.browser_log.filter(later) == s.browser_log.skip(
            s.browser_log.len() - (s.browser_seq - last_seen),
        ));
    }
}

/// In a log in order, those after a position are its end.
proof fn lemma_filter_later(log: Seq<(u64, BrowserEventView)>, last_seen: u64, from: int)
    requires
        0 <= from <= log.len(),
        forall|i: int| 0 <= i < from ==> (#[trigger] log[i]).0 <= last_seen,
        forall|i: int| from <= i < log.len() ==> (#[trigger] log[i]).0 > last_seen,
    ensures
        log.filter(|entry: (u64, BrowserEventView)| entry.0 > last_seen) == log.skip(from),
    decreases log.len(),
{
    reveal_with_fuel(Seq::filter, 1);
    if log.len() > 0 {
        let rest = log.drop_last();
        if from == log.len() {
            lemma_filter_later(rest, last_seen, from - 1);
            assert(rest.skip(from - 1) =~= log.skip(from));
        } else {
            lemma_filter_later(rest, last_seen, from);
            assert(log.skip(from) =~= rest.skip(from).push(log.last()));
        }
    } else {
        assert(log.skip(from) =~= log);
    }
}

/// An event that is published is what a subscriber at the position before it is sent.
pub proof fn a_published_event_is_replayed(s: Registry, event: BrowserEventView)
    requires
        s.inv(),
        s.browser_seq < u64::MAX,
    ensures
        s.published(event).replay(s.browser_seq) == Some(seq![((s.browser_seq + 1) as u64, event)]),
        s.published(event).replay((s.browser_seq + 1) as u64) == Some(Seq::<(u64, BrowserEventView)>::empty()),
{
    let u = s.published(event);
    publishing_keeps_the_server_consistent(s, event);
    a_replay_has_no_gap(u, s.browser_seq);
    a_replay_has_no_gap(u, (s.browser_seq + 1) as u64);
    assert(u.browser_log.skip(u.browser_log.len() - 1) =~= seq![((s.browser_seq + 1) as u64, event)]);
    assert(u.browser_log.skip(u.browser_log.len() as int) =~= Seq::empty());
}

/// A subscriber of the lobby stream that leaves gives its place back.
pub proof fn a_place_on_the_stream_is_given_back(s: Registry)
    requires
        s.inv(),
    ensures
        s.stream_subscribers < MAX_STREAM_SUBSCRIBERS ==> s.subscribed().unsubscribed() == s,
        s.stream_subscribers > 0 ==> s.unsubscribed().stream_subscribers < MAX_STREAM_SUBSCRIBERS,
        s.subscribed().stream_subscribers <= MAX_STREAM_SUBSCRIBERS,
{
}

/// No id is issued twice, as long as there is one left, whatever hash is drawn for it.
pub proof fn no_id_is_issued_twice(s: Registry, hash: u64, id: u64)
    requires
        s.issued.len() < LOBBY_IDS,
        crate::registry::issues(s.issued, hash, id),
    ensures
        !s.issued.contains(id),
        s.id_taken(id).issued.contains(id),
        forall|other: u64| #[trigger] s.issued.contains(other) ==> s.id_taken(id).issued.contains(other),
{
}

} // verus!
