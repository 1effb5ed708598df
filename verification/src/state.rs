//! The state of the server: the lobby registry, the counters, and the lobby stream.

use crate::config::PeerConfigProvider;
use crate::listing::PublicLobby;
use crate::lobby::{Lobby, Membership};
use crate::registry::{
    BrowserEvent, BrowserEventView, Counters, Registry, BROWSER_LOG_LEN, LOBBY_IDS, MAX_STREAM_SUBSCRIBERS,
};
use crate::sid::Sid;
use crate::tables::{count_lobbies, get_lobby, get_member, new_codes, new_lobbies, new_members, new_public};
use dashmap::DashMap;
use std::collections::HashMap;
use std::collections::VecDeque;
use std::hash::RandomState;
use vstd::prelude::*;

verus! {

/// The state of the server.
pub struct AppState {
    pub(crate) name: Option<String>,
    pub(crate) public_address: String,
    pub(crate) peer_config: PeerConfigProvider,
    pub(crate) lobbies: DashMap<String, Lobby>,
    pub(crate) members: DashMap<Sid, Membership>,
    pub(crate) public_lobbies: DashMap<String, PublicLobby>,
    pub(crate) lobby_codes: DashMap<u64, String>,
    pub(crate) lobby_seq: u64,
    /// Randomly seeded per process, so one issued id says nothing about the next.
    pub(crate) lobby_id_hasher: RandomState,
    pub(crate) issued: HashMap<u64, ()>,
    pub(crate) once_listed: HashMap<u64, ()>,
    pub(crate) connections: i64,
    pub(crate) stream_subscribers: usize,
    pub(crate) counters: Counters,
    pub(crate) browser_seq: u64,
    pub(crate) browser_log: VecDeque<(u64, BrowserEvent)>,
}

impl View for AppState {
    type V = Registry;

    open(crate) spec fn view(&self) -> Registry {
        Registry {
            name: crate::config::optional_text(self.name),
            public_address: self.public_address@,
            peer_config: self.peer_config@,
            lobbies: crate::tables::lobby_contents(self.lobbies),
            members: crate::tables::member_contents(self.members),
            public_lobbies: crate::tables::public_contents(self.public_lobbies),
            lobby_codes: crate::tables::code_contents(self.lobby_codes),
            lobby_seq: self.lobby_seq,
            issued: self.issued@.dom(),
            once_listed: self.once_listed@.dom(),
            connections: self.connections,
            stream_subscribers: self.stream_subscribers,
            counters: self.counters,
            browser_seq: self.browser_seq,
            browser_log: self.browser_log@.map_values(|entry: (u64, BrowserEvent)| (entry.0, entry.1@)),
        }
    }
}

/// `RandomState::new`: a hasher builder with keys of its own. Nothing is known of the keys.
pub assume_specification[ RandomState::new ]() -> (hasher: RandomState);

/// Calls `BuildHasher::hash_one`. What it returns depends on keys that are random per
/// process, so nothing is known of it.
#[verifier::external_body]
fn hash_number(hasher: &RandomState, n: u64) -> (hash: u64) {
    std::hash::BuildHasher::hash_one(hasher, n)
}

/// One subscriber's place on the lobby stream.
#[derive(Debug)]
pub struct StreamSlot {
    taken: (),
}

impl AppState {
    /// The state of a server that has just started.
    pub fn new(peer_config: PeerConfigProvider, name: Option<String>, public_address: String) -> (r: Self)
        ensures
            r@ == Registry::started(peer_config@, crate::config::optional_text(name), public_address@),
    {
        let r = AppState {
            name,
            public_address,
            peer_config,
            lobbies: new_lobbies(),
            members: new_members(),
            public_lobbies: new_public(),
            lobby_codes: new_codes(),
            lobby_seq: 0,
            lobby_id_hasher: RandomState::new(),
            issued: HashMap::new(),
            once_listed: HashMap::new(),
            connections: 0,
            stream_subscribers: 0,
            counters: Counters::default(),
            browser_seq: 0,
            browser_log: VecDeque::with_capacity(BROWSER_LOG_LEN),
        };
        assert(r@ =~= Registry::started(peer_config@, crate::config::optional_text(name), public_address@));
        r
    }

    /// The position a subscriber starting now should report.
    pub fn browser_position(&self) -> (r: u64)
        ensures
            r == self@.browser_seq,
    {
        self.browser_seq
    }

    /// The events after a position, or `None` when that point is no longer held, or never
    /// was, and the subscriber has to be given a fresh snapshot instead.
    pub fn replay_since(&self, last_seen: Option<u64>) -> (r: Option<Vec<(u64, BrowserEvent)>>)
        ensures
            match last_seen {
                Some(position) => match (r, self@.replay(position)) {
                    (Some(events), Some(replayed)) => events_view(events@) == replayed,
                    (None, None) => true,
                    _ => false,
                },
                None => r is None,
            },
    {
        let position = last_seen?;
        if position > self.browser_seq {
            return None;
        }
        if self.browser_log.len() == 0 {
            return None;
        }
        let oldest: u64 = self.browser_log[0].0;
        if position.saturating_add(1) < oldest {
            return None;
        }
        let ghost log = self@.browser_log;
        let ghost later = |entry: (u64, BrowserEventView)| entry.0 > position;
        let mut out: Vec<(u64, BrowserEvent)> = Vec::new();
        assert(events_view(out@) == log.take(0).filter(later));
        for i in 0..self.browser_log.len()
            invariant
                log == self@.browser_log,
                later == (|entry: (u64, BrowserEventView)| entry.0 > position),
                events_view(out@) == log.take(i as int).filter(later),
        {
            let ghost before = out@;
            let id: u64 = self.browser_log[i].0;
            proof {
                reveal_with_fuel(Seq::filter, 1);
                assert(log.take(i + 1).drop_last() == log.take(i as int));
                assert(log.take(i + 1).last() == log[i as int]);
            }
            if id > position {
                let event = self.browser_log[i].1.clone();
                out.push((id, event));
                assert(events_view(out@) == events_view(before).push((id, event@)));
            }
        }
        assert(log.take(log.len() as int) == log);
        Some(out)
    }

    /// The lobby id a hash gives: the first one from there that has not been issued. Ids stay
    /// below 2^53, which is what a client's JSON number holds exactly.
    pub fn lobby_id_from(&self, hash: u64) -> (r: u64)
        ensures
            r < LOBBY_IDS,
            crate::registry::issues(self@.issued, hash, r),
    {
        let first: u64 = hash % LOBBY_IDS;
        if self.issued.len() as u64 >= LOBBY_IDS {
            return first;
        }
        let mut id: u64 = first;
        let ghost mut steps: nat = 0;
        while self.issued.contains_key(&id)
            invariant
                first == hash % LOBBY_IDS,
                id == crate::registry::id_after(hash, steps),
                id < LOBBY_IDS,
                steps <= LOBBY_IDS,
                self.issued@.dom().len() < LOBBY_IDS,
                forall|k: nat| k < steps ==> self.issued@.dom().contains(#[trigger] crate::registry::id_after(hash, k) as u64),
            decreases LOBBY_IDS - steps,
        {
            proof {
                if steps == LOBBY_IDS {
                    lemma_all_issued(self.issued@.dom(), hash);
                }
                lemma_id_after_next(hash, steps);
                steps = steps + 1;
            }
            id = if id + 1 == LOBBY_IDS { 0 } else { id + 1 };
        }
        id
    }

    /// An unguessable lobby id, and one a browser can still hold exactly. Sequential ids
    /// would let anybody collect the code of every public lobby by counting. No id is issued
    /// twice, however the hasher behaves.
    pub fn next_lobby_id(&mut self) -> (r: u64)
        ensures
            r < LOBBY_IDS,
            exists|hash: u64| #[trigger] crate::registry::issues(old(self)@.issued, hash, r),
            old(self)@.issued.len() < LOBBY_IDS ==> !old(self)@.issued.contains(r),
            final(self)@ == old(self)@.id_taken(r),
    {
        let hash: u64 = hash_number(&self.lobby_id_hasher, self.lobby_seq);
        let id = self.lobby_id_from(hash);
        self.lobby_seq = self.lobby_seq.wrapping_add(1);
        self.issued.insert(id, ());
        assert(self@ =~= old(self)@.id_taken(id));
        id
    }

    /// How many lobbies there are.
    pub fn lobby_count(&self) -> (r: usize)
        ensures
            r == self@.lobbies.len(),
    {
        count_lobbies(&self.lobbies)
    }

    /// Whether a socket is in the lobby another one is in: the one predicate the envelope
    /// rules exist for.
    pub fn are_co_members(&self, from: Sid, to: Sid) -> (r: bool)
        ensures
            r == self@.co_members(from, to),
    {
        let code = match self.lobby_code_of(from) {
            Some(code) => code,
            None => return false,
        };
        match get_lobby(&self.lobbies, code.as_str()) {
            Some(lobby) => lobby.members.contains_key(&to),
            None => false,
        }
    }

    /// The code of the lobby a socket is in.
    pub(crate) fn lobby_code_of(&self, sid: Sid) -> (r: Option<String>)
        ensures
            crate::config::optional_text(r) == self@.lobby_of(sid),
    {
        match get_member(&self.members, sid) {
            Some(membership) => membership.code,
            None => None,
        }
    }

    /// The sockets to deliver to in a lobby, excluding one, in no particular order.
    pub fn peers_in(&self, code: &str, except: Sid) -> (r: Vec<Sid>)
        ensures
            crate::lobby::enumerates(r@, self@.peers_in(code@, except)),
    {
        match get_lobby(&self.lobbies, code) {
            Some(lobby) => lobby.peers(except),
            None => {
                let none: Vec<Sid> = Vec::new();
                assert(none@.to_set() =~= Set::<Sid>::empty());
                none
            },
        }
    }

    /// Takes a subscriber's place on the lobby stream, or turns it away, and counts that, when
    /// the server is already at its cap.
    pub fn take_stream_slot(&mut self) -> (r: Option<StreamSlot>)
        ensures
            r is Some <==> old(self)@.stream_subscribers < MAX_STREAM_SUBSCRIBERS,
            final(self)@ == old(self)@.subscribed(),
    {
        if self.stream_subscribers < MAX_STREAM_SUBSCRIBERS {
            self.stream_subscribers = self.stream_subscribers + 1;
            assert(self@ =~= old(self)@.subscribed());
            Some(StreamSlot { taken: () })
        } else {
            self.counters.refused_subscribers = self.counters.refused_subscribers.wrapping_add(1);
            assert(self@ =~= old(self)@.subscribed());
            None
        }
    }

    /// Gives a subscriber's place back.
    pub fn release_stream_slot(&mut self, slot: StreamSlot)
        ensures
            final(self)@ == old(self)@.unsubscribed(),
    {
        let _ = slot;
        self.stream_subscribers = self.stream_subscribers.wrapping_sub(1);
        assert(self@ =~= old(self)@.unsubscribed());
    }

    /// Puts an event on the lobby stream, and returns its position there. Of the events kept
    /// for subscribers that reconnect, the oldest makes room.
    pub fn publish(&mut self, event: BrowserEvent) -> (position: u64)
        ensures
            final(self)@ == old(self)@.published(event@),
            position == final(self)@.browser_seq,
    {
        let position: u64 = self.browser_seq.wrapping_add(1);
        self.browser_seq = position;
        if self.browser_log.len() == BROWSER_LOG_LEN {
            self.browser_log.pop_front();
        }
        self.browser_log.push_back((position, event));
        assert(self@ =~= old(self)@.published(event@));
        position
    }
}

/// Events with their positions, as values.
pub open spec fn events_view(events: Seq<(u64, BrowserEvent)>) -> Seq<(u64, BrowserEventView)> {
    events.map_values(|entry: (u64, BrowserEvent)| (entry.0, entry.1@))
}

/// One step further is the next id, or the first after the last.
proof fn lemma_id_after_next(hash: u64, steps: nat)
    ensures
        crate::registry::id_after(hash, steps) < LOBBY_IDS,
        crate::registry::id_after(hash, steps + 1) == if crate::registry::id_after(hash, steps) + 1 == LOBBY_IDS {
            0
        } else {
            crate::registry::id_after(hash, steps) + 1
        },
{
    assert((hash as nat + steps) % LOBBY_IDS as nat == crate::registry::id_after(hash, steps));
}

/// When as many steps as there are ids have met only issued ones, every id has been issued.
proof fn lemma_all_issued(issued: Set<u64>, hash: u64)
    requires
        issued.finite(),
        forall|k: nat| k < LOBBY_IDS ==> issued.contains(#[trigger] crate::registry::id_after(hash, k) as u64),
    ensures
        issued.len() >= LOBBY_IDS,
{
    let steps = vstd::set_lib::set_int_range(0, LOBBY_IDS as int);
    let id = |k: int| crate::registry::id_after(hash, k as nat) as u64;
    vstd::set_lib::lemma_int_range(0, LOBBY_IDS as int);
    assert(vstd::relations::injective_on(id, steps)) by {
        assert forall|a: int, b: int| steps.contains(a) && steps.contains(b) && id(a) == id(b) implies a == b by {
            lemma_id_after_next(hash, a as nat);
            lemma_id_after_next(hash, b as nat);
            assert((hash + a) % LOBBY_IDS as int == (hash + b) % LOBBY_IDS as int);
        }
    }
    let ids = steps.map(id);
    vstd::set_lib::lemma_map_size(steps, ids, id);
    assert(ids.subset_of(issued)) by {
        assert forall|x: u64| ids.contains(x) implies issued.contains(x) by {
            let k = choose|k: int| steps.contains(k) && x == id(k);
            assert(issued.contains(crate::registry::id_after(hash, k as nat) as u64));
        }
    }
    vstd::set_lib::lemma_len_subset(ids, issued);
}

} // verus!
