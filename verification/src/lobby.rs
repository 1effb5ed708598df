//! Lobbies, and who is in them.

use crate::config::copy_text;
use crate::sid::Sid;
use std::collections::HashMap;
use vstd::prelude::*;

verus! {

/// The identity a client claims for itself. It is recorded, never verified.
#[derive(Clone, Copy, PartialEq, Eq, Structural, Debug)]
pub struct Client {
    pub player_id: i64,
    pub client_id: i64,
}

/// A member of one lobby.
#[derive(Clone, Copy, PartialEq, Eq, Debug)]
pub struct Member {
    pub client: Option<Client>,
}

impl Default for Member {
    fn default() -> (r: Self)
        ensures
            r.client is None,
    {
        Member { client: None }
    }
}

/// What a socket is currently part of.
#[derive(Debug)]
pub struct Membership {
    /// The code of the lobby it is in.
    pub code: Option<String>,
    /// The identity it claims.
    pub client: Option<Client>,
    /// Whether it is watching the public lobby list.
    pub watching_lobbies: bool,
}

/// What a socket is part of, as a value.
pub struct MembershipView {
    pub code: Option<Seq<char>>,
    pub client: Option<Client>,
    pub watching_lobbies: bool,
}

impl View for Membership {
    type V = MembershipView;

    open spec fn view(&self) -> MembershipView {
        MembershipView {
            code: crate::config::optional_text(self.code),
            client: self.client,
            watching_lobbies: self.watching_lobbies,
        }
    }
}

impl MembershipView {
    /// A socket that has just been admitted.
    pub open spec fn fresh() -> MembershipView {
        MembershipView { code: None, client: None, watching_lobbies: false }
    }
}

impl Default for Membership {
    fn default() -> (r: Self)
        ensures
            r@ == MembershipView::fresh(),
    {
        Membership { code: None, client: None, watching_lobbies: false }
    }
}

impl Clone for Membership {
    fn clone(&self) -> (r: Self)
        ensures
            r@ == self@,
    {
        Membership {
            code: copy_text(&self.code),
            client: self.client,
            watching_lobbies: self.watching_lobbies,
        }
    }
}

/// One lobby: who is in it, and who has claimed to host it.
#[derive(Debug)]
pub struct Lobby {
    pub members: HashMap<Sid, Member>,
    /// The client id of the host. The first claimer wins, and holds it until they leave.
    pub host_id: Option<i64>,
    /// The socket that made the claim.
    pub host_sid: Option<Sid>,
}

/// What a lobby is, as a value.
#[verifier::ext_equal]
pub struct LobbyView {
    pub members: Map<Sid, Member>,
    pub host_id: Option<i64>,
    pub host_sid: Option<Sid>,
}

impl View for Lobby {
    type V = LobbyView;

    open spec fn view(&self) -> LobbyView {
        LobbyView { members: self.members@, host_id: self.host_id, host_sid: self.host_sid }
    }
}

/// `order` lists the elements of `set`, each exactly once.
pub open spec fn enumerates(order: Seq<Sid>, set: Set<Sid>) -> bool {
    &&& order.no_duplicates()
    &&& order.to_set() == set
}

impl LobbyView {
    /// A lobby nobody is in.
    pub open spec fn vacant() -> LobbyView {
        LobbyView { members: Map::empty(), host_id: None, host_sid: None }
    }

    /// The host's client id, or -1 when nobody has claimed it.
    pub open spec fn host_id_or_unset(self) -> i64 {
        match self.host_id {
            Some(id) => id,
            None => -1i64,
        }
    }

    /// The lobby once a socket that may claim to host it has come in under an identity. The
    /// claim is ignored while somebody holds it.
    pub open spec fn joined(self, sid: Sid, client: Client, claims_host: bool) -> LobbyView {
        let claimed = claims_host && self.host_id is None;
        LobbyView {
            members: self.members.insert(sid, Member { client: Some(client) }),
            host_id: if claimed { Some(client.client_id) } else { self.host_id },
            host_sid: if claimed { Some(sid) } else { self.host_sid },
        }
    }

    /// The lobby once a member is known under an identity.
    pub open spec fn identified(self, sid: Sid, client: Client) -> LobbyView {
        LobbyView { members: self.members.insert(sid, Member { client: Some(client) }), ..self }
    }

    /// Whether a socket holds the claim to host the lobby.
    pub open spec fn hosted_by(self, sid: Sid) -> bool {
        self.host_sid == Some(sid)
    }

    /// The lobby once a socket has left it. A host that leaves releases the claim.
    pub open spec fn without(self, sid: Sid) -> LobbyView {
        LobbyView {
            members: self.members.remove(sid),
            host_id: if self.hosted_by(sid) { None } else { self.host_id },
            host_sid: if self.hosted_by(sid) { None } else { self.host_sid },
        }
    }

    /// Whether a socket may set the host: nobody holds the claim, or it does itself.
    pub open spec fn accepts_host(self, sid: Sid) -> bool {
        self.host_sid is None || self.hosted_by(sid)
    }

    /// The lobby once a socket that may set the host has named one.
    pub open spec fn claimed(self, sid: Sid, client_id: i64) -> LobbyView {
        LobbyView { host_id: Some(client_id), host_sid: Some(sid), ..self }
    }

    /// `list` holds every member other than one whose identity is known, each exactly once,
    /// with that identity.
    pub open spec fn lists_clients(self, list: Seq<(Sid, Client)>, except: Sid) -> bool {
        &&& list.no_duplicates()
        &&& forall|sid: Sid, client: Client| #[trigger]
            list.contains((sid, client)) <==> {
                &&& sid != except
                &&& self.members.contains_key(sid)
                &&& self.members[sid].client == Some(client)
            }
    }

    /// Everybody in the lobby but one socket.
    pub open spec fn peers(self, except: Sid) -> Set<Sid> {
        self.members.dom().remove(except)
    }
}

impl Clone for Lobby {
    fn clone(&self) -> (r: Self)
        ensures
            r@ == self@,
    {
        Lobby { members: self.members.clone(), host_id: self.host_id, host_sid: self.host_sid }
    }
}

impl Default for Lobby {
    fn default() -> (r: Self)
        ensures
            r@ == LobbyView::vacant(),
    {
        Lobby { members: HashMap::new(), host_id: None, host_sid: None }
    }
}

impl Lobby {
    /// The host's client id, or -1 when nobody has claimed it.
    pub fn host_id_or_unset(&self) -> (r: i64)
        ensures
            r == self@.host_id_or_unset(),
    {
        self.host_id.unwrap_or(-1)
    }

    /// The sockets in the lobby, in no particular order.
    fn sids(&self) -> (r: Vec<Sid>)
        ensures
            enumerates(r@, self@.members.dom()),
    {
        let ghost keys = vstd::std_specs::iter::IteratorSpec::remaining(&self.members.keys()).unref();
        let mut out: Vec<Sid> = Vec::new();
        for sid in it: self.members.keys()
            invariant
                it.seq().unref() == keys,
                it.seq().no_duplicates(),
                out@ == keys.take(it.index() as int),
        {
            out.push(*sid);
        }
        assert(keys.take(keys.len() as int) == keys);
        out
    }

    /// The sockets in the lobby other than one, in no particular order.
    pub fn peers(&self, except: Sid) -> (r: Vec<Sid>)
        ensures
            enumerates(r@, self@.peers(except)),
    {
        let all = self.sids();
        let mut out: Vec<Sid> = Vec::new();
        for i in 0..all.len()
            invariant
                all@.no_duplicates(),
                out@.no_duplicates(),
                out@.to_set() == all@.take(i as int).to_set().remove(except),
        {
            let sid = all[i];
            proof {
                lemma_to_set_push(all@.take(i as int), sid);
                assert(all@.take(i + 1) == all@.take(i as int).push(sid));
                assert(!all@.take(i as int).contains(sid));
                lemma_to_set_push(out@, sid);
                assert(out@.contains(sid) ==> out@.to_set().contains(sid));
            }
            if sid != except {
                out.push(sid);
            }
        }
        assert(all@.take(all@.len() as int) == all@);
        out
    }

    /// The members other than one whose identity is known, in no particular order.
    pub fn clients(&self, except: Sid) -> (r: Vec<(Sid, Client)>)
        ensures
            self@.lists_clients(r@, except),
    {
        let peers = self.peers(except);
        let mut out: Vec<(Sid, Client)> = Vec::new();
        for i in 0..peers.len()
            invariant
                enumerates(peers@, self@.peers(except)),
                out@.no_duplicates(),
                forall|sid: Sid, client: Client| #[trigger]
                    out@.contains((sid, client)) <==> {
                        &&& peers@.take(i as int).contains(sid)
                        &&& self@.members[sid].client == Some(client)
                    },
        {
            let sid = peers[i];
            let ghost before = out@;
            assert(peers@.to_set().contains(sid));
            assert(!peers@.take(i as int).contains(sid));
            assert(peers@.take(i + 1) == peers@.take(i as int).push(sid));
            proof {
                lemma_contains_push(peers@.take(i as int), sid);
            }
            if let Some(member) = self.members.get(&sid) {
                if let Some(client) = member.client {
                    proof {
                        lemma_contains_push(before, (sid, client));
                        assert(before.contains((sid, client)) ==> peers@.take(i as int).contains(sid));
                    }
                    out.push((sid, client));
                }
            }
        }
        proof {
            assert(peers@.take(peers@.len() as int) == peers@);
            assert forall|sid: Sid| peers@.contains(sid) <==> self@.peers(except).contains(sid) by {
                assert(peers@.to_set().contains(sid) == peers@.contains(sid));
            }
        }
        out
    }

    /// Lets a socket in under an identity, recording its claim to host if nobody holds one.
    pub fn join(&mut self, sid: Sid, client: Client, claims_host: bool)
        ensures
            final(self)@ == old(self)@.joined(sid, client, claims_host),
    {
        if claims_host && self.host_id.is_none() {
            self.host_id = Some(client.client_id);
            self.host_sid = Some(sid);
        }
        self.identify(sid, client);
    }

    /// Records the identity a socket claims.
    pub fn identify(&mut self, sid: Sid, client: Client)
        ensures
            final(self)@ == old(self)@.identified(sid, client),
    {
        self.members.insert(sid, Member { client: Some(client) });
    }

    /// Takes a socket out, releasing its claim to host if it holds one. Returns whether it did.
    pub fn leave(&mut self, sid: Sid) -> (released: bool)
        ensures
            final(self)@ == old(self)@.without(sid),
            released == old(self)@.hosted_by(sid),
    {
        self.members.remove(&sid);
        let released = match self.host_sid {
            Some(holder) => holder == sid,
            None => false,
        };
        if released {
            self.host_sid = None;
            self.host_id = None;
        }
        released
    }

    /// Lets a socket name the host, unless another socket holds the claim.
    pub fn set_host(&mut self, sid: Sid, client_id: i64) -> (accepted: bool)
        ensures
            accepted == old(self)@.accepts_host(sid),
            final(self)@ == if accepted { old(self)@.claimed(sid, client_id) } else { old(self)@ },
    {
        let accepted = match self.host_sid {
            Some(holder) => holder == sid,
            None => true,
        };
        if accepted {
            self.host_id = Some(client_id);
            self.host_sid = Some(sid);
        }
        accepted
    }
}

/// What a sequence holds after one more element.
proof fn lemma_contains_push<A>(s: Seq<A>, x: A)
    ensures
        forall|y: A| #[trigger] s.push(x).contains(y) <==> s.contains(y) || y == x,
{
    assert forall|y: A| #[trigger] s.push(x).contains(y) <==> s.contains(y) || y == x by {
        lemma_to_set_push(s, x);
        assert(s.push(x).to_set().contains(y) == s.push(x).contains(y));
        assert(s.to_set().contains(y) == s.contains(y));
    }
}

/// Appending an element adds it to the set of elements.
proof fn lemma_to_set_push<A>(s: Seq<A>, x: A)
    ensures
        s.push(x).to_set() == s.to_set().insert(x),
{
    assert forall|y: A| s.to_set().insert(x).contains(y) implies s.push(x).to_set().contains(y) by {
        if y == x {
            assert(s.push(x)[s.len() as int] == x);
        } else {
            let k = s.index_of(y);
            assert(s.push(x)[k] == y);
        }
    }
    assert(s.push(x).to_set() =~= s.to_set().insert(x));
}

} // verus!
