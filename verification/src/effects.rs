//! What each event does to the server, in terms of who is in which lobby, who hosts it, what is
//! on the public list and what is on the lobby stream; and what it leaves alone.

use crate::listing::{Field, PublicLobby, PublicLobbyInput, PublicLobbyView};
use crate::lobby::{Client, LobbyView, Member, MembershipView};
use crate::registry::{BrowserEvent, BrowserEventView, Counters, Registry};
use crate::sid::Sid;
use crate::socket::{Action, Announcement, Event, JoinIn, Limit, Message};
use vstd::prelude::*;

verus! {

/// An event has been put on the lobby stream, at the next position. Of the events kept, at
/// most 256, the oldest has made room.
pub open spec fn streamed(s: Registry, u: Registry, event: BrowserEventView) -> bool {
    let kept = if s.browser_log.len() == 256 {
        s.browser_log.skip(1)
    } else {
        s.browser_log
    };
    &&& u.browser_seq == s.browser_seq + 1
    &&& u.browser_log == kept.push(((s.browser_seq + 1) as u64, event))
}

/// Nothing has been put on the lobby stream.
pub open spec fn silent(s: Registry, u: Registry) -> bool {
    u.browser_seq == s.browser_seq && u.browser_log == s.browser_log
}

/// A lobby once a socket has gone: it is not a member, and not the host.
pub open spec fn emptied_of(lobby: LobbyView, sid: Sid) -> LobbyView {
    LobbyView {
        members: lobby.members.remove(sid),
        host_id: if lobby.host_sid == Some(sid) { None } else { lobby.host_id },
        host_sid: if lobby.host_sid == Some(sid) { None } else { lobby.host_sid },
    }
}

/// Whether somebody other than a socket is in a lobby.
pub open spec fn others_in(s: Registry, code: Seq<char>, sid: Sid) -> bool {
    s.lobbies.contains_key(code) && exists|o: Sid| o != sid && #[trigger] s.lobbies[code].members.contains_key(o)
}

/// A lobby is as it was without a socket: it is still there exactly if somebody else is in it.
pub open spec fn left_behind(s: Registry, u: Registry, code: Seq<char>, sid: Sid) -> bool {
    &&& u.lobbies.contains_key(code) <==> others_in(s, code, sid)
    &&& u.lobbies.contains_key(code) ==> u.lobbies[code] == emptied_of(s.lobbies[code], sid)
}

/// The public list has kept the cards of the lobbies that are still there, and their codes. A
/// card that has gone is on the stream; otherwise nothing new is.
pub open spec fn list_follows(s: Registry, u: Registry) -> bool {
    &&& forall|c: Seq<char>| #[trigger]
        u.public_lobbies.contains_key(c) <==> s.public_lobbies.contains_key(c) && u.lobbies.contains_key(c)
    &&& forall|c: Seq<char>| #[trigger]
        u.public_lobbies.contains_key(c) ==> u.public_lobbies[c] == s.public_lobbies[c]
    &&& forall|id: u64| #[trigger]
        u.lobby_codes.contains_key(id) <==> s.lobby_codes.contains_key(id) && u.lobbies.contains_key(
            s.lobby_codes[id],
        )
    &&& forall|id: u64| #[trigger] u.lobby_codes.contains_key(id) ==> u.lobby_codes[id] == s.lobby_codes[id]
    &&& forall|c: Seq<char>| #[trigger]
        s.public_lobbies.contains_key(c) && !u.lobbies.contains_key(c) ==> streamed(
            s,
            u,
            BrowserEventView::RemoveLobby(s.public_lobbies[c].id),
        )
    &&& (forall|c: Seq<char>| #[trigger] s.public_lobbies.contains_key(c) ==> u.lobbies.contains_key(c)) ==> silent(
        s,
        u,
    )
}

/// What leaving a lobby does to the lobbies, the list and the stream. `t` is `s` but for what is
/// recorded of the socket.
#[verifier::spinoff_prover]
#[verifier::rlimit(40)]
proof fn lemma_left_behind(s: Registry, t: Registry, sid: Sid, code: Seq<char>)
    requires
        s.inv(),
        s.browser_seq < u64::MAX,
        s.lobby_of(sid) == Some(code),
        t == (Registry { members: t.members, ..s }),
    ensures
        ({
            let u = t.left(sid, code);
            &&& forall|c: Seq<char>| #[trigger] left_behind(s, u, c, sid)
            &&& list_follows(s, u)
            &&& u.members == t.members
            &&& u == (Registry {
                lobbies: u.lobbies,
                members: u.members,
                public_lobbies: u.public_lobbies,
                lobby_codes: u.lobby_codes,
                browser_seq: u.browser_seq,
                browser_log: u.browser_log,
                ..s
            })
        }),
{
    let u = t.left(sid, code);
    let rest = s.lobbies[code].members.remove(sid);
    assert(s.lobbies[code].well_formed());
    assert(rest.is_empty() <==> !others_in(s, code, sid)) by {
        if rest.is_empty() && others_in(s, code, sid) {
            let o = choose|o: Sid| o != sid && #[trigger] s.lobbies[code].members.contains_key(o);
            assert(rest.dom().contains(o));
        }
        if !rest.is_empty() && !others_in(s, code, sid) {
            assert(rest.dom() =~= Set::empty());
        }
    }
    assert forall|c: Seq<char>| #[trigger] left_behind(s, u, c, sid) by {
        if c != code && s.lobbies.contains_key(c) {
            assert(s.lobbies[c].well_formed());
            let o = choose|o: Sid| s.lobbies[c].members.contains_key(o);
            assert(s.lobbies[c].members.contains_key(o));
            assert(!s.lobbies[c].members.contains_key(sid));
            assert(s.lobbies[c].members.remove(sid) =~= s.lobbies[c].members);
            assert(u.lobbies[c] == s.lobbies[c]);
            assert(emptied_of(s.lobbies[c], sid) =~= s.lobbies[c]);
        }
    }
    assert forall|id: u64| #[trigger] u.lobby_codes.contains_key(id) <==> s.lobby_codes.contains_key(id)
        && u.lobbies.contains_key(s.lobby_codes[id]) by {
        if s.lobby_codes.contains_key(id) {
            assert(s.public_lobbies.contains_key(s.lobby_codes[id]));
        }
        if s.public_lobbies.contains_key(code) {
            assert(s.lobby_codes[s.public_lobbies[code].id] == code);
        }
    }
    assert forall|c: Seq<char>| #[trigger] u.public_lobbies.contains_key(c) <==> s.public_lobbies.contains_key(c)
        && u.lobbies.contains_key(c) by {
        if s.public_lobbies.contains_key(c) {
            assert(s.lobbies.contains_key(c));
        }
    }
    assert forall|c: Seq<char>| #[trigger]
        s.public_lobbies.contains_key(c) && !u.lobbies.contains_key(c) implies streamed(
        s,
        u,
        BrowserEventView::RemoveLobby(s.public_lobbies[c].id),
    ) by {
        assert(s.lobbies.contains_key(c));
        assert(c == code);
    }
}

/// A socket that leaves is in no lobby, and nothing else is recorded of it than before. Nobody
/// else moves. The lobby it was in is there exactly as long as somebody is in it, and loses its
/// host only if that was the one who left.
pub proof fn leaving_takes_one_socket_out(s: Registry, sid: Sid)
    requires
        s.inv(),
        s.browser_seq < u64::MAX,
        s.members.contains_key(sid),
        s.members[sid].code is Some,
    ensures
        ({
            let u = s.quit(sid);
            &&& u.members == s.members.insert(
                sid,
                MembershipView {
                    code: None,
                    client: s.members[sid].client,
                    watching_lobbies: s.members[sid].watching_lobbies,
                },
            )
            &&& forall|c: Seq<char>| #[trigger] left_behind(s, u, c, sid)
            &&& list_follows(s, u)
            &&& u == (Registry {
                lobbies: u.lobbies,
                members: u.members,
                public_lobbies: u.public_lobbies,
                lobby_codes: u.lobby_codes,
                browser_seq: u.browser_seq,
                browser_log: u.browser_log,
                ..s
            })
        }),
{
    let t = Registry {
        members: s.members.insert(sid, MembershipView { code: None, ..s.members[sid] }),
        ..s
    };
    lemma_left_behind(s, t, sid, s.members[sid].code->0);
}

/// A socket in no lobby that leaves changes nothing.
pub proof fn leaving_nothing_changes_nothing(s: Registry, sid: Sid)
    requires
        !s.members.contains_key(sid) || s.members[sid].code is None,
    ensures
        s.quit(sid) == s,
{
}

/// A socket that disconnects is forgotten and counted out. What is left of the lobby it was in
/// is what is left of it when a socket leaves; one that was in none changes nothing else.
pub proof fn disconnecting_takes_one_socket_out(s: Registry, sid: Sid)
    requires
        s.inv(),
        s.browser_seq < u64::MAX,
        s.members.contains_key(sid),
    ensures
        ({
            let u = s.disconnected(sid);
            &&& u.members == s.members.remove(sid)
            &&& u.connections == s.connections - 1
            &&& s.members[sid].code is Some ==> {
                &&& forall|c: Seq<char>| #[trigger] left_behind(s, u, c, sid)
                &&& list_follows(s, u)
            }
            &&& s.members[sid].code is None ==> u == (Registry {
                members: u.members,
                connections: u.connections,
                ..s
            })
            &&& u == (Registry {
                lobbies: u.lobbies,
                members: u.members,
                public_lobbies: u.public_lobbies,
                lobby_codes: u.lobby_codes,
                connections: u.connections,
                browser_seq: u.browser_seq,
                browser_log: u.browser_log,
                ..s
            })
        }),
{
    let t = Registry { members: s.members.remove(sid), ..s };
    if s.members[sid].code is Some {
        lemma_left_behind(s, t, sid, s.members[sid].code->0);
        let v = t.left(sid, s.members[sid].code->0);
        let u = s.disconnected(sid);
        assert forall|c: Seq<char>| #[trigger] left_behind(s, u, c, sid) by {
            assert(left_behind(s, v, c, sid));
        }
        assert(list_follows(s, v));
        assert(u.public_lobbies == v.public_lobbies);
        assert(u.lobby_codes == v.lobby_codes);
        assert(u.lobbies == v.lobbies);
        assert(s.connections == s.members.len());
        assert(s.members.len() > 0) by {
            assert(s.members.dom().contains(sid));
        }
    } else {
        assert(s.members.dom().contains(sid));
        assert(s.members.len() > 0);
    }
}

/// A socket that joins a lobby is in it, under the identity it came with, and in no other. Nobody
/// else moves, and nobody else's identity changes. It hosts the lobby exactly if it claims to
/// and nobody did; otherwise the host is who it was. What it leaves behind elsewhere is what any
/// socket leaves behind.
#[verifier::spinoff_prover]
#[verifier::rlimit(40)]
pub proof fn joining_brings_one_socket_in(
    s: Registry,
    sid: Sid,
    code: Seq<char>,
    client: Client,
    claims_host: bool,
)
    requires
        s.inv(),
        s.browser_seq < u64::MAX,
        s.members.contains_key(sid),
    ensures
        ({
            let u = s.joined(sid, code, client, claims_host);
            let known = s.lobbies.contains_key(code);
            let before = s.lobbies[code];
            let after = u.lobbies[code];
            &&& u.members == s.members.insert(
                sid,
                MembershipView {
                    code: Some(code),
                    client: Some(client),
                    watching_lobbies: s.members[sid].watching_lobbies,
                },
            )
            &&& forall|c: Seq<char>| c != code ==> #[trigger] left_behind(s, u, c, sid)
            &&& u.lobbies.contains_key(code)
            &&& after.members.contains_key(sid)
            &&& after.members[sid].client == Some(client)
            &&& forall|o: Sid|
                o != sid ==> (#[trigger] after.members.contains_key(o) <==> known && before.members.contains_key(o))
            &&& forall|o: Sid|
                o != sid && #[trigger] after.members.contains_key(o) ==> after.members[o] == before.members[o]
            &&& known && before.host_id is Some ==> {
                &&& after.host_id == before.host_id
                &&& after.host_sid == before.host_sid
            }
            &&& (!known || before.host_id is None) && claims_host ==> {
                &&& after.host_id == Some(client.client_id)
                &&& after.host_sid == Some(sid)
            }
            &&& (!known || before.host_id is None) && !claims_host ==> {
                &&& after.host_id is None
                &&& after.host_sid is None
            }
            &&& list_follows(s, u)
            &&& u == (Registry {
                lobbies: u.lobbies,
                members: u.members,
                public_lobbies: u.public_lobbies,
                lobby_codes: u.lobby_codes,
                browser_seq: u.browser_seq,
                browser_log: u.browser_log,
                ..s
            })
        }),
{
    let base = s.before_joining(sid, code);
    let u = s.joined(sid, code, client, claims_host);
    if s.lobbies.contains_key(code) {
        assert(s.lobbies[code].well_formed());
    }
    if s.moves(sid, code) {
        lemma_left_behind(s, s, sid, s.lobby_of(sid)->0);
        assert forall|c: Seq<char>| c != code implies #[trigger] left_behind(s, u, c, sid) by {
            assert(left_behind(s, base, c, sid));
        }
        assert(left_behind(s, base, code, sid));
        if s.lobbies.contains_key(code) {
            assert(base.lobbies[code] == s.lobbies[code]);
        }
        assert(list_follows(s, base));
    } else {
        assert forall|c: Seq<char>| c != code implies #[trigger] left_behind(s, u, c, sid) by {
            if s.lobbies.contains_key(c) {
                assert(s.lobbies[c].well_formed());
                let o = choose|o: Sid| s.lobbies[c].members.contains_key(o);
                assert(s.lobbies[c].members.contains_key(o));
                assert(!s.lobbies[c].members.contains_key(sid));
                assert(s.lobbies[c].members.remove(sid) =~= s.lobbies[c].members);
                assert(emptied_of(s.lobbies[c], sid) =~= s.lobbies[c]);
            }
        }
    }
    assert forall|id: u64| #[trigger] u.lobby_codes.contains_key(id) <==> s.lobby_codes.contains_key(id)
        && u.lobbies.contains_key(s.lobby_codes[id]) by {
        if s.lobby_codes.contains_key(id) {
            assert(s.public_lobbies.contains_key(s.lobby_codes[id]));
            assert(s.lobbies.contains_key(s.lobby_codes[id]));
        }
    }
    assert forall|c: Seq<char>| #[trigger] u.public_lobbies.contains_key(c) <==> s.public_lobbies.contains_key(c)
        && u.lobbies.contains_key(c) by {
        if s.public_lobbies.contains_key(c) {
            assert(s.lobbies.contains_key(c));
        }
    }
    assert forall|c: Seq<char>| #[trigger]
        s.public_lobbies.contains_key(c) && !u.lobbies.contains_key(c) implies streamed(
        s,
        u,
        BrowserEventView::RemoveLobby(s.public_lobbies[c].id),
    ) by {
        assert(!base.lobbies.contains_key(c));
    }
    assert((forall|c: Seq<char>| #[trigger] s.public_lobbies.contains_key(c) ==> u.lobbies.contains_key(c)) ==> silent(
        s,
        u,
    )) by {
        if forall|c: Seq<char>| #[trigger] s.public_lobbies.contains_key(c) ==> u.lobbies.contains_key(c) {
            assert forall|c: Seq<char>| #[trigger] s.public_lobbies.contains_key(c) implies base.lobbies.contains_key(
                c,
            ) by {
                assert(s.lobbies.contains_key(c));
                if c == code && s.moves(sid, code) {
                    assert(left_behind(s, base, code, sid));
                    assert(s.lobbies[code].well_formed());
                    let o = choose|o: Sid| s.lobbies[code].members.contains_key(o);
                    assert(s.lobbies[code].members.contains_key(o));
                    assert(s.lobby_of(o) == Some(code));
                }
            }
        }
    }
}

/// A socket that joins without claiming to host changes nothing about the host.
pub proof fn a_join_without_a_claim_keeps_the_host(s: Registry, sid: Sid, code: Seq<char>, client: Client)
    ensures
        ({
            let after = s.joined(sid, code, client, false).lobbies[code];
            &&& s.lobbies.contains_key(code) ==> {
                &&& after.host_id == s.lobbies[code].host_id
                &&& after.host_sid == s.lobbies[code].host_sid
            }
            &&& !s.lobbies.contains_key(code) ==> after.host_id is None && after.host_sid is None
            &&& after.host_id is None ==> after.host_id_or_unset() == -1
        }),
{
    let base = s.before_joining(sid, code);
    assert(base.lobbies.contains_key(code) == s.lobbies.contains_key(code));
    assert(s.lobbies.contains_key(code) ==> base.lobbies[code] == s.lobbies[code]);
}

/// The host everybody is told is the one on record, or -1 when there is none.
pub proof fn the_host_that_is_told_is_the_one_on_record(lobby: LobbyView)
    ensures
        lobby.host_id matches Some(id) ==> lobby.host_id_or_unset() == id,
        lobby.host_id is None ==> lobby.host_id_or_unset() == -1,
{
}

/// What is named is what is kept. A socket may name the host of a lobby exactly if it is in it
/// and no other socket is its host. It is the host then, under the id it named, whoever was on
/// record before; nobody moves, and nothing else changes.
pub proof fn a_named_host_is_kept(s: Registry, sid: Sid, code: Seq<char>, client_id: i64)
    ensures
        ({
            let u = s.host_set(sid, code, client_id);
            let may = {
                &&& s.members.contains_key(sid)
                &&& s.members[sid].code == Some(code)
                &&& s.lobbies.contains_key(code)
                &&& s.lobbies[code].host_sid is None || s.lobbies[code].host_sid == Some(sid)
            };
            &&& s.accepts_host(sid, code) == may
            &&& may ==> {
                &&& u.lobbies.dom() == s.lobbies.dom()
                &&& u.lobbies[code].host_id == Some(client_id)
                &&& u.lobbies[code].host_sid == Some(sid)
                &&& u.lobbies[code].host_id_or_unset() == client_id
                &&& u.lobbies[code].hosted_by(sid)
                &&& u.lobbies[code].members == s.lobbies[code].members
                &&& forall|c: Seq<char>| c != code && #[trigger] s.lobbies.contains_key(c) ==> u.lobbies[c]
                    == s.lobbies[c]
                &&& u == (Registry { lobbies: u.lobbies, ..s })
            }
            &&& !may ==> u == s
        }),
{
    if s.accepts_host(sid, code) {
        assert(s.host_set(sid, code, client_id).lobbies.dom() =~= s.lobbies.dom());
    }
}

/// Whoever joins after a host has been named is told that host, whatever they claim.
pub proof fn a_newcomer_learns_the_named_host(
    s: Registry,
    sid: Sid,
    code: Seq<char>,
    client_id: i64,
    other: Sid,
    client: Client,
    claims_host: bool,
)
    requires
        s.accepts_host(sid, code),
    ensures
        ({
            let after = s.host_set(sid, code, client_id).joined(other, code, client, claims_host).lobbies[code];
            &&& after.host_id_or_unset() == client_id
            &&& after.host_sid == Some(sid)
        }),
{
    let t = s.host_set(sid, code, client_id);
    let base = t.before_joining(other, code);
    assert(base.lobbies.contains_key(code) && base.lobbies[code] == t.lobbies[code]);
}

/// An identity is recorded of the socket that claims it, both with the socket and with the lobby
/// it is in. Nobody else's changes, nobody moves, and the hosts stay.
pub proof fn an_identity_is_recorded_of_one_socket(s: Registry, sid: Sid, client: Client)
    requires
        s.inv(),
    ensures
        ({
            let u = s.identified(sid, client);
            &&& !s.members.contains_key(sid) ==> u == s
            &&& s.members.contains_key(sid) ==> {
                &&& u.members == s.members.insert(
                    sid,
                    MembershipView {
                        code: s.members[sid].code,
                        client: Some(client),
                        watching_lobbies: s.members[sid].watching_lobbies,
                    },
                )
                &&& u.lobbies.dom() == s.lobbies.dom()
                &&& forall|c: Seq<char>, o: Sid|
                    s.lobbies.contains_key(c) ==> (#[trigger] u.lobbies[c].members.contains_key(o)
                        <==> s.lobbies[c].members.contains_key(o))
                &&& forall|c: Seq<char>, o: Sid|
                    s.lobbies.contains_key(c) && #[trigger] u.lobbies[c].members.contains_key(o)
                        ==> u.lobbies[c].members[o].client == if o == sid {
                        Some(client)
                    } else {
                        s.lobbies[c].members[o].client
                    }
                &&& forall|c: Seq<char>| #[trigger]
                    s.lobbies.contains_key(c) ==> u.lobbies[c].host_id == s.lobbies[c].host_id && u.lobbies[c].host_sid
                        == s.lobbies[c].host_sid
                &&& u == (Registry { members: u.members, lobbies: u.lobbies, ..s })
            }
        }),
{
    let u = s.identified(sid, client);
    if s.members.contains_key(sid) {
        assert(u.lobbies.dom() =~= s.lobbies.dom());
        assert forall|c: Seq<char>, o: Sid|
            s.lobbies.contains_key(c) && #[trigger] u.lobbies[c].members.contains_key(o) implies u.lobbies[c].members[o].client
            == if o == sid {
            Some(client)
        } else {
            s.lobbies[c].members[o].client
        } by {
            if o == sid {
                if s.lobby_of(sid) != Some(c) {
                    assert(s.lobbies[c].members.contains_key(o));
                }
            }
        }
    }
}

/// A socket that is admitted is counted, and is in no lobby, under no identity, watching nothing.
pub proof fn admission_adds_one_socket(s: Registry, sid: Sid)
    requires
        s.connections < i64::MAX,
    ensures
        ({
            let u = s.admitted(sid);
            &&& u.connections == s.connections + 1
            &&& u.members == s.members.insert(
                sid,
                MembershipView { code: None, client: None, watching_lobbies: false },
            )
            &&& u == (Registry { members: u.members, connections: u.connections, ..s })
        }),
{
}

/// Admitting a socket and then letting it disconnect leaves everything as it was.
pub proof fn a_visit_leaves_no_trace(s: Registry, sid: Sid)
    requires
        !s.members.contains_key(sid),
    ensures
        s.admitted(sid).disconnected(sid) == s,
{
    assert(s.admitted(sid).disconnected(sid).members =~= s.members);
}

/// Whether a socket watches the public list is recorded of that socket, and nothing else
/// changes.
pub proof fn watching_is_recorded_of_one_socket(s: Registry, sid: Sid, open: bool)
    ensures
        ({
            let u = s.watching(sid, open);
            &&& s.members.contains_key(sid) ==> u.members == s.members.insert(
                sid,
                MembershipView {
                    code: s.members[sid].code,
                    client: s.members[sid].client,
                    watching_lobbies: open,
                },
            )
            &&& !s.members.contains_key(sid) ==> u.members == s.members
            &&& u == (Registry { members: u.members, ..s })
        }),
{
}

/// A lobby that is taken off the public list loses its card and its code, and that goes on the
/// stream. Every other card and code stays. A lobby that is not on the list stays off it, in
/// silence.
pub proof fn a_removal_takes_one_card_off(s: Registry, code: Seq<char>)
    requires
        s.inv(),
        s.browser_seq < u64::MAX,
    ensures
        ({
            let u = s.unlisted(code);
            let id = s.public_lobbies[code].id;
            &&& u.public_lobbies == s.public_lobbies.remove(code)
            &&& forall|other: u64| #[trigger]
                u.lobby_codes.contains_key(other) <==> s.lobby_codes.contains_key(other) && s.lobby_codes[other] != code
            &&& forall|other: u64| #[trigger]
                u.lobby_codes.contains_key(other) ==> u.lobby_codes[other] == s.lobby_codes[other]
            &&& s.public_lobbies.contains_key(code) ==> streamed(s, u, BrowserEventView::RemoveLobby(id))
            &&& !s.public_lobbies.contains_key(code) ==> u == s
            &&& u == (Registry {
                public_lobbies: u.public_lobbies,
                lobby_codes: u.lobby_codes,
                browser_seq: u.browser_seq,
                browser_log: u.browser_log,
                ..s
            })
        }),
{
    let u = s.unlisted(code);
    assert(u.public_lobbies =~= s.public_lobbies.remove(code));
    assert forall|other: u64| #[trigger] u.lobby_codes.contains_key(other) <==> s.lobby_codes.contains_key(other)
        && s.lobby_codes[other] != code by {
        if s.lobby_codes.contains_key(other) {
            assert(s.public_lobbies.contains_key(s.lobby_codes[other]));
        }
    }
}

/// Every listing, first or later, puts a card on the list and on the stream. The card is what
/// the sender gave, under the id the lobby has on the list already or else the new one; that id
/// finds the lobby. Every other card and code stays, and nobody moves.
pub proof fn every_listing_goes_on_the_stream(
    s: Registry,
    code: Seq<char>,
    input: PublicLobbyInput,
    id: u64,
    now: i64,
)
    requires
        s.inv(),
        s.browser_seq < u64::MAX,
    ensures
        ({
            let u = s.listed(code, input, id, now);
            let card = u.public_lobbies[code];
            &&& u.public_lobbies.contains_key(code)
            &&& forall|c: Seq<char>|
                c != code ==> (#[trigger] u.public_lobbies.contains_key(c) <==> s.public_lobbies.contains_key(c))
            &&& forall|c: Seq<char>|
                c != code && #[trigger] s.public_lobbies.contains_key(c) ==> u.public_lobbies[c] == s.public_lobbies[c]
            &&& card.id == if s.public_lobbies.contains_key(code) {
                s.public_lobbies[code].id
            } else {
                id
            }
            &&& card == input.card(card.id, card.state_time)
            &&& !s.public_lobbies.contains_key(code) ==> card.state_time == now
            &&& u.lobby_codes == s.lobby_codes.insert(card.id, code)
            &&& u.once_listed == s.once_listed.insert(card.id)
            &&& streamed(s, u, BrowserEventView::UpdateLobby(card))
            &&& u.browser_log.last() == (((s.browser_seq + 1) as u64), BrowserEventView::UpdateLobby(card))
            &&& u.replay(s.browser_seq) == Some(
                seq![(((s.browser_seq + 1) as u64), BrowserEventView::UpdateLobby(card))],
            )
            &&& u == (Registry {
                public_lobbies: u.public_lobbies,
                lobby_codes: u.lobby_codes,
                once_listed: u.once_listed,
                browser_seq: u.browser_seq,
                browser_log: u.browser_log,
                ..s
            })
        }),
{
    let u = s.listed(code, input, id, now);
    let card = s.listing_card(code, input, id, now);
    crate::laws::a_published_event_is_replayed(s, BrowserEventView::UpdateLobby(card));
    let v = s.published(BrowserEventView::UpdateLobby(card));
    assert(u.browser_log == v.browser_log && u.browser_seq == v.browser_seq);
    assert(u.replay(s.browser_seq) == v.replay(s.browser_seq));
}

/// Putting an event on the stream changes nothing but the stream.
pub proof fn publishing_changes_the_stream_only(s: Registry, event: BrowserEventView)
    requires
        s.browser_seq < u64::MAX,
    ensures
        streamed(s, s.published(event), event),
        s.published(event) == (Registry {
            browser_seq: s.published(event).browser_seq,
            browser_log: s.published(event).browser_log,
            ..s
        }),
{
}

/// A subscriber who finds fewer than 256 others gets a place, and nothing else changes. At 256
/// it is turned away, which is counted, and gets none. One that leaves gives its place up.
pub proof fn places_on_the_stream_are_counted(s: Registry)
    ensures
        s.stream_subscribers < 256 ==> {
            &&& s.subscribed().stream_subscribers == s.stream_subscribers + 1
            &&& s.subscribed() == (Registry { stream_subscribers: s.subscribed().stream_subscribers, ..s })
        },
        s.stream_subscribers >= 256 && s.counters.refused_subscribers < u64::MAX ==> {
            s.subscribed() == (Registry {
                counters: Counters {
                    refused_subscribers: (s.counters.refused_subscribers + 1) as u64,
                    ..s.counters
                },
                ..s
            })
        },
        s.stream_subscribers > 0 ==> {
            &&& s.unsubscribed().stream_subscribers == s.stream_subscribers - 1
            &&& s.unsubscribed() == (Registry { stream_subscribers: s.unsubscribed().stream_subscribers, ..s })
        },
{
}

/// Each kind of refusal is counted once, by the counter that is named after it, and changes
/// nothing else.
pub proof fn each_refusal_has_its_counter(s: Registry)
    ensures
        s.counters.refused_rate_limited < u64::MAX ==> s.rate_limited() == (Registry {
            counters: Counters {
                refused_rate_limited: (s.counters.refused_rate_limited + 1) as u64,
                ..s.counters
            },
            ..s
        }),
        s.counters.refused_malformed < u64::MAX ==> s.malformed() == (Registry {
            counters: Counters { refused_malformed: (s.counters.refused_malformed + 1) as u64, ..s.counters },
            ..s
        }),
        s.counters.refused_signals < u64::MAX ==> s.signal_refused() == (Registry {
            counters: Counters { refused_signals: (s.counters.refused_signals + 1) as u64, ..s.counters },
            ..s
        }),
        s.counters.refused_oversize < u64::MAX ==> s.oversize_refused() == (Registry {
            counters: Counters { refused_oversize: (s.counters.refused_oversize + 1) as u64, ..s.counters },
            ..s
        }),
        s.counters.dropped_full_buffer < u64::MAX ==> s.delivery_dropped() == (Registry {
            counters: Counters { dropped_full_buffer: (s.counters.dropped_full_buffer + 1) as u64, ..s.counters },
            ..s
        }),
{
}

/// The health report names each counter by what it counts.
pub proof fn each_counter_goes_by_its_name(counters: Counters)
    ensures
        counters.named().len() == 6,
        counters.named().contains(("droppedFullBuffer"@, counters.dropped_full_buffer)),
        counters.named().contains(("refusedSignals"@, counters.refused_signals)),
        counters.named().contains(("refusedOversize"@, counters.refused_oversize)),
        counters.named().contains(("refusedMalformed"@, counters.refused_malformed)),
        counters.named().contains(("refusedRateLimited"@, counters.refused_rate_limited)),
        counters.named().contains(("refusedSubscribers"@, counters.refused_subscribers)),
{
    let named = counters.named();
    assert(named[0] == ("droppedFullBuffer"@, counters.dropped_full_buffer));
    assert(named[1] == ("refusedSignals"@, counters.refused_signals));
    assert(named[2] == ("refusedOversize"@, counters.refused_oversize));
    assert(named[3] == ("refusedMalformed"@, counters.refused_malformed));
    assert(named[4] == ("refusedRateLimited"@, counters.refused_rate_limited));
    assert(named[5] == ("refusedSubscribers"@, counters.refused_subscribers));
}

/// A server starts with nothing: no lobby, no socket, no card, no id, nothing counted.
pub proof fn a_server_starts_with_nothing(
    peer_config: crate::config::PeerConfigProviderView,
    name: Option<Seq<char>>,
    public_address: Seq<char>,
)
    ensures
        ({
            let s = Registry::started(peer_config, name, public_address);
            &&& s.name == name
            &&& s.public_address == public_address
            &&& s.peer_config == peer_config
            &&& forall|c: Seq<char>| !(#[trigger] s.lobbies.contains_key(c))
            &&& forall|o: Sid| !(#[trigger] s.members.contains_key(o))
            &&& forall|c: Seq<char>| !(#[trigger] s.public_lobbies.contains_key(c))
            &&& forall|id: u64| !(#[trigger] s.lobby_codes.contains_key(id))
            &&& forall|id: u64| !(#[trigger] s.issued.contains(id)) && !s.once_listed.contains(id)
            &&& s.lobby_seq == 0 && s.connections == 0 && s.stream_subscribers == 0 && s.browser_seq == 0
            &&& s.browser_log.len() == 0
            &&& s.counters == (Counters {
                dropped_full_buffer: 0,
                refused_signals: 0,
                refused_oversize: 0,
                refused_malformed: 0,
                refused_rate_limited: 0,
                refused_subscribers: 0,
            })
        }),
{
}

/// Drawing an id records that it was drawn, and changes nothing else.
pub proof fn drawing_an_id_changes_the_ids_only(s: Registry, id: u64)
    ensures
        s.id_taken(id).issued == s.issued.insert(id),
        s.lobby_seq < u64::MAX ==> s.id_taken(id).lobby_seq == s.lobby_seq + 1,
        s.id_taken(id) == (Registry { issued: s.id_taken(id).issued, lobby_seq: s.id_taken(id).lobby_seq, ..s }),
{
}

/// A hash whose low 53 bits are free gives just those as the id.
pub proof fn a_free_id_is_taken_as_it_is(s: Registry, hash: u64, id: u64)
    requires
        crate::registry::issues(s.issued, hash, id),
        s.issued.len() < 0x20_0000_0000_0000,
        !s.issued.contains((hash as nat % 0x20_0000_0000_0000) as u64),
    ensures
        id == hash as nat % 0x20_0000_0000_0000,
{
    let steps = choose|steps: nat|
        {
            &&& id == #[trigger] crate::registry::id_after(hash, steps)
            &&& forall|k: nat| k < steps ==> s.issued.contains(#[trigger] crate::registry::id_after(hash, k) as u64)
        };
    if steps > 0 {
        assert(s.issued.contains(crate::registry::id_after(hash, 0) as u64));
    }
}

/// An id that is issued is one of the 2^53 that a JSON number holds exactly, and is new as long
/// as any is left.
pub proof fn an_issued_id_is_new_and_in_range(s: Registry, hash: u64, id: u64)
    requires
        crate::registry::issues(s.issued, hash, id),
    ensures
        id < 0x20_0000_0000_0000,
        s.issued.len() < 0x20_0000_0000_0000 ==> !s.issued.contains(id),
{
}

/// In a consistent server a socket may signal a text exactly if that is the id of another socket
/// in its own lobby.
pub proof fn members_of_a_lobby_may_signal_each_other(s: Registry, a: Sid, b: Sid, text: Seq<char>)
    requires
        s.inv(),
        text.len() == 16,
        forall|i: int| 0 <= i < 16 ==> crate::sid::is_sid_char(#[trigger] text[i]),
        crate::sid::sid_value(text) == b,
    ensures
        s.may_signal(a, text) <==> {
            &&& a != b
            &&& s.members.contains_key(a)
            &&& s.members.contains_key(b)
            &&& s.members[a].code is Some
            &&& s.members[a].code == s.members[b].code
        },
{
    crate::laws::co_membership_is_mutual(s, a, b);
}

/// Two sockets that may signal at all may do so both ways.
pub proof fn signalling_goes_both_ways(s: Registry, a: Sid, a_text: Seq<char>, b: Sid, b_text: Seq<char>)
    requires
        s.inv(),
        a_text.len() == 16,
        b_text.len() == 16,
        forall|i: int| 0 <= i < 16 ==> crate::sid::is_sid_char(#[trigger] a_text[i]),
        forall|i: int| 0 <= i < 16 ==> crate::sid::is_sid_char(#[trigger] b_text[i]),
        crate::sid::sid_value(a_text) == a,
        crate::sid::sid_value(b_text) == b,
    ensures
        s.may_signal(a, b_text) == s.may_signal(b, a_text),
        a != b && s.lobby_of(a) is Some && s.lobby_of(a) == s.lobby_of(b) ==> s.may_signal(a, b_text),
{
    members_of_a_lobby_may_signal_each_other(s, a, b, b_text);
    members_of_a_lobby_may_signal_each_other(s, b, a, a_text);
}

/// A text that is no socket id can be signalled by nobody.
pub proof fn only_socket_ids_can_be_signalled(s: Registry, a: Sid, text: Seq<char>)
    requires
        text.len() != 16 || exists|i: int| 0 <= i < 16 && !crate::sid::is_sid_char(#[trigger] text[i]),
    ensures
        !s.may_signal(a, text),
{
}

/// A signal's document is let through up to 65536 bytes, and no further.
pub proof fn a_document_fits_up_to_the_cap(data: Seq<char>)
    ensures
        crate::socket::fits(data) <==> vstd::utf8::encode_utf8(data).len() <= 0x1_0000,
{
}

/// Where a socket is, and with whom, by what is on record.
pub proof fn where_a_socket_is(s: Registry, sid: Sid, code: Seq<char>)
    ensures
        s.lobby_of(sid) == Some(code) <==> s.members.contains_key(sid) && s.members[sid].code == Some(code),
        s.members.contains_key(sid) && s.members[sid].code == Some(code) ==> match s.members[sid].client {
            Some(client) => s.speaker(sid) == Some((code, client)),
            None => s.speaker(sid) is None,
        },
        s.lobby_of(sid) is None ==> s.speaker(sid) is None,
        forall|o: Sid| #[trigger]
            s.peers_in(code, sid).contains(o) <==> {
                &&& o != sid
                &&& s.lobbies.contains_key(code)
                &&& s.lobbies[code].members.contains_key(o)
            },
        forall|o: Sid| #[trigger]
            s.co_members(sid, o) <==> {
                &&& s.members.contains_key(sid)
                &&& s.members[sid].code is Some
                &&& s.lobbies.contains_key(s.members[sid].code->0)
                &&& s.lobbies[s.members[sid].code->0].members.contains_key(o)
            },
{
}

/// An event is dropped exactly when its sender has been admitted and had no token left.
pub proof fn only_an_empty_bucket_drops(s: Registry, sid: Sid, token: bool)
    ensures
        s.over_limit(sid, token) <==> s.members.contains_key(sid) && !token,
{
}

/// An identity contradicts an earlier one exactly when the client ids differ.
pub proof fn a_contradiction_is_another_client_id(s: Registry, sid: Sid, client: Client)
    ensures
        s.identified(sid, client).contradicts(sid, client) == false,
        s.members.contains_key(sid) ==> forall|other: Client| #[trigger]
            s.identified(sid, client).contradicts(sid, other) <==> other.client_id != client.client_id,
        s.members.contains_key(sid) && s.members[sid].client is None ==> !s.contradicts(sid, client),
        !s.members.contains_key(sid) ==> !s.contradicts(sid, client),
{
}

/// A public lobby is found by an id exactly when the id leads to a code, and the code to a card.
pub proof fn a_public_lobby_is_found_by_its_id(s: Registry, id: u64, code: Seq<char>)
    requires
        s.inv(),
        s.public_lobbies.contains_key(code),
    ensures
        s.public_lobby(s.public_lobbies[code].id) == Some((code, s.public_lobbies[code])),
        s.asked_for(Some(id)) == s.public_lobby(id),
        s.asked_for(None) is None,
        s.public_lobby(id) == Some((code, s.public_lobbies[code])) <==> id == s.public_lobbies[code].id,
        s.once_public(s.public_lobbies[code].id),
        s.public_lobbies[code].joinable() <==> s.public_lobbies[code].game_state == 0,
{
    let known = s.public_lobbies[code].id;
    assert(s.lobby_codes.contains_key(known));
    if s.lobby_codes.contains_key(id) {
        assert(s.public_lobbies.contains_key(s.lobby_codes[id]));
    }
}

/// An id is found exactly when a lobby on the list has it.
pub proof fn nothing_is_found_that_is_not_listed(s: Registry, id: u64)
    requires
        s.inv(),
    ensures
        s.public_lobby(id) is Some <==> exists|code: Seq<char>| #[trigger]
            s.public_lobbies.contains_key(code) && s.public_lobbies[code].id == id,
{
    if s.lobby_codes.contains_key(id) {
        assert(s.public_lobbies.contains_key(s.lobby_codes[id]));
    }
    if exists|code: Seq<char>| #[trigger] s.public_lobbies.contains_key(code) && s.public_lobbies[code].id == id {
        let code = choose|code: Seq<char>| #[trigger]
            s.public_lobbies.contains_key(code) && s.public_lobbies[code].id == id;
        assert(s.lobby_codes[id] == code);
    }
}

/// Somebody is told that a socket has left.
pub open spec fn says_left(action: Action) -> bool {
    match action {
        Action::Deliver { to, message } => message is Left,
        _ => false,
    }
}

/// Somebody is told who the host is.
pub open spec fn says_host(action: Action) -> bool {
    match action {
        Action::Deliver { to, message } => message is SetHost,
        _ => false,
    }
}

/// What is told when a socket leaves a lobby, and to whom. Everybody left is told that it has
/// gone; if it was the host, they are told after that there is none. If nobody is left, and the
/// lobby was public, the removal of its card is announced at the next position. Nothing is told
/// twice, and nothing else is told.
#[verifier::spinoff_prover]
#[verifier::rlimit(40)]
pub proof fn what_a_departure_tells(s: Registry, sid: Sid, code: Seq<char>, actions: Seq<Action>)
    requires
        s.inv(),
        s.browser_seq < u64::MAX,
        s.members.contains_key(sid),
        s.members[sid].code == Some(code),
        crate::socket::departs(s, sid, code, actions),
    ensures
        actions.no_duplicates(),
        forall|i: int|
            0 <= i < actions.len() ==> match #[trigger] actions[i] {
                Action::Deliver { to, message: Message::Left { sid: gone } } => {
                    gone == sid && to != sid && s.lobbies[code].members.contains_key(to)
                },
                Action::Deliver { to, message: Message::SetHost { host_id } } => {
                    &&& host_id == -1
                    &&& s.lobbies[code].host_sid == Some(sid)
                    &&& to != sid
                    &&& s.lobbies[code].members.contains_key(to)
                },
                Action::Announce { announcement } => {
                    &&& !others_in(s, code, sid)
                    &&& s.public_lobbies.contains_key(code)
                    &&& announcement.position == s.browser_seq + 1
                    &&& announcement.event == BrowserEvent::RemoveLobby(s.public_lobbies[code].id)
                },
                _ => false,
            },
        forall|peer: Sid|
            peer != sid && #[trigger] s.lobbies[code].members.contains_key(peer) ==> {
                &&& actions.contains(Action::Deliver { to: peer, message: Message::Left { sid } })
                &&& s.lobbies[code].host_sid == Some(sid) ==> actions.contains(
                    Action::Deliver { to: peer, message: Message::SetHost { host_id: -1i64 } },
                )
            },
        forall|i: int, j: int|
            0 <= i < actions.len() && 0 <= j < actions.len() && says_left(#[trigger] actions[i]) && says_host(
                #[trigger] actions[j],
            ) ==> i < j,
        !others_in(s, code, sid) && s.public_lobbies.contains_key(code) ==> actions.len() == 1 && actions[0] is Announce,
{
    let peers = choose|peers: Seq<Sid>|
        {
            &&& #[trigger] crate::lobby::enumerates(peers, s.peers_in(code, sid))
            &&& actions == crate::socket::departure(s, sid, code, peers)
        };
    let left = crate::socket::to_each(peers, Message::Left { sid });
    let told = crate::socket::to_each(peers, Message::SetHost { host_id: -1i64 });
    let hosted = s.lobbies[code].host_sid == Some(sid);
    let rest = s.lobbies[code].members.remove(sid);
    assert(s.lobby_of(sid) == Some(code));
    assert forall|k: int| 0 <= k < peers.len() implies #[trigger] peers[k] != sid && s.lobbies[code].members.contains_key(
        peers[k],
    ) by {
        assert(peers.to_set().contains(peers[k]));
    }
    assert forall|o: Sid| o != sid && s.lobbies[code].members.contains_key(o) implies #[trigger] peers.contains(o) by {
        assert(s.peers_in(code, sid).contains(o));
        assert(peers.to_set().contains(o));
    }
    assert(rest.is_empty() <==> !others_in(s, code, sid)) by {
        if rest.is_empty() && others_in(s, code, sid) {
            let o = choose|o: Sid| o != sid && #[trigger] s.lobbies[code].members.contains_key(o);
            assert(rest.dom().contains(o));
        }
        if !rest.is_empty() && !others_in(s, code, sid) {
            assert(rest.dom() =~= Set::empty());
        }
    }
    if !others_in(s, code, sid) {
        assert(peers.len() == 0) by {
            if peers.len() > 0 {
                assert(s.lobbies[code].members.contains_key(peers[0]));
            }
        }
    } else {
        let o = choose|o: Sid| o != sid && #[trigger] s.lobbies[code].members.contains_key(o);
        assert(peers.contains(o));
    }
    assert forall|i: int| 0 <= i < peers.len() implies #[trigger] actions[i] == (Action::Deliver {
        to: peers[i],
        message: Message::Left { sid },
    }) by {
        assert(actions[i] == left[i]);
    }
    if hosted {
        assert forall|i: int| peers.len() <= i < 2 * peers.len() implies #[trigger] actions[i] == (Action::Deliver {
            to: peers[i - peers.len()],
            message: Message::SetHost { host_id: -1i64 },
        }) by {
            assert(actions[i] == told[i - peers.len()]);
        }
    }
    assert forall|peer: Sid| peer != sid && #[trigger] s.lobbies[code].members.contains_key(peer) implies {
        &&& actions.contains(Action::Deliver { to: peer, message: Message::Left { sid } })
        &&& hosted ==> actions.contains(Action::Deliver { to: peer, message: Message::SetHost { host_id: -1i64 } })
    } by {
        assert(peers.contains(peer));
        let k = peers.index_of(peer);
        assert(actions[k] == (Action::Deliver { to: peer, message: Message::Left { sid } }));
        if hosted {
            assert(actions[peers.len() + k] == (Action::Deliver {
                to: peers[peers.len() + k - peers.len()],
                message: Message::SetHost { host_id: -1i64 },
            }));
        }
    }
    assert forall|i: int, j: int| 0 <= i < actions.len() && 0 <= j < actions.len() && i != j implies actions[i]
        != actions[j] by {
        if i < peers.len() && j < peers.len() {
            assert(peers[i] != peers[j]);
        }
        if hosted && peers.len() <= i < 2 * peers.len() && peers.len() <= j < 2 * peers.len() {
            assert(peers[i - peers.len()] != peers[j - peers.len()]);
        }
    }
}

/// What is told when a socket joins a lobby, and to whom: first what its departure from another
/// lobby tells, if it was in one; then each socket in the lobby is told that it has joined and,
/// next, who the host is; last it is told itself who the host is, and who is there. Each of
/// these is told once.
#[verifier::spinoff_prover]
#[verifier::rlimit(40)]
pub proof fn what_a_join_tells(
    s: Registry,
    sid: Sid,
    code: Seq<char>,
    client: Client,
    claims_host: bool,
    actions: Seq<Action>,
)
    requires
        s.inv(),
        s.members.contains_key(sid),
        crate::socket::joins(s, sid, code, client, claims_host, actions),
    ensures
        exists|gone: Seq<Action>, peers: Seq<Sid>| #[trigger]
            tells_of_a_join(s, sid, code, client, claims_host, actions, gone, peers),
{
    let (gone, peers, others) = crate::laws::lemma_join_parts(s, sid, code, client, claims_host, actions);
    let base = s.before_joining(sid, code);
    let host_id = s.joined(sid, code, client, claims_host).lobbies[code].host_id_or_unset();
    let arrival = crate::socket::arrival(peers, sid, client, host_id);
    assert forall|o: Sid| #[trigger] peers.contains(o) <==> {
        &&& o != sid
        &&& s.lobbies.contains_key(code)
        &&& s.lobbies[code].members.contains_key(o)
    } by {
        assert(peers.to_set().contains(o) == peers.contains(o));
        assert(base.peers_in(code, sid).contains(o) == peers.contains(o));
    }
    assert forall|k: int| 0 <= k < peers.len() implies {
        &&& actions[gone.len() + 2 * k] == (Action::Deliver {
            to: #[trigger] peers[k],
            message: Message::Join { sid, client },
        })
        &&& actions[gone.len() + 2 * k + 1] == (Action::Deliver {
            to: peers[k],
            message: Message::SetHost { host_id },
        })
    } by {
        assert(actions[gone.len() + 2 * k] == arrival[2 * k]);
        assert(actions[gone.len() + 2 * k + 1] == arrival[2 * k + 1]);
        assert((2 * k) / 2 == k && (2 * k + 1) / 2 == k);
    }
    assert(actions.take(gone.len() as int) =~= gone);
    assert(tells_of_a_join(s, sid, code, client, claims_host, actions, gone, peers));
}

/// What a join tells, in the order of `peers`, who are those it finds in the lobby; `gone` is
/// what its departure from another lobby tells.
pub open spec fn tells_of_a_join(
    s: Registry,
    sid: Sid,
    code: Seq<char>,
    client: Client,
    claims_host: bool,
    actions: Seq<Action>,
    gone: Seq<Action>,
    peers: Seq<Sid>,
) -> bool {
    let n = peers.len() as int;
    let at = gone.len() as int;
    let held = if s.lobbies.contains_key(code) {
        s.lobbies[code].host_id
    } else {
        None
    };
    let host_id = if held is Some {
        held->0
    } else if claims_host {
        client.client_id
    } else {
        -1i64
    };
    &&& if s.members[sid].code is Some && s.members[sid].code != Some(code) {
        crate::socket::departs(s, sid, s.members[sid].code->0, gone)
    } else {
        at == 0
    }
    &&& peers.no_duplicates()
    &&& forall|o: Sid| #[trigger]
        peers.contains(o) <==> o != sid && s.lobbies.contains_key(code) && s.lobbies[code].members.contains_key(o)
    &&& actions.len() == at + 2 * n + 2
    &&& actions.take(at) == gone
    &&& forall|k: int|
        0 <= k < n ==> {
            &&& actions[at + 2 * k] == (Action::Deliver {
                to: #[trigger] peers[k],
                message: Message::Join { sid, client },
            })
            &&& actions[at + 2 * k + 1] == (Action::Deliver { to: peers[k], message: Message::SetHost { host_id } })
        }
    &&& actions[at + 2 * n] == (Action::Reply { message: Message::SetHost { host_id } })
    &&& actions[at + 2 * n + 1] matches Action::SetClients { others } && {
        &&& others@.no_duplicates()
        &&& forall|o: Sid, identity: Client| #[trigger]
            others@.contains((o, identity)) <==> peers.contains(o) && s.lobbies[code].members[o].client == Some(identity)
    }
}

/// What is relayed in a lobby reaches those in it but the sender, once each, and nobody else.
pub proof fn what_a_relay_tells(
    s: Registry,
    code: Seq<char>,
    sid: Sid,
    message: Message,
    actions: Seq<Action>,
)
    requires
        crate::socket::relays(s, code, sid, message, actions),
    ensures
        actions.no_duplicates(),
        forall|to: Sid, m: Message| #[trigger]
            actions.contains(Action::Deliver { to, message: m }) <==> {
                &&& m == message
                &&& to != sid
                &&& s.lobbies.contains_key(code)
                &&& s.lobbies[code].members.contains_key(to)
            },
        forall|i: int| 0 <= i < actions.len() ==> (#[trigger] actions[i]) is Deliver,
{
    let peers = choose|peers: Seq<Sid>|
        {
            &&& #[trigger] crate::lobby::enumerates(peers, s.peers_in(code, sid))
            &&& actions == crate::socket::to_each(peers, message)
        };
    assert forall|i: int, j: int| 0 <= i < actions.len() && 0 <= j < actions.len() && i != j implies actions[i]
        != actions[j] by {
        assert(peers[i] != peers[j]);
    }
    assert forall|to: Sid, m: Message| #[trigger] actions.contains(Action::Deliver { to, message: m }) <==> {
        &&& m == message
        &&& to != sid
        &&& s.lobbies.contains_key(code)
        &&& s.lobbies[code].members.contains_key(to)
    } by {
        assert(peers.to_set().contains(to) == peers.contains(to));
        assert(s.peers_in(code, sid).contains(to) == peers.contains(to));
        if actions.contains(Action::Deliver { to, message: m }) {
            let i = actions.index_of(Action::Deliver { to, message: m });
            assert(actions[i] == (Action::Deliver { to: peers[i], message }));
        }
        if peers.contains(to) && m == message {
            let i = peers.index_of(to);
            assert(actions[i] == (Action::Deliver { to, message }));
        }
    }
}

/// The removal of a card is announced exactly when there is one, at the next position.
pub proof fn a_removal_is_announced(s: Registry, code: Seq<char>)
    requires
        s.browser_seq < u64::MAX,
    ensures
        s.public_lobbies.contains_key(code) ==> crate::socket::unlisting(s, code) == Some(
            Announcement {
                position: (s.browser_seq + 1) as u64,
                event: BrowserEvent::RemoveLobby(s.public_lobbies[code].id),
            },
        ),
        !s.public_lobbies.contains_key(code) ==> crate::socket::unlisting(s, code) is None,
{
}

/// What `lobby` does for a socket within its limit. In its own lobby, it puts the lobby on the
/// list with the card that was given, or takes it off when it is not asked to be public; either
/// way nobody moves. For any other lobby it does nothing.
pub proof fn what_the_lobby_event_does(
    before: Registry,
    after: Registry,
    sid: Sid,
    code: String,
    input: PublicLobbyInput,
    now: i64,
    r: Option<Announcement>,
)
    requires
        before.inv(),
        before.browser_seq < u64::MAX,
        crate::socket::lobby_handled(before, after, sid, Some((code, input)), true, now, r),
    ensures
        after.lobbies == before.lobbies,
        after.members == before.members,
        after.counters == before.counters,
        !(before.members.contains_key(sid) && before.members[sid].code == Some(code@)) ==> after == before && r is None,
        before.members.contains_key(sid) && before.members[sid].code == Some(code@) ==> {
            let asked = input.is_public == Some(Field::Flag(true)) || input.is_public2 == Some(Field::Flag(true));
            &&& after.public_lobbies.contains_key(code@) == asked
            &&& asked ==> {
                let card = after.public_lobbies[code@];
                &&& card == input.card(card.id, card.state_time)
                &&& before.public_lobbies.contains_key(code@) ==> card.id == before.public_lobbies[code@].id
                &&& !before.public_lobbies.contains_key(code@) ==> {
                    &&& card.state_time == now
                    &&& before.issued.len() < 0x20_0000_0000_0000 ==> !before.issued.contains(card.id)
                    &&& after.issued.contains(card.id)
                }
                &&& r is Some
                &&& r->0.position == before.browser_seq + 1
                &&& r->0.event@ == BrowserEventView::UpdateLobby(card)
                &&& streamed(before, after, BrowserEventView::UpdateLobby(card))
            }
            &&& !asked && before.public_lobbies.contains_key(code@) ==> {
                &&& r is Some
                &&& r->0.position == before.browser_seq + 1
                &&& r->0.event == BrowserEvent::RemoveLobby(before.public_lobbies[code@].id)
                &&& streamed(before, after, BrowserEventView::RemoveLobby(before.public_lobbies[code@].id))
            }
            &&& !asked && !before.public_lobbies.contains_key(code@) ==> r is None && after == before
            &&& forall|c: Seq<char>|
                c != code@ ==> (#[trigger] after.public_lobbies.contains_key(c) <==> before.public_lobbies.contains_key(
                    c,
                ))
        },
{
}

/// An event over the limit is dropped, whatever it holds.
pub proof fn the_lobby_event_is_dropped_over_the_limit(
    before: Registry,
    after: Registry,
    sid: Sid,
    code: String,
    input: PublicLobbyInput,
    now: i64,
    r: Option<Announcement>,
)
    requires
        before.members.contains_key(sid),
        crate::socket::lobby_handled(before, after, sid, Some((code, input)), false, now, r),
    ensures
        r is None,
        after == (Registry { counters: after.counters, ..before }),
        before.counters.refused_rate_limited < u64::MAX ==> after.counters.refused_rate_limited
            == before.counters.refused_rate_limited + 1,
{
}

/// Of the events, five are limited, each by a limit of its own: signals whatever they hold, and
/// the others when they are well formed.
pub proof fn which_events_are_limited(well_formed: bool)
    ensures
        Event::Signal.spends(well_formed) == Some(Limit::Signal),
        Event::Join.spends(well_formed) == if well_formed { Some(Limit::Join) } else { None },
        Event::Lobby.spends(well_formed) == if well_formed { Some(Limit::Lobby) } else { None },
        Event::Vad.spends(well_formed) == if well_formed { Some(Limit::Vad) } else { None },
        Event::ImpostorRadio.spends(well_formed) == if well_formed { Some(Limit::Radio) } else { None },
        Event::SetHost.spends(well_formed) is None,
        Event::Id.spends(well_formed) is None,
        Event::Leave.spends(well_formed) is None,
        Event::JoinLobby.spends(well_formed) is None,
        Event::RemoveLobby.spends(well_formed) is None,
        Event::LobbyBrowser.spends(well_formed) is None,
{
}

/// Clients listen for each message by its own name.
pub proof fn messages_have_names(sid: Sid, n: i64, flag: bool, client: Client)
    ensures
        (Message::Left { sid }).name() == "left"@,
        (Message::SetHost { host_id: n }).name() == "setHost"@,
        (Message::Join { sid, client }).name() == "join"@,
        (Message::SetClient { sid, client }).name() == "setClient"@,
        (Message::Vad { activity: flag, client, sid }).name() == "VAD"@,
        (Message::ImpostorRadio { on_radio: flag, client, sid }).name() == "impostorRadio"@,
{
}

/// A join says who its sender is, and claims to host only when it says so.
pub proof fn what_a_join_says(join: JoinIn)
    ensures
        join.client().player_id == join.player_id,
        join.client().client_id == join.client_id,
        join.claims_host() <==> join.is_host == Some(true),
{
}

/// A reconnecting subscriber gets exactly what it missed, if that is at most 256 events; the
/// events are those that were put on the stream, at the positions it has not seen.
pub proof fn up_to_256_events_are_replayed(s: Registry, last_seen: u64)
    requires
        s.inv(),
    ensures
        s.browser_log.len() == if s.browser_seq < 256 { s.browser_seq as nat } else { 256 },
        s.replay(last_seen) is Some <==> {
            &&& s.browser_seq > 0
            &&& last_seen <= s.browser_seq
            &&& s.browser_seq - last_seen <= 256
        },
        s.replay(last_seen) matches Some(events) ==> {
            &&& events.len() == s.browser_seq - last_seen
            &&& forall|i: int|
                0 <= i < events.len() ==> (#[trigger] events[i]).0 == last_seen + 1 + i && events[i]
                    == s.browser_log[s.browser_log.len() - events.len() + i]
        },
{
    crate::laws::a_replay_has_no_gap(s, last_seen);
}

/// A list that enumerates a set holds each of its elements once, and nothing else.
pub proof fn an_enumeration_holds_each_once(order: Seq<Sid>, set: Set<Sid>)
    requires
        crate::lobby::enumerates(order, set),
    ensures
        forall|o: Sid| #[trigger] order.contains(o) <==> set.contains(o),
        forall|i: int, j: int| 0 <= i < j < order.len() ==> order[i] != order[j],
{
    assert forall|o: Sid| #[trigger] order.contains(o) <==> set.contains(o) by {
        assert(order.to_set().contains(o) == order.contains(o));
    }
}

/// A list of clients holds everybody whose identity is known but one, with that identity, once.
pub proof fn a_list_of_clients_holds_each_once(lobby: LobbyView, list: Seq<(Sid, Client)>, except: Sid)
    requires
        lobby.lists_clients(list, except),
    ensures
        forall|i: int, j: int| 0 <= i < j < list.len() ==> list[i] != list[j],
        forall|i: int|
            0 <= i < list.len() ==> {
                let (sid, client) = #[trigger] list[i];
                &&& sid != except
                &&& lobby.members.contains_key(sid)
                &&& lobby.members[sid] == (Member { client: Some(client) })
            },
        forall|sid: Sid, client: Client|
            sid != except && #[trigger] lobby.members.contains_key(sid) && lobby.members[sid] == (Member {
                client: Some(client),
            }) ==> #[trigger] list.contains((sid, client)),
{
    assert forall|i: int| 0 <= i < list.len() implies {
        let (sid, client) = #[trigger] list[i];
        &&& sid != except
        &&& lobby.members.contains_key(sid)
        &&& lobby.members[sid] == (Member { client: Some(client) })
    } by {
        let (sid, client) = list[i];
        assert(list.contains((sid, client)));
    }
}

/// A card is that of a code on the list.
pub open spec fn on_list(card: PublicLobbyView, table: Map<Seq<char>, PublicLobbyView>) -> bool {
    exists|code: Seq<char>| #[trigger] table.contains_key(code) && table[code] == card
}

/// A list of cards holds the card of each code on the list once, and nothing else.
pub proof fn a_list_of_cards_holds_each_once(
    cards: Seq<PublicLobby>,
    table: Map<Seq<char>, PublicLobbyView>,
)
    requires
        crate::tables::lists_cards(cards, table),
    ensures
        cards.len() == table.dom().len(),
        forall|i: int| 0 <= i < cards.len() ==> on_list((#[trigger] cards[i])@, table),
        forall|code: Seq<char>| #[trigger]
            table.contains_key(code) ==> exists|i: int| 0 <= i < cards.len() && (#[trigger] cards[i])@ == table[code],
{
    let codes = choose|codes: Seq<Seq<char>>| #[trigger] crate::tables::lists_cards_by(cards, table, codes);
    codes.unique_seq_to_set();
    assert forall|i: int| 0 <= i < cards.len() implies on_list((#[trigger] cards[i])@, table) by {
        assert(codes.to_set().contains(codes[i]));
        assert(table.contains_key(codes[i]) && cards[i]@ == table[codes[i]]);
    }
    assert forall|code: Seq<char>| #[trigger] table.contains_key(code) implies exists|i: int|
        0 <= i < cards.len() && (#[trigger] cards[i])@ == table[code] by {
        assert(codes.to_set().contains(code));
        let i = codes.index_of(code);
        assert(cards[i]@ == table[code]);
    }
}

/// Events as values keep their order and their positions.
pub proof fn events_keep_their_positions(events: Seq<(u64, BrowserEvent)>)
    ensures
        crate::state::events_view(events).len() == events.len(),
        forall|i: int|
            0 <= i < events.len() ==> #[trigger] crate::state::events_view(events)[i] == (events[i].0, events[i].1@),
{
}

/// A socket that was never admitted can still join a lobby; nothing is recorded of it elsewhere,
/// and nobody else is touched.
pub proof fn a_stranger_may_join(s: Registry, sid: Sid, code: Seq<char>, client: Client, claims_host: bool)
    requires
        !s.members.contains_key(sid),
    ensures
        ({
            let u = s.joined(sid, code, client, claims_host);
            &&& u.lobbies.contains_key(code)
            &&& u.lobbies[code].members.contains_key(sid)
            &&& u.lobbies[code].members[sid].client == Some(client)
            &&& forall|c: Seq<char>|
                c != code ==> (#[trigger] u.lobbies.contains_key(c) <==> s.lobbies.contains_key(c))
            &&& forall|c: Seq<char>| c != code && #[trigger] s.lobbies.contains_key(c) ==> u.lobbies[c] == s.lobbies[c]
            &&& u == (Registry { lobbies: u.lobbies, ..s })
        }),
{
}

/// A counter goes up by one, and starts over after the last value it can hold.
pub proof fn a_counter_goes_up_by_one(n: u64)
    ensures
        n < u64::MAX ==> crate::registry::next_count(n) == n + 1,
        crate::registry::next_count(u64::MAX) == 0,
{
}

/// A `lobby` event that is malformed does nothing, whatever its sender has left to spend.
pub proof fn a_malformed_lobby_event_does_nothing(
    before: Registry,
    after: Registry,
    sid: Sid,
    token: bool,
    now: i64,
    r: Option<Announcement>,
)
    requires
        crate::socket::lobby_handled(before, after, sid, None, token, now, r),
    ensures
        after == before,
        r is None,
{
}

/// Leaving a lobby touches that lobby only. With somebody else in it, it is kept without the one
/// who left; otherwise it goes, and so does its card on the public list, if it has one. A lobby
/// that does not exist cannot be left.
pub proof fn leaving_touches_one_lobby(s: Registry, sid: Sid, code: Seq<char>)
    ensures
        ({
            let u = s.left(sid, code);
            &&& !s.lobbies.contains_key(code) ==> u == s
            &&& others_in(s, code, sid) ==> u == (Registry {
                lobbies: s.lobbies.insert(code, emptied_of(s.lobbies[code], sid)),
                ..s
            })
            &&& s.lobbies.contains_key(code) && !others_in(s, code, sid) ==> {
                &&& u.lobbies == s.lobbies.remove(code)
                &&& u.public_lobbies == s.public_lobbies.remove(code)
                &&& s.public_lobbies.contains_key(code) ==> {
                    &&& u.lobby_codes == s.lobby_codes.remove(s.public_lobbies[code].id)
                    &&& s.browser_seq < u64::MAX ==> streamed(
                        s,
                        u,
                        BrowserEventView::RemoveLobby(s.public_lobbies[code].id),
                    )
                }
                &&& !s.public_lobbies.contains_key(code) ==> u == (Registry { lobbies: u.lobbies, ..s })
            }
            &&& u.members == s.members
            &&& u.counters == s.counters
            &&& u.connections == s.connections
        }),
{
    let rest = s.lobbies[code].members.remove(sid);
    if s.lobbies.contains_key(code) {
        if rest.is_empty() {
            assert forall|o: Sid| o != sid implies !(#[trigger] s.lobbies[code].members.contains_key(o)) by {
                assert(!rest.dom().contains(o));
            }
            assert(s.left(sid, code).public_lobbies =~= s.public_lobbies.remove(code));
        } else if !others_in(s, code, sid) {
            assert(rest.dom() =~= Set::empty());
        }
    }
}

/// A listing changes one card and one code, wherever else the server stands: the card of that
/// code is what was given, under the id that finds it, and is put on the stream.
pub proof fn a_listing_changes_one_card(
    s: Registry,
    code: Seq<char>,
    input: PublicLobbyInput,
    id: u64,
    now: i64,
)
    requires
        s.browser_seq < u64::MAX,
    ensures
        ({
            let u = s.listed(code, input, id, now);
            let known = s.public_lobbies.contains_key(code);
            let before = s.public_lobbies[code];
            let card = u.public_lobbies[code];
            &&& u.public_lobbies == s.public_lobbies.insert(code, card)
            &&& card == input.card(card.id, card.state_time)
            &&& card.id == if known { before.id } else { id }
            &&& card.state_time == if known && (before.game_state == 0) == (card.game_state == 0) {
                before.state_time
            } else {
                now
            }
            &&& u.lobby_codes == s.lobby_codes.insert(card.id, code)
            &&& u.once_listed == s.once_listed.insert(card.id)
            &&& streamed(s, u, BrowserEventView::UpdateLobby(card))
            &&& u == (Registry {
                public_lobbies: u.public_lobbies,
                lobby_codes: u.lobby_codes,
                once_listed: u.once_listed,
                browser_seq: u.browser_seq,
                browser_log: u.browser_log,
                ..s
            })
        }),
{
}

/// A lobby that is taken off the public list loses its card and its code, and nothing else is
/// lost.
pub proof fn an_unlisting_removes_one_card(s: Registry, code: Seq<char>)
    requires
        s.public_lobbies.contains_key(code),
        s.browser_seq < u64::MAX,
    ensures
        ({
            let u = s.unlisted(code);
            let id = s.public_lobbies[code].id;
            &&& u.public_lobbies == s.public_lobbies.remove(code)
            &&& u.lobby_codes == s.lobby_codes.remove(id)
            &&& streamed(s, u, BrowserEventView::RemoveLobby(id))
            &&& u == (Registry {
                public_lobbies: u.public_lobbies,
                lobby_codes: u.lobby_codes,
                browser_seq: u.browser_seq,
                browser_log: u.browser_log,
                ..s
            })
        }),
{
}

} // verus!
