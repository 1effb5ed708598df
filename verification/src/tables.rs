//! The tables of the registry. Each is a `dashmap::DashMap`, and its contents go by a name:
//! what the map holds, as a value. The registry is the only owner of its tables and changes
//! them through exclusive references, so their contents change in no other way than the
//! functions here say.

use crate::listing::{PublicLobby, PublicLobbyView};
use crate::lobby::{Lobby, LobbyView, Membership, MembershipView};
use crate::sid::Sid;
use dashmap::DashMap;
use vstd::prelude::*;

verus! {

/// `dashmap::DashMap`, an associative array. Nothing inside a value of it is visible.
#[verifier::external_type_specification]
#[verifier::external_body]
#[verifier::reject_recursive_types(K)]
#[verifier::reject_recursive_types(V)]
#[verifier::reject_recursive_types(S)]
pub struct ExDashMap<K, V, S>(dashmap::DashMap<K, V, S>);

/// The lobbies a table holds, by code.
pub uninterp spec fn lobby_contents(table: DashMap<String, Lobby>) -> Map<Seq<char>, LobbyView>;

/// Calls `DashMap::new`: the table is empty.
#[verifier::external_body]
pub(crate) fn new_lobbies() -> (table: DashMap<String, Lobby>)
    ensures
        lobby_contents(table).is_empty(),
{
    DashMap::new()
}

/// Calls `DashMap::insert`: the code now maps to the lobby, whatever it mapped to before, and
/// nothing else changes.
#[verifier::external_body]
pub(crate) fn insert_lobby(table: &mut DashMap<String, Lobby>, code: String, lobby: Lobby)
    ensures
        lobby_contents(*final(table)) == lobby_contents(*old(table)).insert(code@, lobby@),
{
    table.insert(code, lobby);
}

/// Calls `DashMap::remove`: hands out the lobby a code maps to, if it maps to one, and takes
/// that entry out. Nothing else changes.
#[verifier::external_body]
pub(crate) fn remove_lobby(table: &mut DashMap<String, Lobby>, code: &str) -> (found: Option<Lobby>)
    ensures
        lobby_contents(*final(table)) == lobby_contents(*old(table)).remove(code@),
        match found {
            Some(lobby) => lobby_contents(*old(table)).contains_key(code@) && lobby@ == lobby_contents(*old(table))[code@],
            None => !lobby_contents(*old(table)).contains_key(code@),
        },
{
    table.remove(code).map(|entry| entry.1)
}

/// Calls `DashMap::view`: the closure sees the lobby a code maps to, if it maps to one. Here
/// it makes a copy.
#[verifier::external_body]
pub(crate) fn get_lobby(table: &DashMap<String, Lobby>, code: &str) -> (found: Option<Lobby>)
    ensures
        match found {
            Some(lobby) => lobby_contents(*table).contains_key(code@) && lobby@ == lobby_contents(*table)[code@],
            None => !lobby_contents(*table).contains_key(code@),
        },
{
    table.view(code, |_code, lobby| lobby.clone())
}

/// Calls `DashMap::len`: how many codes map to a lobby.
#[verifier::external_body]
pub(crate) fn count_lobbies(table: &DashMap<String, Lobby>) -> (count: usize)
    ensures
        count == lobby_contents(*table).len(),
{
    table.len()
}

/// What each admitted socket is part of, by socket.
pub uninterp spec fn member_contents(table: DashMap<Sid, Membership>) -> Map<Sid, MembershipView>;

/// Calls `DashMap::new`: the table is empty.
#[verifier::external_body]
pub(crate) fn new_members() -> (table: DashMap<Sid, Membership>)
    ensures
        member_contents(table).is_empty(),
{
    DashMap::new()
}

/// Calls `DashMap::insert`: the socket now maps to the membership, whatever it mapped to
/// before, and nothing else changes.
#[verifier::external_body]
pub(crate) fn insert_member(table: &mut DashMap<Sid, Membership>, sid: Sid, membership: Membership)
    ensures
        member_contents(*final(table)) == member_contents(*old(table)).insert(sid, membership@),
{
    table.insert(sid, membership);
}

/// Calls `DashMap::remove`: hands out the membership a socket maps to, if it maps to one, and
/// takes that entry out. Nothing else changes.
#[verifier::external_body]
pub(crate) fn remove_member(table: &mut DashMap<Sid, Membership>, sid: Sid) -> (found: Option<Membership>)
    ensures
        member_contents(*final(table)) == member_contents(*old(table)).remove(sid),
        match found {
            Some(membership) => member_contents(*old(table)).contains_key(sid) && membership@ == member_contents(
                *old(table),
            )[sid],
            None => !member_contents(*old(table)).contains_key(sid),
        },
{
    table.remove(&sid).map(|entry| entry.1)
}

/// Calls `DashMap::view`: the closure sees the membership a socket maps to, if it maps to
/// one. Here it makes a copy.
#[verifier::external_body]
pub(crate) fn get_member(table: &DashMap<Sid, Membership>, sid: Sid) -> (found: Option<Membership>)
    ensures
        match found {
            Some(membership) => member_contents(*table).contains_key(sid) && membership@ == member_contents(*table)[sid],
            None => !member_contents(*table).contains_key(sid),
        },
{
    table.view(&sid, |_sid, membership| membership.clone())
}

/// The cards of the public lobbies, by code.
pub uninterp spec fn public_contents(table: DashMap<String, PublicLobby>) -> Map<Seq<char>, PublicLobbyView>;

/// Calls `DashMap::new`: the table is empty.
#[verifier::external_body]
pub(crate) fn new_public() -> (table: DashMap<String, PublicLobby>)
    ensures
        public_contents(table).is_empty(),
{
    DashMap::new()
}

/// Calls `DashMap::insert`: the code now maps to the card, whatever it mapped to before, and
/// nothing else changes.
#[verifier::external_body]
pub(crate) fn insert_public(table: &mut DashMap<String, PublicLobby>, code: String, card: PublicLobby)
    ensures
        public_contents(*final(table)) == public_contents(*old(table)).insert(code@, card@),
{
    table.insert(code, card);
}

/// Calls `DashMap::remove`: hands out the card a code maps to, if it maps to one, and takes
/// that entry out. Nothing else changes.
#[verifier::external_body]
pub(crate) fn remove_public(table: &mut DashMap<String, PublicLobby>, code: &str) -> (found: Option<PublicLobby>)
    ensures
        public_contents(*final(table)) == public_contents(*old(table)).remove(code@),
        match found {
            Some(card) => public_contents(*old(table)).contains_key(code@) && card@ == public_contents(*old(table))[code@],
            None => !public_contents(*old(table)).contains_key(code@),
        },
{
    table.remove(code).map(|entry| entry.1)
}

/// Calls `DashMap::view`: the closure sees the card a code maps to, if it maps to one. Here
/// it makes a copy.
#[verifier::external_body]
pub(crate) fn get_public(table: &DashMap<String, PublicLobby>, code: &str) -> (found: Option<PublicLobby>)
    ensures
        match found {
            Some(card) => public_contents(*table).contains_key(code@) && card@ == public_contents(*table)[code@],
            None => !public_contents(*table).contains_key(code@),
        },
{
    table.view(code, |_code, card| card.clone())
}

/// `cards` are the cards of a table, one for each code, in some order.
pub open spec fn lists_cards(cards: Seq<PublicLobby>, table: Map<Seq<char>, PublicLobbyView>) -> bool {
    exists|codes: Seq<Seq<char>>| #[trigger] lists_cards_by(cards, table, codes)
}

/// `cards` are the cards of a table in the order of `codes`, which are its codes.
pub open spec fn lists_cards_by(
    cards: Seq<PublicLobby>,
    table: Map<Seq<char>, PublicLobbyView>,
    codes: Seq<Seq<char>>,
) -> bool {
    &&& codes.no_duplicates()
    &&& codes.to_set() == table.dom()
    &&& cards.len() == codes.len()
    &&& forall|i: int| 0 <= i < cards.len() ==> (#[trigger] cards[i])@ == table[codes[i]]
}

/// Calls `DashMap::iter`: every entry comes up exactly once, in no order that is promised.
/// Here each one is handed out as a copy of its card.
#[verifier::external_body]
pub(crate) fn list_public(table: &DashMap<String, PublicLobby>) -> (cards: Vec<PublicLobby>)
    ensures
        lists_cards(cards@, public_contents(*table)),
{
    table.iter().map(|entry| entry.value().clone()).collect()
}

/// The codes of the public lobbies, by id.
pub uninterp spec fn code_contents(table: DashMap<u64, String>) -> Map<u64, Seq<char>>;

/// Calls `DashMap::new`: the table is empty.
#[verifier::external_body]
pub(crate) fn new_codes() -> (table: DashMap<u64, String>)
    ensures
        code_contents(table).is_empty(),
{
    DashMap::new()
}

/// Calls `DashMap::insert`: the id now maps to the code, whatever it mapped to before, and
/// nothing else changes.
#[verifier::external_body]
pub(crate) fn insert_code(table: &mut DashMap<u64, String>, id: u64, code: String)
    ensures
        code_contents(*final(table)) == code_contents(*old(table)).insert(id, code@),
{
    table.insert(id, code);
}

/// Calls `DashMap::remove`: takes out the entry of an id, if there is one. Nothing else
/// changes.
#[verifier::external_body]
pub(crate) fn remove_code(table: &mut DashMap<u64, String>, id: u64)
    ensures
        code_contents(*final(table)) == code_contents(*old(table)).remove(id),
{
    table.remove(&id);
}

/// Calls `DashMap::view`: the closure sees the code an id maps to, if it maps to one. Here it
/// makes a copy.
#[verifier::external_body]
pub(crate) fn get_code(table: &DashMap<u64, String>, id: u64) -> (found: Option<String>)
    ensures
        match found {
            Some(code) => code_contents(*table).contains_key(id) && code@ == code_contents(*table)[id],
            None => !code_contents(*table).contains_key(id),
        },
{
    table.view(&id, |_id, code| code.clone())
}

} // verus!
