//! Time-limited relay credentials.
//!
//! The username is an expiry and a client identifier, and the password is the HMAC-SHA1 of
//! that username under a secret the relay holds too. The relay recomputes it on arrival, so
//! nothing has to be stored, synchronised or revoked.

use crate::text::decimal_text;
use crate::time::Span;
use base64::Engine;
use hmac::{Hmac, Mac};
use sha1::Sha1;
use vstd::prelude::*;

verus! {

/// The HMAC-SHA1 tag of a message under a key.
pub uninterp spec fn hmac_sha1_of(key: Seq<u8>, message: Seq<u8>) -> Seq<u8>;

/// Calls `hmac::Hmac::<sha1::Sha1>`: `new_from_slice`, `update` and `finalize`, once each. A
/// key of any length is accepted, the tag depends on the key and the message alone, and it is
/// twenty bytes long.
#[verifier::external_body]
fn hmac_sha1(key: &[u8], message: &[u8]) -> (tag: Vec<u8>)
    ensures
        tag@ == hmac_sha1_of(key@, message@),
        tag@.len() == 20,
{
    let mut mac = <Hmac<Sha1>>::new_from_slice(key).expect("a key of any length");
    mac.update(message);
    mac.finalize().into_bytes().to_vec()
}

/// Bytes in standard base64, with padding.
pub uninterp spec fn base64_of(bytes: Seq<u8>) -> Seq<char>;

/// Calls `base64::engine::general_purpose::STANDARD.encode`. The text depends on the bytes
/// alone, and has four characters for every three bytes or part of them. It panics when the length of the text would not fit in a `usize`, which no input
/// of the length required here reaches.
#[verifier::external_body]
fn base64_text(bytes: &[u8]) -> (text: String)
    requires
        bytes@.len() < 0x4000_0000,
    ensures
        text@ == base64_of(bytes@),
        text@.len() == (bytes@.len() + 2) / 3 * 4,
{
    base64::engine::general_purpose::STANDARD.encode(bytes)
}

/// The second at which a credential expires: so long after the time it is issued, or the
/// last second there is.
pub open spec fn expiry_of(now: Span, ttl: Span) -> nat {
    let end = now.as_nanos() + ttl.as_nanos();
    let last = crate::time::longest();
    (if end <= last { end } else { last }) / crate::time::NANOS_PER_SEC as nat
}

/// The username of a credential: the expiry in decimal, a colon, and the client.
pub open spec fn username_of(expiry: nat, client: Seq<char>) -> Seq<char> {
    crate::text::decimal(expiry) + seq![':'] + client
}

/// The password for a username under a secret.
pub open spec fn credential_of(secret: Seq<char>, username: Seq<char>) -> Seq<char> {
    base64_of(hmac_sha1_of(vstd::utf8::encode_utf8(secret), vstd::utf8::encode_utf8(username)))
}

/// The username and the password of a credential issued to a client at a time, which the
/// relay accepts until the time to live has passed.
pub fn turn_credentials(secret: &str, ttl: Span, now: Span, client: &str) -> (r: (String, String))
    ensures
        r.0@ == username_of(expiry_of(now, ttl), client@),
        r.1@ == credential_of(secret@, r.0@),
        r.1@.len() == 28,
{
    let expiry: u64 = now.saturating_add(ttl).as_secs();
    let mut username = decimal_text(expiry);
    username.push(':');
    username.append(client);
    assert(username@ == username_of(expiry_of(now, ttl), client@));
    let tag = hmac_sha1(secret.as_bytes(), username.as_str().as_bytes());
    let credential = base64_text(tag.as_slice());
    (username, credential)
}

/// A username starts with its expiry: the text up to the first colon is the expiry in
/// decimal, and the rest, whatever it holds, is the client.
pub proof fn username_leads_with_the_expiry(expiry: nat, client: Seq<char>)
    ensures
        username_of(expiry, client).index_of_first(':') == Some(crate::text::decimal(expiry).len() as int),
        username_of(expiry, client).take(crate::text::decimal(expiry).len() as int) == crate::text::decimal(expiry),
        username_of(expiry, client).skip(crate::text::decimal(expiry).len() as int + 1) == client,
        crate::text::parsed_decimal(crate::text::decimal(expiry), expiry) == Some(expiry),
{
    let digits = crate::text::decimal(expiry);
    let name = username_of(expiry, client);
    crate::text::lemma_decimal_reads_back(expiry);
    assert(name.take(digits.len() as int) == digits);
    assert(name.skip(digits.len() as int + 1) == client);
    assert(name[digits.len() as int] == ':');
    assert forall|i: int| 0 <= i < digits.len() implies name[i] != ':' by {
        assert(crate::text::is_digit(digits[i]));
    }
    name.index_of_first_ensures(':');
    assert(crate::text::is_digit(digits[0]));
    assert(crate::text::unsigned_part(digits) == digits);
}

/// Two clients never hold the same credential: their usernames differ, whenever the
/// credentials were issued and however long they last.
pub proof fn clients_never_share_a_username(expiry_a: nat, a: Seq<char>, expiry_b: nat, b: Seq<char>)
    requires
        a != b,
    ensures
        username_of(expiry_a, a) != username_of(expiry_b, b),
{
    username_leads_with_the_expiry(expiry_a, a);
    username_leads_with_the_expiry(expiry_b, b);
}

/// Two credentials that expire in different seconds have different usernames.
pub proof fn a_later_expiry_is_another_username(expiry_a: nat, a: Seq<char>, expiry_b: nat, b: Seq<char>)
    requires
        expiry_a != expiry_b,
    ensures
        username_of(expiry_a, a) != username_of(expiry_b, b),
{
    username_leads_with_the_expiry(expiry_a, a);
    username_leads_with_the_expiry(expiry_b, b);
    crate::text::lemma_decimal_reads_back(expiry_a);
    crate::text::lemma_decimal_reads_back(expiry_b);
}

/// A credential expires with the last whole second of its time to live, unless that is past the
/// last second there is.
pub proof fn a_credential_expires_when_its_time_is_up(now: Span, ttl: Span)
    ensures
        now.as_nanos() + ttl.as_nanos() < 0x1_0000_0000_0000_0000 * 1_000_000_000 ==> {
            let expiry = expiry_of(now, ttl);
            expiry * 1_000_000_000 <= now.as_nanos() + ttl.as_nanos() < (expiry + 1) * 1_000_000_000
        },
        now.as_nanos() + ttl.as_nanos() >= 0x1_0000_0000_0000_0000 * 1_000_000_000 ==> expiry_of(now, ttl)
            == 0xffff_ffff_ffff_ffff,
{
}

/// Whole seconds add up: so many seconds after a time counted in seconds.
pub proof fn seconds_add_up(now: Span, ttl: Span, now_secs: nat, ttl_secs: nat)
    requires
        now.as_nanos() == now_secs * 1_000_000_000,
        ttl.as_nanos() == ttl_secs * 1_000_000_000,
        now_secs + ttl_secs <= 0xffff_ffff_ffff_ffff,
    ensures
        expiry_of(now, ttl) == now_secs + ttl_secs,
{
}

/// The password is the base64 of the tag of the whole username under the whole secret.
pub proof fn the_password_is_the_tag_of_the_username(secret: Seq<char>, expiry: nat, client: Seq<char>)
    ensures
        credential_of(secret, crate::text::decimal(expiry) + seq![':'] + client) == base64_of(
            hmac_sha1_of(
                vstd::utf8::encode_utf8(secret),
                vstd::utf8::encode_utf8(crate::text::decimal(expiry) + seq![':'] + client),
            ),
        ),
        username_of(expiry, client) == crate::text::decimal(expiry) + seq![':'] + client,
{
}

} // verus!
