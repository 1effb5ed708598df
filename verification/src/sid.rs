//! Socket ids.

use vstd::prelude::*;

verus! {

/// A socket id, as a number: the sixteen bytes of its text form, most significant first.
pub type Sid = u128;

/// Whether a character may stand in the text form of a socket id: base64's URL-safe
/// alphabet.
pub open spec fn is_sid_char(c: char) -> bool {
    'a' <= c <= 'z' || 'A' <= c <= 'Z' || '0' <= c <= '9' || c == '_' || c == '-'
}

/// Whether a text is the text form of a socket id.
pub open spec fn is_sid_text(text: Seq<char>) -> bool {
    &&& text.len() == 16
    &&& forall|i: int| 0 <= i < text.len() ==> is_sid_char(#[trigger] text[i])
}

/// The number a text form stands for, one byte per character.
pub open spec fn sid_value(text: Seq<char>) -> nat
    decreases text.len(),
{
    if text.len() == 0 {
        0
    } else {
        sid_value(text.drop_last()) * 256 + text.last() as nat
    }
}

/// Calls `socketioxide::socket::Sid::from_str`, which accepts sixteen characters of base64's
/// URL-safe alphabet and nothing else, and keeps them as they are.
#[verifier::external_body]
pub(crate) fn parse_sid(text: &str) -> (found: Option<Sid>)
    ensures
        match found {
            Some(sid) => is_sid_text(text@) && sid == sid_value(text@),
            None => !is_sid_text(text@),
        },
{
    let sid: socketioxide::socket::Sid = text.parse().ok()?;
    let bytes: [u8; 16] = sid.as_str().as_bytes().try_into().ok()?;
    Some(u128::from_be_bytes(bytes))
}

/// Two texts of the same length that stand for the same number are the same: a socket id can
/// be told by its number.
pub proof fn a_socket_id_has_one_text(a: Seq<char>, b: Seq<char>)
    requires
        a.len() == b.len(),
        forall|i: int| 0 <= i < a.len() ==> is_sid_char(#[trigger] a[i]),
        forall|i: int| 0 <= i < b.len() ==> is_sid_char(#[trigger] b[i]),
        sid_value(a) == sid_value(b),
    ensures
        a == b,
    decreases a.len(),
{
    if a.len() > 0 {
        assert(is_sid_char(a.last()) && is_sid_char(b.last()));
        assert forall|i: int| 0 <= i < a.drop_last().len() implies is_sid_char(#[trigger] a.drop_last()[i]) by {
            assert(is_sid_char(a[i]));
        }
        assert forall|i: int| 0 <= i < b.drop_last().len() implies is_sid_char(#[trigger] b.drop_last()[i]) by {
            assert(is_sid_char(b[i]));
        }
        a_socket_id_has_one_text(a.drop_last(), b.drop_last());
        assert(a == a.drop_last().push(a.last()));
        assert(b == b.drop_last().push(b.last()));
    } else {
        assert(a == b);
    }
}

/// A socket id is written in sixteen characters: letters, digits, underscores and hyphens.
pub proof fn how_a_socket_id_is_written(text: Seq<char>)
    ensures
        is_sid_text(text) <==> text.len() == 16 && forall|i: int|
            0 <= i < 16 ==> {
                ||| 'a' <= (#[trigger] text[i]) <= 'z'
                ||| 'A' <= text[i] <= 'Z'
                ||| '0' <= text[i] <= '9'
                ||| text[i] == '_'
                ||| text[i] == '-'
            },
{
    if is_sid_text(text) {
        assert forall|i: int| 0 <= i < 16 implies {
            ||| 'a' <= (#[trigger] text[i]) <= 'z'
            ||| 'A' <= text[i] <= 'Z'
            ||| '0' <= text[i] <= '9'
            ||| text[i] == '_'
            ||| text[i] == '-'
        } by {
            assert(is_sid_char(text[i]));
        }
    }
}

/// Each character of a socket id is one byte of its number, the first the most significant.
pub proof fn a_socket_id_is_a_number_in_bytes(text: Seq<char>, c: char)
    ensures
        sid_value(text.push(c)) == sid_value(text) * 256 + c as nat,
        sid_value(Seq::empty()) == 0,
{
    assert(text.push(c).drop_last() == text);
}

} // verus!
