//! The public lobby list: what a client may publish about its lobby, and the card that is
//! made of it.

use crate::text::uppercase;
use vstd::prelude::*;

verus! {

/// A lobby as the public browser shows it.
#[derive(Debug)]
pub struct PublicLobby {
    pub id: u64,
    pub title: String,
    pub host: String,
    pub current_players: i64,
    pub max_players: i64,
    pub language: String,
    pub mods: String,
    pub is_public: bool,
    pub server: String,
    pub game_state: i64,
    pub state_time: i64,
}

/// What a card in the public browser says, as a value.
#[verifier::ext_equal]
pub struct PublicLobbyView {
    pub id: u64,
    pub title: Seq<char>,
    pub host: Seq<char>,
    pub current_players: i64,
    pub max_players: i64,
    pub language: Seq<char>,
    pub mods: Seq<char>,
    pub is_public: bool,
    pub server: Seq<char>,
    pub game_state: i64,
    pub state_time: i64,
}

impl View for PublicLobby {
    type V = PublicLobbyView;

    open spec fn view(&self) -> PublicLobbyView {
        PublicLobbyView {
            id: self.id,
            title: self.title@,
            host: self.host@,
            current_players: self.current_players,
            max_players: self.max_players,
            language: self.language@,
            mods: self.mods@,
            is_public: self.is_public,
            server: self.server@,
            game_state: self.game_state,
            state_time: self.state_time,
        }
    }
}

impl PublicLobbyView {
    /// Whether the lobby can be joined from the browser: it is public, and waiting.
    pub open spec fn joinable(self) -> bool {
        self.is_public && self.game_state == GAME_STATE_LOBBY
    }
}

impl Clone for PublicLobby {
    fn clone(&self) -> (r: Self)
        ensures
            r@ == self@,
    {
        PublicLobby {
            id: self.id,
            title: self.title.clone(),
            host: self.host.clone(),
            current_players: self.current_players,
            max_players: self.max_players,
            language: self.language.clone(),
            mods: self.mods.clone(),
            is_public: self.is_public,
            server: self.server.clone(),
            game_state: self.game_state,
            state_time: self.state_time,
        }
    }
}

/// The game state in which a public lobby can be joined.
pub const GAME_STATE_LOBBY: i64 = 0;

/// How many characters of a title are kept.
pub const TITLE_LEN: usize = 20;

/// How many characters of a host's name are kept.
pub const HOST_LEN: usize = 10;

/// How many characters of a language tag are kept.
pub const LANGUAGE_LEN: usize = 5;

/// How many characters of the list of mods are kept.
pub const MODS_LEN: usize = 20;

/// How many characters of a server address are kept.
pub const SERVER_LEN: usize = 100;

/// One field of a lobby payload: as much of a JSON value as the coercions look at.
#[derive(Debug)]
pub enum Field {
    Text(String),
    Flag(bool),
    /// A number, by the bits of its IEEE 754 double.
    Number { bits: u64 },
    /// Anything else: an array or an object.
    Other,
}

/// What a client sends when it publishes or updates its lobby. Every field is optional and
/// is whatever the sender chose, so each one is coerced rather than trusted.
#[derive(Debug)]
pub struct PublicLobbyInput {
    pub title: Option<Field>,
    pub host: Option<Field>,
    pub current_players: Option<Field>,
    pub max_players: Option<Field>,
    pub language: Option<Field>,
    pub mods: Option<Field>,
    pub is_public: Option<Field>,
    pub is_public2: Option<Field>,
    pub server: Option<Field>,
    pub game_state: Option<Field>,
}

impl Default for PublicLobbyInput {
    fn default() -> (r: Self)
        ensures
            r.title is None,
            r.host is None,
            r.current_players is None,
            r.max_players is None,
            r.language is None,
            r.mods is None,
            r.is_public is None,
            r.is_public2 is None,
            r.server is None,
            r.game_state is None,
    {
        PublicLobbyInput {
            title: None,
            host: None,
            current_players: None,
            max_players: None,
            language: None,
            mods: None,
            is_public: None,
            is_public2: None,
            server: None,
            game_state: None,
        }
    }
}

/// The first characters of a text, at most `max` of them.
pub open spec fn truncated(text: Seq<char>, max: nat) -> Seq<char> {
    if text.len() <= max {
        text
    } else {
        text.take(max as int)
    }
}

/// What a field says as a text: its first characters, or nothing when it is not a text.
pub open spec fn text_in(field: Option<Field>, max: nat) -> Seq<char> {
    match field {
        Some(Field::Text(text)) => truncated(text@, max),
        _ => Seq::empty(),
    }
}

/// What a field says as a flag. Only `true` itself counts.
pub open spec fn flag_in(field: Option<Field>) -> bool {
    match field {
        Some(Field::Flag(flag)) => flag,
        _ => false,
    }
}

/// What a field says as a count.
pub open spec fn count_in(field: Option<Field>) -> int {
    match field {
        Some(Field::Number { bits }) => count_of_double(bits),
        _ => 0,
    }
}

/// The biased exponent of an IEEE 754 double.
pub open spec fn double_exponent(bits: u64) -> nat {
    (bits as nat / 0x10_0000_0000_0000) % 0x800
}

/// The significand of a normal IEEE 754 double, its hidden bit included.
pub open spec fn double_significand(bits: u64) -> nat {
    0x10_0000_0000_0000 + bits as nat % 0x10_0000_0000_0000
}

/// The integer part of the magnitude of a finite IEEE 754 double. The bias of the exponent
/// is 1075 when the significand is read as an integer.
pub open spec fn double_whole_part(bits: u64) -> nat {
    let exponent = double_exponent(bits);
    if exponent == 0 {
        0
    } else if exponent >= 1075 {
        double_significand(bits) * vstd::arithmetic::power2::pow2((exponent - 1075) as nat)
    } else {
        double_significand(bits) / vstd::arithmetic::power2::pow2((1075 - exponent) as nat)
    }
}

/// A double as a count: its integer part, zero when it is negative or not finite, and no
/// larger than an `i64` can hold.
pub open spec fn count_of_double(bits: u64) -> int {
    let whole = double_whole_part(bits);
    if bits >= 0x8000_0000_0000_0000 || double_exponent(bits) == 0x7ff {
        0
    } else if whole > i64::MAX {
        i64::MAX as int
    } else {
        whole as int
    }
}

/// What a field says as a count is one an `i64` can hold.
proof fn lemma_count_fits(field: Option<Field>)
    ensures
        0 <= count_in(field) <= i64::MAX,
{
}

/// Reads a double as a count.
fn count_from_double(bits: u64) -> (r: i64)
    ensures
        r == count_of_double(bits),
{
    let exponent: u64 = (bits / 0x10_0000_0000_0000) % 0x800;
    let significand: u64 = 0x10_0000_0000_0000 + bits % 0x10_0000_0000_0000;
    if bits >= 0x8000_0000_0000_0000 || exponent == 0x7ff || exponent == 0 {
        return 0;
    }
    proof {
        vstd::arithmetic::power2::lemma2_to64();
        vstd::arithmetic::power2::lemma2_to64_rest();
    }
    if exponent >= 1086 {
        proof {
            if exponent > 1086 {
                vstd::arithmetic::power2::lemma_pow2_strictly_increases(11, (exponent - 1075) as nat);
            }
            let scale = vstd::arithmetic::power2::pow2((exponent - 1075) as nat);
            assert(significand * scale >= 0x10_0000_0000_0000 * 2048) by (nonlinear_arith)
                requires
                    significand >= 0x10_0000_0000_0000,
                    scale >= 2048,
            ;
        }
        i64::MAX
    } else if exponent >= 1075 {
        let shift: u64 = exponent - 1075;
        proof {
            if shift < 10 {
                vstd::arithmetic::power2::lemma_pow2_strictly_increases(shift as nat, 10);
            }
            let scale = vstd::arithmetic::power2::pow2(shift as nat);
            assert(significand * scale <= 0x1f_ffff_ffff_ffff * 1024) by (nonlinear_arith)
                requires
                    significand <= 0x1f_ffff_ffff_ffff,
                    scale <= 1024,
            ;
            vstd::bits::lemma_u64_shl_is_mul(significand, shift);
        }
        (significand << shift) as i64
    } else {
        let shift: u64 = 1075 - exponent;
        if shift >= 64 {
            proof {
                if shift > 64 {
                    vstd::arithmetic::power2::lemma_pow2_strictly_increases(64, shift as nat);
                }
                vstd::arithmetic::div_mod::lemma_basic_div(significand as int, vstd::arithmetic::power2::pow2(shift as nat) as int);
            }
            0
        } else {
            proof {
                vstd::bits::lemma_u64_shr_is_div(significand, shift);
                vstd::arithmetic::power2::lemma_pow2_pos(shift as nat);
                vstd::arithmetic::div_mod::lemma_div_is_ordered_by_denominator(
                    significand as int,
                    1,
                    vstd::arithmetic::power2::pow2(shift as nat) as int,
                );
            }
            (significand >> shift) as i64
        }
    }
}

/// Truncates to a character count, not a byte count: a byte count could split a multi-byte
/// sequence in half.
fn as_text(field: &Option<Field>, max: usize) -> (r: String)
    ensures
        r@ == text_in(*field, max as nat),
{
    match field {
        Some(Field::Text(text)) => {
            if text.as_str().unicode_len() <= max {
                text.clone()
            } else {
                let kept = text.as_str().substring_char(0, max);
                assert(kept@ == text@.take(max as int));
                kept.to_owned()
            }
        },
        _ => String::new(),
    }
}

fn as_count(field: &Option<Field>) -> (r: i64)
    ensures
        r == count_in(*field),
{
    match field {
        Some(Field::Number { bits }) => count_from_double(*bits),
        _ => 0,
    }
}

fn as_flag(field: &Option<Field>) -> (r: bool)
    ensures
        r == flag_in(*field),
{
    match field {
        Some(Field::Flag(flag)) => *flag,
        _ => false,
    }
}

/// The title a card shows when the sender gave none that is usable.
pub open spec fn title_or_fallback(title: Seq<char>) -> Seq<char> {
    if title.len() == 0 {
        "ERROR"@
    } else {
        title
    }
}

impl PublicLobbyInput {
    /// Whether the sender asks for its lobby to be public. Either flag does.
    pub open spec fn asks_public(self) -> bool {
        flag_in(self.is_public) || flag_in(self.is_public2)
    }

    /// The card made of what the sender gave.
    pub open spec fn card(self, id: u64, state_time: i64) -> PublicLobbyView {
        PublicLobbyView {
            id,
            title: title_or_fallback(text_in(self.title, TITLE_LEN as nat)),
            host: text_in(self.host, HOST_LEN as nat),
            current_players: count_in(self.current_players) as i64,
            max_players: count_in(self.max_players) as i64,
            language: text_in(self.language, LANGUAGE_LEN as nat),
            mods: crate::text::uppercase_of(text_in(self.mods, MODS_LEN as nat)),
            is_public: self.asks_public(),
            server: text_in(self.server, SERVER_LEN as nat),
            game_state: count_in(self.game_state) as i64,
            state_time,
        }
    }

    /// Whether the sender asks for its lobby to be public.
    pub fn is_public(&self) -> (r: bool)
        ensures
            r == self.asks_public(),
    {
        as_flag(&self.is_public) || as_flag(&self.is_public2)
    }

    /// The game state the sender reports, as its card shows it.
    pub fn incoming_state(&self) -> (r: i64)
        ensures
            r == count_in(self.game_state),
    {
        as_count(&self.game_state)
    }

    /// Makes the card of a lobby out of what its sender gave.
    pub fn sanitise(&self, id: u64, state_time: i64) -> (r: PublicLobby)
        ensures
            r@ == self.card(id, state_time),
    {
        let title = as_text(&self.title, TITLE_LEN);
        let mods = as_text(&self.mods, MODS_LEN);
        PublicLobby {
            id,
            title: if title.as_str().is_empty() {
                "ERROR".to_owned()
            } else {
                title
            },
            host: as_text(&self.host, HOST_LEN),
            current_players: as_count(&self.current_players),
            max_players: as_count(&self.max_players),
            language: as_text(&self.language, LANGUAGE_LEN),
            mods: uppercase(mods.as_str()),
            is_public: self.is_public(),
            server: as_text(&self.server, SERVER_LEN),
            game_state: as_count(&self.game_state),
            state_time,
        }
    }
}

/// Whatever the sender gave, a card is bounded: its texts are no longer than what is kept of
/// them, its title is never empty, and its counts are never negative.
pub proof fn a_card_is_bounded(input: PublicLobbyInput, id: u64, state_time: i64)
    ensures
        ({
            let card = input.card(id, state_time);
            &&& 0 < card.title.len() <= TITLE_LEN
            &&& card.host.len() <= HOST_LEN
            &&& card.language.len() <= LANGUAGE_LEN
            &&& card.server.len() <= SERVER_LEN
            &&& card.current_players >= 0
            &&& card.max_players >= 0
            &&& card.game_state >= 0
            &&& card.id == id
            &&& card.state_time == state_time
        }),
{
    reveal_strlit("ERROR");
    lemma_count_fits(input.current_players);
    lemma_count_fits(input.max_players);
    lemma_count_fits(input.game_state);
}

/// A text is kept as it is up to a number of characters; of a longer one, as many are kept from
/// its start. Anything but a text says nothing.
pub proof fn a_text_is_kept_from_its_start(field: Option<Field>, max: nat)
    ensures
        field matches Some(Field::Text(text)) ==> {
            let kept = text_in(field, max);
            &&& kept.len() == if text@.len() < max { text@.len() } else { max }
            &&& forall|i: int| 0 <= i < kept.len() ==> #[trigger] kept[i] == text@[i]
        },
        !(field matches Some(Field::Text(_))) ==> text_in(field, max).len() == 0,
{
}

/// Only `true` itself is a yes.
pub proof fn only_true_is_a_yes(field: Option<Field>)
    ensures
        flag_in(field) <==> field == Some(Field::Flag(true)),
{
}

/// A number counts as the largest integer that is no larger than it; a negative one, one that is
/// not finite and anything that is no number count as zero, and one that an `i64` cannot hold as
/// the largest that it can. `exponent` and `fraction` are the fields of the double.
pub proof fn a_count_is_rounded_down(bits: u64, negative: bool, exponent: nat, fraction: nat)
    requires
        exponent < 2048,
        fraction < 0x10_0000_0000_0000,
        bits == (if negative { 0x8000_0000_0000_0000nat } else { 0nat }) + exponent * 0x10_0000_0000_0000 + fraction,
    ensures
        ({
            let count = count_in(Some(Field::Number { bits }));
            let significand = 0x10_0000_0000_0000 + fraction;
            &&& negative || exponent == 0 || exponent == 2047 ==> count == 0
            &&& !negative && 0 < exponent < 1075 ==> {
                let unit = vstd::arithmetic::power2::pow2((1075 - exponent) as nat);
                count * unit <= significand < (count + 1) * unit
            }
            &&& !negative && 1075 <= exponent < 2047 ==> {
                let value = significand * vstd::arithmetic::power2::pow2((exponent - 1075) as nat);
                count == if value <= 0x7fff_ffff_ffff_ffff {
                    value as int
                } else {
                    0x7fff_ffff_ffff_ffff
                }
            }
        }),
{
    let significand = 0x10_0000_0000_0000 + fraction;
    assert(bits as nat % 0x10_0000_0000_0000 == fraction);
    assert(bits as nat / 0x10_0000_0000_0000 == exponent + if negative { 2048nat } else { 0nat });
    assert(double_exponent(bits) == exponent);
    assert(double_significand(bits) == significand);
    assert(bits >= 0x8000_0000_0000_0000 <==> negative);
    if !negative && 0 < exponent < 1075 {
        let unit = vstd::arithmetic::power2::pow2((1075 - exponent) as nat) as int;
        vstd::arithmetic::power2::lemma_pow2_pos((1075 - exponent) as nat);
        let whole = significand as int / unit;
        vstd::arithmetic::div_mod::lemma_fundamental_div_mod(significand as int, unit);
        vstd::arithmetic::div_mod::lemma_mod_bound(significand as int, unit);
        vstd::arithmetic::div_mod::lemma_div_is_ordered_by_denominator(significand as int, 1, unit);
        assert(whole <= significand);
        assert(double_whole_part(bits) == whole);
        assert(whole * unit <= significand < (whole + 1) * unit) by (nonlinear_arith)
            requires
                significand == unit * whole + significand as int % unit,
                0 <= significand as int % unit < unit,
        ;
    }
}

/// What is not a number counts as zero.
pub proof fn only_numbers_count(field: Option<Field>)
    requires
        !(field matches Some(Field::Number { .. })),
    ensures
        count_in(field) == 0,
{
}

/// What a card says: of each text its first characters, 20 of the title, 10 of the host, 5 of
/// the language, 20 of the mods, in upper case, and 100 of the server; the counts that were
/// given; and whether either flag asks to be public. A title that gives nothing is replaced.
pub proof fn a_card_says_what_was_given(input: PublicLobbyInput, id: u64, state_time: i64)
    ensures
        ({
            let card = input.card(id, state_time);
            let title = text_in(input.title, 20);
            &&& card.id == id
            &&& card.state_time == state_time
            &&& title.len() > 0 ==> card.title == title
            &&& title.len() == 0 ==> card.title == "ERROR"@
            &&& card.host == text_in(input.host, 10)
            &&& card.language == text_in(input.language, 5)
            &&& card.mods == crate::text::uppercase_of(text_in(input.mods, 20))
            &&& card.server == text_in(input.server, 100)
            &&& card.current_players == count_in(input.current_players)
            &&& card.max_players == count_in(input.max_players)
            &&& card.game_state == count_in(input.game_state)
            &&& card.is_public <==> input.is_public == Some(Field::Flag(true)) || input.is_public2 == Some(
                Field::Flag(true),
            )
            &&& input.asks_public() == card.is_public
            &&& card.joinable() <==> card.is_public && card.game_state == 0
        }),
{
    lemma_count_fits(input.current_players);
    lemma_count_fits(input.max_players);
    lemma_count_fits(input.game_state);
}

} // verus!
