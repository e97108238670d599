//! What is drawn at random: API keys and session identifiers.
use vstd::prelude::*;

verus! {

/// A lower-case hexadecimal digit.
pub open spec fn hex_digit(c: char) -> bool {
    '0' <= c <= '9' || 'a' <= c <= 'f'
}

/// The text of a random UUID: 32 hexadecimal digits in five groups, the first
/// of the third group a `4`, the first of the fourth one of `8`, `9`, `a`, `b`.
pub open spec fn uuid_text(text: Seq<char>) -> bool {
    &&& text.len() == 36
    &&& forall|i: int|
        0 <= i < 36 ==> if i == 8 || i == 13 || i == 18 || i == 23 {
            #[trigger] text[i] == '-'
        } else {
            hex_digit(text[i])
        }
    &&& text[14] == '4'
    &&& text[19] == '8' || text[19] == '9' || text[19] == 'a' || text[19] == 'b'
}

/// `uuid::Uuid::new_v4` and its `to_string`: some random UUID in its hyphenated
/// form. Which one it is depends on chance. It panics where the operating system
/// has no randomness to give.
#[verifier::external_body]
fn random_uuid() -> (text: String)
    ensures
        uuid_text(text@),
{
    uuid::Uuid::new_v4().to_string()
}

/// `rand::os::OsRng::new` and `Rng::next_u64`: some number from the randomness
/// of the operating system, or nothing where the system offers none. Which
/// number it is depends on chance, so nothing is claimed of it. It panics where
/// the system breaks off while the number is drawn.
#[verifier::external_body]
fn random_number() -> (number: Option<u64>) {
    let mut rng = rand::os::OsRng::new().ok()?;
    Some(rand::Rng::next_u64(&mut rng))
}

/// The number is one that the operating system can give, or it gives none.
pub closed spec fn number_drawn(number: Option<u64>) -> bool {
    call_ensures(random_number, (), number)
}

/// The text is one that can be drawn as a random UUID.
pub closed spec fn key_drawn(text: Seq<char>) -> bool {
    exists|drawn: String| #[trigger] call_ensures(random_uuid, (), drawn) && drawn@ == text
}

/// Numbers and keys are drawn by the two functions that draw them.
proof fn law_only_chance_draws(number: Option<u64>, text: Seq<char>)
    ensures
        number_drawn(number) ==> call_ensures(random_number, (), number),
        key_drawn(text) ==> exists|drawn: String| #[trigger]
            call_ensures(random_uuid, (), drawn) && drawn@ == text,
{
}

/// Generates a new API key in form of a random UUID.
pub fn generate_api_key() -> (key: String)
    ensures
        uuid_text(key@),
        key_drawn(key@),
{
    random_uuid()
}

/// The identifier of the session that was drawn the number `number`.
pub fn session_id(number: u64) -> (id: String)
    ensures
        id@ == crate::text::decimal(number as nat),
{
    crate::text::decimal_text(number)
}

/// Draws the identifier of a new session, a number in decimal, where the
/// operating system offers randomness.
pub fn generate_session_id() -> (id: Option<String>)
    ensures
        id matches Some(i) ==> exists|number: u64| i@ == #[trigger] crate::text::decimal(
            number as nat,
        ),
        exists|number: Option<u64>| #[trigger] number_drawn(number) && match number {
            None => id is None,
            Some(n) => id matches Some(i) && i@ == crate::text::decimal(n as nat),
        },
{
    let number = random_number();
    assert(number_drawn(number));
    drawn_session_id(number)
}

/// The identifier of a new session by what was drawn for it: the number in
/// decimal, or nothing where no number could be drawn.
pub fn drawn_session_id(drawn: Option<u64>) -> (id: Option<String>)
    ensures
        match drawn {
            None => id is None,
            Some(number) => id matches Some(i) && i@ == crate::text::decimal(number as nat),
        },
{
    match drawn {
        None => None,
        Some(number) => Some(session_id(number)),
    }
}

} // verus!
