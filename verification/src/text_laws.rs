//! What texts come out as: API keys without the word `Bearer`, numbers in decimal,
//! password hashes, and the schemes that sessions can be made for.
use crate::auth::{from_request, is_valid, key_to_validate, ApiKey};
use crate::database::{db_create_session, db_get_user_of_apikey, is_known_scheme};
use crate::passwd::to_db_passwd;
use crate::protocol::{Query, Status};
use crate::random::{drawn_session_id, generate_api_key, generate_session_id, session_id};
use crate::text::{
    characters, decimal_text, signed_decimal_text, stands_at, starts_with, without_word,
};
use vstd::prelude::*;

verus! {

/// A text begins with a word where it is that word with something behind it.
pub proof fn law_beginnings(text: Seq<char>, word: Seq<char>)
    ensures
        crate::text::begins_with(text, word) <==> exists|rest: Seq<char>| text == word + rest,
{
    if crate::text::begins_with(text, word) {
        assert(text =~= word + text.skip(word.len() as int));
    }
    if exists|rest: Seq<char>| text == word + rest {
        let rest = choose|rest: Seq<char>| text == word + rest;
        assert(text.take(word.len() as int) =~= word);
    }
}

/// A word occurs in a text where the text is that word between two others.
pub proof fn law_occurrences(text: Seq<char>, word: Seq<char>)
    ensures
        crate::text::occurs(word, text) <==> exists|a: Seq<char>, b: Seq<char>|
            text == #[trigger] (a + word + b),
{
    if crate::text::occurs(word, text) {
        let i = choose|i: int|
            0 <= i <= text.len() && #[trigger] crate::text::begins_with(text.skip(i), word);
        assert(text.skip(i).take(word.len() as int) == word);
        let b = text.skip(i + word.len());
        assert(text =~= text.take(i) + word + b) by {
            assert forall|k: int| i <= k < i + word.len() implies text[k] == word[k - i] by {
                assert(text.skip(i).take(word.len() as int)[k - i] == word[k - i]);
            }
        }
    }
    if exists|a: Seq<char>, b: Seq<char>| text == #[trigger] (a + word + b) {
        let (a, b) = choose|a: Seq<char>, b: Seq<char>| text == #[trigger] (a + word + b);
        let i = a.len() as int;
        assert(text.skip(i).take(word.len() as int) =~= word);
        assert(crate::text::begins_with(text.skip(i), word));
    }
}

/// Taking `Bearer` out takes out each place where it stands, one after the other,
/// and leaves all else: a text in which it does not occur stays as it is, and what
/// comes before the first place stays before what is left of what comes after.
pub proof fn law_bearer_is_taken_out(before: Seq<char>, rest: Seq<char>)
    requires
        !crate::text::occurs("Bearer "@, before),
    ensures
        crate::auth::bare_key(before) == before,
        crate::auth::bare_key(before + "Bearer "@ + rest) == before + crate::auth::bare_key(rest),
    decreases before.len(),
{
    reveal_strlit("Bearer ");
    let word = "Bearer "@;
    let text = before + word + rest;
    crate::text::lemma_without_absent(before, word);
    if before.len() == 0 {
        assert(text =~= word + rest);
        assert(text.take(word.len() as int) =~= word);
        assert(text.skip(word.len() as int) =~= rest);
        assert(before + crate::auth::bare_key(rest) =~= crate::auth::bare_key(rest));
    } else {
        let m = before.len() as int;
        if crate::text::begins_with(text, word) {
            assert forall|k: int| 0 <= k < 7 implies text[k] == word[k] by {
                assert(text.take(7)[k] == word[k]);
            }
            if m >= 7 {
                assert(before.skip(0).take(7) =~= word);
                assert(crate::text::begins_with(before.skip(0), word));
            } else {
                assert(text[m] == word[0]);
            }
        }
        let tail = before.skip(1);
        assert forall|i: int| 0 <= i <= tail.len() implies !#[trigger] crate::text::begins_with(
            tail.skip(i),
            word,
        ) by {
            assert(tail.skip(i) =~= before.skip(i + 1));
        }
        law_bearer_is_taken_out(tail, rest);
        assert(text.skip(1) =~= tail + word + rest);
        assert(seq![text[0]] + (tail + crate::auth::bare_key(rest)) =~= before
            + crate::auth::bare_key(rest));
    }
}

/// A key that begins with `Bearer` is looked up without that word, and any other as
/// it stands.
pub proof fn law_presented_keys(key: Seq<char>)
    ensures
        (exists|rest: Seq<char>| key == "Bearer "@ + rest) ==> crate::auth::presented_key(key)
            == crate::auth::bare_key(key),
        !(exists|rest: Seq<char>| key == "Bearer "@ + rest) ==> crate::auth::presented_key(key)
            == key,
{
    law_beginnings(key, "Bearer "@);
}

/// What the functions on keys give: exactly one header holds a key, the guard looks
/// up the presented key and the calls the bare one, and a key is valid where a user
/// was found.
pub proof fn law_keys_of_requests(
    headers: &Vec<String>,
    key: Result<ApiKey, Status>,
    presented: &str,
    looked_up: String,
    owner: Query,
    found: &Option<crate::schema::User>,
    valid: bool,
)
    requires
        call_ensures(from_request, (headers,), key),
        call_ensures(key_to_validate, (presented,), looked_up),
        call_ensures(db_get_user_of_apikey, (presented,), owner),
        call_ensures(is_valid, (found,), valid),
    ensures
        headers@.len() == 1 ==> (key matches Ok(k) && k.0@ == headers[0]@),
        headers@.len() != 1 ==> key == Err::<ApiKey, Status>(Status::BadRequest),
        looked_up@ == crate::auth::presented_key(presented@),
        owner matches Query::UserByApiKey(k) && k@ == crate::auth::bare_key(presented@),
        valid <==> found is Some,
{
    if let Ok(k) = key {
        assert(headers.deep_view().len() == headers@.len());
        assert(headers.deep_view()[0] == headers[0]@);
    }
}

/// What the functions on texts give.
pub proof fn law_texts(
    text: &str,
    word: &str,
    chars: Vec<char>,
    starts: bool,
    rest: String,
    at: usize,
    letters: Vec<char>,
    found: bool,
)
    requires
        call_ensures(characters, (text,), chars),
        call_ensures(starts_with, (text, word), starts),
        call_ensures(without_word, (text, word), rest),
        at <= chars@.len(),
        call_ensures(stands_at, (&chars, at, &letters), found),
    ensures
        chars@ == text@,
        starts <==> exists|tail: Seq<char>| text@ == word@ + tail,
        !crate::text::occurs(word@, text@) ==> rest@ == text@,
        forall|tail: Seq<char>|
            word@.len() > 0 && text@ == word@ + tail ==> rest@ == #[trigger] crate::text::without(
                tail,
                word@,
            ),
        text@.len() > 0 && !starts ==> rest@ == seq![text@[0]] + crate::text::without(
            text@.skip(1),
            word@,
        ),
        found <==> exists|tail: Seq<char>| text@.skip(at as int) == letters@ + tail,
{
    law_beginnings(text@, word@);
    law_beginnings(text@.skip(at as int), letters@);
    if !crate::text::occurs(word@, text@) {
        crate::text::lemma_without_absent(text@, word@);
    }
    assert forall|tail: Seq<char>|
        word@.len() > 0 && text@ == word@ + tail implies rest@ == #[trigger] crate::text::without(
        tail,
        word@,
    ) by {
        assert((word@ + tail).take(word@.len() as int) =~= word@);
        assert((word@ + tail).skip(word@.len() as int) =~= tail);
    }
}

/// The number that digits stand for.
pub open spec fn value_of(digits: Seq<char>) -> int
    decreases digits.len(),
{
    if digits.len() == 0 {
        0
    } else {
        10 * value_of(digits.drop_last()) + (digits.last() as int - 48)
    }
}

/// The text is a number in decimal: digits only, without leading zeros.
pub open spec fn is_decimal_of(text: Seq<char>, n: int) -> bool {
    &&& text.len() > 0
    &&& forall|i: int| 0 <= i < text.len() ==> '0' <= #[trigger] text[i] <= '9'
    &&& text.len() > 1 ==> text[0] != '0'
    &&& value_of(text) == n
}

/// Numbers are written in decimal.
pub proof fn law_decimal(n: nat)
    ensures
        is_decimal_of(crate::text::decimal(n), n as int),
    decreases n,
{
    let text = crate::text::decimal(n);
    let last: nat = n % 10;
    assert(crate::text::digit(last) as int == 48 + last);
    if n < 10 {
        assert(text.drop_last() =~= Seq::<char>::empty());
        assert(value_of(text.drop_last()) == 0);
    } else {
        law_decimal(n / 10);
        let head = crate::text::decimal(n / 10);
        assert(text.drop_last() =~= head);
        assert forall|i: int| 0 <= i < text.len() implies '0' <= #[trigger] text[i] <= '9' by {
            if i < head.len() {
                assert(text[i] == head[i]);
            }
        }
        assert(text[0] == head[0]);
        if head.len() == 1 {
            assert(value_of(head.drop_last()) == 0);
        }
    }
}

/// What the functions on numbers give, and that the identifier of a session is the
/// number that was drawn for it. There is none only where no number was to be had.
pub proof fn law_numbers(
    number: u64,
    text: String,
    id: String,
    signed: i32,
    signed_text: String,
    drawn: Option<u64>,
    of_drawn: Option<String>,
    generated: Option<String>,
    key: String,
)
    requires
        call_ensures(decimal_text, (number,), text),
        call_ensures(session_id, (number,), id),
        call_ensures(signed_decimal_text, (signed,), signed_text),
        call_ensures(drawn_session_id, (drawn,), of_drawn),
        call_ensures(generate_session_id, (), generated),
        call_ensures(generate_api_key, (), key),
    ensures
        is_decimal_of(text@, number as int),
        is_decimal_of(id@, number as int),
        signed >= 0 ==> is_decimal_of(signed_text@, signed as int),
        signed < 0 ==> signed_text@.len() > 0 && signed_text@[0] == '-' && is_decimal_of(
            signed_text@.skip(1),
            -(signed as int),
        ),
        drawn is None ==> of_drawn is None,
        drawn matches Some(n) ==> (of_drawn matches Some(t) && is_decimal_of(t@, n as int)),
        generated is None ==> crate::random::number_drawn(None),
        generated matches Some(t) ==> exists|n: u64| #[trigger]
            is_decimal_of(t@, n as int) && crate::random::number_drawn(Some(n)),
        crate::random::key_drawn(key@),
{
    law_decimal(number as nat);
    if signed >= 0 {
        law_decimal(signed as nat);
    } else {
        let size = (-(signed as int)) as nat;
        law_decimal(size);
        assert(signed_text@.skip(1) =~= crate::text::decimal(size));
    }
    if let Some(n) = drawn {
        law_decimal(n as nat);
    }
    if let Some(t) = generated {
        let given = choose|given: Option<u64>| #[trigger]
            crate::random::number_drawn(given) && match given {
                None => generated is None,
                Some(n) => generated matches Some(i) && i@ == crate::text::decimal(n as nat),
            };
        law_decimal(given->0 as nat);
        assert(is_decimal_of(t@, given->0 as int));
    }
}

/// The text of a random UUID has 32 digits in groups of eight, four, four, four and
/// twelve, with the version and the variant of random ones.
pub proof fn law_uuid_text(text: Seq<char>)
    ensures
        crate::random::uuid_text(text) <==> {
            &&& text.len() == 36
            &&& text[8] == '-' && text[13] == '-' && text[18] == '-' && text[23] == '-'
            &&& text[14] == '4'
            &&& text[19] == '8' || text[19] == '9' || text[19] == 'a' || text[19] == 'b'
            &&& forall|i: int|
                0 <= i < 36 && i != 8 && i != 13 && i != 18 && i != 23 ==> ('0'
                    <= #[trigger] text[i] <= '9' || 'a' <= text[i] <= 'f')
        },
{
}

/// The hash of a password is that of the password with the salt in decimal behind it,
/// and 64 bytes long.
pub proof fn law_password_hash(password: String, salt: i32, hash: Vec<u8>)
    requires
        call_ensures(to_db_passwd, (password, salt), hash),
    ensures
        hash@.len() == 64,
        exists|digits: Seq<char>|
            {
                &&& salt >= 0 ==> is_decimal_of(digits, salt as int)
                &&& salt < 0 ==> digits.len() > 0 && digits[0] == '-' && is_decimal_of(
                    digits.skip(1),
                    -(salt as int),
                )
                &&& hash@ == crate::passwd::blake2b_hash(
                    64,
                    Seq::empty(),
                    #[trigger] vstd::utf8::encode_utf8(password@ + digits),
                )
            },
{
    let digits = crate::text::signed_decimal(salt as int);
    if salt >= 0 {
        law_decimal(salt as nat);
    } else {
        let size = (-(salt as int)) as nat;
        law_decimal(size);
        assert(digits.skip(1) =~= crate::text::decimal(size));
    }
    assert(hash@ == crate::passwd::blake2b_hash(
        64,
        Seq::empty(),
        vstd::utf8::encode_utf8(password@ + digits),
    ));
}

/// Sessions can be made under `bsw` and under no other scheme.
pub proof fn law_schemes(
    scheme: &str,
    known: bool,
    username: &str,
    query: Result<Query, String>,
)
    requires
        call_ensures(is_known_scheme, (scheme,), known),
        call_ensures(db_create_session, (username, scheme), query),
    ensures
        known <==> scheme@ == "bsw"@,
        scheme@ == "bsw"@ ==> (query matches Ok(Query::UserByName(name)) && name@ == username@),
        scheme@ != "bsw"@ ==> (query matches Err(reason) && reason@ == "Invalid scheme"@),
{
}

} // verus!
