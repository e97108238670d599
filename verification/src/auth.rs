//! API keys: how they come with a request and what is looked up for them.
use crate::protocol::Status;
use crate::schema::User;
use crate::text::{starts_with, without_word};
use vstd::prelude::*;

verus! {

/// An API key as it came with a request, with or without the word `Bearer`.
#[derive(Debug, PartialEq)]
pub struct ApiKey(pub String);

/// The key without the word `Bearer`, wherever in it the word stands.
pub open spec fn bare_key(key: Seq<char>) -> Seq<char> {
    crate::text::without(key, "Bearer "@)
}

/// The key that is looked up to see whether a presented key is valid: without
/// the word `Bearer` where it begins with that word, else as it stands.
pub open spec fn presented_key(key: Seq<char>) -> Seq<char> {
    if crate::text::begins_with(key, "Bearer "@) {
        bare_key(key)
    } else {
        key
    }
}

/// The key that a request presents in its `Authorization` header, of which there
/// must be exactly one.
pub fn from_request(authorization: &Vec<String>) -> (key: Result<ApiKey, Status>)
    ensures
        match key {
            Ok(k) => authorization.deep_view() == seq![k.0@],
            Err(status) => authorization@.len() != 1 && status == Status::BadRequest,
        },
{
    if authorization.len() != 1 {
        return Err(Status::BadRequest);
    }
    let key = authorization[0].clone();
    assert(authorization.deep_view() =~= seq![key@]);
    Ok(ApiKey(key))
}

/// The API key to look up for the key that was presented.
pub fn key_to_validate(key: &str) -> (k: String)
    ensures
        k@ == presented_key(key@),
{
    if starts_with(key, "Bearer ") {
        without_word(key, "Bearer ")
    } else {
        key.to_owned()
    }
}

/// Whether a presented key is valid, by what the lookup found.
pub fn is_valid(found: &Option<User>) -> (valid: bool)
    ensures
        valid == (found is Some),
{
    match found {
        Some(_) => true,
        None => false,
    }
}

/// A key in which the word `Bearer` does not occur is looked up as it is, whether
/// it is presented alone or behind that word, and so is the user who owns it.
pub proof fn law_bearer_makes_no_difference(key: Seq<char>)
    requires
        !crate::text::occurs("Bearer "@, key),
    ensures
        presented_key(key) == key,
        bare_key(key) == key,
        presented_key("Bearer "@ + key) == key,
        bare_key("Bearer "@ + key) == key,
{
    crate::text::lemma_without_absent(key, "Bearer "@);
    crate::text::lemma_without_leading("Bearer "@, key);
    let led = "Bearer "@ + key;
    assert(led.take("Bearer "@.len() as int) =~= "Bearer "@);
}

/// The word `Bearer` does not occur in an API key that the server generates.
pub proof fn law_generated_keys_are_bare(key: Seq<char>)
    requires
        crate::random::uuid_text(key),
    ensures
        !crate::text::occurs("Bearer "@, key),
{
    reveal_strlit("Bearer ");
    let word = "Bearer "@;
    assert forall|i: int| 0 <= i <= key.len() implies !#[trigger] crate::text::begins_with(
        key.skip(i),
        word,
    ) by {
        let tail = key.skip(i);
        if crate::text::begins_with(tail, word) {
            assert(tail.take(word.len() as int)[0] == 'B');
            assert(key[i] == 'B');
        }
    }
}

} // verus!
