//! What the parts do that calls are made of, stated of the functions themselves.
use crate::api::{
    add_user, decrypt_with, encrypt_with, is_ciphertext, login, material_entry, pk,
    plaintext_text, user_to_add,
};
use crate::database::{
    db_add_user, db_get_session_by_id, db_get_session_by_user_scheme, db_get_user,
    db_insert_session, db_session_created, db_user_added,
};
use crate::messages::{AccessTokenResponse, Fault, TokenRequest};
use crate::policy::Policy;
use crate::protocol::{Query, Response, Step, Task};
use crate::schema::{NewUser, User};
use crate::server::{create_session, store_session};
use vstd::prelude::*;

verus! {

/// Lookups ask for what they are given.
pub proof fn law_lookups(
    username: &str,
    by_name: Query,
    user: &User,
    id: &str,
    by_id: Query,
    user_id: i32,
    scheme: &str,
    by_scheme: Query,
)
    requires
        call_ensures(db_get_user, (username,), by_name),
        call_ensures(db_get_session_by_id, (user, id), by_id),
        call_ensures(db_get_session_by_user_scheme, (user_id, scheme), by_scheme),
    ensures
        by_name matches Query::UserByName(n) && n@ == username@,
        by_id matches Query::SessionById { user_id: u, session_id: s } && u == user.id && s@
            == id@,
        by_scheme matches Query::SessionByScheme { user_id: u, scheme: s } && u == user_id && s@
            == scheme@,
{
}

/// Insertions add the row that they are given, and say whether it was added.
pub proof fn law_insertions(
    existing: &Option<User>,
    username: &str,
    password: &str,
    salt: i32,
    api_key: &str,
    to_add: Result<Query, String>,
    rows: Option<usize>,
    added: Result<usize, String>,
    user: &User,
    scheme: &str,
    id: &str,
    material: &Vec<String>,
    to_store: Query,
    stored_id: String,
    stored: Result<String, String>,
)
    requires
        call_ensures(db_add_user, (existing, username, password, salt, api_key), to_add),
        call_ensures(db_user_added, (rows,), added),
        call_ensures(db_insert_session, (user, scheme, id, material), to_store),
        call_ensures(db_session_created, (stored_id, rows), stored),
    ensures
        match existing {
            Some(_) => to_add matches Err(reason) && reason@ == "User already exists"@,
            None => {
                &&& to_add matches Ok(Query::InsertUser(row))
                &&& row.username@ == username@
                &&& row.password@ == password@
                &&& row.salt == salt
                &&& row.api_key@ == api_key@
            },
        },
        match rows {
            Some(n) => added == Ok::<usize, String>(n),
            None => added matches Err(reason) && reason@ == "Could not insert user"@,
        },
        to_store matches Query::InsertSession(row) && {
            &&& row.user_id == user.id
            &&& !row.is_initialized
            &&& row.scheme@ == scheme@
            &&& row.session_id@ == id@
            &&& crate::json::parsed_strings(row.key_material@) == Some(material.deep_view())
        },
        match rows {
            Some(_) => stored matches Ok(i) && i@ == stored_id@,
            None => stored matches Err(reason) && reason@ == "Could not insert into sessions"@,
        },
{
}

/// A user logs in with their own password, and with no other. A user who is added has
/// the name and the password of the message, the salt of everybody and the key that
/// was drawn.
pub proof fn law_users(
    request: &TokenRequest,
    user: User,
    token: Result<AccessTokenResponse, String>,
    msg: &crate::messages::User,
    api_key: String,
    to_add: NewUser,
    new_user: NewUser,
)
    requires
        call_ensures(login, (request, user), token),
        call_ensures(user_to_add, (msg, api_key), to_add),
        call_ensures(add_user, (msg,), new_user),
    ensures
        request.password@ == user.password@ ==> (token matches Ok(t) && t.access_token@
            == user.api_key@ && t.token_type@ == "bearer"@ && t.expires_in == 30758400),
        request.password@ != user.password@ ==> (token matches Err(reason) && reason@
            == "Invalid"@),
        to_add.username@ == msg.username@,
        to_add.password@ == msg.password@,
        to_add.salt == 1234,
        to_add.api_key@ == api_key@,
        new_user.username@ == msg.username@,
        new_user.password@ == msg.password@,
        new_user.salt == 1234,
        crate::random::key_drawn(new_user.api_key@),
{
}

/// The public key in a file is sent in compact form, and it is a bad request where
/// there is none. An entry of the key material is the one at that place. What is no
/// ciphertext is known as such. Bytes are read as the text they encode.
pub proof fn law_pieces(
    file: Result<String, String>,
    response: Response,
    material: &Option<Vec<String>>,
    index: usize,
    entry: Result<String, Fault>,
    ct: &str,
    holds: bool,
    plaintext: &Option<Vec<u8>>,
    text: Result<String, Fault>,
)
    requires
        call_ensures(pk, (file,), response),
        call_ensures(material_entry, (material, index), entry),
        call_ensures(is_ciphertext, (ct,), holds),
        call_ensures(plaintext_text, (plaintext,), text),
    ensures
        (file matches Ok(t) && crate::abe::printed_public_key(t@) is Some) ==> (
        response matches Response::Text(r) && Some(r@) == crate::abe::printed_public_key(
            file->Ok_0@,
        )),
        !(file matches Ok(t) && crate::abe::printed_public_key(t@) is Some) ==> (
        response matches Response::BadRequest(r) && r@ == "Failure"@),
        (material matches Some(list) && index < list@.len()) ==> (entry matches Ok(e) && e@
            == material->0[index as int]@),
        !(material matches Some(list) && index < list@.len()) ==> entry == Err::<String, Fault>(
            Fault::MalformedKeyMaterial,
        ),
        holds <==> crate::abe::ciphertext_parts(ct@) is Some,
        match plaintext {
            None => text == Err::<String, Fault>(Fault::NotOpened),
            Some(bytes) => if vstd::utf8::valid_utf8(bytes@) {
                text matches Ok(t) && t@ == vstd::utf8::decode_utf8(bytes@)
            } else {
                text == Err::<String, Fault>(Fault::NotText)
            },
        },
{
    if let Some(list) = material {
        assert(material.deep_view() == Some(list.deep_view()));
        if index < list@.len() {
            assert(list.deep_view()[index as int] == list[index as int]@);
        }
    }
    if let Some(bytes) = plaintext {
        assert(bytes.deep_view() =~= bytes@);
    }
}

/// Encrypting in a session is encrypting with the first entry of its key material,
/// and decrypting in it is decrypting with the third: the two forms of each give the
/// same, up to chance.
pub proof fn law_keys_and_sessions(
    key_material: Seq<char>,
    material: Seq<Seq<char>>,
    public_key: &str,
    policy: &str,
    plaintext: &str,
    sealed: Result<String, Fault>,
    secret_key: &str,
    ct: &str,
    opened: Result<String, Fault>,
)
    requires
        crate::json::parsed_strings(key_material) == Some(material),
        material.len() >= 3,
        material[0] == public_key@,
        material[2] == secret_key@,
        call_ensures(encrypt_with, (public_key, policy, plaintext), sealed),
        call_ensures(decrypt_with, (secret_key, ct), opened),
    ensures
        crate::api::encrypted(
            key_material,
            policy@,
            plaintext@,
            crate::api::text_view(sealed),
        ),
        crate::api::decrypted(key_material, ct@, crate::api::text_view(opened)),
{
}

/// A session is stored under the identifier that was drawn for it, for every user and
/// all key material. For want of randomness a session is not stored only where no
/// number was to be had.
pub proof fn law_sessions_are_stored(
    material: Vec<String>,
    user: User,
    drawn: Option<String>,
    stored: Step,
    created: Step,
)
    requires
        call_ensures(store_session, (material, user, drawn), stored),
        call_ensures(create_session, (material, user), created),
    ensures
        drawn is None ==> stored == Step::Done(Response::Failed(Fault::NoRandomness)),
        drawn matches Some(id) ==> is_stored(material, user, id@, stored),
        exists|number: Option<u64>| #[trigger]
            crate::random::number_drawn(number) && match number {
                None => created == Step::Done(Response::Failed(Fault::NoRandomness)),
                Some(n) => is_stored(
                    material,
                    user,
                    crate::text::decimal(n as nat),
                    created,
                ),
            },
{
    let number = choose|number: Option<u64>| #[trigger]
        crate::random::number_drawn(number) && match number {
            None => created@ == crate::server::failed(Fault::NoRandomness),
            Some(n) => {
                &&& created@ == crate::server::session_to_store(
                    material.deep_view(),
                    user@,
                    crate::text::decimal(n as nat),
                )
                &&& crate::json::parsed_strings(
                    crate::json::printed_strings(material.deep_view()),
                ) == Some(material.deep_view())
            },
        };
    assert(crate::random::number_drawn(number));
}

/// The step asks for the insertion of a session of the user with that identifier and
/// that key material, under `bsw`, and goes on with the identifier.
pub open spec fn is_stored(
    material: Vec<String>,
    user: User,
    id: Seq<char>,
    step: Step,
) -> bool {
    &&& step matches Step::Ask(Query::InsertSession(row), Task::SetupStored { session_id })
    &&& session_id@ == id
    &&& row.user_id == user.id
    &&& !row.is_initialized
    &&& row.scheme@ == "bsw"@
    &&& row.session_id@ == id
    &&& crate::json::parsed_strings(row.key_material@) == Some(material.deep_view())
}

/// Two encryptions with one key for texts that write down one policy are both done,
/// or both not, where the policy is not nested too deep: neither how the policy is
/// written nor what is encrypted plays a part, so long as the text is not too long.
pub proof fn law_encryption_is_even_handed(
    public_key: &str,
    policy: Policy,
    one: &str,
    a: &str,
    first: Result<String, Fault>,
    other: &str,
    b: &str,
    second: Result<String, Fault>,
)
    requires
        call_ensures(encrypt_with, (public_key, one, a), first),
        call_ensures(encrypt_with, (public_key, other, b), second),
        crate::policy_grammar::written_in(one@, policy, false),
        crate::policy_grammar::written_in(other@, policy, false),
        policy.height() <= 29,
        vstd::utf8::encode_utf8(a@).len() <= 0x10_0000_0000,
        vstd::utf8::encode_utf8(b@).len() <= 0x10_0000_0000,
    ensures
        first is Ok <==> second is Ok,
        first matches Err(fault) ==> second == Err::<String, Fault>(fault),
{
    crate::policy_grammar::law_policies_are_read_as_written(one@);
    crate::policy_grammar::law_policies_are_read_as_written(other@);
    assert(crate::policy_text::policy_of(one@) == Some(policy));
    assert(crate::policy_text::policy_of(other@) == Some(policy));
}

} // verus!
