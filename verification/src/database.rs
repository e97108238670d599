//! What is asked of the database, and what its replies mean.
use crate::protocol::Query;
use crate::schema::{NewSession, NewUser, User};
use vstd::prelude::*;

verus! {

/// The scheme is one that sessions can be created for.
pub open spec fn known_scheme(scheme: Seq<char>) -> bool {
    scheme == "bsw"@
}

/// Whether the scheme is one that sessions can be created for.
pub fn is_known_scheme(scheme: &str) -> (known: bool)
    ensures
        known == known_scheme(scheme@),
{
    scheme.to_owned() == "bsw".to_owned()
}

/// Asks for the user of that name.
pub fn db_get_user(username: &str) -> (query: Query)
    ensures
        query@ == crate::protocol::QueryOf::UserByName(username@),
{
    Query::UserByName(username.to_owned())
}

/// Asks for the user whose API key was presented.
pub fn db_get_user_of_apikey(api_key: &str) -> (query: Query)
    ensures
        query@ == crate::protocol::QueryOf::UserByApiKey(crate::auth::bare_key(api_key@)),
{
    Query::UserByApiKey(crate::text::without_word(api_key, "Bearer "))
}

/// Asks for the session of the user with that identifier.
pub fn db_get_session_by_id(user: &User, session_id: &str) -> (query: Query)
    ensures
        query@ == (crate::protocol::QueryOf::SessionById {
            user_id: user.id,
            session_id: session_id@,
        }),
{
    Query::SessionById { user_id: user.id, session_id: session_id.to_owned() }
}

/// Asks for the session of the user with that number under that scheme.
pub fn db_get_session_by_user_scheme(user_id: i32, scheme: &str) -> (query: Query)
    ensures
        query@ == (crate::protocol::QueryOf::SessionByScheme { user_id, scheme: scheme@ }),
{
    Query::SessionByScheme { user_id, scheme: scheme.to_owned() }
}

/// Adds a user to the database, where no user of that name was found in it.
pub fn db_add_user(
    existing: &Option<User>,
    username: &str,
    passwd: &str,
    salt: i32,
    api_key: &str,
) -> (query: Result<Query, String>)
    ensures
        match query {
            Ok(q) => existing is None && q@ == crate::protocol::QueryOf::InsertUser(
                (crate::schema::NewUserOf {
                    username: username@,
                    password: passwd@,
                    salt,
                    api_key: api_key@,
                }),
            ),
            Err(reason) => existing is Some && reason@ == "User already exists"@,
        },
{
    match existing {
        Some(_) => Err("User already exists".to_owned()),
        None => Ok(
            Query::InsertUser(
                NewUser {
                    username: username.to_owned(),
                    password: passwd.to_owned(),
                    salt,
                    api_key: api_key.to_owned(),
                },
            ),
        ),
    }
}

/// Whether the user was added, by the number of rows that were.
pub fn db_user_added(inserted: Option<usize>) -> (added: Result<usize, String>)
    ensures
        match added {
            Ok(rows) => inserted == Some(rows),
            Err(reason) => inserted is None && reason@ == "Could not insert user"@,
        },
{
    match inserted {
        Some(rows) => Ok(rows),
        None => Err("Could not insert user".to_owned()),
    }
}

/// Begins to create a session for the user of that name, under a scheme that is
/// known: asks for the user.
pub fn db_create_session(username: &str, scheme: &str) -> (query: Result<Query, String>)
    ensures
        match query {
            Ok(q) => known_scheme(scheme@) && q@ == crate::protocol::QueryOf::UserByName(
                username@,
            ),
            Err(reason) => !known_scheme(scheme@) && reason@ == "Invalid scheme"@,
        },
{
    if !is_known_scheme(scheme) {
        return Err("Invalid scheme".to_owned());
    }
    Ok(db_get_user(username))
}

/// Goes on to create the session, for the user who was found: adds its row.
pub fn db_insert_session(
    user: &User,
    scheme: &str,
    session_id: &str,
    key_material: &Vec<String>,
) -> (query: Query)
    ensures
        query@ matches crate::protocol::QueryOf::InsertSession(session) && session == (
        crate::schema::NewSessionOf {
            user_id: user.id,
            is_initialized: false,
            scheme: scheme@,
            session_id: session_id@,
            key_material: crate::json::printed_strings(key_material.deep_view()),
        }) && crate::json::parsed_strings(session.key_material) == Some(key_material.deep_view()),
{
    Query::InsertSession(
        NewSession {
            user_id: user.id,
            is_initialized: false,
            scheme: scheme.to_owned(),
            session_id: session_id.to_owned(),
            key_material: crate::json::print_strings(key_material),
        },
    )
}

/// Whether the session was created, by the number of rows that were added.
pub fn db_session_created(session_id: String, inserted: Option<usize>) -> (created: Result<
    String,
    String,
>)
    ensures
        match created {
            Ok(id) => inserted is Some && id@ == session_id@,
            Err(reason) => inserted is None && reason@ == "Could not insert into sessions"@,
        },
{
    match inserted {
        Some(_) => Ok(session_id),
        None => Err("Could not insert into sessions".to_owned()),
    }
}

} // verus!
