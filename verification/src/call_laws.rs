//! What each call asks of the database and the key files, and how it is answered.
//!
//! These laws speak of the functions that do the work, [`begin`] and [`resume`], and
//! of the values that go in and come out. They hold whatever the replies are, so
//! long as each is of the kind that its query asks for.
use crate::messages::Fault;
use crate::protocol::{
    Call, GuardedCall, KeyFile, Query, Reply, Request, Response, Status, Step, Task,
};
use crate::schema::{Session, User};
use crate::server::{begin, resume};
use crate::store::Store;
use vstd::prelude::*;

verus! {

/// The reply is of the kind that the query asks for.
pub open spec fn fits(query: Query, reply: Reply) -> bool {
    match query {
        Query::UserByName(_) => reply is User,
        Query::UserByApiKey(_) => reply is User,
        Query::SessionById { .. } => reply is Session,
        Query::SessionByScheme { .. } => reply is Session,
        Query::InsertUser(_) => reply is Inserted,
        Query::InsertSession(_) => reply is Inserted,
        Query::ReadFile(_) => reply is File,
    }
}

/// From the step on, these queries are asked and get these replies, and the response
/// comes after the last.
pub open spec fn talks(step: Step, exchanges: Seq<(Query, Reply)>, response: Response) -> bool
    decreases exchanges.len(),
{
    match step {
        Step::Done(r) => exchanges.len() == 0 && response == r,
        Step::Ask(query, task) => {
            &&& exchanges.len() > 0
            &&& exchanges[0].0 == query
            &&& fits(query, exchanges[0].1)
            &&& exists|next: Step| #[trigger]
                call_ensures(resume, (task, exchanges[0].1), next) && talks(
                    next,
                    exchanges.skip(1),
                    response,
                )
        },
    }
}

/// The request can go through these queries and replies to the response.
pub open spec fn conversation(
    request: Request,
    exchanges: Seq<(Query, Reply)>,
    response: Response,
) -> bool {
    exists|step: Step| #[trigger]
        call_ensures(begin, (request,), step) && talks(step, exchanges, response)
}

/// The first step of a conversation.
proof fn lemma_first(
    request: Request,
    exchanges: Seq<(Query, Reply)>,
    response: Response,
) -> (step: Step)
    requires
        conversation(request, exchanges, response),
    ensures
        call_ensures(begin, (request,), step),
        talks(step, exchanges, response),
{
    choose|step: Step| #[trigger]
        call_ensures(begin, (request,), step) && talks(step, exchanges, response)
}

/// The step after the reply to a query.
proof fn lemma_next(
    query: Query,
    task: Task,
    exchanges: Seq<(Query, Reply)>,
    response: Response,
) -> (next: Step)
    requires
        talks(Step::Ask(query, task), exchanges, response),
    ensures
        exchanges.len() > 0,
        exchanges[0].0 == query,
        fits(query, exchanges[0].1),
        call_ensures(resume, (task, exchanges[0].1), next),
        talks(next, exchanges.skip(1), response),
{
    choose|next: Step| #[trigger]
        call_ensures(resume, (task, exchanges[0].1), next) && talks(
            next,
            exchanges.skip(1),
            response,
        )
}

/// The query asks for the user of that name.
pub open spec fn by_name(query: Query, name: Seq<char>) -> bool {
    query matches Query::UserByName(n) && n@ == name
}

/// The query asks for the user with that API key.
pub open spec fn by_key(query: Query, key: Seq<char>) -> bool {
    query matches Query::UserByApiKey(k) && k@ == key
}

/// The request is a bad one, for that reason.
pub open spec fn bad(response: Response, reason: Seq<char>) -> bool {
    response matches Response::BadRequest(r) && r@ == reason
}

/// The response is that text.
pub open spec fn says(response: Response, text: Seq<char>) -> bool {
    response matches Response::Text(t) && t@ == text
}

/// Logging in asks for the user of that name, and nothing else. The user gets their
/// API key as a bearer token for 356 days where the password is theirs, whoever they
/// are, and is turned away where it is not.
pub proof fn law_login_conversation(
    request: Request,
    msg: crate::messages::TokenRequest,
    exchanges: Seq<(Query, Reply)>,
    response: Response,
)
    requires
        request.call == Call::Login(msg),
        conversation(request, exchanges, response),
    ensures
        exchanges.len() == 1,
        by_name(exchanges[0].0, msg.username@),
        exchanges[0].1 matches Reply::User(found) && match found {
            None => response == Response::Failed(Fault::NoSuchUser),
            Some(user) => if user.password@ == msg.password@ {
                &&& response matches Response::Token(token)
                &&& token.access_token@ == user.api_key@
                &&& token.token_type@ == "bearer"@
                &&& token.expires_in == 60 * 60 * 24 * 356
            } else {
                bad(response, "Invalid"@)
            },
        },
{
    let first = lemma_first(request, exchanges, response);
    if let Step::Ask(query, task) = first {
        let next = lemma_next(query, task, exchanges, response);
    }
}

/// Adding a user asks for a user of that name. Where there is none, it asks for the
/// insertion of a row with that name and that password, the salt of everybody and a
/// key that was drawn, whatever the name and the password are, and the answer rests
/// on whether the row was inserted, and on nothing else.
pub proof fn law_add_user_conversation(
    request: Request,
    msg: crate::messages::User,
    exchanges: Seq<(Query, Reply)>,
    response: Response,
)
    requires
        request.call == Call::AddUser(msg),
        conversation(request, exchanges, response),
    ensures
        exchanges.len() > 0,
        by_name(exchanges[0].0, msg.username@),
        exchanges[0].1 matches Reply::User(found) && match found {
            Some(_) => exchanges.len() == 1 && bad(
                response,
                "Failure adding userpk failure: "@ + "User already exists"@,
            ),
            None => {
                &&& exchanges.len() == 2
                &&& exchanges[1].0 matches Query::InsertUser(row)
                &&& row.username@ == msg.username@
                &&& row.password@ == msg.password@
                &&& row.salt == 1234
                &&& crate::random::uuid_text(row.api_key@)
                &&& crate::random::key_drawn(row.api_key@)
                &&& exchanges[1].1 matches Reply::Inserted(rows)
                &&& match rows {
                    Some(_) => response == Response::Accepted,
                    None => bad(
                        response,
                        "Failure adding userpk failure: "@ + "Could not insert user"@,
                    ),
                }
            },
        },
{
    let first = lemma_first(request, exchanges, response);
    if let Step::Ask(query, task) = first {
        let next = lemma_next(query, task, exchanges, response);
        let rest = exchanges.skip(1);
        if let Step::Ask(query2, task2) = next {
            let last = lemma_next(query2, task2, rest, response);
            assert(exchanges[1] == rest[0]);
            assert(rest.skip(1).len() == 0);
        }
    }
}

/// A guarded call with other than one `Authorization` header is a bad request, and
/// asks nothing. With one, it asks for a user with the key in it, and is refused
/// where there is none, whatever the call is.
pub proof fn law_guard_conversation(
    request: Request,
    call: GuardedCall,
    exchanges: Seq<(Query, Reply)>,
    response: Response,
)
    requires
        request.call == Call::Guarded(call),
        conversation(request, exchanges, response),
    ensures
        request.authorization@.len() != 1 ==> exchanges.len() == 0 && response
            == Response::Refused(Status::BadRequest),
        request.authorization@.len() == 1 ==> {
            &&& exchanges.len() > 0
            &&& by_key(exchanges[0].0, crate::auth::presented_key(request.authorization[0]@))
            &&& exchanges[0].1 matches Reply::User(found)
            &&& found is None ==> exchanges.len() == 1 && response == Response::Refused(
                Status::Unauthorized,
            )
        },
{
    let first = lemma_first(request, exchanges, response);
    assert(request@.authorization.len() == request.authorization@.len());
    if request.authorization@.len() == 1 {
        assert(request@.authorization[0] == request.authorization[0]@);
        if let Step::Ask(query, task) = first {
            let next = lemma_next(query, task, exchanges, response);
        }
    }
}

/// The step after the guard, where a user has the key.
proof fn lemma_inside(
    request: Request,
    call: GuardedCall,
    exchanges: Seq<(Query, Reply)>,
    response: Response,
) -> (step: Step)
    requires
        request.call == Call::Guarded(call),
        request.authorization@.len() == 1,
        conversation(request, exchanges, response),
        exchanges[0].1 matches Reply::User(Some(_)),
    ensures
        exchanges.len() > 0,
        talks(step, exchanges.skip(1), response),
        step@ == crate::server::admitted(request.authorization[0]@, call@),
{
    let first = lemma_first(request, exchanges, response);
    assert(request@.authorization.len() == request.authorization@.len());
    assert(request@.authorization[0] == request.authorization[0]@);
    if let Step::Ask(query, task) = first {
        lemma_next(query, task, exchanges, response)
    } else {
        first
    }
}

/// Whoever has a key is given the public key in its file, in compact form. Nothing
/// else is asked. While there is no public key in the file, it is a bad request.
pub proof fn law_pk_conversation(
    request: Request,
    exchanges: Seq<(Query, Reply)>,
    response: Response,
)
    requires
        request.call == Call::Guarded(GuardedCall::Pk),
        request.authorization@.len() == 1,
        conversation(request, exchanges, response),
        exchanges[0].1 matches Reply::User(Some(_)),
    ensures
        exchanges.len() == 2,
        exchanges[1].0 == Query::ReadFile(KeyFile::Public),
        exchanges[1].1 matches Reply::File(file) && match file {
            Err(_) => bad(response, "Failure"@),
            Ok(text) => match crate::abe::printed_public_key(text@) {
                None => bad(response, "Failure"@),
                Some(printed) => says(response, printed),
            },
        },
{
    let step = lemma_inside(request, GuardedCall::Pk, exchanges, response);
    let rest = exchanges.skip(1);
    if let Step::Ask(query, task) = step {
        let next = lemma_next(query, task, rest, response);
        assert(exchanges[1] == rest[0]);
        assert(rest.skip(1).len() == 0);
    }
}

/// What a call that uses a session asks, once its key is known to be valid: for the
/// user with the key and for the session of that user with that identifier. It fails
/// where one of them is missing.
pub open spec fn finds_session(
    key: Seq<char>,
    session_id: Seq<char>,
    exchanges: Seq<(Query, Reply)>,
    response: Response,
) -> bool {
    &&& exchanges.len() > 1
    &&& by_key(exchanges[1].0, crate::auth::bare_key(key))
    &&& exchanges[1].1 matches Reply::User(found)
    &&& match found {
        None => exchanges.len() == 2 && response == Response::Failed(Fault::NoSuchUser),
        Some(user) => {
            &&& exchanges.len() == 3
            &&& exchanges[2].0 matches Query::SessionById { user_id, session_id: id }
            &&& user_id == user.id
            &&& id@ == session_id
            &&& exchanges[2].1 matches Reply::Session(session)
            &&& session is None ==> response == Response::Failed(Fault::NoSuchSession)
        },
    }
}

/// The session that was found for a call that uses one.
pub open spec fn session_found(exchanges: Seq<(Query, Reply)>, session: Session) -> bool {
    exchanges.len() == 3 && exchanges[2].1 == Reply::Session(Some(session))
}

proof fn lemma_finds_session(
    step: Step,
    key: Seq<char>,
    session_id: Seq<char>,
    errand: crate::protocol::ErrandView,
    exchanges: Seq<(Query, Reply)>,
    response: Response,
)
    requires
        exchanges.len() > 0,
        talks(step, exchanges.skip(1), response),
        step@ == crate::server::ask(
            crate::protocol::QueryOf::UserByApiKey(crate::auth::bare_key(key)),
            crate::protocol::TaskOf::Owner { session_id, errand },
        ),
    ensures
        finds_session(key, session_id, exchanges, response),
        forall|session: Session| #[trigger]
            session_found(exchanges, session) ==> crate::server::errand_done(
                errand,
                session@,
                response@,
            ),
{
    let rest = exchanges.skip(1);
    if let Step::Ask(query, task) = step {
        let next = lemma_next(query, task, rest, response);
        assert(exchanges[1] == rest[0]);
        let rest2 = rest.skip(1);
        if let Step::Ask(query2, task2) = next {
            let last = lemma_next(query2, task2, rest2, response);
            assert(exchanges[2] == rest2[0]);
            assert(rest2.skip(1).len() == 0);
        }
    }
}

/// Listing gives the key material of the session with that identifier, as it stands.
pub proof fn law_list_attrs_conversation(
    request: Request,
    msg: crate::messages::ListAttrMsg,
    exchanges: Seq<(Query, Reply)>,
    response: Response,
)
    requires
        request.call == Call::Guarded(GuardedCall::ListAttrs(msg)),
        request.authorization@.len() == 1,
        conversation(request, exchanges, response),
        exchanges[0].1 matches Reply::User(Some(_)),
    ensures
        finds_session(request.authorization[0]@, msg.session_id@, exchanges, response),
        forall|session: Session| #[trigger]
            session_found(exchanges, session) ==> says(response, session.key_material@),
{
    let call = GuardedCall::ListAttrs(msg);
    let step = lemma_inside(request, call, exchanges, response);
    lemma_finds_session(
        step,
        request.authorization[0]@,
        msg.session_id@,
        crate::protocol::ErrandOf::ListAttrs,
        exchanges,
        response,
    );
    assert forall|session: Session| #[trigger] session_found(exchanges, session) implies says(
        response,
        session.key_material@,
    ) by {
        assert(session@.key_material == session.key_material@);
    }
}

/// Encrypting gives what comes of encrypting the text for the policy with the key
/// material of the session with that identifier.
pub proof fn law_encrypt_conversation(
    request: Request,
    msg: crate::messages::EncMessage,
    exchanges: Seq<(Query, Reply)>,
    response: Response,
)
    requires
        request.call == Call::Guarded(GuardedCall::Encrypt(msg)),
        request.authorization@.len() == 1,
        conversation(request, exchanges, response),
        exchanges[0].1 matches Reply::User(Some(_)),
    ensures
        finds_session(request.authorization[0]@, msg.session_id@, exchanges, response),
        forall|session: Session| #[trigger]
            session_found(exchanges, session) ==> match response {
                Response::Json(ct) => crate::api::encrypted(
                    session.key_material@,
                    msg.policy@,
                    msg.plaintext@,
                    Ok(ct@),
                ),
                Response::Failed(fault) => crate::api::encrypted(
                    session.key_material@,
                    msg.policy@,
                    msg.plaintext@,
                    Err(fault),
                ),
                _ => false,
            },
{
    let call = GuardedCall::Encrypt(msg);
    let step = lemma_inside(request, call, exchanges, response);
    lemma_finds_session(
        step,
        request.authorization[0]@,
        msg.session_id@,
        crate::protocol::ErrandOf::Encrypt(msg@),
        exchanges,
        response,
    );
}

/// Decrypting gives what comes of decrypting the ciphertext with the key material of
/// the session with that identifier. What is no ciphertext fails before anything is
/// looked up.
pub proof fn law_decrypt_conversation(
    request: Request,
    msg: crate::messages::DecMessage,
    exchanges: Seq<(Query, Reply)>,
    response: Response,
)
    requires
        request.call == Call::Guarded(GuardedCall::Decrypt(msg)),
        request.authorization@.len() == 1,
        conversation(request, exchanges, response),
        exchanges[0].1 matches Reply::User(Some(_)),
    ensures
        crate::abe::ciphertext_parts(msg.ct@) is None ==> exchanges.len() == 1 && response
            == Response::Failed(Fault::MalformedCiphertext),
        crate::abe::ciphertext_parts(msg.ct@) is Some ==> {
            &&& finds_session(request.authorization[0]@, msg.session_id@, exchanges, response)
            &&& forall|session: Session| #[trigger]
                session_found(exchanges, session) ==> match response {
                    Response::Json(text) => crate::api::decrypted(
                        session.key_material@,
                        msg.ct@,
                        Ok(text@),
                    ),
                    Response::Failed(fault) => crate::api::decrypted(
                        session.key_material@,
                        msg.ct@,
                        Err(fault),
                    ),
                    _ => false,
                }
        },
{
    let call = GuardedCall::Decrypt(msg);
    let step = lemma_inside(request, call, exchanges, response);
    if crate::abe::ciphertext_parts(msg.ct@) is Some {
        lemma_finds_session(
            step,
            request.authorization[0]@,
            msg.session_id@,
            crate::protocol::ErrandOf::Decrypt(msg@),
            exchanges,
            response,
        );
    } else {
        assert(exchanges.skip(1).len() == 0);
    }
}

/// From the reading of the key files on, a set-up makes a session for the user of
/// that name: it says why where a file cannot be read, and fails where there are no
/// keys to issue with or no attributes. Else it asks for the user, draws a number,
/// and asks for the insertion of a session of that user under `bsw`, with that number
/// and with keys for just these attributes, whoever the user is and whatever the
/// attributes are. It fails for want of randomness only where no number was to be
/// had, and says that the session was not stored only where its insertion was
/// refused. Else it gives the number.
pub open spec fn makes_session(
    username: Seq<char>,
    attributes: Seq<Seq<char>>,
    exchanges: Seq<(Query, Reply)>,
    response: Response,
) -> bool {
    &&& exchanges.len() > 0
    &&& exchanges[0].0 == Query::ReadFile(KeyFile::Master)
    &&& exchanges[0].1 matches Reply::File(master_file)
    &&& match master_file {
        Err(reason) => exchanges.len() == 1 && bad(
            response,
            "Failure to create keys msk failure: "@ + reason@,
        ),
        Ok(master_text) => if crate::abe::printed_master_key(master_text@) is None {
            exchanges.len() == 1 && response == Response::Failed(Fault::MalformedKey)
        } else {
            &&& exchanges.len() > 1
            &&& exchanges[1].0 == Query::ReadFile(KeyFile::Public)
            &&& exchanges[1].1 matches Reply::File(public_file)
            &&& match public_file {
                Err(reason) => exchanges.len() == 2 && bad(
                    response,
                    "Failure to create keys pk failure: "@ + reason@,
                ),
                Ok(public_text) => if !crate::key_laws::can_issue(public_text@, master_text@)
                    || attributes.len() == 0 {
                    exchanges.len() == 2 && response == Response::Failed(
                        if crate::abe::printed_public_key(public_text@) is None {
                            Fault::MalformedKey
                        } else if !crate::key_laws::can_issue(public_text@, master_text@) {
                            Fault::UnsoundKey
                        } else {
                            Fault::NoAttributes
                        },
                    )
                } else {
                    &&& exchanges.len() > 2
                    &&& by_name(exchanges[2].0, username)
                    &&& exchanges[2].1 matches Reply::User(found)
                    &&& match found {
                        None => exchanges.len() == 3 && response == Response::Failed(
                            Fault::NoSuchUser,
                        ),
                        Some(user) => stores_session(
                            user,
                            attributes,
                            public_text@,
                            master_text@,
                            exchanges,
                            response,
                        ),
                    }
                },
            }
        },
    }
}

/// The end of a set-up that makes a session, once its user was found.
pub open spec fn stores_session(
    user: User,
    attributes: Seq<Seq<char>>,
    public_text: Seq<char>,
    master_text: Seq<char>,
    exchanges: Seq<(Query, Reply)>,
    response: Response,
) -> bool {
    exists|number: Option<u64>| #[trigger]
        crate::random::number_drawn(number) && match number {
            None => exchanges.len() == 3 && response == Response::Failed(Fault::NoRandomness),
            Some(n) => {
                &&& exchanges.len() == 4
                &&& exchanges[3].0 matches Query::InsertSession(row)
                &&& row.user_id == user.id
                &&& !row.is_initialized
                &&& row.scheme@ == "bsw"@
                &&& row.session_id@ == crate::text::decimal(n as nat)
                &&& crate::json::parsed_strings(row.key_material@) matches Some(material)
                &&& material.len() == 3
                &&& crate::abe::printed_public_key(public_text) == Some(material[0])
                &&& crate::abe::printed_master_key(master_text) == Some(material[1])
                &&& crate::abe::issued_key(material[0], material[1], attributes, material[2])
                &&& exchanges[3].1 matches Reply::Inserted(rows)
                &&& match rows {
                    Some(_) => says(response, crate::text::decimal(n as nat)),
                    None => response == Response::Failed(Fault::SessionNotStored),
                }
            },
        }
}

proof fn lemma_makes_session(
    step: Step,
    username: Seq<char>,
    attributes: Seq<Seq<char>>,
    exchanges: Seq<(Query, Reply)>,
    response: Response,
)
    requires
        talks(step, exchanges, response),
        step@ == crate::server::ask(
            crate::protocol::QueryOf::ReadFile(KeyFile::Master),
            crate::protocol::TaskOf::SetupMaster { username, attributes },
        ),
    ensures
        makes_session(username, attributes, exchanges, response),
{
    if let Step::Ask(query, task) = step {
        let step1 = lemma_next(query, task, exchanges, response);
        let rest1 = exchanges.skip(1);
        if let Step::Ask(query1, task1) = step1 {
            let step2 = lemma_next(query1, task1, rest1, response);
            assert(exchanges[1] == rest1[0]);
            let rest2 = rest1.skip(1);
            if let Step::Ask(query2, task2) = step2 {
                let step3 = lemma_next(query2, task2, rest2, response);
                assert(exchanges[2] == rest2[0]);
                let rest3 = rest2.skip(1);
                if let Step::Ask(query3, task3) = step3 {
                    let step4 = lemma_next(query3, task3, rest3, response);
                    assert(exchanges[3] == rest3[0]);
                    assert(rest3.skip(1).len() == 0);
                }
            }
        }
    }
}

/// The query asks for a session of the user under the scheme.
pub open spec fn by_scheme(query: Query, user: User, scheme: Seq<char>) -> bool {
    query matches Query::SessionByScheme { user_id, scheme: s } && user_id == user.id && s@
        == scheme
}

/// A set-up asks for the user with the key, and for a session of that user under the
/// scheme that is asked for, whose identifier it gives where there is one. Else, if
/// that scheme is not `bsw`, it does the same for `bsw`. Only where there is none
/// either does it make one.
pub proof fn law_setup_conversation(
    request: Request,
    msg: crate::messages::SetupMsg,
    exchanges: Seq<(Query, Reply)>,
    response: Response,
)
    requires
        request.call == Call::Guarded(GuardedCall::Setup(msg)),
        request.authorization@.len() == 1,
        conversation(request, exchanges, response),
        exchanges[0].1 matches Reply::User(Some(_)),
    ensures
        exchanges.len() > 1,
        by_key(exchanges[1].0, crate::auth::bare_key(request.authorization[0]@)),
        exchanges[1].1 matches Reply::User(found) && match found {
            None => exchanges.len() == 2 && response == Response::Failed(Fault::NoSuchUser),
            Some(user) => {
                &&& exchanges.len() > 2
                &&& by_key(exchanges[2].0, crate::auth::bare_key(request.authorization[0]@))
                &&& exchanges[2].1 matches Reply::User(found_again)
                &&& match found_again {
                    None => exchanges.len() == 3 && response == Response::Failed(
                        Fault::NoSuchUser,
                    ),
                    Some(owner) => looks_for_session(user, owner, msg, exchanges, response),
                }
            },
        },
{
    let key = request.authorization[0]@;
    let step = lemma_inside(request, GuardedCall::Setup(msg), exchanges, response);
    let rest = exchanges.skip(1);
    if let Step::Ask(query, task) = step {
        let step1 = lemma_next(query, task, rest, response);
        assert(exchanges[1] == rest[0]);
        let rest1 = rest.skip(1);
        if let Step::Ask(query1, task1) = step1 {
            let step2 = lemma_next(query1, task1, rest1, response);
            assert(exchanges[2] == rest1[0]);
            let rest2 = rest1.skip(1);
            if let Step::Ask(query2, task2) = step2 {
                let user = exchanges[1].1->User_0->0;
                let owner = exchanges[2].1->User_0->0;
                assert(rest2 =~= exchanges.skip(3));
                lemma_looks_for_session(step2, user, owner, msg, exchanges, response);
            }
        }
    }
}

/// The part of a set-up that looks for a session, once its user was found.
pub open spec fn looks_for_session(
    user: User,
    owner: User,
    msg: crate::messages::SetupMsg,
    exchanges: Seq<(Query, Reply)>,
    response: Response,
) -> bool {
    &&& exchanges.len() > 3
    &&& by_scheme(exchanges[3].0, owner, msg.scheme@)
    &&& exchanges[3].1 matches Reply::Session(asked)
    &&& match asked {
        Some(session) => exchanges.len() == 4 && says(response, session.session_id@),
        None => if msg.scheme@ == "bsw"@ {
            makes_session(
                user.username@,
                msg.attributes.deep_view(),
                exchanges.skip(4),
                response,
            )
        } else {
            &&& exchanges.len() > 4
            &&& by_scheme(exchanges[4].0, owner, "bsw"@)
            &&& exchanges[4].1 matches Reply::Session(other)
            &&& match other {
                Some(session) => exchanges.len() == 5 && says(response, session.session_id@),
                None => makes_session(
                    user.username@,
                    msg.attributes.deep_view(),
                    exchanges.skip(5),
                    response,
                ),
            }
        },
    }
}

proof fn lemma_looks_for_session(
    step: Step,
    user: User,
    owner: User,
    msg: crate::messages::SetupMsg,
    exchanges: Seq<(Query, Reply)>,
    response: Response,
)
    requires
        exchanges.len() >= 3,
        talks(step, exchanges.skip(3), response),
        step@ == crate::server::ask(
            crate::protocol::QueryOf::SessionByScheme { user_id: owner.id, scheme: msg.scheme@ },
            crate::protocol::TaskOf::SetupAsked {
                username: user.username@,
                user_id: owner.id,
                msg: msg@,
            },
        ),
    ensures
        looks_for_session(user, owner, msg, exchanges, response),
{
    let rest = exchanges.skip(3);
    if let Step::Ask(query, task) = step {
        let step1 = lemma_next(query, task, rest, response);
        assert(exchanges[3] == rest[0]);
        assert(rest.skip(1) =~= exchanges.skip(4));
        if let Reply::Session(None) = exchanges[3].1 {
            if msg.scheme@ == "bsw"@ {
                lemma_makes_session(
                    step1,
                    user.username@,
                    msg.attributes.deep_view(),
                    exchanges.skip(4),
                    response,
                );
            } else if let Step::Ask(query1, task1) = step1 {
                let rest1 = exchanges.skip(4);
                let step2 = lemma_next(query1, task1, rest1, response);
                assert(exchanges[4] == rest1[0]);
                assert(rest1.skip(1) =~= exchanges.skip(5));
                if let Reply::Session(None) = exchanges[4].1 {
                    lemma_makes_session(
                        step2,
                        user.username@,
                        msg.attributes.deep_view(),
                        exchanges.skip(5),
                        response,
                    );
                }
            }
        }
    }
}

/// The store can give these replies to these queries, and goes from `before` to
/// `after` over them.
pub open spec fn answered(before: Store, exchanges: Seq<(Query, Reply)>, after: Store) -> bool
    decreases exchanges.len(),
{
    if exchanges.len() == 0 {
        after == before
    } else {
        exists|middle: Store| #[trigger]
            crate::store::answers(before, exchanges[0].0@, exchanges[0].1@, middle) && answered(
                middle,
                exchanges.skip(1),
                after,
            )
    }
}

proof fn lemma_answered(before: Store, exchanges: Seq<(Query, Reply)>, after: Store) -> (middle:
    Store)
    requires
        answered(before, exchanges, after),
        exchanges.len() > 0,
    ensures
        crate::store::answers(before, exchanges[0].0@, exchanges[0].1@, middle),
        answered(middle, exchanges.skip(1), after),
{
    choose|middle: Store| #[trigger]
        crate::store::answers(before, exchanges[0].0@, exchanges[0].1@, middle) && answered(
            middle,
            exchanges.skip(1),
            after,
        )
}

/// No insertion is refused.
pub open spec fn none_refused(exchanges: Seq<(Query, Reply)>) -> bool {
    forall|i: int| 0 <= i < exchanges.len() ==> (#[trigger] exchanges[i]).1 != Reply::Inserted(None)
}

/// Where no user has the name, and the database refuses no insertion, adding a user
/// is accepted, and leaves one more user, with that name and that password and a
/// drawn key, whatever the name and the password are.
pub proof fn law_free_names_are_added(
    before: Store,
    request: Request,
    msg: crate::messages::User,
    exchanges: Seq<(Query, Reply)>,
    after: Store,
    response: Response,
)
    requires
        request.call == Call::AddUser(msg),
        conversation(request, exchanges, response),
        answered(before, exchanges, after),
        !before.has_name(msg.username@),
        none_refused(exchanges),
    ensures
        response == Response::Accepted,
        after.users.len() == before.users.len() + 1,
        after == before.with_user(after.users.last()),
        after.users.last().username == msg.username@,
        after.users.last().password == msg.password@,
        after.users.last().salt == 1234,
        crate::random::key_drawn(after.users.last().api_key),
{
    law_add_user_conversation(request, msg, exchanges, response);
    let middle = lemma_answered(before, exchanges, after);
    let rest = exchanges.skip(1);
    if let Reply::User(Some(user)) = exchanges[0].1 {
        let i = choose|i: int| 0 <= i < before.users.len() && before.users[i] == user@;
        assert(before.users[i].username == msg.username@);
    }
    let last = lemma_answered(middle, rest, after);
    assert(rest[0] == exchanges[1]);
    assert(rest.skip(1).len() == 0);
}

/// A user who could not be inserted was refused by the database.
pub proof fn law_users_are_refused_by_the_database(
    request: Request,
    msg: crate::messages::User,
    exchanges: Seq<(Query, Reply)>,
    response: Response,
)
    requires
        request.call == Call::AddUser(msg),
        conversation(request, exchanges, response),
        bad(response, "Failure adding userpk failure: "@ + "Could not insert user"@),
    ensures
        exchanges.len() == 2,
        exchanges[1].0 matches Query::InsertUser(row) && row.username@ == msg.username@
            && row.password@ == msg.password@,
        exchanges[1].1 == Reply::Inserted(None),
{
    law_add_user_conversation(request, msg, exchanges, response);
    if let Reply::User(Some(_)) = exchanges[0].1 {
        let head = "Failure adding userpk failure: "@;
        reveal_strlit("User already exists");
        reveal_strlit("Could not insert user");
        let a = head + "User already exists"@;
        let b = head + "Could not insert user"@;
        assert(a[head.len() as int] == 'U');
        assert(b[head.len() as int] == 'C');
    }
}

/// Where a user has no session yet, the key files hold keys that can be issued with,
/// and the database refuses no insertion, setting up for any attributes at all makes
/// a session for that user under the number that was drawn, and gives the number,
/// whoever the user is and whatever the attributes are called. It fails only where no
/// number was to be had.
pub proof fn law_setting_up_makes_a_session(
    before: Store,
    user: crate::schema::UserView,
    request: Request,
    msg: crate::messages::SetupMsg,
    exchanges: Seq<(Query, Reply)>,
    after: Store,
    response: Response,
)
    requires
        request.call == Call::Guarded(GuardedCall::Setup(msg)),
        request.authorization@.len() == 1,
        crate::auth::presented_key(request.authorization[0]@) == user.api_key,
        crate::auth::bare_key(request.authorization[0]@) == user.api_key,
        before.well_formed(),
        before.sole_owner(user),
        !before.has_session(user.id, msg.scheme@),
        !before.has_session(user.id, "bsw"@),
        before.master_file is Ok,
        before.public_file is Ok,
        crate::key_laws::can_issue(before.public_file->Ok_0, before.master_file->Ok_0),
        msg.attributes@.len() > 0,
        conversation(request, exchanges, response),
        answered(before, exchanges, after),
        none_refused(exchanges),
    ensures
        exists|number: Option<u64>| #[trigger]
            crate::random::number_drawn(number) && match number {
                None => after == before && response == Response::Failed(Fault::NoRandomness),
                Some(n) => {
                    let id = crate::text::decimal(n as nat);
                    let session = after.sessions.last();
                    &&& says(response, id)
                    &&& after.sessions.len() == before.sessions.len() + 1
                    &&& after == before.with_session(session)
                    &&& session.user_id == user.id
                    &&& !session.is_initialized
                    &&& session.scheme == "bsw"@
                    &&& session.session_id == id
                    &&& crate::json::parsed_strings(session.key_material) matches Some(material)
                    &&& material.len() == 3
                    &&& crate::abe::issued_key(
                        material[0],
                        material[1],
                        msg.attributes.deep_view(),
                        material[2],
                    )
                },
            },
{
    law_guard_conversation(request, GuardedCall::Setup(msg), exchanges, response);
    let i = choose|i: int| 0 <= i < before.users.len() && before.users[i] == user;
    assert(before.users[i].api_key == user.api_key);
    let s1 = lemma_answered(before, exchanges, after);
    law_setup_conversation(request, msg, exchanges, response);
    let e1 = exchanges.skip(1);
    assert(e1[0] == exchanges[1]);
    let s2 = lemma_answered(before, e1, after);
    let e2 = e1.skip(1);
    assert(e2[0] == exchanges[2]);
    let s3 = lemma_answered(before, e2, after);
    let e3 = e2.skip(1);
    assert(e3[0] == exchanges[3]);
    let s4 = lemma_answered(before, e3, after);
    let e4 = e3.skip(1);
    assert(e4 =~= exchanges.skip(4));
    if let Reply::Session(Some(session)) = exchanges[3].1 {
        lemma_has_session(before, session@);
    }
    if msg.scheme@ == "bsw"@ {
        lemma_session_made(before, user, msg.attributes.deep_view(), e4, after, response);
    } else {
        assert(e4[0] == exchanges[4]);
        let s5 = lemma_answered(before, e4, after);
        let e5 = e4.skip(1);
        assert(e5 =~= exchanges.skip(5));
        if let Reply::Session(Some(session)) = exchanges[4].1 {
            lemma_has_session(before, session@);
        }
        assert forall|i: int| 0 <= i < e5.len() implies (#[trigger] e5[i]).1 != Reply::Inserted(
            None,
        ) by {
            assert(e5[i] == exchanges[i + 5]);
        }
        lemma_session_made(before, user, msg.attributes.deep_view(), e5, after, response);
    }
}

proof fn lemma_has_session(store: Store, session: crate::schema::SessionView)
    requires
        store.sessions.contains(session),
    ensures
        store.has_session(session.user_id, session.scheme),
{
    let i = choose|i: int| 0 <= i < store.sessions.len() && store.sessions[i] == session;
    assert(store.sessions[i].user_id == session.user_id);
}

proof fn lemma_session_made(
    before: Store,
    user: crate::schema::UserView,
    attributes: Seq<Seq<char>>,
    exchanges: Seq<(Query, Reply)>,
    after: Store,
    response: Response,
)
    requires
        before.well_formed(),
        before.users.contains(user),
        before.master_file is Ok,
        before.public_file is Ok,
        crate::key_laws::can_issue(before.public_file->Ok_0, before.master_file->Ok_0),
        attributes.len() > 0,
        makes_session(user.username, attributes, exchanges, response),
        answered(before, exchanges, after),
        exchanges.len() == 4 ==> exchanges[3].1 != Reply::Inserted(None),
    ensures
        exists|number: Option<u64>| #[trigger]
            crate::random::number_drawn(number) && match number {
                None => after == before && response == Response::Failed(Fault::NoRandomness),
                Some(n) => {
                    let id = crate::text::decimal(n as nat);
                    let session = after.sessions.last();
                    &&& says(response, id)
                    &&& after.sessions.len() == before.sessions.len() + 1
                    &&& after == before.with_session(session)
                    &&& session.user_id == user.id
                    &&& !session.is_initialized
                    &&& session.scheme == "bsw"@
                    &&& session.session_id == id
                    &&& crate::json::parsed_strings(session.key_material) matches Some(material)
                    &&& material.len() == 3
                    &&& crate::abe::issued_key(
                        material[0],
                        material[1],
                        attributes,
                        material[2],
                    )
                },
            },
{
    let s1 = lemma_answered(before, exchanges, after);
    let e1 = exchanges.skip(1);
    let s2 = lemma_answered(before, e1, after);
    assert(e1[0] == exchanges[1]);
    let e2 = e1.skip(1);
    assert(e2[0] == exchanges[2]);
    let s3 = lemma_answered(before, e2, after);
    let e3 = e2.skip(1);
    let j = choose|j: int| 0 <= j < before.users.len() && before.users[j] == user;
    assert(before.users[j].username == user.username);
    let found = exchanges[2].1->User_0->0;
    let k = choose|k: int| 0 <= k < before.users.len() && before.users[k] == found@;
    assert(before.users[k].username == user.username);
    assert(j == k);
    let number = choose|number: Option<u64>| #[trigger]
        crate::random::number_drawn(number) && match number {
            None => exchanges.len() == 3 && response == Response::Failed(Fault::NoRandomness),
            Some(n) => {
                &&& exchanges.len() == 4
                &&& exchanges[3].0 matches Query::InsertSession(row)
                &&& row.user_id == found.id
                &&& !row.is_initialized
                &&& row.scheme@ == "bsw"@
                &&& row.session_id@ == crate::text::decimal(n as nat)
                &&& crate::json::parsed_strings(row.key_material@) matches Some(material)
                &&& material.len() == 3
                &&& crate::abe::printed_public_key(before.public_file->Ok_0) == Some(material[0])
                &&& crate::abe::printed_master_key(before.master_file->Ok_0) == Some(material[1])
                &&& crate::abe::issued_key(material[0], material[1], attributes, material[2])
                &&& exchanges[3].1 matches Reply::Inserted(rows)
                &&& match rows {
                    Some(_) => says(response, crate::text::decimal(n as nat)),
                    None => response == Response::Failed(Fault::SessionNotStored),
                }
            },
        };
    if let Some(n) = number {
        assert(e3[0] == exchanges[3]);
        let s4 = lemma_answered(before, e3, after);
        assert(e3.skip(1).len() == 0);
    }
}

/// How many queries a conversation still has.
proof fn lemma_length(
    query: Query,
    task: Task,
    exchanges: Seq<(Query, Reply)>,
    response: Response,
)
    requires
        talks(Step::Ask(query, task), exchanges, response),
    ensures
        exchanges.len() <= crate::laws::remaining(task@),
    decreases exchanges.len(),
{
    let next = lemma_next(query, task, exchanges, response);
    crate::laws::law_every_request_ends(task@, exchanges[0].1@, next@);
    if let Step::Ask(query2, task2) = next {
        lemma_length(query2, task2, exchanges.skip(1), response);
    }
}

proof fn lemma_runs(
    before: Store,
    step: Step,
    exchanges: Seq<(Query, Reply)>,
    after: Store,
    response: Response,
    queries: nat,
)
    requires
        talks(step, exchanges, response),
        answered(before, exchanges, after),
        exchanges.len() <= queries,
    ensures
        crate::store::runs(before, step@, after, response@, queries),
    decreases exchanges.len(),
{
    if let Step::Ask(query, task) = step {
        let next = lemma_next(query, task, exchanges, response);
        let middle = lemma_answered(before, exchanges, after);
        lemma_runs(
            middle,
            next,
            exchanges.skip(1),
            after,
            response,
            (queries - 1) as nat,
        );
        let turn = crate::store::Turn { reply: exchanges[0].1@, store: middle, step: next@ };
        assert(crate::store::answers(before, query@, turn.reply, turn.store));
    }
}

/// What the functions of the server ask and answer, on a store that gives the
/// replies, is what requests are said to do to that store.
pub proof fn law_conversations_are_handled(
    before: Store,
    request: Request,
    exchanges: Seq<(Query, Reply)>,
    after: Store,
    response: Response,
)
    requires
        conversation(request, exchanges, response),
        answered(before, exchanges, after),
    ensures
        crate::store::handled(before, request@, after, response@),
        exchanges.len() <= 9,
{
    let step = lemma_first(request, exchanges, response);
    if let Step::Ask(query, task) = step {
        lemma_length(query, task, exchanges, response);
        let next = lemma_next(query, task, exchanges, response);
        crate::laws::law_every_request_ends(task@, exchanges[0].1@, next@);
    }
    lemma_runs(before, step, exchanges, after, response, 9);
    assert(crate::server::begun(request@, step@));
}

} // verus!
