//! The server: what it does next on each request, from the first query to the
//! response.
//!
//! The server itself neither reads nor writes. It hands out a query, and is
//! given the reply together with the task that it handed out beside the query.
//!
//! A set-up gives the session of the user under the scheme that it asks for. Where
//! there is none, it gives the one under `bsw`, the only scheme that there are keys
//! for, and makes that session if need be.
use crate::api::{add_user, decrypt, encrypt, is_ciphertext, login, pk};
use crate::auth::{from_request, is_valid, key_to_validate};
use crate::database::{
    db_add_user, db_create_session, db_get_session_by_id, db_get_session_by_user_scheme,
    db_get_user, db_get_user_of_apikey, db_insert_session, db_session_created, db_user_added,
    is_known_scheme,
};
use crate::keys::{get_mk, keygen, KeyError};
use crate::messages::{Fault, KeyGenMsg};
use crate::protocol::{
    Call, CallOf, Errand, ErrandOf, ErrandView, GuardedCall, GuardedCallOf, GuardedCallView,
    KeyFile, Query, QueryOf, QueryView, Reply, ReplyOf, ReplyView, Request, RequestView, Response,
    ResponseOf, ResponseView, Status, Step, StepOf, StepView, Task, TaskOf, TaskView,
};
use crate::random::generate_session_id;
use crate::schema::{Session, User};
use vstd::prelude::*;

verus! {

/// The step that asks a query, with the task to go on with.
pub open spec fn ask(query: QueryView, task: TaskView) -> StepView {
    StepOf::Ask(query, task)
}

/// The step that ends the work with a response.
pub open spec fn done(response: ResponseView) -> StepView {
    StepOf::Done(response)
}

/// The step that ends the work with a fault.
pub open spec fn failed(fault: Fault) -> StepView {
    done(ResponseOf::Failed(fault))
}

/// The step with which the work on a request can begin. An API key is drawn for
/// a user to be added.
pub open spec fn begun(request: RequestView, step: StepView) -> bool {
    match request.call {
        CallOf::Login(msg) => step == ask(QueryOf::UserByName(msg.username), TaskOf::Login(msg)),
        CallOf::AddUser(msg) => {
            &&& step matches StepOf::Ask(query, TaskOf::AddUser(user))
            &&& query == QueryOf::UserByName(msg.username)
            &&& user.username == msg.username
            &&& user.password == msg.password
            &&& user.salt == crate::api::SALT
            &&& crate::random::uuid_text(user.api_key)
            &&& crate::random::key_drawn(user.api_key)
        },
        CallOf::Guarded(call) => if request.authorization.len() == 1 {
            let key = request.authorization[0];
            step == ask(
                QueryOf::UserByApiKey(crate::auth::presented_key(key)),
                TaskOf::Guard { key, call },
            )
        } else {
            step == done(ResponseOf::Refused(Status::BadRequest))
        },
    }
}

/// The step with which the work on a guarded call goes on once its key is known
/// to be valid.
pub open spec fn admitted(key: Seq<char>, call: GuardedCallView) -> StepView {
    let owner = QueryOf::UserByApiKey(crate::auth::bare_key(key));
    match call {
        GuardedCallOf::Pk => ask(QueryOf::ReadFile(KeyFile::Public), TaskOf::Pk),
        GuardedCallOf::Encrypt(msg) => ask(
            owner,
            TaskOf::Owner { session_id: msg.session_id, errand: ErrandOf::Encrypt(msg) },
        ),
        GuardedCallOf::Decrypt(msg) => if crate::abe::ciphertext_parts(msg.ct) is None {
            failed(Fault::MalformedCiphertext)
        } else {
            ask(
                owner,
                TaskOf::Owner { session_id: msg.session_id, errand: ErrandOf::Decrypt(msg) },
            )
        },
        GuardedCallOf::ListAttrs(msg) => ask(
            owner,
            TaskOf::Owner { session_id: msg.session_id, errand: ErrandOf::ListAttrs },
        ),
        GuardedCallOf::Setup(msg) => ask(owner, TaskOf::SetupUser { key, msg }),
    }
}

/// The response that can come of an errand in the session.
pub open spec fn errand_done(
    errand: ErrandView,
    session: crate::schema::SessionView,
    response: ResponseView,
) -> bool {
    match errand {
        ErrandOf::Encrypt(msg) => match response {
            ResponseOf::Json(ct) => crate::api::encrypted(
                session.key_material,
                msg.policy,
                msg.plaintext,
                Ok(ct),
            ),
            ResponseOf::Failed(fault) => crate::api::encrypted(
                session.key_material,
                msg.policy,
                msg.plaintext,
                Err(fault),
            ),
            _ => false,
        },
        ErrandOf::Decrypt(msg) => match response {
            ResponseOf::Json(text) => crate::api::decrypted(
                session.key_material,
                msg.ct,
                Ok(text),
            ),
            ResponseOf::Failed(fault) => crate::api::decrypted(
                session.key_material,
                msg.ct,
                Err(fault),
            ),
            _ => false,
        },
        ErrandOf::ListAttrs => response == ResponseOf::Text(session.key_material),
    }
}

/// The step with which a set-up can go on once the file with the master key was
/// read.
pub open spec fn master_read(
    username: Seq<char>,
    attributes: Seq<Seq<char>>,
    file: Result<Seq<char>, Seq<char>>,
    step: StepView,
) -> bool {
    match file {
        Err(reason) => step == done(
            ResponseOf::BadRequest("Failure to create keys msk failure: "@ + reason),
        ),
        Ok(text) => match crate::abe::printed_master_key(text) {
            None => step == failed(Fault::MalformedKey),
            Some(master_key) => {
                &&& step == ask(
                    QueryOf::ReadFile(KeyFile::Public),
                    TaskOf::SetupPublic { username, attributes, master_key },
                )
                &&& crate::abe::printed_master_key(master_key) == Some(master_key)
                &&& crate::abe::master_key_numbers(master_key)
                    == crate::abe::master_key_numbers(text)
                &&& forall|public_key: Seq<char>| #[trigger]
                    crate::abe::matching_keys(public_key, text) ==> crate::abe::matching_keys(
                        public_key,
                        master_key,
                    )
            },
        },
    }
}

/// The step with which a set-up can go on once the file with the public key was
/// read: keys are generated.
pub open spec fn public_read(
    username: Seq<char>,
    attributes: Seq<Seq<char>>,
    master_key: Seq<char>,
    file: Result<Seq<char>, Seq<char>>,
    step: StepView,
) -> bool {
    match file {
        Err(reason) => step == done(
            ResponseOf::BadRequest("Failure to create keys pk failure: "@ + reason),
        ),
        Ok(text) => match step {
            StepOf::Ask(query, task) => {
                &&& query == QueryOf::UserByName(username)
                &&& task matches TaskOf::SetupCreate { material }
                &&& crate::keys::generated(attributes, master_key, text, Ok(material))
            },
            StepOf::Done(response) => {
                &&& response matches ResponseOf::Failed(fault)
                &&& crate::keys::generated(attributes, master_key, text, Err(fault))
            },
        },
    }
}

/// The step with which a set-up goes on once the user of the new session was
/// found and an identifier drawn for it: its row is added.
pub open spec fn session_to_store(
    material: Seq<Seq<char>>,
    user: crate::schema::UserView,
    session_id: Seq<char>,
) -> StepView {
    ask(
        QueryOf::InsertSession(
            (crate::schema::NewSessionOf {
                user_id: user.id,
                is_initialized: false,
                scheme: "bsw"@,
                session_id,
                key_material: crate::json::printed_strings(material),
            }),
        ),
        TaskOf::SetupStored { session_id },
    )
}

/// The step with which a set-up can go on once the user of the new session was
/// found: an identifier is drawn for the session, a number in decimal, where the
/// operating system gives one, and only else the set-up fails. The key material in
/// the row reads back.
pub open spec fn session_created(
    material: Seq<Seq<char>>,
    user: crate::schema::UserView,
    step: StepView,
) -> bool {
    exists|number: Option<u64>| #[trigger]
        crate::random::number_drawn(number) && match number {
            None => step == failed(Fault::NoRandomness),
            Some(n) => {
                &&& step == session_to_store(material, user, crate::text::decimal(n as nat))
                &&& crate::json::parsed_strings(crate::json::printed_strings(material)) == Some(
                    material,
                )
            },
        }
}

/// The step with which the work on a request can go on when the reply is there.
pub open spec fn resumed(task: TaskView, reply: ReplyView, step: StepView) -> bool {
    match (task, reply) {
        (TaskOf::Login(_), ReplyOf::User(None)) => step == failed(Fault::NoSuchUser),
        (TaskOf::Login(msg), ReplyOf::User(Some(user))) => step == done(
            if msg.password == user.password {
                ResponseOf::Token(crate::api::token_of(user))
            } else {
                ResponseOf::BadRequest("Invalid"@)
            },
        ),
        (TaskOf::AddUser(_), ReplyOf::User(Some(_))) => step == done(
            ResponseOf::BadRequest("Failure adding userpk failure: "@ + "User already exists"@),
        ),
        (TaskOf::AddUser(user), ReplyOf::User(None)) => step == ask(
            QueryOf::InsertUser(user),
            TaskOf::UserAdded,
        ),
        (TaskOf::UserAdded, ReplyOf::Inserted(None)) => step == done(
            ResponseOf::BadRequest("Failure adding userpk failure: "@ + "Could not insert user"@),
        ),
        (TaskOf::UserAdded, ReplyOf::Inserted(Some(_))) => step == done(ResponseOf::Accepted),
        (TaskOf::Guard { .. }, ReplyOf::User(None)) => step == done(
            ResponseOf::Refused(Status::Unauthorized),
        ),
        (TaskOf::Guard { key, call }, ReplyOf::User(Some(_))) => step == admitted(key, call),
        (TaskOf::Pk, ReplyOf::File(file)) => step == done(crate::api::public_key_response(file)),
        (TaskOf::Owner { .. }, ReplyOf::User(None)) => step == failed(Fault::NoSuchUser),
        (TaskOf::Owner { session_id, errand }, ReplyOf::User(Some(user))) => step == ask(
            QueryOf::SessionById { user_id: user.id, session_id },
            TaskOf::Session(errand),
        ),
        (TaskOf::Session(_), ReplyOf::Session(None)) => step == failed(Fault::NoSuchSession),
        (TaskOf::Session(errand), ReplyOf::Session(Some(session))) => {
            step matches StepOf::Done(response) && errand_done(errand, session, response)
        },
        (TaskOf::SetupUser { .. }, ReplyOf::User(None)) => step == failed(Fault::NoSuchUser),
        (TaskOf::SetupUser { key, msg }, ReplyOf::User(Some(user))) => step == ask(
            QueryOf::UserByApiKey(crate::auth::bare_key(key)),
            TaskOf::SetupOwner { username: user.username, msg },
        ),
        (TaskOf::SetupOwner { .. }, ReplyOf::User(None)) => step == failed(Fault::NoSuchUser),
        (TaskOf::SetupOwner { username, msg }, ReplyOf::User(Some(user))) => step == ask(
            QueryOf::SessionByScheme { user_id: user.id, scheme: msg.scheme },
            TaskOf::SetupAsked { username, user_id: user.id, msg },
        ),
        (TaskOf::SetupAsked { .. }, ReplyOf::Session(Some(session))) => step == done(
            ResponseOf::Text(session.session_id),
        ),
        (TaskOf::SetupAsked { username, user_id, msg }, ReplyOf::Session(None)) => step
            == if crate::database::known_scheme(msg.scheme) {
            ask(
                QueryOf::ReadFile(KeyFile::Master),
                TaskOf::SetupMaster { username, attributes: msg.attributes },
            )
        } else {
            ask(
                QueryOf::SessionByScheme { user_id, scheme: "bsw"@ },
                TaskOf::SetupSession { username, attributes: msg.attributes },
            )
        },
        (TaskOf::SetupSession { .. }, ReplyOf::Session(Some(session))) => step == done(
            ResponseOf::Text(session.session_id),
        ),
        (TaskOf::SetupSession { username, attributes }, ReplyOf::Session(None)) => step == ask(
            QueryOf::ReadFile(KeyFile::Master),
            TaskOf::SetupMaster { username, attributes },
        ),
        (TaskOf::SetupMaster { username, attributes }, ReplyOf::File(file)) => master_read(
            username,
            attributes,
            file,
            step,
        ),
        (TaskOf::SetupPublic { username, attributes, master_key }, ReplyOf::File(file)) =>
            public_read(username, attributes, master_key, file, step),
        (TaskOf::SetupCreate { .. }, ReplyOf::User(None)) => step == failed(Fault::NoSuchUser),
        (TaskOf::SetupCreate { material }, ReplyOf::User(Some(user))) => session_created(
            material,
            user,
            step,
        ),
        (TaskOf::SetupStored { .. }, ReplyOf::Inserted(None)) => step == failed(
            Fault::SessionNotStored,
        ),
        (TaskOf::SetupStored { session_id }, ReplyOf::Inserted(Some(_))) => step == done(
            ResponseOf::Text(session_id),
        ),
        _ => step == failed(Fault::UnexpectedReply),
    }
}

/// Begins the work on a request.
pub fn begin(request: Request) -> (step: Step)
    ensures
        begun(request@, step@),
{
    let Request { authorization, call } = request;
    match call {
        Call::Login(msg) => Step::Ask(db_get_user(msg.username.as_str()), Task::Login(msg)),
        Call::AddUser(msg) => {
            let user = add_user(&msg);
            Step::Ask(db_get_user(msg.username.as_str()), Task::AddUser(user))
        },
        Call::Guarded(call) => match from_request(&authorization) {
            Err(status) => Step::Done(Response::Refused(status)),
            Ok(key) => Step::Ask(
                Query::UserByApiKey(key_to_validate(key.0.as_str())),
                Task::Guard { key: key.0, call },
            ),
        },
    }
}

/// Goes on with a guarded call whose key is valid.
pub fn let_in(key: String, call: GuardedCall) -> (step: Step)
    ensures
        step@ == admitted(key@, call@),
{
    match call {
        GuardedCall::Pk => Step::Ask(Query::ReadFile(KeyFile::Public), Task::Pk),
        GuardedCall::Encrypt(msg) => Step::Ask(
            db_get_user_of_apikey(key.as_str()),
            Task::Owner { session_id: msg.session_id.clone(), errand: Errand::Encrypt(msg) },
        ),
        GuardedCall::Decrypt(msg) => {
            if !is_ciphertext(msg.ct.as_str()) {
                return Step::Done(Response::Failed(Fault::MalformedCiphertext));
            }
            Step::Ask(
                db_get_user_of_apikey(key.as_str()),
                Task::Owner { session_id: msg.session_id.clone(), errand: Errand::Decrypt(msg) },
            )
        },
        GuardedCall::ListAttrs(msg) => Step::Ask(
            db_get_user_of_apikey(key.as_str()),
            Task::Owner { session_id: msg.session_id, errand: Errand::ListAttrs },
        ),
        GuardedCall::Setup(msg) => Step::Ask(
            db_get_user_of_apikey(key.as_str()),
            Task::SetupUser { key, msg },
        ),
    }
}

/// Does an errand in the session that was found.
pub fn do_errand(errand: Errand, session: Session) -> (response: Response)
    ensures
        errand_done(errand@, session@, response@),
{
    match errand {
        Errand::Encrypt(msg) => match encrypt(
            session.key_material.as_str(),
            msg.policy.as_str(),
            msg.plaintext.as_str(),
        ) {
            Ok(ct) => Response::Json(ct),
            Err(fault) => Response::Failed(fault),
        },
        Errand::Decrypt(msg) => match decrypt(session.key_material.as_str(), msg.ct.as_str()) {
            Ok(text) => Response::Json(text),
            Err(fault) => Response::Failed(fault),
        },
        Errand::ListAttrs => Response::Text(session.key_material),
    }
}

/// Goes on with a set-up when the file with the master key was read.
pub fn read_master(
    username: String,
    attributes: Vec<String>,
    file: Result<String, String>,
) -> (step: Step)
    ensures
        master_read(
            username@,
            attributes.deep_view(),
            crate::protocol::file_view(file),
            step@,
        ),
{
    match get_mk(file) {
        Ok(key) => Step::Ask(
            Query::ReadFile(KeyFile::Public),
            Task::SetupPublic { username, attributes, master_key: key.text },
        ),
        Err(KeyError::Unavailable(reason)) => Step::Done(
            Response::BadRequest(
                "Failure to create keys msk failure: ".to_owned().concat(reason.as_str()),
            ),
        ),
        Err(KeyError::Malformed) => Step::Done(Response::Failed(Fault::MalformedKey)),
    }
}

/// Goes on with a set-up when the file with the public key was read.
pub fn read_public(
    username: String,
    attributes: Vec<String>,
    master_key: String,
    file: Result<String, String>,
) -> (step: Step)
    ensures
        public_read(
            username@,
            attributes.deep_view(),
            master_key@,
            crate::protocol::file_view(file),
            step@,
        ),
{
    let public_key = match file {
        Err(reason) => return Step::Done(
            Response::BadRequest(
                "Failure to create keys pk failure: ".to_owned().concat(reason.as_str()),
            ),
        ),
        Ok(text) => text,
    };
    let param = KeyGenMsg { attributes, scheme: "bsw".to_owned() };
    match keygen(&param, master_key.as_str(), public_key.as_str()) {
        Err(fault) => Step::Done(Response::Failed(fault)),
        Ok(material) => match db_create_session(username.as_str(), "bsw") {
            Err(_) => Step::Done(Response::Failed(Fault::SessionNotStored)),
            Ok(query) => Step::Ask(query, Task::SetupCreate { material }),
        },
    }
}

/// Goes on with a set-up when the user of the new session was found and an
/// identifier was drawn for it, or could not be.
pub fn store_session(material: Vec<String>, user: User, drawn: Option<String>) -> (step: Step)
    ensures
        match drawn {
            None => step@ == failed(Fault::NoRandomness),
            Some(session_id) => {
                &&& step@ == session_to_store(material.deep_view(), user@, session_id@)
                &&& step@ matches StepOf::Ask(QueryOf::InsertSession(session), _)
                    && crate::json::parsed_strings(session.key_material) == Some(
                    material.deep_view(),
                )
            },
        },
{
    match drawn {
        None => Step::Done(Response::Failed(Fault::NoRandomness)),
        Some(session_id) => {
            let query = db_insert_session(&user, "bsw", session_id.as_str(), &material);
            Step::Ask(query, Task::SetupStored { session_id })
        },
    }
}

/// Goes on with a set-up when the user of the new session was found.
pub fn create_session(material: Vec<String>, user: User) -> (step: Step)
    ensures
        session_created(material.deep_view(), user@, step@),
{
    store_session(material, user, generate_session_id())
}

/// Goes on with the work on a request when the reply is there.
pub fn resume(task: Task, reply: Reply) -> (step: Step)
    ensures
        resumed(task@, reply@, step@),
{
    match (task, reply) {
        (Task::Login(msg), Reply::User(Some(user))) => match login(&msg, user) {
            Ok(token) => Step::Done(Response::Token(token)),
            Err(reason) => Step::Done(Response::BadRequest(reason)),
        },
        (Task::AddUser(user), Reply::User(existing)) => match db_add_user(
            &existing,
            user.username.as_str(),
            user.password.as_str(),
            user.salt,
            user.api_key.as_str(),
        ) {
            Err(reason) => Step::Done(
                Response::BadRequest(
                    "Failure adding userpk failure: ".to_owned().concat(reason.as_str()),
                ),
            ),
            Ok(query) => Step::Ask(query, Task::UserAdded),
        },
        (Task::UserAdded, Reply::Inserted(inserted)) => match db_user_added(inserted) {
            Err(reason) => Step::Done(
                Response::BadRequest(
                    "Failure adding userpk failure: ".to_owned().concat(reason.as_str()),
                ),
            ),
            Ok(_) => Step::Done(Response::Accepted),
        },
        (Task::Guard { key, call }, Reply::User(found)) => if is_valid(&found) {
            let_in(key, call)
        } else {
            Step::Done(Response::Refused(Status::Unauthorized))
        },
        (Task::Pk, Reply::File(file)) => Step::Done(pk(file)),
        (Task::Owner { session_id, errand }, Reply::User(Some(user))) => Step::Ask(
            db_get_session_by_id(&user, session_id.as_str()),
            Task::Session(errand),
        ),
        (Task::Session(errand), Reply::Session(Some(session))) => Step::Done(
            do_errand(errand, session),
        ),
        (Task::SetupUser { key, msg }, Reply::User(Some(user))) => Step::Ask(
            db_get_user_of_apikey(key.as_str()),
            Task::SetupOwner { username: user.username, msg },
        ),
        (Task::SetupOwner { username, msg }, Reply::User(Some(user))) => Step::Ask(
            db_get_session_by_user_scheme(user.id, msg.scheme.as_str()),
            Task::SetupAsked { username, user_id: user.id, msg },
        ),
        (Task::SetupAsked { username, user_id, msg }, Reply::Session(found)) => match found {
            Some(session) => Step::Done(Response::Text(session.session_id)),
            None => if is_known_scheme(msg.scheme.as_str()) {
                Step::Ask(
                    Query::ReadFile(KeyFile::Master),
                    Task::SetupMaster { username, attributes: msg.attributes },
                )
            } else {
                Step::Ask(
                    db_get_session_by_user_scheme(user_id, "bsw"),
                    Task::SetupSession { username, attributes: msg.attributes },
                )
            },
        },
        (Task::SetupSession { username, attributes }, Reply::Session(found)) => match found {
            Some(session) => Step::Done(Response::Text(session.session_id)),
            None => Step::Ask(
                Query::ReadFile(KeyFile::Master),
                Task::SetupMaster { username, attributes },
            ),
        },
        (Task::SetupMaster { username, attributes }, Reply::File(file)) => read_master(
            username,
            attributes,
            file,
        ),
        (Task::SetupPublic { username, attributes, master_key }, Reply::File(file)) => read_public(
            username,
            attributes,
            master_key,
            file,
        ),
        (Task::SetupCreate { material }, Reply::User(Some(user))) => create_session(material, user),
        (Task::SetupStored { session_id }, Reply::Inserted(inserted)) => match db_session_created(
            session_id,
            inserted,
        ) {
            Ok(id) => Step::Done(Response::Text(id)),
            Err(_) => Step::Done(Response::Failed(Fault::SessionNotStored)),
        },
        (Task::Login(_), Reply::User(None)) => Step::Done(Response::Failed(Fault::NoSuchUser)),
        (Task::Owner { .. }, Reply::User(None)) => Step::Done(Response::Failed(Fault::NoSuchUser)),
        (Task::SetupUser { .. }, Reply::User(None)) => Step::Done(
            Response::Failed(Fault::NoSuchUser),
        ),
        (Task::SetupOwner { .. }, Reply::User(None)) => Step::Done(
            Response::Failed(Fault::NoSuchUser),
        ),
        (Task::SetupCreate { .. }, Reply::User(None)) => Step::Done(
            Response::Failed(Fault::NoSuchUser),
        ),
        (Task::Session(_), Reply::Session(None)) => Step::Done(
            Response::Failed(Fault::NoSuchSession),
        ),
        _ => Step::Done(Response::Failed(Fault::UnexpectedReply)),
    }
}

} // verus!
