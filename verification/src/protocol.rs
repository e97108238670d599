//! What goes between the server and the world around it: requests and
//! responses, and the queries and replies in between.
//!
//! The types are generic in the type of their texts, as the row types are.
use crate::messages::{
    AccessTokenResponseOf, DecMessageOf, EncMessageOf, Fault, ListAttrMsgOf, SetupMsgOf,
    TokenRequestOf,
};
use crate::schema::{NewSessionOf, NewUserOf, SessionOf, UserOf};
use vstd::prelude::*;

verus! {

/// A call that needs an API key.
#[derive(Debug, PartialEq)]
pub enum GuardedCallOf<S, L> {
    Pk,
    Encrypt(EncMessageOf<S>),
    Decrypt(DecMessageOf<S>),
    ListAttrs(ListAttrMsgOf<S>),
    Setup(SetupMsgOf<S, L>),
}

/// A call to the server.
#[derive(Debug, PartialEq)]
pub enum CallOf<S, L> {
    Login(TokenRequestOf<S>),
    AddUser(crate::messages::UserOf<S>),
    Guarded(GuardedCallOf<S, L>),
}

/// A call, and the values of the `Authorization` headers that came with it.
#[derive(Debug, PartialEq)]
pub struct RequestOf<S, L> {
    pub authorization: L,
    pub call: CallOf<S, L>,
}

/// A status by which a request is refused before its call is looked at.
#[derive(Debug, Clone, Copy, PartialEq, Eq, Structural)]
pub enum Status {
    BadRequest,
    Unauthorized,
}

/// The answer to a request.
#[derive(Debug, PartialEq)]
pub enum ResponseOf<S> {
    /// A text as it stands.
    Text(S),
    /// A text as a JSON string.
    Json(S),
    /// An access token.
    Token(AccessTokenResponseOf<S>),
    /// Success, with nothing to say.
    Accepted,
    /// A failure, with a text that says which.
    BadRequest(S),
    /// Refused for want of a valid API key.
    Refused(Status),
    /// The request failed as a whole.
    Failed(Fault),
}

/// One of the two key files.
#[derive(Debug, Clone, Copy, PartialEq, Eq, Structural)]
pub enum KeyFile {
    Master,
    Public,
}

/// What the server asks of the database and the file system.
#[derive(Debug, PartialEq)]
pub enum QueryOf<S> {
    /// A user of that name.
    UserByName(S),
    /// A user with that API key.
    UserByApiKey(S),
    /// A session of the user with that session identifier.
    SessionById { user_id: i32, session_id: S },
    /// A session of the user under that scheme.
    SessionByScheme { user_id: i32, scheme: S },
    /// Adds a row for the user.
    InsertUser(NewUserOf<S>),
    /// Adds a row for the session.
    InsertSession(NewSessionOf<S>),
    /// Reads a key file.
    ReadFile(KeyFile),
}

/// What comes back on a query.
#[derive(Debug, PartialEq)]
pub enum ReplyOf<S> {
    /// The user that was found, if any.
    User(Option<UserOf<S>>),
    /// The session that was found, if any.
    Session(Option<SessionOf<S>>),
    /// The number of rows that were added, or nothing where that failed.
    Inserted(Option<usize>),
    /// The contents of the file, or why they could not be read.
    File(Result<S, S>),
}

/// What is to be done with a session once it is found.
#[derive(Debug, PartialEq)]
pub enum ErrandOf<S> {
    Encrypt(EncMessageOf<S>),
    Decrypt(DecMessageOf<S>),
    ListAttrs,
}

/// Where the work on a request stands while a query is open.
#[derive(Debug, PartialEq)]
pub enum TaskOf<S, L> {
    /// Logging in: waits for the user of that name.
    Login(TokenRequestOf<S>),
    /// Adding a user: waits for a user who has the name already.
    AddUser(NewUserOf<S>),
    /// Adding a user: waits for the new row.
    UserAdded,
    /// A guarded call: waits for the user with the API key.
    Guard { key: S, call: GuardedCallOf<S, L> },
    /// Sending the public key: waits for its file.
    Pk,
    /// Using a session: waits for the user with the API key.
    Owner { session_id: S, errand: ErrandOf<S> },
    /// Using a session: waits for the session.
    Session(ErrandOf<S>),
    /// Setting up: waits for the user with the API key.
    SetupUser { key: S, msg: SetupMsgOf<S, L> },
    /// Setting up: waits for the user with the API key, whose sessions are looked through.
    SetupOwner { username: S, msg: SetupMsgOf<S, L> },
    /// Setting up: waits for a session under the scheme that is asked for.
    SetupAsked { username: S, user_id: i32, msg: SetupMsgOf<S, L> },
    /// Setting up: waits for a session under the scheme that there are keys for.
    SetupSession { username: S, attributes: L },
    /// Setting up: waits for the file with the master key.
    SetupMaster { username: S, attributes: L },
    /// Setting up: waits for the file with the public key.
    SetupPublic { username: S, attributes: L, master_key: S },
    /// Setting up: waits for the user to whom the session will belong.
    SetupCreate { material: L },
    /// Setting up: waits for the new row.
    SetupStored { session_id: S },
}

/// The next thing to do on a request: ask a query and go on with the task when
/// the reply is there, or send the response.
#[derive(Debug, PartialEq)]
pub enum StepOf<S, L> {
    Ask(QueryOf<S>, TaskOf<S, L>),
    Done(ResponseOf<S>),
}

pub type GuardedCall = GuardedCallOf<String, Vec<String>>;

pub type Call = CallOf<String, Vec<String>>;

pub type Request = RequestOf<String, Vec<String>>;

pub type Response = ResponseOf<String>;

pub type Query = QueryOf<String>;

pub type Reply = ReplyOf<String>;

pub type Errand = ErrandOf<String>;

pub type Task = TaskOf<String, Vec<String>>;

pub type Step = StepOf<String, Vec<String>>;

pub type GuardedCallView = GuardedCallOf<Seq<char>, Seq<Seq<char>>>;

pub type CallView = CallOf<Seq<char>, Seq<Seq<char>>>;

pub type RequestView = RequestOf<Seq<char>, Seq<Seq<char>>>;

pub type ResponseView = ResponseOf<Seq<char>>;

pub type QueryView = QueryOf<Seq<char>>;

pub type ReplyView = ReplyOf<Seq<char>>;

pub type ErrandView = ErrandOf<Seq<char>>;

pub type TaskView = TaskOf<Seq<char>, Seq<Seq<char>>>;

pub type StepView = StepOf<Seq<char>, Seq<Seq<char>>>;

impl View for GuardedCallOf<String, Vec<String>> {
    type V = GuardedCallOf<Seq<char>, Seq<Seq<char>>>;

    open spec fn view(&self) -> GuardedCallOf<Seq<char>, Seq<Seq<char>>> {
        match self {
            GuardedCallOf::Pk => GuardedCallOf::Pk,
            GuardedCallOf::Encrypt(msg) => GuardedCallOf::Encrypt(msg@),
            GuardedCallOf::Decrypt(msg) => GuardedCallOf::Decrypt(msg@),
            GuardedCallOf::ListAttrs(msg) => GuardedCallOf::ListAttrs(msg@),
            GuardedCallOf::Setup(msg) => GuardedCallOf::Setup(msg@),
        }
    }
}

impl View for CallOf<String, Vec<String>> {
    type V = CallOf<Seq<char>, Seq<Seq<char>>>;

    open spec fn view(&self) -> CallOf<Seq<char>, Seq<Seq<char>>> {
        match self {
            CallOf::Login(msg) => CallOf::Login(msg@),
            CallOf::AddUser(msg) => CallOf::AddUser(msg@),
            CallOf::Guarded(call) => CallOf::Guarded(call@),
        }
    }
}

impl View for RequestOf<String, Vec<String>> {
    type V = RequestOf<Seq<char>, Seq<Seq<char>>>;

    open spec fn view(&self) -> RequestOf<Seq<char>, Seq<Seq<char>>> {
        RequestOf { authorization: self.authorization.deep_view(), call: self.call@ }
    }
}

impl View for ResponseOf<String> {
    type V = ResponseOf<Seq<char>>;

    open spec fn view(&self) -> ResponseOf<Seq<char>> {
        match self {
            ResponseOf::Text(text) => ResponseOf::Text(text@),
            ResponseOf::Json(text) => ResponseOf::Json(text@),
            ResponseOf::Token(token) => ResponseOf::Token(token@),
            ResponseOf::Accepted => ResponseOf::Accepted,
            ResponseOf::BadRequest(text) => ResponseOf::BadRequest(text@),
            ResponseOf::Refused(status) => ResponseOf::Refused(*status),
            ResponseOf::Failed(fault) => ResponseOf::Failed(*fault),
        }
    }
}

impl View for QueryOf<String> {
    type V = QueryOf<Seq<char>>;

    open spec fn view(&self) -> QueryOf<Seq<char>> {
        match self {
            QueryOf::UserByName(name) => QueryOf::UserByName(name@),
            QueryOf::UserByApiKey(key) => QueryOf::UserByApiKey(key@),
            QueryOf::SessionById { user_id, session_id } => QueryOf::SessionById {
                user_id: *user_id,
                session_id: session_id@,
            },
            QueryOf::SessionByScheme { user_id, scheme } => QueryOf::SessionByScheme {
                user_id: *user_id,
                scheme: scheme@,
            },
            QueryOf::InsertUser(user) => QueryOf::InsertUser(user@),
            QueryOf::InsertSession(session) => QueryOf::InsertSession(session@),
            QueryOf::ReadFile(file) => QueryOf::ReadFile(*file),
        }
    }
}

/// A row that was found, by its view.
pub open spec fn found_user(found: Option<UserOf<String>>) -> Option<UserOf<Seq<char>>> {
    match found {
        Some(user) => Some(user@),
        None => None,
    }
}

/// A row that was found, by its view.
pub open spec fn found_session(found: Option<SessionOf<String>>) -> Option<SessionOf<Seq<char>>> {
    match found {
        Some(session) => Some(session@),
        None => None,
    }
}

/// A file that was read, by its view.
pub open spec fn file_view(file: Result<String, String>) -> Result<Seq<char>, Seq<char>> {
    match file {
        Ok(text) => Ok(text@),
        Err(reason) => Err(reason@),
    }
}

impl View for ReplyOf<String> {
    type V = ReplyOf<Seq<char>>;

    open spec fn view(&self) -> ReplyOf<Seq<char>> {
        match self {
            ReplyOf::User(found) => ReplyOf::User(found_user(*found)),
            ReplyOf::Session(found) => ReplyOf::Session(found_session(*found)),
            ReplyOf::Inserted(rows) => ReplyOf::Inserted(*rows),
            ReplyOf::File(file) => ReplyOf::File(file_view(*file)),
        }
    }
}

impl View for ErrandOf<String> {
    type V = ErrandOf<Seq<char>>;

    open spec fn view(&self) -> ErrandOf<Seq<char>> {
        match self {
            ErrandOf::Encrypt(msg) => ErrandOf::Encrypt(msg@),
            ErrandOf::Decrypt(msg) => ErrandOf::Decrypt(msg@),
            ErrandOf::ListAttrs => ErrandOf::ListAttrs,
        }
    }
}

impl View for TaskOf<String, Vec<String>> {
    type V = TaskOf<Seq<char>, Seq<Seq<char>>>;

    open spec fn view(&self) -> TaskOf<Seq<char>, Seq<Seq<char>>> {
        match self {
            TaskOf::Login(msg) => TaskOf::Login(msg@),
            TaskOf::AddUser(user) => TaskOf::AddUser(user@),
            TaskOf::UserAdded => TaskOf::UserAdded,
            TaskOf::Guard { key, call } => TaskOf::Guard { key: key@, call: call@ },
            TaskOf::Pk => TaskOf::Pk,
            TaskOf::Owner { session_id, errand } => TaskOf::Owner {
                session_id: session_id@,
                errand: errand@,
            },
            TaskOf::Session(errand) => TaskOf::Session(errand@),
            TaskOf::SetupUser { key, msg } => TaskOf::SetupUser { key: key@, msg: msg@ },
            TaskOf::SetupOwner { username, msg } => TaskOf::SetupOwner {
                username: username@,
                msg: msg@,
            },
            TaskOf::SetupAsked { username, user_id, msg } => TaskOf::SetupAsked {
                username: username@,
                user_id: *user_id,
                msg: msg@,
            },
            TaskOf::SetupSession { username, attributes } => TaskOf::SetupSession {
                username: username@,
                attributes: attributes.deep_view(),
            },
            TaskOf::SetupMaster { username, attributes } => TaskOf::SetupMaster {
                username: username@,
                attributes: attributes.deep_view(),
            },
            TaskOf::SetupPublic { username, attributes, master_key } => TaskOf::SetupPublic {
                username: username@,
                attributes: attributes.deep_view(),
                master_key: master_key@,
            },
            TaskOf::SetupCreate { material } => TaskOf::SetupCreate {
                material: material.deep_view(),
            },
            TaskOf::SetupStored { session_id } => TaskOf::SetupStored { session_id: session_id@ },
        }
    }
}

impl View for StepOf<String, Vec<String>> {
    type V = StepOf<Seq<char>, Seq<Seq<char>>>;

    open spec fn view(&self) -> StepOf<Seq<char>, Seq<Seq<char>>> {
        match self {
            StepOf::Ask(query, task) => StepOf::Ask(query@, task@),
            StepOf::Done(response) => StepOf::Done(response@),
        }
    }
}

} // verus!
