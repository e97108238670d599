//! What the server works on, seen from outside: the rows of the database and the
//! two key files, and what a request does to them.
use crate::protocol::{
    KeyFile, QueryOf, QueryView, ReplyOf, ReplyView, RequestView, ResponseView, StepOf, StepView,
};
use crate::schema::{SessionView, UserView};
use vstd::prelude::*;

verus! {

/// The rows of the database and the contents of the key files, or why a file
/// cannot be read.
pub struct Store {
    pub users: Seq<UserView>,
    pub sessions: Seq<SessionView>,
    pub master_file: Result<Seq<char>, Seq<char>>,
    pub public_file: Result<Seq<char>, Seq<char>>,
}

impl Store {
    /// The contents of a key file.
    pub open spec fn file(self, file: KeyFile) -> Result<Seq<char>, Seq<char>> {
        match file {
            KeyFile::Master => self.master_file,
            KeyFile::Public => self.public_file,
        }
    }

    /// The store with one more user.
    pub open spec fn with_user(self, user: UserView) -> Store {
        Store { users: self.users.push(user), ..self }
    }

    /// The store with one more session.
    pub open spec fn with_session(self, session: SessionView) -> Store {
        Store { sessions: self.sessions.push(session), ..self }
    }

    /// There is a user of that name.
    pub open spec fn has_name(self, username: Seq<char>) -> bool {
        exists|i: int| 0 <= i < self.users.len() && #[trigger] self.users[i].username == username
    }

    /// There is a user with that API key.
    pub open spec fn has_key(self, api_key: Seq<char>) -> bool {
        exists|i: int| 0 <= i < self.users.len() && #[trigger] self.users[i].api_key == api_key
    }

    /// The user has a session under that scheme.
    pub open spec fn has_session(self, user_id: i32, scheme: Seq<char>) -> bool {
        exists|i: int|
            0 <= i < self.sessions.len() && (#[trigger] self.sessions[i]).user_id == user_id
                && self.sessions[i].scheme == scheme
    }

    /// The user has a session with that identifier.
    pub open spec fn has_session_id(self, user_id: i32, session_id: Seq<char>) -> bool {
        exists|i: int|
            0 <= i < self.sessions.len() && (#[trigger] self.sessions[i]).user_id == user_id
                && self.sessions[i].session_id == session_id
    }

    /// No two users have one number or one name, and no two sessions one number.
    pub open spec fn well_formed(self) -> bool {
        &&& forall|i: int, j: int|
            0 <= i < j < self.users.len() ==> (#[trigger] self.users[i]).id != (
            #[trigger] self.users[j]).id && self.users[i].username != self.users[j].username
        &&& forall|i: int, j: int|
            0 <= i < j < self.sessions.len() ==> (#[trigger] self.sessions[i]).id != (
            #[trigger] self.sessions[j]).id
    }

    /// No two users have one API key.
    pub open spec fn distinct_keys(self) -> bool {
        forall|i: int, j: int|
            0 <= i < j < self.users.len() ==> (#[trigger] self.users[i]).api_key != (
            #[trigger] self.users[j]).api_key
    }

    /// No user has two sessions under one scheme.
    pub open spec fn one_session_per_scheme(self) -> bool {
        forall|i: int, j: int|
            0 <= i < j < self.sessions.len() && self.sessions[i].user_id
                == self.sessions[j].user_id ==> (#[trigger] self.sessions[i]).scheme != (
            #[trigger] self.sessions[j]).scheme
    }

    /// `user` is the only user with their API key.
    pub open spec fn sole_owner(self, user: UserView) -> bool {
        &&& self.users.contains(user)
        &&& forall|i: int|
            0 <= i < self.users.len() && (#[trigger] self.users[i]).api_key == user.api_key
                ==> self.users[i] == user
    }

    /// `session` is the only session of its user with its identifier.
    pub open spec fn sole_session(self, session: SessionView) -> bool {
        &&& self.sessions.contains(session)
        &&& forall|i: int|
            0 <= i < self.sessions.len() && (#[trigger] self.sessions[i]).user_id
                == session.user_id && self.sessions[i].session_id == session.session_id
                ==> self.sessions[i] == session
    }
}

/// `reply` is an answer to `query` that a store can give, and leaves it as
/// `after`. A lookup gives some row that fits, character by character, or none
/// where none fits. An insertion adds one row with a new number, or fails and
/// adds nothing.
pub open spec fn answers(before: Store, query: QueryView, reply: ReplyView, after: Store) -> bool {
    match query {
        QueryOf::UserByName(username) => {
            &&& after == before
            &&& reply matches ReplyOf::User(found)
            &&& match found {
                Some(user) => before.users.contains(user) && user.username == username,
                None => !before.has_name(username),
            }
        },
        QueryOf::UserByApiKey(api_key) => {
            &&& after == before
            &&& reply matches ReplyOf::User(found)
            &&& match found {
                Some(user) => before.users.contains(user) && user.api_key == api_key,
                None => !before.has_key(api_key),
            }
        },
        QueryOf::SessionById { user_id, session_id } => {
            &&& after == before
            &&& reply matches ReplyOf::Session(found)
            &&& match found {
                Some(session) => before.sessions.contains(session) && session.user_id == user_id
                    && session.session_id == session_id,
                None => !before.has_session_id(user_id, session_id),
            }
        },
        QueryOf::SessionByScheme { user_id, scheme } => {
            &&& after == before
            &&& reply matches ReplyOf::Session(found)
            &&& match found {
                Some(session) => before.sessions.contains(session) && session.user_id == user_id
                    && session.scheme == scheme,
                None => !before.has_session(user_id, scheme),
            }
        },
        QueryOf::InsertUser(user) => match reply {
            ReplyOf::Inserted(None) => after == before,
            ReplyOf::Inserted(Some(rows)) => {
                &&& rows == 1
                &&& exists|id: i32|
                    {
                        &&& after == #[trigger] before.with_user(user.row(id))
                        &&& forall|i: int|
                            0 <= i < before.users.len() ==> (#[trigger] before.users[i]).id != id
                    }
            },
            _ => false,
        },
        QueryOf::InsertSession(session) => match reply {
            ReplyOf::Inserted(None) => after == before,
            ReplyOf::Inserted(Some(rows)) => {
                &&& rows == 1
                &&& exists|id: i32|
                    {
                        &&& after == #[trigger] before.with_session(session.row(id))
                        &&& forall|i: int|
                            0 <= i < before.sessions.len() ==> (#[trigger] before.sessions[i]).id
                                != id
                    }
            },
            _ => false,
        },
        QueryOf::ReadFile(file) => {
            &&& after == before
            &&& reply == ReplyOf::File(before.file(file))
        },
    }
}

/// One query of a run: the reply, the store after it, and the next step.
pub struct Turn {
    pub reply: ReplyView,
    pub store: Store,
    pub step: StepView,
}

/// From `step` on, with at most `queries` queries, the store can go from `before`
/// to `after`, and the response be `response`.
pub open spec fn runs(
    before: Store,
    step: StepView,
    after: Store,
    response: ResponseView,
    queries: nat,
) -> bool
    decreases queries,
{
    match step {
        StepOf::Done(r) => after == before && response == r,
        StepOf::Ask(query, task) => queries > 0 && exists|turn: Turn|
            {
                &&& #[trigger] answers(before, query, turn.reply, turn.store)
                &&& crate::server::resumed(task, turn.reply, turn.step)
                &&& runs(turn.store, turn.step, after, response, (queries - 1) as nat)
            },
    }
}

/// The most queries that a request takes.
pub const MAX_QUERIES: usize = 9;

/// A request can take the store from `before` to `after` and be answered by
/// `response`.
pub open spec fn handled(
    before: Store,
    request: RequestView,
    after: Store,
    response: ResponseView,
) -> bool {
    exists|step: StepView| #[trigger]
        crate::server::begun(request, step) && runs(
        before,
        step,
        after,
        response,
        MAX_QUERIES as nat,
    )
}

} // verus!
