//! The rows of the database.
//!
//! Each row type is generic in the type of its texts: a `String` in a row, a
//! sequence of characters in the view of one.
use vstd::prelude::*;

verus! {

/// A user.
#[derive(Debug, Clone, PartialEq)]
pub struct UserOf<S> {
    pub id: i32,
    pub username: S,
    pub password: S,
    pub salt: i32,
    pub api_key: S,
}

/// A user who has no row yet.
#[derive(Debug, Clone, PartialEq)]
pub struct NewUserOf<S> {
    pub username: S,
    pub password: S,
    pub salt: i32,
    pub api_key: S,
}

/// A session of a user under one scheme.
#[derive(Debug, Clone, PartialEq)]
pub struct SessionOf<S> {
    pub id: i32,
    pub user_id: i32,
    pub is_initialized: bool,
    pub scheme: S,
    pub session_id: S,
    pub key_material: S,
}

/// A session that has no row yet.
#[derive(Debug, Clone, PartialEq)]
pub struct NewSessionOf<S> {
    pub user_id: i32,
    pub is_initialized: bool,
    pub scheme: S,
    pub session_id: S,
    pub key_material: S,
}

pub type User = UserOf<String>;

pub type NewUser = NewUserOf<String>;

pub type Session = SessionOf<String>;

pub type NewSession = NewSessionOf<String>;

pub type UserView = UserOf<Seq<char>>;

pub type NewUserView = NewUserOf<Seq<char>>;

pub type SessionView = SessionOf<Seq<char>>;

pub type NewSessionView = NewSessionOf<Seq<char>>;

impl View for UserOf<String> {
    type V = UserOf<Seq<char>>;

    open spec fn view(&self) -> UserOf<Seq<char>> {
        UserOf {
            id: self.id,
            username: self.username@,
            password: self.password@,
            salt: self.salt,
            api_key: self.api_key@,
        }
    }
}

impl View for NewUserOf<String> {
    type V = NewUserOf<Seq<char>>;

    open spec fn view(&self) -> NewUserOf<Seq<char>> {
        NewUserOf {
            username: self.username@,
            password: self.password@,
            salt: self.salt,
            api_key: self.api_key@,
        }
    }
}

impl View for SessionOf<String> {
    type V = SessionOf<Seq<char>>;

    open spec fn view(&self) -> SessionOf<Seq<char>> {
        SessionOf {
            id: self.id,
            user_id: self.user_id,
            is_initialized: self.is_initialized,
            scheme: self.scheme@,
            session_id: self.session_id@,
            key_material: self.key_material@,
        }
    }
}

impl View for NewSessionOf<String> {
    type V = NewSessionOf<Seq<char>>;

    open spec fn view(&self) -> NewSessionOf<Seq<char>> {
        NewSessionOf {
            user_id: self.user_id,
            is_initialized: self.is_initialized,
            scheme: self.scheme@,
            session_id: self.session_id@,
            key_material: self.key_material@,
        }
    }
}

impl<S> NewUserOf<S> {
    /// The row of the user under the number `id`.
    pub open spec fn row(self, id: i32) -> UserOf<S> {
        UserOf {
            id,
            username: self.username,
            password: self.password,
            salt: self.salt,
            api_key: self.api_key,
        }
    }
}

impl<S> NewSessionOf<S> {
    /// The row of the session under the number `id`.
    pub open spec fn row(self, id: i32) -> SessionOf<S> {
        SessionOf {
            id,
            user_id: self.user_id,
            is_initialized: self.is_initialized,
            scheme: self.scheme,
            session_id: self.session_id,
            key_material: self.key_material,
        }
    }
}

} // verus!
