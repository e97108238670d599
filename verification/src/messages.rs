//! The messages that clients send and get.
//!
//! Each message type is generic in the type of its texts and of its lists of
//! texts, as the row types are.
use vstd::prelude::*;

verus! {

/// Asks for a session under `scheme`, with keys for `attributes`.
#[derive(Debug, Clone, PartialEq)]
pub struct SetupMsgOf<S, L> {
    pub scheme: S,
    pub attributes: L,
}

/// Asks for keys for `attributes`.
#[derive(Debug, Clone, PartialEq)]
pub struct KeyGenMsgOf<S, L> {
    pub attributes: L,
    pub scheme: S,
}

/// Asks for an encryption of `plaintext`.
#[derive(Debug, Clone, PartialEq)]
pub struct EncMessageOf<S> {
    pub plaintext: S,
    /// A JSON serialized policy that is understood by the scheme assigned to the session.
    pub policy: S,
    /// Session ID unique per (user, scheme).
    pub session_id: S,
}

/// Asks for the plaintext of `ct`.
#[derive(Debug, Clone, PartialEq)]
pub struct DecMessageOf<S> {
    pub ct: S,
    /// Session ID unique per (user, scheme).
    pub session_id: S,
}

/// Asks for the key material of a session.
#[derive(Debug, Clone, PartialEq)]
pub struct ListAttrMsgOf<S> {
    /// Session ID unique per (user, scheme).
    pub session_id: S,
}

/// Asks for a user to be added.
#[derive(Debug, Clone, PartialEq)]
pub struct UserOf<S> {
    pub username: S,
    pub password: S,
}

/// OAuth (RFC6749) token request to the login endpoint.
#[derive(Debug, Clone, PartialEq)]
pub struct TokenRequestOf<S> {
    pub grant_type: S,
    pub username: S,
    pub password: S,
}

/// OAuth (RFC6749) token response from the login endpoint.
#[derive(Debug, Clone, PartialEq)]
pub struct AccessTokenResponseOf<S> {
    pub access_token: S,
    pub token_type: S,
    pub expires_in: u32,
}

/// What makes a request fail as a whole, without an answer of its own.
#[derive(Debug, Clone, Copy, PartialEq, Eq, Structural)]
pub enum Fault {
    /// There is no such user.
    NoSuchUser,
    /// The user has no such session.
    NoSuchSession,
    /// The session could not be stored.
    SessionNotStored,
    /// The key material of the session is no list with the key that is needed.
    MalformedKeyMaterial,
    /// A text that should be a key is none.
    MalformedKey,
    /// A key holds numbers that no key can hold.
    UnsoundKey,
    /// There is no key without attributes.
    NoAttributes,
    /// The policy is none that can be read.
    UnreadablePolicy,
    /// The policy is nested deeper than the scheme could parse.
    PolicyNotParsed,
    /// The plaintext is longer than the cipher takes.
    PlaintextTooLong,
    /// The ciphertext is none.
    MalformedCiphertext,
    /// No key opens such a ciphertext.
    UnopenableCiphertext,
    /// The key does not open the ciphertext.
    NotOpened,
    /// The plaintext is no text.
    NotText,
    /// The operating system offers no randomness.
    NoRandomness,
    /// The reply does not belong to the query.
    UnexpectedReply,
}

pub type SetupMsg = SetupMsgOf<String, Vec<String>>;

pub type KeyGenMsg = KeyGenMsgOf<String, Vec<String>>;

pub type EncMessage = EncMessageOf<String>;

pub type DecMessage = DecMessageOf<String>;

pub type ListAttrMsg = ListAttrMsgOf<String>;

pub type User = UserOf<String>;

pub type TokenRequest = TokenRequestOf<String>;

pub type AccessTokenResponse = AccessTokenResponseOf<String>;

impl View for SetupMsgOf<String, Vec<String>> {
    type V = SetupMsgOf<Seq<char>, Seq<Seq<char>>>;

    open spec fn view(&self) -> SetupMsgOf<Seq<char>, Seq<Seq<char>>> {
        SetupMsgOf { scheme: self.scheme@, attributes: self.attributes.deep_view() }
    }
}

impl View for EncMessageOf<String> {
    type V = EncMessageOf<Seq<char>>;

    open spec fn view(&self) -> EncMessageOf<Seq<char>> {
        EncMessageOf {
            plaintext: self.plaintext@,
            policy: self.policy@,
            session_id: self.session_id@,
        }
    }
}

impl View for DecMessageOf<String> {
    type V = DecMessageOf<Seq<char>>;

    open spec fn view(&self) -> DecMessageOf<Seq<char>> {
        DecMessageOf { ct: self.ct@, session_id: self.session_id@ }
    }
}

impl View for ListAttrMsgOf<String> {
    type V = ListAttrMsgOf<Seq<char>>;

    open spec fn view(&self) -> ListAttrMsgOf<Seq<char>> {
        ListAttrMsgOf { session_id: self.session_id@ }
    }
}

impl View for UserOf<String> {
    type V = UserOf<Seq<char>>;

    open spec fn view(&self) -> UserOf<Seq<char>> {
        UserOf { username: self.username@, password: self.password@ }
    }
}

impl View for TokenRequestOf<String> {
    type V = TokenRequestOf<Seq<char>>;

    open spec fn view(&self) -> TokenRequestOf<Seq<char>> {
        TokenRequestOf {
            grant_type: self.grant_type@,
            username: self.username@,
            password: self.password@,
        }
    }
}

impl View for AccessTokenResponseOf<String> {
    type V = AccessTokenResponseOf<Seq<char>>;

    open spec fn view(&self) -> AccessTokenResponseOf<Seq<char>> {
        AccessTokenResponseOf {
            access_token: self.access_token@,
            token_type: self.token_type@,
            expires_in: self.expires_in,
        }
    }
}

} // verus!
