//! A server for attribute-based encryption.
//!
//! Users log in and set up sessions. A session holds keys for some attributes.
//! In a session, texts are encrypted for those who meet a policy over attributes,
//! and ciphertexts decrypted whose policy the attributes of the session meet.
//!
//! The library decides everything and touches nothing: [`server`] turns a request
//! into queries on the database and the key files, one at a time, and the replies
//! into a response. What a request does to the rows of the database is a relation
//! in [`store`]; [`laws`] and [`session_laws`] prove what follows for one request
//! and for several.
//!
//! What the functions are for is stated of the functions themselves: in
//! [`call_laws`] and [`part_laws`] what each call asks and answers, in [`key_laws`]
//! what keys open, in [`policy_grammar`], [`policy_printing`] and [`policy_meaning`]
//! how policies are written and who meets them, in [`element_laws`] what keys and
//! ciphertexts are made of, and in [`text_laws`] what texts come out as.
pub mod abe;
pub mod api;
pub mod auth;
pub mod call_laws;
pub mod curve;
pub mod database;
pub mod element_laws;
pub mod json;
pub mod key_laws;
pub mod keys;
pub mod laws;
pub mod messages;
pub mod number;
pub mod part_laws;
pub mod passwd;
pub mod policy;
pub mod policy_grammar;
pub mod policy_laws;
pub mod policy_meaning;
pub mod policy_printing;
pub mod policy_text;
pub mod protocol;
pub mod random;
pub mod schema;
pub mod server;
pub mod session_laws;
pub mod store;
pub mod text;
pub mod text_laws;
