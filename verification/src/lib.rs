//! Client library for the web administration interface of a Tianyi home
//! router.
//!
//! The router speaks a small form/query HTTP protocol: a login request
//! yields a page that embeds a 32-character session token, and follow-up
//! requests read gateway information or manage port-forwarding rules.
//!
//! This crate holds the verified core of that client: the token-extraction
//! grammar, the encoding of every request the client sends, the response
//! record types, and the planning of the composite rule-update operation.
//! The HTTP transport itself lives outside the library; callers hand in
//! response bodies and send the planned requests.

pub mod action;
pub mod builder;
pub mod client;
pub mod data;
pub mod error;
pub mod numeric;
pub mod retval;
pub mod token;
pub mod update;
