//! The protocol-handling core of an LDAP directory service.
//!
//! A handler answers the operations of one connection (bind, search, whoami,
//! unbind) from its authentication state, a configured base and a pluggable
//! user store.  The functions of the crate carry contracts that Verus proves:
//!
//! - [`text`] splits and compares texts;
//! - [`dn`] parses distinguished names and decides subtree containment;
//! - [`attributes`] projects a user record to the attributes of an entry;
//! - [`backend`] is the user store as the handler sees it;
//! - [`protocol`] holds the requests and the messages that answer them;
//! - [`handler`] keeps the state of a connection and answers its operations;
//! - [`groups`] turns the stored record of a group into what is handed out.
//!
//! The search scope and the search filter of a request are values of the
//! `ldap3_proto` crate, and the creation date of a record is a value of the
//! `chrono` crate: the library carries them and never looks into them.

pub mod attributes;
pub mod backend;
pub mod dn;
pub mod groups;
pub mod handler;
pub mod protocol;
pub mod text;
