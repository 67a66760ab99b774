//! The user store behind the handler: the records it holds and the calls
//! that the handler makes into it.

use vstd::prelude::*;

verus! {

/// `chrono::NaiveDateTime`, a date and time without time zone.  The library
/// carries such a value in a user record and never looks into it.
#[verifier::external_type_specification]
#[verifier::external_body]
pub struct ExNaiveDateTime(chrono::NaiveDateTime);

/// One user as the backend knows it.
#[derive(Debug, PartialEq)]
pub struct User {
    pub user_id: String,
    pub email: String,
    pub display_name: String,
    pub first_name: String,
    pub last_name: String,
    pub creation_date: chrono::NaiveDateTime,
}

/// The credentials of a bind.
pub struct BindRequest {
    pub name: String,
    pub password: String,
}

/// The request for the users of the store.  It selects nothing: every user
/// is asked for.
#[derive(Clone, Copy, Debug, PartialEq, Eq)]
pub struct ListUsersRequest {}

/// The backend did not accept the credentials of a bind.
#[derive(Debug, PartialEq, Eq)]
pub struct AuthError {
    pub message: String,
}

/// The backend could not answer a request.
#[derive(Debug, PartialEq, Eq)]
pub struct BackendError {
    pub message: String,
}

/// What the handler needs of a user store.  Nothing is promised of either
/// call: the handler answers every outcome.
pub trait BackendHandler {
    /// Checks the credentials of `request`.
    fn bind(&mut self, request: BindRequest) -> Result<(), AuthError>;

    /// Lists the users of the store, in the store's own order.
    fn list_users(&mut self, request: ListUsersRequest) -> Result<Vec<User>, BackendError>;
}

} // verus!
