//! Users of the service as requests describe them.

use vstd::prelude::*;

verus! {

/// What a request to create or update a user carries.
#[derive(Debug, Clone, PartialEq, Eq)]
pub struct CreateUserPayload {
    /// The user to update; absent when a new user is to be created.
    pub user_id: Option<String>,
    pub user_name: String,
    pub email: String,
    pub password: String,
    pub family_id: String,
}

} // verus!
