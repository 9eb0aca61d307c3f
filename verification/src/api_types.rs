//! Plain request/response values exchanged with the service's callers.

use vstd::prelude::*;

verus! {

/// A registration request: claim `username@domain` for the given destination
/// text.
#[derive(Debug, Clone)]
pub struct RegisterRequest {
    pub domain: String,
    pub username: String,
    pub lnurl: String,
}

/// A removal request: delete `username@domain`, authorized by the token
/// issued at registration.
#[derive(Debug, Clone)]
pub struct RemoveRequest {
    pub domain: String,
    pub username: String,
    pub authentication_token: String,
}

/// The values a registration form carries: the same fields a
/// `RegisterRequest` holds.
#[derive(Debug, Clone)]
pub struct RegisterForm {
    pub domain: String,
    pub username: String,
    pub lnurl: String,
}

} // verus!
