//! The state shared by the request handlers, and the claims of a user's
//! identity.

use crate::settings::model::Settings;
use vstd::prelude::*;

verus! {

/// Why an identity cannot be read.
#[derive(Debug)]
pub enum IdentityError {
    MissingId,
    InvalidId(String),
}

/// The state shared by the request handlers.
pub struct AppState {
    pub settings: Settings,
}

/// What the request says about its user.
#[derive(Debug)]
pub struct IdenityClaims {
    pub is_authenticated: bool,
    pub email: String,
}

impl AppState {
    /// The claims of a request from its identity, given as the outcome of
    /// reading the identity's id (the id, or the text of the error): no
    /// identity is an anonymous user; a readable id is an authenticated user
    /// with that email; an unreadable one is an invalid identity.
    pub fn identity_check(identity: Option<Result<String, String>>) -> (r: Result<
        IdenityClaims,
        IdentityError,
    >)
        ensures
            match identity {
                None => r matches Ok(c) && !c.is_authenticated && c.email@.len() == 0,
                Some(Ok(id)) => r matches Ok(c) && c.is_authenticated && c.email == id,
                Some(Err(e)) => r matches Err(IdentityError::InvalidId(m)) && m == e,
            },
    {
        match identity {
            None => Ok(IdenityClaims { is_authenticated: false, email: String::new() }),
            Some(Ok(id)) => Ok(IdenityClaims { is_authenticated: true, email: id }),
            Some(Err(e)) => Err(IdentityError::InvalidId(e)),
        }
    }
}

} // verus!
