//! Authentication of requests by the token of a user.
use vstd::prelude::*;
use crate::error::{failure, Error, ErrorContext, ErrorKind, ErrorKindView, ErrorView};
use crate::lookup::first_match;
use crate::models::User;
use crate::repos::{has_token, Repos};

verus! {

/// The outcome of authenticating with `token`: the user that has it; without
/// a token, or with one that no user has, the request is unauthorized.
pub open spec fn authenticated(users: Seq<User>, token: Option<String>) -> Result<User, ErrorView> {
    match token {
        None => Err(ErrorView { kind: ErrorKindView::Unauthorized, context: None }),
        Some(t) => match first_match(users, has_token(t@)) {
            Some(u) => Ok(u),
            None => Err(failure(ErrorKindView::Unauthorized, ErrorContext::NoAuthToken)),
        },
    }
}

/// Finds the user that a request's token belongs to.
#[derive(Clone, Copy, Debug)]
pub struct AuthServiceImpl {}

impl AuthServiceImpl {
    pub fn new() -> (r: Self) {
        AuthServiceImpl {  }
    }

    /// The user that the token belongs to (see `authenticated`).
    pub fn authenticate(&self, repos: &Repos, maybe_token: Option<String>) -> (r: Result<User, Error>)
        ensures
            crate::error::res_view(r) == authenticated(repos.users(), maybe_token),
    {
        let token = match maybe_token {
            Some(t) => t,
            None => {
                return Err(Error { kind: ErrorKind::Unauthorized, context: None });
            },
        };
        match repos.find_user_by_authentication_token(&token) {
            Some(u) => Ok(u),
            None => Err(Error { kind: ErrorKind::Unauthorized, context: Some(ErrorContext::NoAuthToken) }),
        }
    }
}

} // verus!
