//! Users of the wallet.
use vstd::prelude::*;
use crate::error::Error;
use crate::lookup::first_match;
use crate::models::User;
use crate::repos::{has_token, Repos};

verus! {

/// Creates and finds users.
#[derive(Clone, Copy, Debug)]
pub struct UsersServiceImpl {}

impl UsersServiceImpl {
    pub fn new() -> (r: Self) {
        UsersServiceImpl {  }
    }

    /// Stores a new user and returns it.
    pub fn create_user(&self, repos: &mut Repos, input: User) -> (r: Result<User, Error>)
        ensures
            r == Ok::<User, Error>(input),
            final(repos).users() == old(repos).users().push(input),
            final(repos).accounts() == old(repos).accounts(),
            final(repos).transactions() == old(repos).transactions(),
    {
        Ok(repos.create_user(input))
    }

    /// The user with this authentication token, if there is one.
    pub fn find_user_by_authentication_token(&self, repos: &Repos, token: String) -> (r: Result<Option<User>, Error>)
        ensures
            r == Ok::<Option<User>, Error>(first_match(repos.users(), has_token(token@))),
    {
        Ok(repos.find_user_by_authentication_token(&token))
    }
}

} // verus!
