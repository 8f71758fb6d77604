//! The sessions that are open, and the tokens that name them.
//!
//! A [`SessionsStore`] maps the token that a client presents to the session
//! that was opened for it. Looking a token up takes the store by shared
//! reference and opening a session takes it by exclusive reference, so any
//! number of readers may run side by side while a writer runs alone.
//!
//! A session, once opened, stays open for as long as the store lives: no
//! session expires or is revoked, and the store forgets all of them when the
//! process ends.
use crate::errors::ApiError;
use crate::ids::{fresh_id, is_random_id};
use std::collections::BTreeMap;
use vstd::prelude::*;

verus! {

/// An authenticated principal and what it is permitted.
#[derive(Debug, PartialEq, Eq)]
pub struct Session {
    pub user_id: u128,
    pub permission: String,
}

impl Clone for Session {
    fn clone(&self) -> (copy: Self)
        ensures
            copy == *self,
    {
        Session { user_id: self.user_id, permission: self.permission.clone() }
    }
}

/// The sessions that are open, by their token.
#[derive(Debug)]
pub struct SessionsStore {
    sessions: BTreeMap<u128, Session>,
}

impl View for SessionsStore {
    type V = Map<u128, Session>;

    closed spec fn view(&self) -> Map<u128, Session> {
        self.sessions@
    }
}

/// What a header authenticates as: the session of the token that its text
/// denotes. Text that denotes no token is invalid, and a token without a
/// session is not authorized.
pub open spec fn authenticated(sessions: Map<u128, Session>, token: Option<u128>) -> Result<
    Session,
    ApiError,
> {
    match token {
        None => Err(ApiError::InvalidId),
        Some(token) => if sessions.contains_key(token) {
            Ok(sessions[token])
        } else {
            Err(ApiError::UnauthorizedOperation)
        },
    }
}

/// Whether `after` holds the sessions of `before` and one more: a session
/// of default permission for `user_id`, under `token`.
pub open spec fn opened(
    before: Map<u128, Session>,
    after: Map<u128, Session>,
    token: u128,
    user_id: u128,
) -> bool {
    &&& after.contains_key(token)
    &&& after[token].user_id == user_id
    &&& after[token].permission@ == "Default"@
    &&& after == before.insert(token, after[token])
}

/// A session is found under the token that it was opened with, and
/// opening it changes what no other token authenticates as.
pub proof fn law_a_session_is_found_under_its_token(
    sessions: Map<u128, Session>,
    token: u128,
    session: Session,
    other: u128,
)
    ensures
        authenticated(sessions.insert(token, session), Some(token)) == Ok::<Session, ApiError>(
            session,
        ),
        other != token ==> authenticated(sessions.insert(token, session), Some(other))
            == authenticated(sessions, Some(other)),
        authenticated(Map::<u128, Session>::empty(), Some(other)) == Err::<Session, ApiError>(
            ApiError::UnauthorizedOperation,
        ),
{
}

impl SessionsStore {
    /// A store without sessions.
    pub fn new() -> (store: Self)
        ensures
            store@ == Map::<u128, Session>::empty(),
    {
        SessionsStore { sessions: BTreeMap::new() }
    }

    /// The session that was opened under the token `key`, if there is one.
    pub fn get_session(&self, key: &u128) -> (session: Option<Session>)
        ensures
            session == if self@.contains_key(*key) {
                Some(self@[*key])
            } else {
                None
            },
    {
        broadcast use vstd::std_specs::btree::group_btree_axioms;

        match self.sessions.get(key) {
            Some(session) => Some(session.clone()),
            None => None,
        }
    }

    /// Opens `session` under a token drawn for it, and returns the token.
    ///
    /// The token is random. It is not compared with the tokens in use: a
    /// session that happened to have the same token would be replaced.
    pub fn store_session(&mut self, session: Session) -> (token: u128)
        ensures
            is_random_id(token),
            final(self)@ == old(self)@.insert(token, session),
    {
        broadcast use vstd::std_specs::btree::group_btree_axioms;

        let token = fresh_id();
        self.sessions.insert(token, session);
        token
    }

    /// Opens a session of default permission for the principal `user_id`,
    /// and returns its token.
    pub fn create(&mut self, user_id: u128) -> (token: u128)
        ensures
            is_random_id(token),
            opened(old(self)@, final(self)@, token, user_id),
    {
        let session = Session { user_id, permission: "Default".to_owned() };
        self.store_session(session)
    }

    /// The session of the token `token`, or `UnauthorizedOperation` where
    /// no session is open under it.
    pub fn lookup(&self, token: u128) -> (session: Result<Session, ApiError>)
        ensures
            session == authenticated(self@, Some(token)),
    {
        match self.get_session(&token) {
            Some(session) => Ok(session),
            None => Err(ApiError::UnauthorizedOperation),
        }
    }
}

} // verus!
