use crate::app_error::error::{AppError, AppErrorType, AppFailure};
use vstd::prelude::*;

verus! {

/// Why a request's session was turned down.
#[derive(Clone, Copy, Debug, PartialEq, Eq, Structural)]
pub enum UserSessionError {
    InvalidSessionCookie,
}

/// What a request's session holds, read out of its cookie: the id of the
/// account that is logged in, if one is.
#[derive(Clone, Copy, Debug)]
pub struct UserSession {
    id: Option<u128>,
}

impl UserSession {
    pub closed spec fn id(&self) -> Option<u128> {
        self.id
    }

    /// The session that holds `id`.
    pub fn holding(id: Option<u128>) -> (session: Self)
        ensures
            session.id() == id,
    {
        UserSession { id }
    }

    /// Whether an account is logged in.
    pub fn is_active(&self) -> (active: bool)
        ensures
            active == (self.id() is Some),
    {
        self.id.is_some()
    }

    /// The session once `id` has logged in.
    pub fn activate(&self, id: u128) -> (session: Self)
        ensures
            session.id() == Some(id),
    {
        UserSession { id: Some(id) }
    }

    /// The session once the account has logged out.
    pub fn deactivate(&self) -> (session: Self)
        ensures
            session.id() is None,
    {
        UserSession { id: None }
    }

    /// The id of the account that is logged in; a session without one is
    /// invalid.
    pub fn get_session_id(&self) -> (id: Result<u128, AppError>)
        ensures
            match self.id() {
                Some(held) => id == Ok::<u128, AppError>(held),
                None => id is Err && id->Err_0@ == AppFailure::of(
                    AppErrorType::SessionError(UserSessionError::InvalidSessionCookie),
                ),
            },
    {
        match self.id {
            Some(id) => Ok(id),
            None => Err(AppError::from(UserSessionError::InvalidSessionCookie)),
        }
    }
}

} // verus!
