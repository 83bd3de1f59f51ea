use crate::logic::user::authenticate::AuthError;
use crate::logic::user::create::CreateUserError;
use crate::logic::user::update::UpdateUserError;
use crate::logic::user::validate::FieldValidationError;
use crate::session::session::UserSessionError;
use vstd::prelude::*;
use vstd::std_specs::convert::FromSpecImpl;

verus! {

/// What kind of error a request met.
#[derive(Clone, Copy, Debug)]
pub enum AppErrorType {
    ValidationError(FieldValidationError),
    RegistrationError(CreateUserError),
    UpdateUserError(UpdateUserError),
    AuthError(AuthError),
    SessionError(UserSessionError),
    Unknown(()),
}

/// An error of the service: its kind, and for an error of unknown kind the
/// message of what caused it.
#[derive(Debug)]
pub struct AppError {
    pub error_type: AppErrorType,
    pub msg: Option<String>,
}

/// The mathematical value of an [`AppError`].
pub struct AppFailure {
    pub error_type: AppErrorType,
    pub msg: Option<Seq<char>>,
}

impl View for AppError {
    type V = AppFailure;

    open spec fn view(&self) -> AppFailure {
        AppFailure {
            error_type: self.error_type,
            msg: match self.msg {
                Some(m) => Some(m@),
                None => None,
            },
        }
    }
}

impl AppFailure {
    /// The error of kind `error_type` that carries no message.
    pub open spec fn of(error_type: AppErrorType) -> AppFailure {
        AppFailure { error_type, msg: None }
    }

    /// The error of unknown kind that carries `msg`.
    pub open spec fn unknown(msg: Seq<char>) -> AppFailure {
        AppFailure { error_type: AppErrorType::Unknown(()), msg: Some(msg) }
    }
}

impl AppError {
    pub fn with_msg(msg: String) -> (e: Self)
        ensures
            e@ == AppFailure::unknown(msg@),
    {
        AppError { error_type: AppErrorType::Unknown(()), msg: Some(msg) }
    }
}

impl From<AppErrorType> for AppError {
    fn from(error_type: AppErrorType) -> (e: Self) {
        AppError { error_type, msg: None }
    }
}

impl FromSpecImpl<AppErrorType> for AppError {
    open spec fn obeys_from_spec() -> bool {
        true
    }

    open spec fn from_spec(error_type: AppErrorType) -> Self {
        AppError { error_type, msg: None }
    }
}

impl From<FieldValidationError> for AppError {
    fn from(error: FieldValidationError) -> (e: Self) {
        AppError { error_type: AppErrorType::ValidationError(error), msg: None }
    }
}

impl FromSpecImpl<FieldValidationError> for AppError {
    open spec fn obeys_from_spec() -> bool {
        true
    }

    open spec fn from_spec(error: FieldValidationError) -> Self {
        AppError { error_type: AppErrorType::ValidationError(error), msg: None }
    }
}

impl From<CreateUserError> for AppError {
    fn from(error: CreateUserError) -> (e: Self) {
        AppError { error_type: AppErrorType::RegistrationError(error), msg: None }
    }
}

impl FromSpecImpl<CreateUserError> for AppError {
    open spec fn obeys_from_spec() -> bool {
        true
    }

    open spec fn from_spec(error: CreateUserError) -> Self {
        AppError { error_type: AppErrorType::RegistrationError(error), msg: None }
    }
}

impl From<UpdateUserError> for AppError {
    fn from(error: UpdateUserError) -> (e: Self) {
        AppError { error_type: AppErrorType::UpdateUserError(error), msg: None }
    }
}

impl FromSpecImpl<UpdateUserError> for AppError {
    open spec fn obeys_from_spec() -> bool {
        true
    }

    open spec fn from_spec(error: UpdateUserError) -> Self {
        AppError { error_type: AppErrorType::UpdateUserError(error), msg: None }
    }
}

impl From<UserSessionError> for AppError {
    fn from(error: UserSessionError) -> (e: Self) {
        AppError { error_type: AppErrorType::SessionError(error), msg: None }
    }
}

impl FromSpecImpl<UserSessionError> for AppError {
    open spec fn obeys_from_spec() -> bool {
        true
    }

    open spec fn from_spec(error: UserSessionError) -> Self {
        AppError { error_type: AppErrorType::SessionError(error), msg: None }
    }
}

impl From<AuthError> for AppError {
    fn from(error: AuthError) -> (e: Self) {
        AppError { error_type: AppErrorType::AuthError(error), msg: None }
    }
}

impl FromSpecImpl<AuthError> for AppError {
    open spec fn obeys_from_spec() -> bool {
        true
    }

    open spec fn from_spec(error: AuthError) -> Self {
        AppError { error_type: AppErrorType::AuthError(error), msg: None }
    }
}

} // verus!
