use crate::app_error::error::{AppError, AppErrorType, AppFailure};
use crate::logic::user::validate::{
    argon2_accepts, email_format, password_format, phc_parse_failure, Email,
    FieldValidationError, Password, PasswordHash,
};
use crate::routes::LoginForm;
use vstd::prelude::*;

verus! {

/// Why a login was turned down.
#[derive(Clone, Copy, Debug, PartialEq, Eq, Structural)]
pub enum AuthError {
    InvalidCredentials,
    InvalidPassword,
}

/// What the database holds of the account that goes by an email.
pub struct StoredCredentials {
    pub id: u128,
    pub password_hash: String,
    pub requested_deletion: Option<bool>,
}

/// A login, with its fields admitted.
pub struct Login {
    pub email: Email,
    pub password: Password,
    pub cancel_deletion: bool,
}

impl Login {
    /// Admits the email, then the password.
    pub fn validate_form_fields(form: LoginForm) -> (login: Result<Self, FieldValidationError>)
        ensures
            match login {
                Ok(l) => email_format(form.email@) && password_format(form.password@) && l.email@
                    == form.email@ && l.password@ == form.password@ && l.cancel_deletion
                    == form.cancel_deletion,
                Err(e) => if !email_format(form.email@) {
                    e == FieldValidationError::InvalidEmailFmt
                } else {
                    !password_format(form.password@) && e
                        == FieldValidationError::InvalidPasswordFmt
                },
            },
    {
        let email = match Email::parse(form.email) {
            Ok(email) => email,
            Err(e) => {
                return Err(e);
            },
        };
        let password = match Password::parse(form.password) {
            Ok(password) => password,
            Err(e) => {
                return Err(e);
            },
        };
        Ok(Login { email, password, cancel_deletion: form.cancel_deletion })
    }

    /// Holds the password against what the database found for the email:
    /// no account means invalid credentials; else the password must match
    /// the stored hash. Hands back the account's id and whether its
    /// deletion has been requested.
    pub fn check_password_is_valid(&self, found: Option<StoredCredentials>) -> (checked: Result<
        (u128, bool),
        AppError,
    >)
        ensures
            match found {
                None => checked is Err && checked->Err_0@ == AppFailure::of(
                    AppErrorType::AuthError(AuthError::InvalidCredentials),
                ),
                Some(infos) => match Password::verdict(
                    phc_parse_failure(infos.password_hash@),
                    argon2_accepts(vstd::utf8::encode_utf8(self.password@), infos.password_hash@),
                ) {
                    Ok(()) => checked == Ok::<(u128, bool), AppError>(
                        (infos.id, infos.requested_deletion is Some),
                    ),
                    Err(e) => checked is Err && checked->Err_0@ == e,
                },
            },
    {
        match found {
            Some(infos) => {
                let hash = PasswordHash::from_str(infos.password_hash);
                match self.password.verify_password(&hash) {
                    Ok(()) => Ok((infos.id, infos.requested_deletion.is_some())),
                    Err(e) => Err(e),
                }
            },
            None => Err(AppError::from(AuthError::InvalidCredentials)),
        }
    }
}

} // verus!
