use crate::app_error::error::{AppError, AppErrorType, AppFailure};
use crate::logic::captcha::{captcha_answer_format, uuid_format, CaptchaAnswer, CaptchaID};
use crate::logic::email::url_token::{url_token_format, URLToken};
use crate::logic::user::validate::{
    argon2_accepts, email_format, password_format, phc_parse_failure, username_format, Email,
    FieldValidationError, Password, Username,
};
use crate::routes::{text_of, CreateUserForm, CreateUserRequestForm};
use vstd::prelude::*;
use vstd::string::StringExecFns;

verus! {

/// Why a registration could not go on.
#[derive(Clone, Copy, Debug, PartialEq, Eq, Structural)]
pub enum CreateUserError {
    CaptchaGeneration,
}

/// The error that turns down a field.
pub open spec fn field_failure(error: FieldValidationError) -> AppFailure {
    AppFailure::of(AppErrorType::ValidationError(error))
}

/// What is wrong with a form that asks for a link by email, if anything
/// is: the trap field is filled in, or the first of email, captcha id and
/// captcha answer that has not its format.
pub open spec fn request_form_failure(
    email: Seq<char>,
    captcha_id: Seq<char>,
    captcha_answer: Seq<char>,
    bzz: Option<Seq<char>>,
) -> Option<FieldValidationError> {
    if bzz is Some && bzz->Some_0.len() > 0 {
        Some(FieldValidationError::NotABee)
    } else if !email_format(email) {
        Some(FieldValidationError::InvalidEmailFmt)
    } else if !uuid_format(captcha_id) {
        Some(FieldValidationError::InvalidCaptchaID)
    } else if !captcha_answer_format(captcha_answer) {
        Some(FieldValidationError::InvalidCaptchaAnswer)
    } else {
        None
    }
}

/// Whether the trap field of a form was filled in.
pub fn is_a_bee(bzz: &Option<String>) -> (filled: bool)
    ensures
        filled == (bzz is Some && bzz->Some_0@.len() > 0),
{
    match bzz {
        Some(x) => !x.as_str().is_empty(),
        None => false,
    }
}

/// A request for a registration link, with its fields admitted.
pub struct CreateUserRequest {
    pub email: Email,
    pub captcha_id: CaptchaID,
    pub captcha_answer: CaptchaAnswer,
}

impl CreateUserRequest {
    /// Admits the form field by field; the first field that fails names
    /// the error.
    pub fn validate_register_request_form(form: CreateUserRequestForm) -> (request: Result<
        Self,
        AppError,
    >)
        ensures
            match request {
                Ok(r) => request_form_failure(
                    form.email@,
                    form.captcha_id@,
                    form.captcha_answer@,
                    text_of(form.bzz),
                ) is None && r.email@ == form.email@ && r.captcha_id@ == form.captcha_id@
                    && r.captcha_answer@ == form.captcha_answer@,
                Err(e) => request_form_failure(
                    form.email@,
                    form.captcha_id@,
                    form.captcha_answer@,
                    text_of(form.bzz),
                ) is Some && e@ == field_failure(
                    request_form_failure(
                        form.email@,
                        form.captcha_id@,
                        form.captcha_answer@,
                        text_of(form.bzz),
                    )->Some_0,
                ),
            },
    {
        if is_a_bee(&form.bzz) {
            return Err(AppError::from(FieldValidationError::NotABee));
        }
        Self::try_from_form(form)
    }

    /// Admits the three fields of the form, in their order.
    fn try_from_form(form: CreateUserRequestForm) -> (request: Result<Self, AppError>)
        ensures
            match request {
                Ok(r) => request_form_failure(
                    form.email@,
                    form.captcha_id@,
                    form.captcha_answer@,
                    None,
                ) is None && r.email@ == form.email@ && r.captcha_id@ == form.captcha_id@
                    && r.captcha_answer@ == form.captcha_answer@,
                Err(e) => request_form_failure(
                    form.email@,
                    form.captcha_id@,
                    form.captcha_answer@,
                    None,
                ) is Some && e@ == field_failure(
                    request_form_failure(
                        form.email@,
                        form.captcha_id@,
                        form.captcha_answer@,
                        None,
                    )->Some_0,
                ),
            },
    {
        let email = match Email::parse(form.email) {
            Ok(email) => email,
            Err(e) => {
                return Err(AppError::from(e));
            },
        };
        let captcha_id = match CaptchaID::parse(form.captcha_id) {
            Ok(id) => id,
            Err(e) => {
                return Err(e);
            },
        };
        let captcha_answer = match CaptchaAnswer::parse(form.captcha_answer) {
            Ok(answer) => answer,
            Err(e) => {
                return Err(AppError::from(e));
            },
        };
        Ok(CreateUserRequest { email, captcha_id, captcha_answer })
    }

    /// The line of the confirmation email: the address, and the link that
    /// carries `token`.
    pub fn send_confirmation_email(&self, token: &URLToken) -> (link: String)
        ensures
            link@ == self.email@ + " | https://127.0.0.1:8443/register?token="@ + token@,
    {
        let mut link = String::from_str(self.email.as_str());
        link.append(" | https://127.0.0.1:8443/register?token=");
        link.append(token.as_str());
        link
    }

    /// What the database's answer to "is this email taken" comes to.
    pub fn check_email_taken(exists: Option<bool>) -> (checked: Result<(), AppError>)
        ensures
            match checked {
                Ok(()) => exists == Some(false),
                Err(e) => if exists is None {
                    e@ == AppFailure::unknown("Failed retrieving email existence from postgres"@)
                } else {
                    exists == Some(true) && e@ == field_failure(FieldValidationError::EmailTaken)
                },
            },
    {
        match exists {
            Some(e) => {
                if e {
                    return Err(AppError::from(FieldValidationError::EmailTaken));
                }
            },
            None => {
                return Err(
                    AppError::with_msg(
                        "Failed retrieving email existence from postgres".to_owned(),
                    ),
                );
            },
        }
        Ok(())
    }
}

/// What is wrong with a form that completes a registration, if anything
/// is: the two passwords differ, or the first of token, username and
/// password that has not its format.
pub open spec fn register_form_failure(
    token: Seq<char>,
    username: Seq<char>,
    password: Seq<char>,
    password_confirm: Seq<char>,
) -> Option<FieldValidationError> {
    if password != password_confirm {
        Some(FieldValidationError::InvalidPasswordFmt)
    } else if !url_token_format(token) {
        Some(FieldValidationError::InvalidUrlToken)
    } else if !username_format(username) {
        Some(FieldValidationError::InvalidUsernameFmt)
    } else if !password_format(password) {
        Some(FieldValidationError::InvalidPasswordFmt)
    } else {
        None
    }
}

/// A registration, with its fields admitted.
pub struct CreateUser {
    pub token: URLToken,
    pub username: Username,
    pub password: Password,
}

impl CreateUser {
    /// Admits the form: the passwords must agree, then each field must
    /// have its format; the first failure names the error.
    pub fn validate_register_form(form: CreateUserForm) -> (user: Result<Self, AppError>)
        ensures
            match user {
                Ok(u) => register_form_failure(
                    form.token@,
                    form.username@,
                    form.password@,
                    form.password_confirm@,
                ) is None && u.token@ == form.token@ && u.username@ == form.username@
                    && u.password@ == form.password@,
                Err(e) => register_form_failure(
                    form.token@,
                    form.username@,
                    form.password@,
                    form.password_confirm@,
                ) is Some && e@ == field_failure(
                    register_form_failure(
                        form.token@,
                        form.username@,
                        form.password@,
                        form.password_confirm@,
                    )->Some_0,
                ),
            },
    {
        if form.password != form.password_confirm {
            return Err(AppError::from(FieldValidationError::InvalidPasswordFmt));
        }
        let token = match URLToken::parse(form.token) {
            Ok(token) => token,
            Err(e) => {
                return Err(AppError::from(e));
            },
        };
        let username = match Username::parse(form.username) {
            Ok(username) => username,
            Err(e) => {
                return Err(AppError::from(e));
            },
        };
        let password = match Password::parse(form.password) {
            Ok(password) => password,
            Err(e) => {
                return Err(AppError::from(e));
            },
        };
        Ok(CreateUser { token, username, password })
    }

    /// The row to insert for the new user: the email, the username and
    /// the hash of the password, which is made now and against which the
    /// password checks. Where the hasher fails, the registration fails
    /// with the hasher's message.
    pub fn insert_user_infos_to_db(&self, email: &Email) -> (row: Result<
        (String, String, String),
        AppError,
    >)
        ensures
            match row {
                Ok((address, name, hash)) => address@ == email@ && name@ == self.username@
                    && (Password::verdict(
                    phc_parse_failure(hash@),
                    argon2_accepts(vstd::utf8::encode_utf8(self.password@), hash@),
                ) is Ok),
                Err(e) => (e@.error_type is Unknown) && (e@.msg is Some),
            },
    {
        match self.password.generate_argon2_hash() {
            Ok(password_hash) => Ok(
                (
                    email.as_str().to_owned(),
                    self.username.as_str().to_owned(),
                    password_hash.expose_as_str().to_owned(),
                ),
            ),
            Err(message) => Err(AppError::with_msg(message)),
        }
    }

    /// What the database's answer to "is this username taken" comes to.
    pub fn check_username_taken(exists: Option<bool>) -> (checked: Result<(), AppError>)
        ensures
            match checked {
                Ok(()) => exists == Some(false),
                Err(e) => if exists is None {
                    e@ == AppFailure::unknown(
                        "Failed retrieving username existence from postgres"@,
                    )
                } else {
                    exists == Some(true) && e@ == field_failure(FieldValidationError::UsernameTaken)
                },
            },
    {
        match exists {
            Some(u) => {
                if u {
                    return Err(AppError::from(FieldValidationError::UsernameTaken));
                }
            },
            None => {
                return Err(
                    AppError::with_msg(
                        "Failed retrieving username existence from postgres".to_owned(),
                    ),
                );
            },
        }
        Ok(())
    }
}

} // verus!
