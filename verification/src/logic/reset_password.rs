use crate::app_error::error::AppError;
use crate::logic::captcha::{CaptchaAnswer, CaptchaID};
use crate::logic::email::url_token::{url_token_format, URLToken};
use crate::logic::user::create::{field_failure, is_a_bee, request_form_failure};
use crate::logic::user::validate::{
    password_format, Email, FieldValidationError, Password, Username,
};
use crate::routes::{text_of, ResetPasswordForm, ResetPasswordRequestForm};
use vstd::prelude::*;
use vstd::string::StringExecFns;

verus! {

/// A request for a password reset link, with its fields admitted.
pub struct ResetPasswordRequest {
    pub email: Email,
    pub captcha_id: CaptchaID,
    pub captcha_answer: CaptchaAnswer,
}

impl ResetPasswordRequest {
    /// Admits the form field by field; the first field that fails names
    /// the error.
    pub fn validate_password_reset_request_form(form: ResetPasswordRequestForm) -> (request:
        Result<ResetPasswordRequest, AppError>)
        ensures
            match request {
                Ok(r) => request_form_failure(
                    form.email@,
                    form.captcha_id@,
                    form.captcha_answer@,
                    text_of(form.bzz),
                ) is None && r.email@ == form.email@ && r.captcha_id@ == form.captcha_id@
                    && r.captcha_answer@ == form.captcha_answer@,
                Err(e) => request_form_failure(
                    form.email@,
                    form.captcha_id@,
                    form.captcha_answer@,
                    text_of(form.bzz),
                ) is Some && e@ == field_failure(
                    request_form_failure(
                        form.email@,
                        form.captcha_id@,
                        form.captcha_answer@,
                        text_of(form.bzz),
                    )->Some_0,
                ),
            },
    {
        if is_a_bee(&form.bzz) {
            return Err(AppError::from(FieldValidationError::NotABee));
        }
        let email = match Email::parse(form.email) {
            Ok(email) => email,
            Err(e) => {
                return Err(AppError::from(e));
            },
        };
        let captcha_id = match CaptchaID::parse(form.captcha_id) {
            Ok(id) => id,
            Err(e) => {
                return Err(e);
            },
        };
        let captcha_answer = match CaptchaAnswer::parse(form.captcha_answer) {
            Ok(answer) => answer,
            Err(e) => {
                return Err(AppError::from(e));
            },
        };
        Ok(ResetPasswordRequest { email, captcha_id, captcha_answer })
    }
}

impl ResetPasswordRequest {
    /// The link of the confirmation email, which carries `token`.
    pub fn send_confirmation_email(&self, token: &URLToken) -> (link: String)
        ensures
            link@ == "https://127.0.0.1:8443/reset-password?token="@ + token@,
    {
        let mut link = String::from_str("https://127.0.0.1:8443/reset-password?token=");
        link.append(token.as_str());
        link
    }
}

/// What is wrong with a form that sets a new password, if anything is:
/// the two passwords differ, or the token or the password has not its
/// format.
pub open spec fn reset_form_failure(
    token: Seq<char>,
    new_password: Seq<char>,
    new_password_confirm: Seq<char>,
) -> Option<FieldValidationError> {
    if new_password != new_password_confirm {
        Some(FieldValidationError::InvalidPasswordFmt)
    } else if !url_token_format(token) {
        Some(FieldValidationError::InvalidUrlToken)
    } else if !password_format(new_password) {
        Some(FieldValidationError::InvalidPasswordFmt)
    } else {
        None
    }
}

/// A password reset, with its fields admitted.
pub struct ResetPassword {
    pub token: URLToken,
    pub new_password: Password,
}

impl ResetPassword {
    /// Admits the form: the passwords must agree, then token and password
    /// must have their format; the first failure names the error.
    pub fn validate_reset_password_form(form: ResetPasswordForm) -> (reset: Result<Self, AppError>)
        ensures
            match reset {
                Ok(r) => reset_form_failure(
                    form.token@,
                    form.new_password@,
                    form.new_password_confirm@,
                ) is None && r.token@ == form.token@ && r.new_password@ == form.new_password@,
                Err(e) => reset_form_failure(
                    form.token@,
                    form.new_password@,
                    form.new_password_confirm@,
                ) is Some && e@ == field_failure(
                    reset_form_failure(
                        form.token@,
                        form.new_password@,
                        form.new_password_confirm@,
                    )->Some_0,
                ),
            },
    {
        if form.new_password != form.new_password_confirm {
            return Err(AppError::from(FieldValidationError::InvalidPasswordFmt));
        }
        let token = match URLToken::parse(form.token) {
            Ok(token) => token,
            Err(e) => {
                return Err(AppError::from(e));
            },
        };
        let new_password = match Password::parse(form.new_password) {
            Ok(password) => password,
            Err(e) => {
                return Err(AppError::from(e));
            },
        };
        Ok(ResetPassword { token, new_password })
    }

    /// The account whose password was updated, as the database names it.
    pub fn update_password_in_db(email: Email, username: Username) -> (updated: PasswordUpdated)
        ensures
            updated.email() == email@,
            updated.username() == username@,
    {
        PasswordUpdated { email, username }
    }
}

/// The account of a password that has been updated.
pub struct PasswordUpdated {
    email: Email,
    username: Username,
}

impl PasswordUpdated {
    pub closed spec fn email(&self) -> Seq<char> {
        self.email@
    }

    pub closed spec fn username(&self) -> Seq<char> {
        self.username@
    }

    /// The text of the email that tells the user of the update.
    pub fn send_password_updated_email(self) -> (text: String)
        ensures
            text@ == self.email() + " | Hi "@ + self.username()
                + ",\nYour password has been updated as you requested\nIf you are not the author of this request, please contact our support as soon as possible\n"@,
    {
        let mut text = String::from_str(self.email.as_str());
        text.append(" | Hi ");
        text.append(self.username.as_str());
        text.append(
            ",\nYour password has been updated as you requested\nIf you are not the author of this request, please contact our support as soon as possible\n",
        );
        text
    }
}

} // verus!
