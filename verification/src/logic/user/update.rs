use crate::app_error::error::{AppError, AppErrorType, AppFailure};
use crate::logic::user::create::field_failure;
use crate::logic::user::validate::{
    argon2_accepts, email_format, password_format, phc_parse_failure, username_format, Email,
    FieldValidationError, Password, PasswordHash, Username,
};
use crate::routes::{text_of, UpdateUserForm};
use crate::session::session::UserSessionError;
use crate::text::same_text;
use vstd::prelude::*;

verus! {

/// Why an account update was turned down.
#[derive(Clone, Copy, Debug, PartialEq, Eq, Structural)]
pub enum UpdateUserError {
    InvalidForm,
    InvalidConfirmationSentence,
    UsernameTaken,
    EmailTaken,
    InvalidPassword,
}

/// The error that turns down an update.
pub open spec fn update_failure(error: UpdateUserError) -> AppFailure {
    AppFailure::of(AppErrorType::UpdateUserError(error))
}

/// The sentence a user types to confirm an update.
pub open spec fn update_sentence() -> Seq<char> {
    seq![
        'U',
        'p',
        'd',
        'a',
        't',
        'e',
        ' ',
        'm',
        'y',
        ' ',
        'a',
        'c',
        'c',
        'o',
        'u',
        'n',
        't',
        '.',
    ]
}

/// What is wrong with an update form, if anything is. The checks go in
/// this order: the current password, the new email, the new username, the
/// new password (which must come with an equal confirmation), and at last
/// that the form changes anything at all.
pub open spec fn update_form_failure(
    password: Seq<char>,
    new_email: Option<Seq<char>>,
    new_username: Option<Seq<char>>,
    new_password: Option<Seq<char>>,
    new_password_confirm: Option<Seq<char>>,
) -> Option<AppFailure> {
    if !password_format(password) {
        Some(field_failure(FieldValidationError::InvalidPasswordFmt))
    } else if new_email is Some && !email_format(new_email->Some_0) {
        Some(field_failure(FieldValidationError::InvalidEmailFmt))
    } else if new_username is Some && !username_format(new_username->Some_0) {
        Some(field_failure(FieldValidationError::InvalidUsernameFmt))
    } else if new_password is Some && new_password_confirm != new_password {
        Some(update_failure(UpdateUserError::InvalidForm))
    } else if new_password is Some && !password_format(new_password->Some_0) {
        Some(field_failure(FieldValidationError::InvalidPasswordFmt))
    } else if new_email is None && new_username is None && new_password is None {
        Some(update_failure(UpdateUserError::InvalidForm))
    } else {
        None
    }
}

/// The view of a field that an update may leave out.
pub open spec fn email_of(field: Option<Email>) -> Option<Seq<char>> {
    match field {
        Some(e) => Some(e@),
        None => None,
    }
}

/// The view of a field that an update may leave out.
pub open spec fn username_of(field: Option<Username>) -> Option<Seq<char>> {
    match field {
        Some(u) => Some(u@),
        None => None,
    }
}

/// The view of a field that an update may leave out.
pub open spec fn password_of(field: Option<Password>) -> Option<Seq<char>> {
    match field {
        Some(p) => Some(p@),
        None => None,
    }
}

/// An account update, with its fields admitted: the current password and
/// what is to change.
pub struct UpdateUser {
    pub password: Password,
    pub new_email: Option<Email>,
    pub new_username: Option<Username>,
    pub new_password: Option<Password>,
}

/// One statement of an update, in the order in which they run.
#[derive(Clone, Copy, Debug, PartialEq, Eq, Structural)]
pub enum UpdateStep {
    Email,
    Username,
    Password,
}

/// What an update does next.
#[derive(Debug)]
pub enum UpdateAction {
    /// Set the account's email to this.
    SetEmail(String),
    /// Set the account's username to this.
    SetUsername(String),
    /// Set the account's password hash to this.
    SetPasswordHash(String),
    /// Nothing is left to change: commit.
    Commit,
    /// Give up with this error.
    Fail(AppError),
}

impl UpdateUser {
    /// Whether the user typed the sentence that confirms an update.
    pub fn confirmed(confirmation_sentence: &str) -> (checked: Result<(), AppError>)
        ensures
            match checked {
                Ok(()) => confirmation_sentence@ == update_sentence(),
                Err(e) => confirmation_sentence@ != update_sentence() && e@ == update_failure(
                    UpdateUserError::InvalidConfirmationSentence,
                ),
            },
    {
        proof {
            reveal_strlit("Update my account.");
        }
        assert("Update my account."@ =~= update_sentence());
        if !same_text(confirmation_sentence, "Update my account.") {
            return Err(AppError::from(UpdateUserError::InvalidConfirmationSentence));
        }
        Ok(())
    }

    /// Admits the form as [`update_form_failure`] lays down.
    pub fn validate_update_form(form: UpdateUserForm) -> (update: Result<Self, AppError>)
        ensures
            match update {
                Ok(u) => update_form_failure(
                    form.password@,
                    text_of(form.new_email),
                    text_of(form.new_username),
                    text_of(form.new_password),
                    text_of(form.new_password_confirm),
                ) is None && u.password@ == form.password@ && email_of(u.new_email) == text_of(
                    form.new_email,
                ) && username_of(u.new_username) == text_of(form.new_username) && password_of(
                    u.new_password,
                ) == text_of(form.new_password),
                Err(e) => update_form_failure(
                    form.password@,
                    text_of(form.new_email),
                    text_of(form.new_username),
                    text_of(form.new_password),
                    text_of(form.new_password_confirm),
                ) == Some(e@),
            },
    {
        let password = match Password::parse(form.password) {
            Ok(password) => password,
            Err(e) => {
                return Err(AppError::from(e));
            },
        };
        let mut fields_update = false;
        let new_email = match form.new_email {
            Some(e) => {
                fields_update = true;
                match Email::parse(e) {
                    Ok(email) => Some(email),
                    Err(e) => {
                        return Err(AppError::from(e));
                    },
                }
            },
            None => None,
        };
        let new_username = match form.new_username {
            Some(u) => {
                fields_update = true;
                match Username::parse(u) {
                    Ok(username) => Some(username),
                    Err(e) => {
                        return Err(AppError::from(e));
                    },
                }
            },
            None => None,
        };
        let new_password = match form.new_password {
            Some(p) => match form.new_password_confirm {
                Some(p_confirm) => {
                    if p != p_confirm {
                        return Err(AppError::from(UpdateUserError::InvalidForm));
                    }
                    fields_update = true;
                    match Password::parse(p) {
                        Ok(password) => Some(password),
                        Err(e) => {
                            return Err(AppError::from(e));
                        },
                    }
                },
                None => {
                    return Err(AppError::from(UpdateUserError::InvalidForm));
                },
            },
            None => None,
        };
        if !fields_update {
            return Err(AppError::from(UpdateUserError::InvalidForm));
        }
        Ok(UpdateUser { password, new_email, new_username, new_password })
    }

    /// Holds the current password against the hash the database found for
    /// the session's account: no account means the session is invalid.
    pub fn check_password_is_valid(&self, found: Option<String>) -> (checked: Result<(), AppError>)
        ensures
            match found {
                None => checked is Err && checked->Err_0@ == AppFailure::of(
                    AppErrorType::SessionError(UserSessionError::InvalidSessionCookie),
                ),
                Some(password_hash) => match Password::verdict(
                    phc_parse_failure(password_hash@),
                    argon2_accepts(vstd::utf8::encode_utf8(self.password@), password_hash@),
                ) {
                    Ok(()) => checked is Ok,
                    Err(e) => checked is Err && checked->Err_0@ == e,
                },
            },
    {
        match found {
            Some(password_hash) => {
                let hash = PasswordHash::from_str(password_hash);
                self.password.verify_password(&hash)
            },
            None => Err(AppError::from(UserSessionError::InvalidSessionCookie)),
        }
    }

    /// The first statement at or after `from` that this update has a
    /// value for, if there is one.
    pub open spec fn step_from(&self, from: UpdateStep) -> Option<UpdateStep> {
        if from == UpdateStep::Email && self.new_email is Some {
            Some(UpdateStep::Email)
        } else if from != UpdateStep::Password && self.new_username is Some {
            Some(UpdateStep::Username)
        } else if self.new_password is Some {
            Some(UpdateStep::Password)
        } else {
            None
        }
    }

    /// What the update does next when it has come to `from`: the first
    /// statement from there on that it has a value for, or the commit.
    /// The password is hashed only now, when its turn has come, and it
    /// checks against the hash that is set; where the hasher fails, the
    /// update fails with the hasher's message.
    pub fn update_user_in_db(&self, from: UpdateStep) -> (action: UpdateAction)
        ensures
            match self.step_from(from) {
                Some(UpdateStep::Email) => action matches UpdateAction::SetEmail(e) && e@
                    == self.new_email->Some_0@,
                Some(UpdateStep::Username) => action matches UpdateAction::SetUsername(u) && u@
                    == self.new_username->Some_0@,
                Some(UpdateStep::Password) => (action matches UpdateAction::SetPasswordHash(h)
                    && (Password::verdict(
                    phc_parse_failure(h@),
                    argon2_accepts(vstd::utf8::encode_utf8(self.new_password->Some_0@), h@),
                ) is Ok)) || (action matches UpdateAction::Fail(e) && (e@.error_type is Unknown)
                    && (e@.msg is Some)),
                None => (action is Commit),
            },
    {
        let from_email = match from {
            UpdateStep::Email => true,
            _ => false,
        };
        let from_password = match from {
            UpdateStep::Password => true,
            _ => false,
        };
        if from_email {
            if let Some(new_email) = &self.new_email {
                return UpdateAction::SetEmail(new_email.as_str().to_owned());
            }
        }
        if !from_password {
            if let Some(new_username) = &self.new_username {
                return UpdateAction::SetUsername(new_username.as_str().to_owned());
            }
        }
        if let Some(new_password) = &self.new_password {
            return Self::hashed_update(new_password.generate_argon2_hash());
        }
        UpdateAction::Commit
    }

    /// What the password's turn comes to, given what the hasher handed
    /// back.
    pub fn hashed_update(hashed: Result<PasswordHash, String>) -> (action: UpdateAction)
        ensures
            match hashed {
                Ok(hash) => action matches UpdateAction::SetPasswordHash(h) && h@ == hash@,
                Err(message) => action matches UpdateAction::Fail(e) && e@ == AppFailure::unknown(
                    message@,
                ),
            },
    {
        match hashed {
            Ok(hash) => UpdateAction::SetPasswordHash(hash.expose_as_str().to_owned()),
            Err(message) => UpdateAction::Fail(AppError::with_msg(message)),
        }
    }

    /// What the database's count of changed rows comes to after the
    /// statement `step`: exactly one row must have changed, and then the
    /// update goes on with the statement after `step`, if there is one.
    pub fn rows_verdict(step: UpdateStep, rows_affected: u64) -> (next: Result<
        Option<UpdateStep>,
        AppError,
    >)
        ensures
            match next {
                Ok(following) => rows_affected == 1 && following == match step {
                    UpdateStep::Email => Some(UpdateStep::Username),
                    UpdateStep::Username => Some(UpdateStep::Password),
                    UpdateStep::Password => None::<UpdateStep>,
                },
                Err(e) => rows_affected != 1 && match step {
                    UpdateStep::Email => e@ == update_failure(UpdateUserError::EmailTaken),
                    UpdateStep::Username => e@ == update_failure(UpdateUserError::UsernameTaken),
                    UpdateStep::Password => e@ == AppFailure::unknown(
                        "Failed updating user password"@,
                    ),
                },
            },
    {
        match step {
            UpdateStep::Email => {
                if rows_affected != 1 {
                    return Err(AppError::from(UpdateUserError::EmailTaken));
                }
                Ok(Some(UpdateStep::Username))
            },
            UpdateStep::Username => {
                if rows_affected != 1 {
                    return Err(AppError::from(UpdateUserError::UsernameTaken));
                }
                Ok(Some(UpdateStep::Password))
            },
            UpdateStep::Password => {
                if rows_affected != 1 {
                    return Err(AppError::with_msg("Failed updating user password".to_owned()));
                }
                Ok(None)
            },
        }
    }
}

} // verus!
