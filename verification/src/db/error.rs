use crate::app_error::error::{AppError, AppFailure};
use crate::logic::user::create::field_failure;
use crate::logic::user::validate::FieldValidationError;
use crate::text::same_text;
use vstd::prelude::*;

verus! {

/// How the insertion of a user failed: with an error of the database,
/// which may name the constraint that was broken, or with another error.
/// Either carries the error's message.
pub enum InsertionFailure {
    Database { constraint: Option<String>, message: String },
    Other { message: String },
}

/// The name of the constraint that keeps emails apart.
pub open spec fn email_key() -> Seq<char> {
    seq!['u', 's', 'e', 'r', 's', '_', 'e', 'm', 'a', 'i', 'l', '_', 'k', 'e', 'y']
}

/// The name of the constraint that keeps usernames apart.
pub open spec fn username_key() -> Seq<char> {
    seq![
        'u',
        's',
        'e',
        'r',
        's',
        '_',
        'u',
        's',
        'e',
        'r',
        'n',
        'a',
        'm',
        'e',
        '_',
        'k',
        'e',
        'y',
    ]
}

/// What the failed insertion of a user comes to: a broken email or
/// username constraint names the field that is taken; anything else is an
/// error of unknown kind with the failure's message.
pub fn sqlx_user_insertion_error(err: InsertionFailure) -> (e: AppError)
    ensures
        match err {
            InsertionFailure::Database { constraint: Some(name), message } => if name@
                == email_key() {
                e@ == field_failure(FieldValidationError::EmailTaken)
            } else if name@ == username_key() {
                e@ == field_failure(FieldValidationError::UsernameTaken)
            } else {
                e@ == AppFailure::unknown(message@)
            },
            InsertionFailure::Database { constraint: None, message } => e@ == AppFailure::unknown(
                message@,
            ),
            InsertionFailure::Other { message } => e@ == AppFailure::unknown(message@),
        },
{
    proof {
        reveal_strlit("users_email_key");
        reveal_strlit("users_username_key");
    }
    assert("users_email_key"@ =~= email_key());
    assert("users_username_key"@ =~= username_key());
    match err {
        InsertionFailure::Database { constraint, message } => match constraint {
            Some(name) => {
                if same_text(name.as_str(), "users_email_key") {
                    AppError::from(FieldValidationError::EmailTaken)
                } else if same_text(name.as_str(), "users_username_key") {
                    AppError::from(FieldValidationError::UsernameTaken)
                } else {
                    AppError::with_msg(message)
                }
            },
            None => AppError::with_msg(message),
        },
        InsertionFailure::Other { message } => AppError::with_msg(message),
    }
}

} // verus!
