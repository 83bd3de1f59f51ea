use crate::app_error::error::{AppError, AppErrorType, AppFailure};
use crate::logic::email::url_token::{invalid_url_token, url_token_format, URLToken};
use crate::logic::user::update::{update_failure, UpdateUserError};
use crate::logic::user::validate::{
    argon2_accepts, password_format, phc_parse_failure, Email, FieldValidationError, Password,
    PasswordHash, Username,
};
use crate::routes::DeleteUserRequestForm;
use crate::session::session::UserSessionError;
use crate::text::same_text;
use vstd::prelude::*;
use vstd::string::StringExecFns;

verus! {

/// The sentence a user types to confirm the deletion of the account.
pub open spec fn delete_sentence() -> Seq<char> {
    seq![
        'D',
        'e',
        'l',
        'e',
        't',
        'e',
        ' ',
        'm',
        'y',
        ' ',
        'a',
        'c',
        'c',
        'o',
        'u',
        'n',
        't',
        '.',
    ]
}

/// A request to delete the account `id`, with the password admitted.
pub struct DeleteUserRequest {
    pub id: u128,
    pub password: Password,
}

/// The email and the username of an account, as the database holds them.
pub struct SQLXUser {
    email: Email,
    username: Username,
}

impl SQLXUser {
    pub closed spec fn email(&self) -> Seq<char> {
        self.email@
    }

    pub closed spec fn username(&self) -> Seq<char> {
        self.username@
    }

    /// The account of the row that the database handed back.
    pub fn from_row(email: String, username: String) -> (user: Self)
        ensures
            user.email() == email@,
            user.username() == username@,
    {
        SQLXUser { email: Email::from(email), username: Username::from(username) }
    }

    /// The address to write to and the name to greet.
    pub fn recipient(&self) -> (to: (&str, &str))
        ensures
            to.0@ == self.email(),
            to.1@ == self.username(),
    {
        (self.email.as_str(), self.username.as_str())
    }
}

impl DeleteUserRequest {
    /// Whether the user typed the sentence that confirms a deletion.
    pub fn confirmed(confirmation_sentence: &str) -> (checked: Result<(), AppError>)
        ensures
            match checked {
                Ok(()) => confirmation_sentence@ == delete_sentence(),
                Err(e) => confirmation_sentence@ != delete_sentence() && e@ == update_failure(
                    UpdateUserError::InvalidConfirmationSentence,
                ),
            },
    {
        proof {
            reveal_strlit("Delete my account.");
        }
        assert("Delete my account."@ =~= delete_sentence());
        if !same_text(confirmation_sentence, "Delete my account.") {
            return Err(AppError::from(UpdateUserError::InvalidConfirmationSentence));
        }
        Ok(())
    }

    /// Admits the password of the form for the account `id`.
    pub fn validate_delete_user_request_form(form: DeleteUserRequestForm, id: u128) -> (request:
        Result<Self, FieldValidationError>)
        ensures
            match request {
                Ok(r) => password_format(form.password@) && r.id == id && r.password@
                    == form.password@,
                Err(e) => !password_format(form.password@) && e
                    == FieldValidationError::InvalidPasswordFmt,
            },
    {
        match Password::parse(form.password) {
            Ok(password) => Ok(DeleteUserRequest { id, password }),
            Err(e) => Err(e),
        }
    }

    /// Holds the password against the hash the database found for the
    /// session's account: no account means the session is invalid.
    pub fn verify_password(&self, found: Option<String>) -> (checked: Result<(), AppError>)
        ensures
            match found {
                None => checked is Err && checked->Err_0@ == AppFailure::of(
                    AppErrorType::SessionError(UserSessionError::InvalidSessionCookie),
                ),
                Some(password_hash) => match Password::verdict(
                    phc_parse_failure(password_hash@),
                    argon2_accepts(vstd::utf8::encode_utf8(self.password@), password_hash@),
                ) {
                    Ok(()) => checked is Ok,
                    Err(e) => checked is Err && checked->Err_0@ == e,
                },
            },
    {
        match found {
            Some(password_hash) => self.password.verify_password(
                &PasswordHash::from_str(password_hash),
            ),
            None => Err(AppError::from(UserSessionError::InvalidSessionCookie)),
        }
    }

    /// The text of the email that tells the user of the request, with the
    /// link that cancels it.
    pub fn send_account_deletion_requested_email(cancel_token: &URLToken, user: &SQLXUser) -> (text:
        String)
        ensures
            text@ == "Hi "@ + user.username()
                + ",\nWe have received a request to delete your account.\nAll data associated with this account will be removed in 15 days.\n\nIf you are not the author of this request please log into your account or click here\nto the cancel your account deletion. Also, change your password as soon as you can\nbecause someone knows it!\n"@
                + user.email() + " | https://127.0.0.1:8443/delete-account/cancel?token="@
                + cancel_token@,
    {
        let (email, username) = user.recipient();
        let mut text = String::from_str("Hi ");
        text.append(username);
        text.append(
            ",\nWe have received a request to delete your account.\nAll data associated with this account will be removed in 15 days.\n\nIf you are not the author of this request please log into your account or click here\nto the cancel your account deletion. Also, change your password as soon as you can\nbecause someone knows it!\n",
        );
        text.append(email);
        text.append(" | https://127.0.0.1:8443/delete-account/cancel?token=");
        text.append(cancel_token.as_str());
        text
    }

    /// The token that cancels the deletion: a fresh one, to be stored with
    /// the account's id.
    pub fn insert_account_deletion_entry_to_db(&self) -> (entry: (URLToken, u128))
        ensures
            url_token_format(entry.0@),
            entry.1 == self.id,
    {
        (URLToken::generate(), self.id)
    }
}

/// The cancellation of a requested deletion, by the token that was sent
/// out for it.
pub struct CancelUserDeletion {
    token: URLToken,
}

impl CancelUserDeletion {
    pub closed spec fn token(&self) -> Seq<char> {
        self.token@
    }

    /// Admits `token` exactly if it has the token format.
    pub fn from_url_token(token: String) -> (cancel: Result<Self, AppError>)
        ensures
            match cancel {
                Ok(c) => url_token_format(token@) && c.token() == token@,
                Err(e) => !url_token_format(token@) && e@ == invalid_url_token(),
            },
    {
        match URLToken::parse(token) {
            Ok(token) => Ok(CancelUserDeletion { token }),
            Err(e) => Err(AppError::from(e)),
        }
    }

    pub fn as_str(&self) -> (s: &str)
        ensures
            s@ == self.token(),
    {
        self.token.as_str()
    }

    /// The account whose deletion the token cancels, given what deleting
    /// the token's entry found: a token that named no entry is invalid.
    pub fn remove_deletion_fields_with_token(found: Option<u128>) -> (account: Result<
        u128,
        AppError,
    >)
        ensures
            match found {
                Some(id) => account == Ok::<u128, AppError>(id),
                None => account is Err && account->Err_0@ == invalid_url_token(),
            },
    {
        match found {
            Some(account_id) => Ok(account_id),
            None => Err(AppError::from(FieldValidationError::InvalidUrlToken)),
        }
    }
}

} // verus!
