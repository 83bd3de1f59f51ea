//! The forms and query parameters that requests carry, as plain values.

use crate::session::session::UserSession;
use vstd::prelude::*;

verus! {

/// The view of a field that a form may leave out.
pub open spec fn text_of(field: Option<String>) -> Option<Seq<char>> {
    match field {
        Some(text) => Some(text@),
        None => None,
    }
}

/// The form that asks for a registration link.
#[derive(Debug)]
pub struct CreateUserRequestForm {
    pub email: String,
    pub captcha_id: String,
    pub captcha_answer: String,
    /// A field no person fills in.
    pub bzz: Option<String>,
}

/// The form that completes a registration.
pub struct CreateUserForm {
    pub token: String,
    pub username: String,
    pub password: String,
    pub password_confirm: String,
}

/// The form that asks for the deletion of an account.
pub struct DeleteUserRequestForm {
    pub password: String,
    pub confirmation_sentence: String,
}

/// The token of a link, as a query parameter.
#[derive(Debug)]
pub struct Token {
    pub token: String,
}

/// The form that logs a user in.
pub struct LoginForm {
    pub email: String,
    pub password: String,
    /// set to true if the user wish to cancel his account deletion.
    pub cancel_deletion: bool,
}

/// The form that asks for a password reset link.
#[derive(Debug)]
pub struct ResetPasswordRequestForm {
    pub email: String,
    pub captcha_id: String,
    pub captcha_answer: String,
    /// A field no person fills in.
    pub bzz: Option<String>,
}

/// The form that sets a new password.
pub struct ResetPasswordForm {
    pub token: String,
    pub new_password: String,
    pub new_password_confirm: String,
}

/// The form that changes an account.
pub struct UpdateUserForm {
    pub new_email: Option<String>,
    pub new_username: Option<String>,
    pub new_password: Option<String>,
    pub new_password_confirm: Option<String>,
    pub password: String,
    pub confirmation_sentence: String,
}

/// The id of a captcha, as a query parameter.
#[derive(Debug)]
pub struct CaptchaIDParam {
    pub id: String,
}

/// The token of a registration link, as a query parameter.
#[derive(Debug)]
pub struct RegisterToken {
    pub token: Option<String>,
}

/// The token of a password reset link, as a query parameter.
#[derive(Debug)]
pub struct ResetPasswordToken {
    pub token: Option<String>,
}

/// Where a request for a page lands: on the page it asked for, or on
/// another path it is sent to.
#[derive(Debug)]
pub enum Landing {
    Page,
    SeeOther(&'static str),
}

impl Landing {
    /// The path the request is sent to, if it is sent elsewhere.
    pub open spec fn target(self) -> Option<Seq<char>> {
        match self {
            Landing::Page => None,
            Landing::SeeOther(path) => Some(path@),
        }
    }
}

/// The home page is for users who are logged in; the others go to the
/// login page.
pub fn get_home_page(session: &UserSession) -> (landing: Landing)
    ensures
        landing.target() == if session.id() is Some {
            None
        } else {
            Some("/login"@)
        },
{
    if !session.is_active() {
        return Landing::SeeOther("/login");
    }
    Landing::Page
}

/// The settings page is for users who are logged in; the others go to the
/// login page.
pub fn get_settings_page(session: &UserSession) -> (landing: Landing)
    ensures
        landing.target() == if session.id() is Some {
            None
        } else {
            Some("/login"@)
        },
{
    if !session.is_active() {
        return Landing::SeeOther("/login");
    }
    Landing::Page
}

/// The login page is for users who are not logged in; the others go home.
pub fn get_login_page(session: &UserSession) -> (landing: Landing)
    ensures
        landing.target() == if session.id() is Some {
            Some("/home"@)
        } else {
            None
        },
{
    if session.is_active() {
        return Landing::SeeOther("/home");
    }
    Landing::Page
}

/// The page that asks for a registration link is for users who are not
/// logged in; the others go home.
pub fn get_register_request_page(session: &UserSession) -> (landing: Landing)
    ensures
        landing.target() == if session.id() is Some {
            Some("/home"@)
        } else {
            None
        },
{
    if session.is_active() {
        return Landing::SeeOther("/home");
    }
    Landing::Page
}

/// The registration page is for users who are not logged in and come with
/// a token: those logged in go home, those without a token go and ask for
/// a link.
pub fn get_register_page(param: &RegisterToken, session: &UserSession) -> (landing: Landing)
    ensures
        landing.target() == if session.id() is Some {
            Some("/home"@)
        } else if param.token is None {
            Some("/register/request"@)
        } else {
            None
        },
{
    if session.is_active() {
        return Landing::SeeOther("/home");
    } else if param.token.is_none() {
        return Landing::SeeOther("/register/request");
    }
    Landing::Page
}

/// The page that asks for a password reset link is for users who are not
/// logged in; the others go home.
pub fn get_reset_password_request_page(session: &UserSession) -> (landing: Landing)
    ensures
        landing.target() == if session.id() is Some {
            Some("/home"@)
        } else {
            None
        },
{
    if session.is_active() {
        return Landing::SeeOther("/home");
    }
    Landing::Page
}

/// The password reset page is for users who are not logged in and come
/// with a token: those logged in go home, those without a token go and
/// ask for a link.
pub fn get_reset_password_page(session: &UserSession, param: &ResetPasswordToken) -> (landing:
    Landing)
    ensures
        landing.target() == if session.id() is Some {
            Some("/home"@)
        } else if param.token is None {
            Some("/reset-password/request"@)
        } else {
            None
        },
{
    if session.is_active() {
        return Landing::SeeOther("/home");
    } else if param.token.is_none() {
        return Landing::SeeOther("/reset-password/request");
    }
    Landing::Page
}

/// What a login with the right password leads to.
#[derive(Clone, Copy, Debug, PartialEq, Eq, Structural)]
pub enum LoginOutcome {
    /// The account is to be deleted and the user did not ask to cancel
    /// that: the login is in conflict with it.
    Conflict,
    /// The account is to be deleted and the user asked to cancel that:
    /// cancel the deletion, then log in.
    CancelDeletion,
    /// Log in.
    Activate,
}

/// What a login with the right password leads to, given whether the
/// account's deletion has been requested and whether the user asked to
/// cancel it.
pub fn login_user(requested_deletion: bool, cancel_deletion: bool) -> (outcome: LoginOutcome)
    ensures
        outcome == if !requested_deletion {
            LoginOutcome::Activate
        } else if cancel_deletion {
            LoginOutcome::CancelDeletion
        } else {
            LoginOutcome::Conflict
        },
{
    if requested_deletion {
        if !cancel_deletion {
            return LoginOutcome::Conflict;
        } else {
            return LoginOutcome::CancelDeletion;
        }
    }
    LoginOutcome::Activate
}

/// The session after a logout: nobody is logged in.
pub fn logout_user(session: &UserSession) -> (left: UserSession)
    ensures
        left.id() is None,
{
    if session.is_active() {
        return session.deactivate();
    }
    *session
}

} // verus!
