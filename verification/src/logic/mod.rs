//! The service's value types and the rules that admit them.

pub mod captcha;
pub mod email;
pub mod reset_password;
pub mod user;
pub mod wire;

pub use captcha::{Captcha, CaptchaAnswer, CaptchaFields, CaptchaID, CaptchaResponseData};
pub use email::confirm_email::ConfirmEmail;
pub use email::url_token::URLToken;
pub use reset_password::{PasswordUpdated, ResetPassword, ResetPasswordRequest};
pub use user::authenticate::{AuthError, Login, StoredCredentials};
pub use user::create::{CreateUser, CreateUserError, CreateUserRequest};
pub use user::delete::{CancelUserDeletion, DeleteUserRequest, SQLXUser};
pub use user::update::{UpdateAction, UpdateStep, UpdateUser, UpdateUserError};
pub use user::validate::{Email, FieldValidationError, Password, PasswordHash, Username};
pub use wire::WireError;
