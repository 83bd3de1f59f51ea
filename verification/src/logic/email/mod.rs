//! Email confirmation: the single-use token and the record it stands for.

pub mod confirm_email;
pub mod url_token;
