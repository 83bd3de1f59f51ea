//! Users: the fields of an account and the forms that carry them.

pub mod authenticate;
pub mod create;
pub mod delete;
pub mod update;
pub mod validate;
