//! What the database's answers mean to the service.

pub mod error;

pub use error::{sqlx_user_insertion_error, InsertionFailure};
