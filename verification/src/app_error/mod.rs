//! The error every request handler answers with.

pub mod error;
pub mod error_propagation;

pub use error::{AppError, AppErrorType, AppFailure};
pub use error_propagation::{select_return, LogLine, TaskEnd};
