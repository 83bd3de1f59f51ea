//! Sessions: what can go wrong with the cookie a request carries.

pub mod session;

pub use session::{UserSession, UserSessionError};
