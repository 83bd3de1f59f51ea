//! Account-service core: token and record value types, the record wire
//! format, and the expiry reaper that keeps each dataset within its
//! time-to-live.

pub mod app_error;
mod clock;
pub mod config;
pub mod db;
pub mod logic;
pub mod routes;
pub mod server;
pub mod session;
pub mod store;
pub mod tasks;
pub mod text;
