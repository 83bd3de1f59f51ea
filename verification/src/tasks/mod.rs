//! Background tasks: the expiry reaper and its errors.

pub mod error;
pub mod redis_fields_deletion;
pub mod sweep;

pub use error::{Task1Error, Task1Failure};
pub use redis_fields_deletion::{
    is_expired, EmptyGeneratable, Reaper, ReaperAction, ReaperEvent, ReaperPhase, ReaperReply,
    ReaperState, Task1Config, Timestampable,
};
pub use sweep::{
    batches_of, expired_count, expired_field, expired_keys, readable, redis_fields_deletion_task, text_set,
    Expirable, Keyable,
    PassReport,
};
