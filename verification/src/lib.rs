//! A small task queue service: tasks are submitted, queued, claimed by workers and
//! reported on. This crate holds the verified core of the service: the task store and
//! its work queue, the request handlers' decisions, the response envelopes, and the
//! parsing of environment arguments.

pub mod client;
pub mod database;
pub mod environment;
pub mod error;
pub mod messages;
pub mod responses;
pub mod server;
pub mod task;
pub mod worker;

pub use crate::database::Database;
pub use crate::error::Error;
pub use crate::task::{TaskId, TaskInfo, TaskRequest, TaskStatus};
