//! The bodies that the API's endpoints take and give.

use crate::task::{TaskId, TaskRequest, TaskStatus};
use vstd::prelude::*;

verus! {

/// The answer to a task submission: the identifier of the new task.
pub struct TaskSubmitResponse {
    pub id: TaskId,
}

/// A task handed to a worker: its identifier and its request.
pub struct QueuePullResponseInner {
    pub task: TaskId,
    pub request: TaskRequest,
}

/// The answer to a worker asking for work: a task, or nothing when the queue is empty.
pub type QueuePullResponse = Option<QueuePullResponseInner>;

/// A worker's report on the progress of a task.
pub struct QueueUpdateRequest {
    pub task: TaskId,
    pub status: TaskStatus,
}

} // verus!
