//! The decisions of a worker: how long to wait for work, and how a run ends.

use crate::task::{TaskId, TaskRequest, TaskStatus};
use vstd::prelude::*;

verus! {

/// How many seconds a worker waits before asking again when the server did not say.
pub const DEFAULT_POLL_SECS: u64 = 5;

/// The number of seconds to wait before asking for work again: the server's `Retry-After`
/// value when it gave one, five seconds otherwise.
pub fn poll_delay_secs(retry_after: Option<u64>) -> (secs: u64)
    ensures
        secs == match retry_after {
            Some(s) => s,
            None => DEFAULT_POLL_SECS,
        },
{
    match retry_after {
        Some(s) => s,
        None => DEFAULT_POLL_SECS,
    }
}

/// The status that a task ends with. `exit_success` is `Some(true)` when the command ran and
/// exited successfully, `Some(false)` when it ran and failed, and `None` when it could not be
/// run at all.
pub fn completion_status(exit_success: Option<bool>) -> (status: TaskStatus)
    ensures
        status == if exit_success == Some(true) {
            TaskStatus::Complete
        } else {
            TaskStatus::Failed
        },
        status.spec_is_finished(),
{
    match exit_success {
        Some(true) => TaskStatus::Complete,
        _ => TaskStatus::Failed,
    }
}

/// What happened to a worker since its last action.
pub enum WorkerEvent {
    /// The server handed out a task.
    TaskPulled { task: TaskId, request: TaskRequest },
    /// The server had no work; it may have said after how many seconds to ask again.
    NoWork { retry_after: Option<u64> },
    /// The worker finished processing a task.
    Processed,
    /// The wait for the next poll ran out.
    TimedOut,
    /// The worker's owner went away while the worker waited.
    Disconnected,
}

/// What a worker does next.
pub enum WorkerAction {
    /// Ask the server for work.
    Poll,
    /// Run a task and report on it.
    Process { task: TaskId, request: TaskRequest },
    /// Wait this many seconds (or until the owner goes away) before asking again.
    Wait { secs: u64 },
    /// Stop working.
    Stop,
}

/// The worker's next action after an event: a pulled task is processed; no work means waiting
/// for the server's interval (five seconds when it gave none); after processing or a wait
/// that ran out it polls again; when its owner went away it stops.
pub open spec fn spec_worker_step(event: WorkerEvent) -> WorkerAction {
    match event {
        WorkerEvent::TaskPulled { task, request } => WorkerAction::Process { task, request },
        WorkerEvent::NoWork { retry_after } => WorkerAction::Wait {
            secs: match retry_after {
                Some(s) => s,
                None => DEFAULT_POLL_SECS,
            },
        },
        WorkerEvent::Processed => WorkerAction::Poll,
        WorkerEvent::TimedOut => WorkerAction::Poll,
        WorkerEvent::Disconnected => WorkerAction::Stop,
    }
}

/// Every pulled task is processed, whatever its request: the worker runs exactly the task and
/// the request that it pulled. A worker without work waits and then polls again, and it stops
/// only when its owner went away.
pub proof fn lemma_worker_progress(task: TaskId, request: TaskRequest, retry_after: Option<u64>)
    ensures
        spec_worker_step(WorkerEvent::TaskPulled { task, request }) == (WorkerAction::Process { task, request }),
        spec_worker_step(WorkerEvent::NoWork { retry_after }) is Wait,
        spec_worker_step(WorkerEvent::TimedOut) is Poll,
        spec_worker_step(WorkerEvent::Processed) is Poll,
        spec_worker_step(WorkerEvent::Disconnected) is Stop,
{
}

/// Decide the worker's next action after an event.
pub fn worker_step(event: WorkerEvent) -> (action: WorkerAction)
    ensures
        action == spec_worker_step(event),
        event matches WorkerEvent::TaskPulled { task, request } ==> (action matches WorkerAction::Process {
            task: t,
            request: r,
        } && t == task && r == request),
        event matches WorkerEvent::NoWork { retry_after } ==> (action matches WorkerAction::Wait { secs } && (
        retry_after matches Some(s) ==> secs == s) && (retry_after is None ==> secs == 5)),
        event is Processed || event is TimedOut ==> action is Poll,
        event is Disconnected ==> action is Stop,
{
    match event {
        WorkerEvent::TaskPulled { task, request } => WorkerAction::Process { task, request },
        WorkerEvent::NoWork { retry_after } => WorkerAction::Wait { secs: poll_delay_secs(retry_after) },
        WorkerEvent::Processed => WorkerAction::Poll,
        WorkerEvent::TimedOut => WorkerAction::Poll,
        WorkerEvent::Disconnected => WorkerAction::Stop,
    }
}

} // verus!
