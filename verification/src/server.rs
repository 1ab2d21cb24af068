//! What the API's endpoints answer, and what they do to the task store.
//!
//! Each handler takes the store and the decoded request, and returns the answer; the HTTP
//! plumbing around them (routing, JSON, headers) is left to the program that serves them.

use crate::database::Database;
use crate::messages::{QueuePullResponse, QueuePullResponseInner, QueueUpdateRequest, TaskSubmitResponse};
use crate::responses::{
    ApiFailureResponse, ApiResponse, ApiResponseExt, STATUS_BAD_REQUEST, STATUS_CREATED,
    STATUS_INTERNAL_SERVER_ERROR, STATUS_NOT_FOUND, STATUS_OK,
};
use crate::task::{uuid_variant, uuid_version, TaskId, TaskInfo, TaskRequest, TaskRequestView, TaskStatus};
use vstd::prelude::*;

verus! {

/// The configuration of the API server.
pub struct Configuration {
    /// The interval, in seconds, at which workers should poll for more work.
    ///
    /// This value is returned as a Retry-After header to workers that find no work.
    pub polling_interval_secs: u64,
}

impl Default for Configuration {
    fn default() -> (config: Self)
        ensures
            config.polling_interval_secs == 5,
    {
        Configuration { polling_interval_secs: 5 }
    }
}

/// `POST /tasks`: create a task from the request and queue it; always answered with 201 and
/// the new task's identifier.
pub fn task_submit(db: &mut Database, request: TaskRequest) -> (r: ApiResponse<TaskSubmitResponse>)
    requires
        old(db).wf(),
    ensures
        final(db).wf(),
        r is Ok,
        match r {
            Ok(s) => {
                &&& s.spec_status() == STATUS_CREATED
                &&& uuid_version(s.spec_data().id@) == 4
                &&& uuid_variant(s.spec_data().id@) == 2
                &&& !old(db)@.has_task(s.spec_data().id)
                &&& final(db)@ == old(db)@.insert(s.spec_data().id, request@)
            },
            Err(f) => {
                &&& f.spec_status() == STATUS_INTERNAL_SERVER_ERROR
                &&& f.has_single_error("INTERNAL_SERVER_ERROR"@, Some("task already exists"@))
                &&& final(db)@ == old(db)@
                &&& old(db)@.holds_random_id()
            },
        },
{
    match db.task_create(&request) {
        Ok(id) => ApiResponse::created(TaskSubmitResponse { id }),
        Err(e) => Err(ApiFailureResponse::internal_error(e.message())),
    }
}

/// `GET /tasks/{id}`: the identifier and status of a task; 404 when there is no such task.
pub fn task_get(db: &Database, id: TaskId) -> (r: ApiResponse<TaskInfo>)
    requires
        db.wf(),
    ensures
        match db@.info(id) {
            Some(info) => r matches Ok(s) && s.spec_status() == STATUS_OK && s.spec_data() == info,
            None => r matches Err(f) && f.spec_status() == STATUS_NOT_FOUND && f.has_single_error(
                "NOT_FOUND"@,
                None,
            ),
        },
{
    match db.task_get_info(id) {
        Ok(Some(task)) => ApiResponse::success(task),
        Ok(None) => ApiResponse::not_found(),
        Err(e) => Err(ApiFailureResponse::internal_error(e.message())),
    }
}

/// `GET /tasks`: the identifiers and statuses of all tasks.
pub fn task_list(db: &Database) -> (r: ApiResponse<Vec<TaskInfo>>)
    requires
        db.wf(),
    ensures
        r matches Ok(s) && s.spec_status() == STATUS_OK && s.spec_data()@ == db@.infos(),
{
    match db.task_list() {
        Ok(tasks) => ApiResponse::success(tasks),
        Err(e) => Err(ApiFailureResponse::internal_error(e.message())),
    }
}

/// `GET /`: an empty success.
pub fn index() -> (r: ApiResponse<()>)
    ensures
        r matches Ok(s) && s.spec_status() == STATUS_OK,
{
    ApiResponse::success(())
}

/// Any other route: 400 Bad Request.
pub fn fallback_handler() -> (r: ApiResponse<()>)
    ensures
        r matches Err(f) && f.spec_status() == STATUS_BAD_REQUEST && f.has_single_error(
            "BAD_REQUEST"@,
            None,
        ),
{
    ApiResponse::bad_request()
}

/// `POST /queue/pull`: hand the task at the front of the queue to a worker, marking it
/// `Claimed`. When the queue is empty the answer carries no task, together with the number
/// of seconds after which the worker should ask again (the second component, sent as a
/// Retry-After header).
pub fn queue_pull(db: &mut Database, config: &Configuration) -> (r: (ApiResponse<QueuePullResponse>, Option<u64>))
    requires
        old(db).wf(),
    ensures
        final(db).wf(),
        final(db)@ == old(db)@.pop(),
        match old(db)@.front() {
            Some(id) => {
                &&& r.1 is None
                &&& r.0 matches Ok(s) && s.spec_status() == STATUS_OK && pulled_task(s.spec_data(), id, old(db)@.request(id))
            },
            None => {
                &&& r.1 == Some(config.polling_interval_secs)
                &&& r.0 matches Ok(s) && s.spec_status() == STATUS_OK && s.spec_data() is None
            },
        },
{
    proof {
        db.lemma_wf_view();
    }
    let ghost before = db@;
    match db.queue_pop() {
        Ok(Some(task)) => {
            proof {
                crate::database::lemma_pop_claims(before);
            }
            match db.task_get_request(task) {
                Ok(request) => (ApiResponse::success(Some(QueuePullResponseInner { task, request })), None),
                Err(e) => (Err(ApiFailureResponse::internal_error(e.message())), None),
            }
        },
        Ok(None) => (ApiResponse::success(None), Some(config.polling_interval_secs)),
        Err(e) => (Err(ApiFailureResponse::internal_error(e.message())), None),
    }
}

/// Whether the answer to a pull carries task `id` with the request `request`.
pub open spec fn pulled_task(data: QueuePullResponse, id: TaskId, request: Option<TaskRequestView>) -> bool {
    match data {
        Some(inner) => inner.task == id && request == Some(inner.request@),
        None => false,
    }
}

/// Whether a worker may report a task as being in `status`: only running and finished
/// statuses can be reported.
pub open spec fn is_reportable(status: TaskStatus) -> bool {
    status is Running || status is Complete || status is Failed
}

/// `POST /queue/task`: a worker's report on a task. Statuses other than running and finished
/// ones are refused with 400 and change nothing; a report on an unknown task fails with 500
/// and the detail `invalid task`.
pub fn queue_update(db: &mut Database, body: QueueUpdateRequest) -> (r: ApiResponse<()>)
    requires
        old(db).wf(),
    ensures
        final(db).wf(),
        !is_reportable(body.status) ==> {
            &&& r matches Err(f) && f.spec_status() == STATUS_BAD_REQUEST && f.has_single_error(
                "BAD_REQUEST"@,
                None,
            )
            &&& final(db)@ == old(db)@
        },
        is_reportable(body.status) && old(db)@.has_task(body.task) ==> {
            &&& r matches Ok(s) && s.spec_status() == STATUS_OK
            &&& final(db)@ == old(db)@.set_status(body.task, body.status)
        },
        is_reportable(body.status) && !old(db)@.has_task(body.task) ==> {
            &&& r matches Err(f) && f.spec_status() == STATUS_INTERNAL_SERVER_ERROR
                && f.has_single_error("INTERNAL_SERVER_ERROR"@, Some("invalid task"@))
            &&& final(db)@ == old(db)@
        },
{
    match body.status {
        TaskStatus::Running | TaskStatus::Complete | TaskStatus::Failed => (),
        _ => return ApiResponse::bad_request(),
    }
    match db.task_update(body.task, body.status) {
        Ok(()) => ApiResponse::success(()),
        Err(e) => Err(ApiFailureResponse::internal_error(e.message())),
    }
}

} // verus!
