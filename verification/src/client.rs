//! The decisions of the API client that are not HTTP plumbing.

use crate::responses::STATUS_NOT_FOUND;
use crate::task::{uuid_hyphenated, TaskId};
use vstd::prelude::*;

verus! {

/// The message of a failed lookup of task `id`, given the status code of the answer and the
/// message of the failure: a 404 answer means that the task is unknown, and is reported as
/// `Unknown task {id}`; any other failure keeps its message.
pub fn task_get_error_message(id: TaskId, status: u16, message: String) -> (text: String)
    ensures
        text@ == if status == STATUS_NOT_FOUND {
            "Unknown task "@ + uuid_hyphenated(id@)
        } else {
            message@
        },
{
    if status == STATUS_NOT_FOUND {
        let text = "Unknown task ".to_owned();
        let id_text = id.to_string();
        text.concat(id_text.as_str())
    } else {
        message
    }
}

} // verus!
