use marathon_api::client::task_get_error_message;
use marathon_api::messages::QueueUpdateRequest;
use marathon_api::responses::{
    api_error_message, http_status_error_message, response_kind, ApiError, ApiFailure,
    ApiFailureResponse, ApiResponse, ApiResponseExt, ResponseKind,
};
use marathon_api::server::{
    fallback_handler, index, queue_pull, queue_update, task_get, task_list, task_submit,
    Configuration,
};
use marathon_api::worker::{completion_status, poll_delay_secs, worker_step, WorkerAction, WorkerEvent};
use marathon_api::{Database, TaskId, TaskInfo, TaskRequest, TaskStatus};
use std::collections::HashMap;

fn request(cmd: &str) -> TaskRequest {
    TaskRequest {
        cmdline: vec![cmd.to_owned()],
        environment: HashMap::new(),
    }
}

fn failure_parts(f: ApiFailureResponse) -> (u16, String, Option<String>) {
    let status = f.status();
    let mut errors = f.into_body().errors;
    assert_eq!(errors.len(), 1);
    let e = errors.remove(0);
    (status, e.error, e.detail)
}

#[test]
fn response_constructors_set_status_and_body() {
    let ok: ApiResponse<u32> = ApiResponse::success(3);
    let ok = ok.ok().expect("success");
    assert_eq!(ok.status(), 200);
    assert_eq!(ok.into_body().data, 3);

    let created: ApiResponse<u32> = ApiResponse::created(4);
    let created = created.ok().expect("created");
    assert_eq!(created.status(), 201);
    assert_eq!(created.into_body().data, 4);

    let missing: ApiResponse<u32> = ApiResponse::not_found();
    let missing = missing.err().expect("not found");
    assert_eq!(failure_parts(missing), (404, "NOT_FOUND".to_owned(), None));

    let bad: ApiResponse<u32> = ApiResponse::bad_request();
    let bad = bad.err().expect("bad request");
    assert_eq!(failure_parts(bad), (400, "BAD_REQUEST".to_owned(), None));

    let internal = ApiFailureResponse::internal_error("boom".to_owned());
    assert_eq!(
        failure_parts(internal),
        (500, "INTERNAL_SERVER_ERROR".to_owned(), Some("boom".to_owned()))
    );
}

#[test]
fn submitted_task_can_be_fetched_and_listed() {
    let mut db = Database::open_in_memory().expect("database");
    let submitted = task_submit(&mut db, request("ls")).ok().expect("created");
    assert_eq!(submitted.status(), 201);
    let id = submitted.into_body().data.id;

    let got = task_get(&db, id).ok().expect("found");
    assert_eq!(got.status(), 200);
    assert_eq!(got.into_body().data, TaskInfo { id, status: TaskStatus::Pending });

    let listed = task_list(&db).ok().expect("listed");
    assert_eq!(listed.status(), 200);
    assert_eq!(listed.into_body().data, vec![TaskInfo { id, status: TaskStatus::Pending }]);
}

#[test]
fn unknown_task_is_not_found() {
    let db = Database::open_in_memory().expect("database");
    let missing = task_get(&db, TaskId::from_u128(9)).err().expect("not found");
    assert_eq!(failure_parts(missing), (404, "NOT_FOUND".to_owned(), None));
}

#[test]
fn index_succeeds_and_fallback_is_bad_request() {
    assert_eq!(index().ok().expect("index").status(), 200);
    let fallback = fallback_handler().err().expect("fallback");
    assert_eq!(failure_parts(fallback), (400, "BAD_REQUEST".to_owned(), None));
}

#[test]
fn pull_hands_out_tasks_in_order_then_asks_to_retry() {
    let mut db = Database::open_in_memory().expect("database");
    let config = Configuration::default();
    let a = TaskId::from_u128(1);
    let b = TaskId::from_u128(2);
    db.task_insert(a, &request("first")).expect("insert");
    db.task_insert(b, &request("second")).expect("insert");

    let (first, retry) = queue_pull(&mut db, &config);
    assert_eq!(retry, None);
    let first = first.ok().expect("pulled");
    assert_eq!(first.status(), 200);
    let inner = first.into_body().data.expect("a task");
    assert_eq!(inner.task, a);
    assert_eq!(inner.request.cmdline, vec!["first".to_owned()]);
    assert_eq!(
        db.task_get_info(a).expect("info"),
        Some(TaskInfo { id: a, status: TaskStatus::Claimed })
    );

    let (second, _) = queue_pull(&mut db, &config);
    assert_eq!(second.ok().expect("pulled").into_body().data.expect("a task").task, b);

    let (empty, retry) = queue_pull(&mut db, &config);
    assert_eq!(retry, Some(5));
    assert!(empty.ok().expect("empty").into_body().data.is_none());
}

#[test]
fn worker_reports_are_checked() {
    let mut db = Database::open_in_memory().expect("database");
    let id = TaskId::from_u128(5);
    db.task_insert(id, &request("x")).expect("insert");

    for status in [TaskStatus::Pending, TaskStatus::Claimed] {
        let refused = queue_update(&mut db, QueueUpdateRequest { task: id, status })
            .err()
            .expect("refused");
        assert_eq!(failure_parts(refused), (400, "BAD_REQUEST".to_owned(), None));
    }
    assert_eq!(
        db.task_get_info(id).expect("info"),
        Some(TaskInfo { id, status: TaskStatus::Pending })
    );

    for status in [TaskStatus::Running, TaskStatus::Complete, TaskStatus::Failed] {
        let accepted = queue_update(&mut db, QueueUpdateRequest { task: id, status })
            .ok()
            .expect("accepted");
        assert_eq!(accepted.status(), 200);
        assert_eq!(db.task_get_info(id).expect("info"), Some(TaskInfo { id, status }));
    }

    let unknown = queue_update(
        &mut db,
        QueueUpdateRequest { task: TaskId::from_u128(6), status: TaskStatus::Running },
    )
    .err()
    .expect("unknown");
    assert_eq!(
        failure_parts(unknown),
        (500, "INTERNAL_SERVER_ERROR".to_owned(), Some("invalid task".to_owned()))
    );
}

#[test]
fn answers_are_read_by_status_and_content_type() {
    assert_eq!(response_kind(200, true), ResponseKind::Success);
    assert_eq!(response_kind(201, false), ResponseKind::Success);
    assert_eq!(response_kind(399, true), ResponseKind::Success);
    assert_eq!(response_kind(400, true), ResponseKind::ApiFailure);
    assert_eq!(response_kind(404, false), ResponseKind::HttpFailure);
    assert_eq!(response_kind(599, true), ResponseKind::ApiFailure);
    assert_eq!(response_kind(600, true), ResponseKind::Success);
}

#[test]
fn failure_messages_name_status_url_and_detail() {
    let with_detail = ApiFailure {
        errors: vec![
            ApiError { error: "INTERNAL_SERVER_ERROR".to_owned(), detail: Some("invalid task".to_owned()) },
            ApiError { error: "OTHER".to_owned(), detail: Some("ignored".to_owned()) },
        ],
    };
    assert_eq!(
        api_error_message("500 Internal Server Error", "http://h/queue/task", &with_detail),
        "API error 500 Internal Server Error for url http://h/queue/task: invalid task"
    );
    let without_detail = ApiFailure {
        errors: vec![ApiError { error: "NOT_FOUND".to_owned(), detail: None }],
    };
    assert_eq!(
        api_error_message("404 Not Found", "http://h/tasks/x", &without_detail),
        "API error 404 Not Found for url http://h/tasks/x"
    );
    assert_eq!(
        api_error_message("400 Bad Request", "http://h/", &ApiFailure { errors: vec![] }),
        "API error 400 Bad Request for url http://h/"
    );
    assert_eq!(
        http_status_error_message("502 Bad Gateway", "http://h/"),
        "HTTP status error 502 Bad Gateway for url http://h/"
    );
}

#[test]
fn missing_task_lookup_is_reported_as_unknown() {
    let id = TaskId::from_u128(0xa1a2a3a4b1b2c1c2d1d2d3d4d5d6d7d8);
    assert_eq!(
        task_get_error_message(id, 404, "API error".to_owned()),
        "Unknown task a1a2a3a4-b1b2-c1c2-d1d2-d3d4d5d6d7d8"
    );
    assert_eq!(task_get_error_message(id, 500, "API error".to_owned()), "API error");
}

#[test]
fn worker_decisions() {
    assert_eq!(poll_delay_secs(Some(12)), 12);
    assert_eq!(poll_delay_secs(None), 5);
    assert_eq!(completion_status(Some(true)), TaskStatus::Complete);
    assert_eq!(completion_status(Some(false)), TaskStatus::Failed);
    assert_eq!(completion_status(None), TaskStatus::Failed);
}

#[test]
fn worker_steps() {
    let id = TaskId::from_u128(8);
    match worker_step(WorkerEvent::TaskPulled { task: id, request: request("run") }) {
        WorkerAction::Process { task, request } => {
            assert_eq!(task, id);
            assert_eq!(request.cmdline, vec!["run".to_owned()]);
        }
        _ => panic!("expected Process"),
    }
    assert!(matches!(
        worker_step(WorkerEvent::NoWork { retry_after: Some(30) }),
        WorkerAction::Wait { secs: 30 }
    ));
    assert!(matches!(
        worker_step(WorkerEvent::NoWork { retry_after: None }),
        WorkerAction::Wait { secs: 5 }
    ));
    assert!(matches!(worker_step(WorkerEvent::Processed), WorkerAction::Poll));
    assert!(matches!(worker_step(WorkerEvent::TimedOut), WorkerAction::Poll));
    assert!(matches!(worker_step(WorkerEvent::Disconnected), WorkerAction::Stop));
}
