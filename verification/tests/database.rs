use marathon_api::{Database, Error, TaskId, TaskInfo, TaskRequest, TaskStatus};
use std::collections::HashMap;

fn dummy_request() -> TaskRequest {
    TaskRequest {
        cmdline: vec!["hello".to_owned()],
        environment: HashMap::new(),
    }
}

#[test]
fn can_create_database() {
    assert!(Database::open_in_memory().is_ok());
}

#[test]
fn can_create_task() -> Result<(), Error> {
    let mut db = Database::open_in_memory()?;
    let id = db.task_create(&dummy_request())?;
    let task = db.task_get_info(id)?;
    assert_eq!(
        task,
        Some(TaskInfo {
            id,
            status: TaskStatus::Pending,
        })
    );
    Ok(())
}

#[test]
fn can_pop_tasks_from_queue() -> Result<(), Error> {
    let mut db = Database::open_in_memory()?;

    let mut ids = vec![];
    ids.push(db.task_create(&dummy_request())?);
    ids.push(db.task_create(&dummy_request())?);
    ids.push(db.task_create(&dummy_request())?);

    assert_eq!(
        db.task_get_info(ids[0])?.map(|t| t.status),
        Some(TaskStatus::Pending)
    );

    let mut result = vec![];
    result.push(db.queue_pop()?);
    result.push(db.queue_pop()?);
    result.push(db.queue_pop()?);
    result.push(db.queue_pop()?);

    assert_eq!(
        db.task_get_info(ids[0])?.map(|t| t.status),
        Some(TaskStatus::Claimed)
    );

    assert_eq!(result[..3], ids.into_iter().map(Some).collect::<Vec<_>>());
    assert!(result[3].is_none());

    Ok(())
}

#[test]
fn returns_none_on_missing_task() -> Result<(), Error> {
    let db = Database::open_in_memory()?;
    let id = TaskId::new();

    assert!(db.task_get_info(id)?.is_none());

    Ok(())
}

#[test]
fn can_update_task_status() -> Result<(), Error> {
    let mut db = Database::open_in_memory()?;
    let id = db.task_create(&dummy_request())?;

    db.task_update(id, TaskStatus::Running)?;

    let task = db.task_get_info(id)?;
    assert_eq!(
        task,
        Some(TaskInfo {
            id,
            status: TaskStatus::Running,
        })
    );

    Ok(())
}

#[test]
fn updating_invalid_task_fails() -> Result<(), Error> {
    let mut db = Database::open_in_memory()?;
    let id = TaskId::new();

    let result = db.task_update(id, TaskStatus::Running);
    match result {
        Err(e) => assert_eq!(e.message(), "invalid task"),
        Ok(()) => panic!("updating an unknown task succeeded"),
    }

    Ok(())
}

#[test]
fn can_list_tasks() -> Result<(), Error> {
    let mut db = Database::open_in_memory()?;
    let id1 = db.task_create(&dummy_request())?;
    let id2 = db.task_create(&dummy_request())?;
    db.task_update(id1, TaskStatus::Running)?;

    let tasks = db.task_list()?;
    assert_eq!(tasks.len(), 2);
    assert!(tasks.contains(&TaskInfo {
        id: id1,
        status: TaskStatus::Running,
    }));
    assert!(tasks.contains(&TaskInfo {
        id: id2,
        status: TaskStatus::Pending,
    }));

    Ok(())
}

#[test]
fn created_task_reads_back_its_request() -> Result<(), Error> {
    let mut db = Database::open_in_memory()?;
    let mut environment = HashMap::new();
    environment.insert("A".to_owned(), "1".to_owned());
    let request = TaskRequest {
        cmdline: vec!["echo".to_owned(), "hi".to_owned()],
        environment,
    };
    let id = db.task_create(&request)?;
    let stored = db.task_get_request(id)?;
    assert_eq!(stored.cmdline, request.cmdline);
    assert_eq!(stored.environment, request.environment);
    Ok(())
}

#[test]
fn missing_task_has_no_request() -> Result<(), Error> {
    let db = Database::open_in_memory()?;
    match db.task_get_request(TaskId::from_u128(7)) {
        Err(e @ Error::TaskNotFound) => assert_eq!(e.message(), "task not found"),
        _ => panic!("expected TaskNotFound"),
    }
    Ok(())
}

#[test]
fn inserting_a_taken_id_fails_and_changes_nothing() -> Result<(), Error> {
    let mut db = Database::open_in_memory()?;
    let id = TaskId::from_u128(42);
    assert_eq!(db.task_insert(id, &dummy_request())?, id);
    match db.task_insert(id, &dummy_request()) {
        Err(e @ Error::TaskExists) => assert_eq!(e.message(), "task already exists"),
        _ => panic!("expected TaskExists"),
    }
    assert_eq!(db.task_list()?.len(), 1);
    assert_eq!(db.queue_pop()?, Some(id));
    assert_eq!(db.queue_pop()?, None);
    Ok(())
}

#[test]
fn queue_is_first_in_first_out_across_interleaved_creates() -> Result<(), Error> {
    let mut db = Database::open_in_memory()?;
    let a = TaskId::from_u128(1);
    let b = TaskId::from_u128(2);
    let c = TaskId::from_u128(3);
    db.task_insert(a, &dummy_request())?;
    db.task_insert(b, &dummy_request())?;
    assert_eq!(db.queue_pop()?, Some(a));
    db.task_insert(c, &dummy_request())?;
    assert_eq!(db.queue_pop()?, Some(b));
    assert_eq!(db.queue_pop()?, Some(c));
    assert_eq!(db.queue_pop()?, None);
    let list = db.task_list()?;
    assert_eq!(
        list,
        vec![
            TaskInfo { id: a, status: TaskStatus::Claimed },
            TaskInfo { id: b, status: TaskStatus::Claimed },
            TaskInfo { id: c, status: TaskStatus::Claimed },
        ]
    );
    Ok(())
}

#[test]
fn updating_one_task_leaves_the_others() -> Result<(), Error> {
    let mut db = Database::open_in_memory()?;
    let a = TaskId::from_u128(10);
    let b = TaskId::from_u128(11);
    db.task_insert(a, &dummy_request())?;
    db.task_insert(b, &dummy_request())?;
    db.task_update(b, TaskStatus::Failed)?;
    assert_eq!(db.task_get_info(a)?, Some(TaskInfo { id: a, status: TaskStatus::Pending }));
    assert_eq!(db.task_get_info(b)?, Some(TaskInfo { id: b, status: TaskStatus::Failed }));
    // Updating does not take the task off the queue.
    assert_eq!(db.queue_pop()?, Some(a));
    assert_eq!(db.queue_pop()?, Some(b));
    assert_eq!(db.task_get_info(b)?, Some(TaskInfo { id: b, status: TaskStatus::Claimed }));
    Ok(())
}

#[test]
fn popping_an_empty_queue_changes_nothing() -> Result<(), Error> {
    let mut db = Database::open_in_memory()?;
    assert_eq!(db.queue_pop()?, None);
    assert!(db.task_list()?.is_empty());
    Ok(())
}
