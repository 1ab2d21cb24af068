use marathon_api::{TaskId, TaskStatus};

#[test]
fn task_id_is_unique() {
    let id1 = TaskId::new();
    let id2 = TaskId::new();
    assert_ne!(id1, id2);
}

#[test]
fn can_round_trip_task_id() {
    let id = TaskId::new();
    assert_eq!(id.to_string().parse::<TaskId>().ok(), Some(id));
}

#[test]
fn task_id_text_is_lowercase_hyphenated() {
    let id = TaskId::from_u128(0xa1a2a3a4b1b2c1c2d1d2d3d4d5d6d7d8);
    assert_eq!(id.to_string(), "a1a2a3a4-b1b2-c1c2-d1d2-d3d4d5d6d7d8");
    let zero = TaskId::from_u128(0);
    assert_eq!(zero.to_string(), "00000000-0000-0000-0000-000000000000");
}

#[test]
fn task_id_parses_from_text() {
    let parsed = TaskId::from_str("a1a2a3a4-b1b2-c1c2-d1d2-d3d4d5d6d7d8");
    assert_eq!(parsed.ok().map(|id| id.as_u128()), Some(0xa1a2a3a4b1b2c1c2d1d2d3d4d5d6d7d8));
    match TaskId::from_str("not a uuid") {
        Err(e) => assert_eq!(
            e.message(),
            uuid::Uuid::parse_str("not a uuid").unwrap_err().to_string()
        ),
        Ok(_) => panic!("expected an error"),
    }
    assert!(TaskId::from_str("").is_err());
}

#[test]
fn new_task_ids_are_random() {
    let value = TaskId::new().as_u128();
    assert_eq!((value >> 76) & 0xf, 4);
    assert_eq!((value >> 62) & 0x3, 2);
}

#[test]
fn finished_statuses_are_complete_and_failed() {
    assert!(!TaskStatus::Pending.is_finished());
    assert!(!TaskStatus::Claimed.is_finished());
    assert!(!TaskStatus::Running.is_finished());
    assert!(TaskStatus::Complete.is_finished());
    assert!(TaskStatus::Failed.is_finished());
}

#[test]
fn task_id_parses_every_accepted_shape() {
    let value = 0xa1a2a3a4b1b2c1c2d1d2d3d4d5d6d7d8u128;
    for text in [
        "a1a2a3a4b1b2c1c2d1d2d3d4d5d6d7d8",
        "A1A2A3A4-B1B2-C1C2-D1D2-D3D4D5D6D7D8",
        "{a1a2a3a4-b1b2-c1c2-d1d2-d3d4d5d6d7d8}",
        "URN:uuid:a1a2a3a4-b1b2-c1c2-d1d2-d3d4d5d6d7d8",
    ] {
        assert_eq!(TaskId::from_str(text).ok().map(|id| id.as_u128()), Some(value));
    }
    for text in [
        "a1a2a3a4b1b2c1c2d1d2d3d4d5d6d7dg",
        "a1a2a3a4_b1b2-c1c2-d1d2-d3d4d5d6d7d8",
        "(a1a2a3a4-b1b2-c1c2-d1d2-d3d4d5d6d7d8)",
        "urn:uid::a1a2a3a4-b1b2-c1c2-d1d2-d3d4d5d6d7d8",
    ] {
        assert!(TaskId::from_str(text).is_err());
    }
}
