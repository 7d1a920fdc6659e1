use agent_platform::storage::{AgentRun, RunDecodeError, RunRow};

fn row(id: &str, created_at: &str) -> RunRow {
    RunRow {
        id: id.to_string(),
        session_id: "session-1".to_string(),
        user_prompt: "first prompt".to_string(),
        response: "first response".to_string(),
        created_at: created_at.to_string(),
    }
}

#[test]
fn new_run_reads_back_from_its_row() {
    let run = AgentRun::new("session-1", "first prompt", "first response");
    assert_eq!(run.id.len(), 36);
    assert!(uuid::Uuid::parse_str(&run.id).is_ok());
    assert!(chrono::DateTime::parse_from_rfc3339(&run.created_at).is_ok());
    assert_eq!(run.created_at.as_bytes()[4], b'-');
    assert!(run.created_at.len() >= 25);
    assert!(run.created_at.ends_with("+00:00"));
    assert_eq!(run.id.as_bytes()[14], b'4');
    assert!(b"89ab".contains(&run.id.as_bytes()[19]));
    let back = AgentRun::from_row(run.clone().into_row()).expect("row reads back");
    assert_eq!(back.id, run.id);
    assert_eq!(back.session_id, "session-1");
    assert_eq!(back.user_prompt, "first prompt");
    assert_eq!(back.response, "first response");
    assert_eq!(back.created_at, run.created_at);
    let other = AgentRun::new("session-1", "first prompt", "first response");
    assert_ne!(other.id, run.id);
}

#[test]
fn rows_with_bad_columns_are_refused() {
    let ok_id = "550e8400-e29b-41d4-a716-446655440000";
    let ok_time = "2024-05-01T10:00:00+00:00";
    assert!(AgentRun::from_row(row(ok_id, ok_time)).is_ok());
    assert!(AgentRun::from_row(row("550E8400E29B41D4A716446655440000", ok_time)).is_ok());
    assert!(AgentRun::from_row(row("{550e8400-e29b-41d4-a716-446655440000}", ok_time)).is_ok());
    assert!(AgentRun::from_row(row("URN:uuid:550e8400-e29b-41d4-a716-446655440000", ok_time)).is_ok());
    assert_eq!(
        AgentRun::from_row(row("not-a-uuid", "also bad")).unwrap_err(),
        RunDecodeError::InvalidId
    );
    assert_eq!(
        AgentRun::from_row(row(ok_id, "2024-13-01T10:00:00Z")).unwrap_err(),
        RunDecodeError::InvalidCreatedAt
    );
    assert_eq!(RunDecodeError::InvalidId.message(), "invalid run id");
}

#[test]
fn memory_record_copies_the_run() {
    let run = AgentRun::new("s", "what is 2+2", "4");
    let m = run.memory_record();
    assert_eq!(m.user_prompt, "what is 2+2");
    assert_eq!(m.response, "4");
    assert_eq!(m.created_at, run.created_at);
}
