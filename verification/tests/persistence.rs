use inductor::persistence::{
    allow_rule_kind_to_str, app_migrations, backup_source, file_backup, is_incomplete,
    new_session_record, parse_allow_rule_kind, parse_session_status, plan_migrations,
    session_status_to_str, workspace_migrations, workspace_state_path, PersistenceError,
    StoredMessage, WorkspaceId, WorktreeStatus, APP_SCHEMA_VERSION, WORKSPACE_SCHEMA_VERSION,
};
use inductor::runtime::types::{AllowRuleKind, SessionId, SessionStatus};

#[test]
fn default_workspace_path_uses_inductor_dir() {
    assert_eq!(workspace_state_path("/tmp/project"), "/tmp/project/.inductor/state.db");
}

#[test]
fn existing_file_gets_backup_before_migration() {
    let backup = file_backup("/state/inductor.db", true, 1700000000).unwrap();
    assert!(backup.starts_with("/state/inductor.db.bak."));
    let plan = plan_migrations(0, APP_SCHEMA_VERSION, app_migrations(), true).unwrap();
    assert!(plan.backup);
    assert_eq!(plan.steps.last().unwrap().version, 3);

    assert_eq!(file_backup("/state/inductor.db", false, 1700000000), None);
}

#[test]
fn backups_tell_their_origin() {
    let backup = file_backup("/state/inductor.db", true, -5).unwrap();
    assert_eq!(backup_source(&backup), "/state/inductor.db");
}

#[test]
fn migrations_start_behind_the_current_version() {
    let plan = plan_migrations(1, APP_SCHEMA_VERSION, app_migrations(), true).unwrap();
    let versions: Vec<i64> = plan.steps.iter().map(|step| step.version).collect();
    assert_eq!(versions, vec![2, 3]);

    let plan = plan_migrations(2, WORKSPACE_SCHEMA_VERSION, workspace_migrations(), true).unwrap();
    assert!(plan.steps.is_empty());
    assert!(!plan.backup);
}

#[test]
fn newer_schemas_are_refused() {
    let error = plan_migrations(9, APP_SCHEMA_VERSION, app_migrations(), false).unwrap_err();
    assert!(matches!(error, PersistenceError::FutureSchema { found: 9, supported: 3 }));
    assert_eq!(error.message(), "database schema version 9 is newer than supported version 3");
}

#[test]
fn statuses_and_kinds_are_read_back() {
    for status in [
        SessionStatus::Idle,
        SessionStatus::Starting,
        SessionStatus::Streaming,
        SessionStatus::RunningTools,
        SessionStatus::WaitingForPermission,
        SessionStatus::Completed,
        SessionStatus::Failed,
    ] {
        assert_eq!(parse_session_status(session_status_to_str(status)), Some(status));
    }
    assert_eq!(parse_session_status("asleep"), None);
    for kind in [
        AllowRuleKind::ToolName,
        AllowRuleKind::BashPrefix,
        AllowRuleKind::BashRegex,
        AllowRuleKind::PathWrite,
    ] {
        assert_eq!(parse_allow_rule_kind(allow_rule_kind_to_str(kind)), Some(kind));
    }
    assert_eq!(parse_allow_rule_kind("anything"), None);
    for status in [
        WorktreeStatus::Active,
        WorktreeStatus::PrOpen,
        WorktreeStatus::Merged,
        WorktreeStatus::Abandoned,
        WorktreeStatus::Archived,
    ] {
        assert_eq!(WorktreeStatus::from_db_value(status.as_str()), status);
    }
    assert_eq!(WorktreeStatus::from_db_value("unheard of"), WorktreeStatus::Active);
}

#[test]
fn sessions_that_ended_are_complete() {
    assert!(is_incomplete(SessionStatus::Streaming));
    assert!(!is_incomplete(SessionStatus::Completed));
    assert!(!is_incomplete(SessionStatus::Failed));
}

#[test]
fn a_new_session_is_starting() {
    let record = new_session_record(SessionId(7), WorkspaceId(8), "codex", "gpt-5.5", "now");
    assert_eq!(record.id, SessionId(7));
    assert_eq!(record.workspace_id, WorkspaceId(8));
    assert_eq!(record.status, SessionStatus::Starting);
    assert_eq!(record.created_at, "now");
    assert_eq!(record.updated_at, "now");
    assert_eq!(record.display_name, None);
}

#[test]
fn stored_messages_keep_their_place() {
    let message = StoredMessage::new("user", "hello", 4);
    assert_eq!(message.role, "user");
    assert_eq!(message.content, "hello");
    assert_eq!(message.stored_ordinal(9), 4);
    assert_eq!(StoredMessage::new("user", "hello", -1).stored_ordinal(9), 9);
}
