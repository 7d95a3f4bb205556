use inductor::json::{self, Json};
use inductor::persistence::statements::{
    add_allow_rule, add_tool_result, add_workspace_allow_rule, allow_rules, append_event, blob,
    count_allow_rules, count_workspace_allow_rules, credential_source,
    events, get_session, get_setting, get_worktree,
    list_all_sessions, list_incomplete_sessions, list_sessions, list_workspaces, list_worktrees,
    mark_tool_failed, messages, next_event_ordinal, provider_config, put_blob,
    put_credential_source, put_provider_config, put_setting, read_allow_rule, read_blob,
    read_credential_source, read_message, read_session, read_workspace, read_worktree,
    record_migration, replace_messages, set_session_status, set_worktree_status, upsert_session,
    upsert_tool_call, upsert_workspace, upsert_workspace_session, upsert_worktree, workspace_allow_rules, RowError,
    SqlValue, Statement, CREATE_MIGRATIONS, SCHEMA_VERSION,
};
use inductor::persistence::{
    app_migrations, new_session_record, plan_migrations, workspace_migrations, BlobRecord,
    Migration, SessionRecord, StoredMessage, ToolCallRecord, ToolResultRecord, WorkspaceId,
    WorktreeRecord, WorktreeStatus, APP_SCHEMA_VERSION, WORKSPACE_SCHEMA_VERSION,
};
use inductor::runtime::types::{AllowRule, AllowRuleKind, SessionId, SessionStatus};
use rusqlite::types::Value;
use rusqlite::{params_from_iter, Connection, OpenFlags};

const NOW: &str = "2026-06-12T00:00:00Z";

struct Db {
    conn: Connection,
}

fn bound(statement: &Statement) -> Vec<Value> {
    statement
        .params
        .iter()
        .map(|value| match value {
            SqlValue::Null => Value::Null,
            SqlValue::Integer(n) => Value::Integer(*n),
            SqlValue::Text(s) => Value::Text(s.clone()),
            SqlValue::Other => panic!("nothing binds this"),
        })
        .collect()
}

fn read(value: Value) -> SqlValue {
    match value {
        Value::Null => SqlValue::Null,
        Value::Integer(n) => SqlValue::Integer(n),
        Value::Text(s) => SqlValue::Text(s),
        Value::Real(_) | Value::Blob(_) => SqlValue::Other,
    }
}

fn text_of(id: u128) -> String {
    format!("{id:032x}")
}

fn id_of(value: &SqlValue) -> u128 {
    match value {
        SqlValue::Text(s) => u128::from_str_radix(s, 16).unwrap(),
        other => panic!("{other:?}"),
    }
}

impl Db {
    fn migrated(conn: Connection, supported: i64, migrations: Vec<Migration>) -> Db {
        conn.execute_batch(CREATE_MIGRATIONS).unwrap();
        let db = Db { conn };
        let current = db.number(SCHEMA_VERSION);
        for step in plan_migrations(current, supported, migrations, false).unwrap().steps {
            db.conn.execute_batch(step.sql).unwrap();
            db.run(&record_migration(step.version, NOW));
        }
        db
    }

    fn app() -> Db {
        let conn = Connection::open_in_memory().unwrap();
        Db::migrated(conn, APP_SCHEMA_VERSION, app_migrations())
    }

    fn workspace() -> Db {
        let conn = Connection::open_in_memory().unwrap();
        Db::migrated(conn, WORKSPACE_SCHEMA_VERSION, workspace_migrations())
    }

    fn number(&self, sql: &str) -> i64 {
        self.conn.query_row(sql, [], |row| row.get(0)).unwrap()
    }

    fn run(&self, statement: &Statement) {
        self.conn
            .execute(&statement.sql, params_from_iter(bound(statement)))
            .unwrap();
    }

    fn ask(&self, statement: &Statement) -> Vec<Vec<SqlValue>> {
        let mut prepared = self.conn.prepare(&statement.sql).unwrap();
        let columns = prepared.column_count();
        let mut rows = prepared.query(params_from_iter(bound(statement))).unwrap();
        let mut out = Vec::new();
        while let Some(row) = rows.next().unwrap() {
            out.push(
                (0..columns)
                    .map(|i| read(row.get::<_, Value>(i).unwrap()))
                    .collect(),
            );
        }
        out
    }

    fn sessions(&self, statement: &Statement) -> Vec<SessionRecord> {
        self.ask(statement)
            .iter()
            .map(|row| {
                let id = SessionId(id_of(&row[0]));
                read_session(id, WorkspaceId(id_of(&row[1])), row).unwrap()
            })
            .collect()
    }

    fn worktrees(&self, statement: &Statement) -> Vec<WorktreeRecord> {
        self.ask(statement)
            .iter()
            .map(|row| read_worktree(WorkspaceId(id_of(&row[0])), row).unwrap())
            .collect()
    }

    fn text(&self, statement: &Statement) -> Option<String> {
        match self.ask(statement).into_iter().next() {
            Some(row) => match row.into_iter().next() {
                Some(SqlValue::Text(s)) => Some(s),
                other => panic!("{other:?}"),
            },
            None => None,
        }
    }

    fn first_number(&self, statement: &Statement) -> i64 {
        match self.ask(statement)[0][0] {
            SqlValue::Integer(n) => n,
            _ => panic!("not a number"),
        }
    }

    fn rules(&self, statement: &Statement) -> Vec<AllowRule> {
        self.ask(statement)
            .iter()
            .map(|row| read_allow_rule(row).unwrap())
            .collect()
    }

    fn tool_status(&self, id: &str) -> String {
        self.conn
            .query_row("SELECT status FROM tool_calls WHERE id = ?1", [id], |row| row.get(0))
            .unwrap()
    }
}

fn session(id: u128, workspace: u128, provider: &str, model: &str) -> SessionRecord {
    new_session_record(SessionId(id), WorkspaceId(workspace), provider, model, NOW)
}

#[test]
fn app_db_migrates_and_stores_workspace_and_session() {
    let db = Db::app();
    assert_eq!(db.number(SCHEMA_VERSION), 3);

    db.run(&upsert_workspace(&text_of(1), "/tmp/project", "project", NOW));
    let record = session(2, 1, "codex", "gpt-5.5");
    db.run(&upsert_session(&text_of(2), &text_of(1), &record));

    let rows = db.ask(&list_workspaces());
    assert_eq!(rows.len(), 1);
    let workspace = read_workspace(WorkspaceId(id_of(&rows[0][0])), &rows[0]).unwrap();
    assert_eq!(workspace.id, WorkspaceId(1));
    assert_eq!(workspace.path, "/tmp/project");
    assert_eq!(workspace.created_at, NOW);

    let sessions = db.sessions(&list_sessions(&text_of(1)));
    assert_eq!(sessions.len(), 1);
    assert_eq!(sessions[0].id, SessionId(2));
}

#[test]
fn set_session_status_updates_only_the_status_column() {
    let db = Db::app();
    db.run(&upsert_workspace(&text_of(1), "/tmp/project", "project", NOW));
    let record = session(2, 1, "copilot", "sonnet");
    db.run(&upsert_session(&text_of(2), &text_of(1), &record));
    let loaded = db.sessions(&get_session(&text_of(2)));
    assert_eq!(loaded[0].status, SessionStatus::Starting);

    db.run(&set_session_status(&text_of(2), SessionStatus::RunningTools, NOW));
    let loaded = db.sessions(&get_session(&text_of(2)));
    assert_eq!(loaded[0].status, SessionStatus::RunningTools);
    assert_eq!(loaded[0].model, "sonnet");
    assert_eq!(loaded[0].display_name, record.display_name);
}

#[test]
fn app_db_lists_only_incomplete_sessions() {
    let db = Db::app();
    db.run(&upsert_workspace(&text_of(1), "/tmp/project", "project", NOW));

    let starting = session(2, 1, "codex", "gpt-5.5");
    db.run(&upsert_session(&text_of(2), &text_of(1), &starting));
    let mut completed = session(3, 1, "copilot", "sonnet");
    completed.status = SessionStatus::Completed;
    db.run(&upsert_session(&text_of(3), &text_of(1), &completed));

    let incomplete = db.sessions(&list_incomplete_sessions());
    assert_eq!(incomplete.len(), 1);
    assert_eq!(incomplete[0].id, SessionId(2));
    for status in [
        SessionStatus::Streaming,
        SessionStatus::RunningTools,
        SessionStatus::WaitingForPermission,
    ] {
        db.run(&set_session_status(&text_of(3), status, NOW));
        assert_eq!(db.sessions(&list_incomplete_sessions()).len(), 2);
    }
    for status in [SessionStatus::Idle, SessionStatus::Failed] {
        db.run(&set_session_status(&text_of(3), status, NOW));
        assert_eq!(db.sessions(&list_incomplete_sessions()).len(), 1);
    }
}

#[test]
fn app_db_tracks_managed_worktrees() {
    let db = Db::app();
    db.run(&upsert_workspace(&text_of(1), "/tmp/wt", "wt", NOW));

    let record = WorktreeRecord {
        id: WorkspaceId(1),
        source_repo: "/tmp/repo".to_string(),
        worktree_path: "/tmp/wt".to_string(),
        branch_name: "fix-login-abcd1234".to_string(),
        base_branch: "main".to_string(),
        base_commit: "deadbeef".to_string(),
        status: WorktreeStatus::Active,
        created_at: NOW.to_string(),
        updated_at: NOW.to_string(),
    };
    db.run(&upsert_worktree(&text_of(1), &record));

    let loaded = db.worktrees(&get_worktree(&text_of(1)));
    assert_eq!(loaded[0].branch_name, record.branch_name);
    assert_eq!(loaded[0].status, WorktreeStatus::Active);
    assert_eq!(db.worktrees(&list_worktrees()).len(), 1);

    db.run(&set_worktree_status(&text_of(1), WorktreeStatus::Merged, NOW));
    assert_eq!(
        db.worktrees(&get_worktree(&text_of(1)))[0].status,
        WorktreeStatus::Merged
    );
}

#[test]
fn app_db_stores_settings_provider_config_and_credential_source() {
    let db = Db::app();

    let dark = Json::object().with("mode", Json::text("dark"));
    db.run(&put_setting("theme", &dark.to_text(), NOW));
    let kept = json::parse(&db.text(&get_setting("theme")).unwrap()).unwrap();
    assert_eq!(kept.to_text(), "{\"mode\":\"dark\"}");
    assert_eq!(db.text(&get_setting("size")), None);

    let model = Json::object().with("model", Json::text("sonnet"));
    db.run(&put_provider_config("copilot", &model.to_text(), NOW));
    assert_eq!(
        db.text(&provider_config("copilot")).unwrap(),
        "{\"model\":\"sonnet\"}"
    );

    db.run(&put_credential_source(
        "copilot",
        "claude_agent_sdk",
        Some("signed-in"),
        NOW,
    ));
    let rows = db.ask(&credential_source("copilot"));
    let source = read_credential_source(&rows[0]).unwrap();
    assert_eq!(source.source, "claude_agent_sdk");
    assert_eq!(source.identity_hint.as_deref(), Some("signed-in"));
}

#[test]
fn allow_rules_deduplicate() {
    let db = Db::app();
    let workspace = text_of(1);
    let scope = Some(workspace.as_str());
    let rule = AllowRule::new(AllowRuleKind::ToolName, "read_file");

    for expected in [true, false] {
        let existing = db.first_number(&count_allow_rules(scope, None, &rule));
        let statement = add_allow_rule(existing, scope, None, &rule, NOW);
        assert_eq!(statement.is_some(), expected);
        if let Some(statement) = statement {
            db.run(&statement);
        }
    }

    let rules = db.rules(&allow_rules(scope, None));
    assert_eq!(rules.len(), 1);
    assert!(rules[0].same(&rule));
    assert!(db.rules(&allow_rules(None, None)).is_empty());
}

fn keep_messages(db: &Db, session: &str, list: &[StoredMessage]) {
    for statement in replace_messages(session, list, NOW) {
        db.run(&statement);
    }
}

fn kept_messages(db: &Db, session: &str) -> Vec<StoredMessage> {
    db.ask(&messages(session))
        .iter()
        .map(|row| read_message(row).unwrap())
        .collect()
}

#[test]
fn workspace_db_persists_messages_across_reopen() {
    let open = || {
        let flags = OpenFlags::SQLITE_OPEN_READ_WRITE
            | OpenFlags::SQLITE_OPEN_CREATE
            | OpenFlags::SQLITE_OPEN_URI;
        let conn =
            Connection::open_with_flags("file:reopened?mode=memory&cache=shared", flags).unwrap();
        Db::migrated(conn, WORKSPACE_SCHEMA_VERSION, workspace_migrations())
    };
    let db = open();
    let record = session(2, 1, "codex", "gpt-5.5");
    db.run(&upsert_workspace_session(&text_of(2), &text_of(1), &record));
    keep_messages(
        &db,
        &text_of(2),
        &[
            StoredMessage::new("User", "hello", 0),
            StoredMessage::new("Assistant", "hi", 1),
        ],
    );

    let reopened = open();
    let messages = kept_messages(&reopened, &text_of(2));
    assert_eq!(messages.len(), 2);
    assert_eq!(messages[0].content, "hello");
    assert_eq!(messages[1].role, "Assistant");
    assert_eq!(reopened.sessions(&list_all_sessions()).len(), 1);
}

#[test]
fn messages_without_a_place_get_one() {
    let db = Db::workspace();
    let record = session(2, 1, "codex", "gpt-5.5");
    db.run(&upsert_workspace_session(&text_of(2), &text_of(1), &record));
    keep_messages(
        &db,
        &text_of(2),
        &[
            StoredMessage::new("User", "first", -1),
            StoredMessage::new("Assistant", "second", -1),
        ],
    );
    let messages = kept_messages(&db, &text_of(2));
    assert_eq!(messages[0].ordinal, 0);
    assert_eq!(messages[1].ordinal, 1);
    keep_messages(&db, &text_of(2), &[StoredMessage::new("User", "only", 5)]);
    assert_eq!(kept_messages(&db, &text_of(2)).len(), 1);
}

fn tool_call(id: &str, name: &str, path: &str) -> ToolCallRecord {
    ToolCallRecord {
        id: id.to_string(),
        session_id: SessionId(2),
        name: name.to_string(),
        input_json: Json::object().with("path", Json::text(path)),
        status: "started".to_string(),
    }
}

#[test]
fn workspace_db_stores_events_and_tool_records() {
    let db = Db::workspace();
    let record = session(2, 1, "codex", "gpt-5.5");
    db.run(&upsert_workspace_session(&text_of(2), &text_of(1), &record));

    for (place, event) in ["{\"type\":\"status\"}", "{\"type\":\"result\"}"].iter().enumerate() {
        let next = db.first_number(&next_event_ordinal(&text_of(2)));
        assert_eq!(next, place as i64);
        db.run(&append_event(&text_of(2), event, next, NOW));
    }
    let kept = db.ask(&events(&text_of(2)));
    assert_eq!(kept.len(), 2);
    assert!(matches!(&kept[1][0], SqlValue::Text(s) if s == "{\"type\":\"result\"}"));

    db.run(&upsert_tool_call(
        &tool_call("call", "read_file", "Cargo.toml"),
        &text_of(2),
        NOW,
    ));
    assert_eq!(db.tool_status("call"), "started");
    let result = ToolResultRecord {
        tool_call_id: "call".to_string(),
        output: "ok".to_string(),
        exit_code: Some(0),
        blob_id: None,
    };
    for statement in add_tool_result(&result, NOW) {
        db.run(&statement);
    }
    assert_eq!(db.tool_status("call"), "completed");
}

#[test]
fn workspace_db_marks_tool_errors_failed() {
    let db = Db::workspace();
    let record = session(2, 1, "codex", "gpt-5.5");
    db.run(&upsert_workspace_session(&text_of(2), &text_of(1), &record));

    db.run(&upsert_tool_call(
        &tool_call("call", "edit_file", "src/lib.rs"),
        &text_of(2),
        NOW,
    ));
    db.run(&mark_tool_failed("call", NOW));

    assert_eq!(db.tool_status("call"), "failed");
}

#[test]
fn workspace_db_stores_blobs_and_allow_rules() {
    let db = Db::workspace();
    let kept = BlobRecord {
        id: "abc".to_string(),
        path: "/tmp/blob".to_string(),
        bytes: 12,
        created_at: NOW.to_string(),
    };
    let rule = AllowRule::new(AllowRuleKind::BashPrefix, "cargo");

    db.run(&put_blob(&kept));
    let rows = db.ask(&blob("abc"));
    let loaded = read_blob(&rows[0]).unwrap();
    assert_eq!(loaded.id, "abc");
    assert_eq!(loaded.path, "/tmp/blob");
    assert_eq!(loaded.bytes, 12);
    assert_eq!(loaded.created_at, NOW);

    let huge = BlobRecord {
        bytes: u64::MAX - 3,
        ..kept
    };
    db.run(&put_blob(&huge));
    assert_eq!(read_blob(&db.ask(&blob("abc"))[0]).unwrap().bytes, u64::MAX - 3);

    let session = text_of(2);
    let scope = Some(session.as_str());
    for _ in 0..2 {
        let existing = db.first_number(&count_workspace_allow_rules(scope, &rule));
        if let Some(statement) = add_workspace_allow_rule(existing, scope, &rule, NOW) {
            db.run(&statement);
        }
    }
    let rules = db.rules(&workspace_allow_rules(scope));
    assert_eq!(rules.len(), 1);
    assert!(rules[0].same(&rule));
}

#[test]
fn rows_that_hold_something_else_are_refused() {
    let row = vec![SqlValue::Text("User".to_string()), SqlValue::Null, SqlValue::Integer(1)];
    assert!(matches!(read_message(&row), Err(RowError::Column(1))));
    let row = vec![SqlValue::Text("anything".to_string()), SqlValue::Text("x".to_string())];
    assert!(matches!(
        read_allow_rule(&row),
        Err(RowError::Name(name)) if name == "anything"
    ));
    assert!(matches!(read_allow_rule(&Vec::new()), Err(RowError::Column(0))));
}
