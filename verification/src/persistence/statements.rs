//! What the databases are told and asked: the statements with the values that go into them,
//! and what is read from the rows that come back. The ids stand in the databases as texts.
use vstd::prelude::*;

use crate::json;
use crate::persistence;
use crate::persistence::{
    BlobRecord, CredentialSourceRecord, SessionRecord, StoredMessage, ToolCallRecord,
    ToolResultRecord, WorkspaceId, WorkspaceRecord, WorktreeRecord, WorktreeStatus,
};
use crate::runtime::types::{AllowRule, AllowRuleKind, SessionId, SessionStatus};
use crate::text;

verus! {

/// A value that goes into a statement or comes from a row.
#[derive(Debug)]
pub enum SqlValue {
    Null,
    Integer(i64),
    Text(String),
    /// A number with a fraction, or bytes. Only rows hold these, and nothing reads them.
    Other,
}

/// The content of an `SqlValue`.
pub enum SqlView {
    Null,
    Integer(int),
    Text(Seq<char>),
    Other,
}

impl View for SqlValue {
    type V = SqlView;

    open spec fn view(&self) -> SqlView {
        match self {
            SqlValue::Null => SqlView::Null,
            SqlValue::Integer(n) => SqlView::Integer(*n as int),
            SqlValue::Text(s) => SqlView::Text(s@),
            SqlValue::Other => SqlView::Other,
        }
    }
}

pub open spec fn value_views(values: Seq<SqlValue>) -> Seq<SqlView> {
    values.map_values(|v: SqlValue| v@)
}

/// A statement, with the values for its parameters in their order.
#[derive(Debug)]
pub struct Statement {
    pub sql: String,
    pub params: Vec<SqlValue>,
}

/// The content of a `Statement`.
pub struct StatementView {
    pub sql: Seq<char>,
    pub params: Seq<SqlView>,
}

impl View for Statement {
    type V = StatementView;

    open spec fn view(&self) -> StatementView {
        StatementView { sql: self.sql@, params: value_views(self.params@) }
    }
}

/// A text that may be missing.
pub open spec fn optional(s: Option<Seq<char>>) -> SqlView {
    match s {
        Some(t) => SqlView::Text(t),
        None => SqlView::Null,
    }
}

impl Statement {
    fn new(sql: &str) -> (r: Statement)
        ensures
            r@ == (StatementView { sql: sql@, params: seq![] }),
    {
        let r = Statement { sql: sql.to_string(), params: Vec::new() };
        assert(r@.params =~= seq![]);
        r
    }

    fn with(self, value: SqlValue) -> (r: Statement)
        ensures
            r@ == (StatementView { sql: self@.sql, params: self@.params.push(value@) }),
    {
        let ghost before = self.params@;
        let mut params = self.params;
        params.push(value);
        assert(value_views(params@) =~= value_views(before).push(value@));
        Statement { sql: self.sql, params }
    }

    fn with_text(self, s: &str) -> (r: Statement)
        ensures
            r@ == (StatementView { sql: self@.sql, params: self@.params.push(SqlView::Text(s@)) }),
    {
        self.with(SqlValue::Text(s.to_string()))
    }

    fn with_optional(self, s: Option<&str>) -> (r: Statement)
        ensures
            r@ == (StatementView {
                sql: self@.sql,
                params: self@.params.push(
                    optional(
                        match s {
                            Some(t) => Some(t@),
                            None => None,
                        },
                    ),
                ),
            }),
    {
        match s {
            Some(t) => self.with_text(t),
            None => self.with(SqlValue::Null),
        }
    }
}

fn as_optional(s: &Option<String>) -> (r: Option<&str>)
    ensures
        match r {
            Some(t) => text::opt(*s) == Some(t@),
            None => text::opt(*s) is None,
        },
{
    match s {
        Some(t) => Some(t.as_str()),
        None => None,
    }
}

/// A text that was handed over or not.
pub open spec fn given(s: Option<&str>) -> Option<Seq<char>> {
    match s {
        Some(t) => Some(t@),
        None => None,
    }
}

// ---------------------------------------------------------------------------
// Versions
// ---------------------------------------------------------------------------

/// Makes the table of the versions that a database has gone through.
pub const CREATE_MIGRATIONS: &'static str = "\nCREATE TABLE IF NOT EXISTS schema_migrations (\n    version INTEGER PRIMARY KEY,\n    applied_at TEXT NOT NULL\n);\n";

/// Asks for the version of a database.
pub const SCHEMA_VERSION: &'static str = "SELECT COALESCE(MAX(version), 0) FROM schema_migrations";

/// Notes a version.
pub const RECORD_MIGRATION: &'static str = "INSERT INTO schema_migrations (version, applied_at) VALUES (?1, ?2)";

/// Notes that a database has come to a version.
pub fn record_migration(version: i64, now: &str) -> (r: Statement)
    ensures
        r@ == (StatementView {
            sql: RECORD_MIGRATION@,
            params: seq![
                SqlView::Integer(version as int),
                SqlView::Text(now@),
            ],
        }),
{
    let r = Statement::new(RECORD_MIGRATION).with(SqlValue::Integer(version)).with_text(now);
    assert(r@.params =~= seq![
        SqlView::Integer(version as int),
        SqlView::Text(now@),
    ]);
    r
}

// ---------------------------------------------------------------------------
// Workspaces and worktrees
// ---------------------------------------------------------------------------

/// Keeps a workspace.
pub const UPSERT_WORKSPACE: &'static str = "\nINSERT INTO workspaces (id, path, display_name, created_at, updated_at)\nVALUES (?1, ?2, ?3, ?4, ?4)\nON CONFLICT(id) DO UPDATE SET\n    path = excluded.path,\n    display_name = excluded.display_name,\n    updated_at = excluded.updated_at\n";

/// Keeps a workspace, or changes the one that is kept.
pub fn upsert_workspace(id: &str, path: &str, display_name: &str, now: &str) -> (r: Statement)
    ensures
        r@ == (StatementView {
            sql: UPSERT_WORKSPACE@,
            params: seq![
                SqlView::Text(id@),
                SqlView::Text(path@),
                SqlView::Text(display_name@),
                SqlView::Text(now@),
            ],
        }),
{
    let r = Statement::new(UPSERT_WORKSPACE).with_text(id).with_text(path).with_text(display_name).with_text(now);
    assert(r@.params =~= seq![
        SqlView::Text(id@),
        SqlView::Text(path@),
        SqlView::Text(display_name@),
        SqlView::Text(now@),
    ]);
    r
}

/// Asks for the workspaces, the latest first.
pub const LIST_WORKSPACES: &'static str = "SELECT id, path, display_name, created_at, updated_at FROM workspaces ORDER BY updated_at DESC";

/// Asks for the workspaces, the latest first.
pub fn list_workspaces() -> (r: Statement)
    ensures
        r@ == (StatementView {
            sql: LIST_WORKSPACES@,
            params: seq![],
        }),
{
    let r = Statement::new(LIST_WORKSPACES);
    assert(r@.params =~= seq![]);
    r
}

/// Keeps a worktree.
pub const UPSERT_WORKTREE: &'static str = "\nINSERT INTO worktrees (id, source_repo, worktree_path, branch_name, base_branch, base_commit, status, created_at, updated_at)\nVALUES (?1, ?2, ?3, ?4, ?5, ?6, ?7, ?8, ?9)\nON CONFLICT(id) DO UPDATE SET\n    source_repo = excluded.source_repo,\n    worktree_path = excluded.worktree_path,\n    branch_name = excluded.branch_name,\n    base_branch = excluded.base_branch,\n    base_commit = excluded.base_commit,\n    status = excluded.status,\n    updated_at = excluded.updated_at\n";

/// The columns of a worktree, in the order in which they are written and read.
pub open spec fn worktree_columns(id: Seq<char>, w: WorktreeRecord) -> Seq<SqlView> {
    seq![
        SqlView::Text(id),
        SqlView::Text(w.source_repo@),
        SqlView::Text(w.worktree_path@),
        SqlView::Text(w.branch_name@),
        SqlView::Text(w.base_branch@),
        SqlView::Text(w.base_commit@),
        SqlView::Text(persistence::worktree_name(w.status)),
        SqlView::Text(w.created_at@),
        SqlView::Text(w.updated_at@),
    ]
}

/// Keeps a worktree, or changes the one that is kept.
pub fn upsert_worktree(id: &str, worktree: &WorktreeRecord) -> (r: Statement)
    ensures
        r@ == (StatementView { sql: UPSERT_WORKTREE@, params: worktree_columns(id@, *worktree) }),
{
    let r = Statement::new(UPSERT_WORKTREE).with_text(id).with_text(
        worktree.source_repo.as_str(),
    ).with_text(worktree.worktree_path.as_str()).with_text(
        worktree.branch_name.as_str(),
    ).with_text(worktree.base_branch.as_str()).with_text(
        worktree.base_commit.as_str(),
    ).with_text(worktree.status.as_str()).with_text(worktree.created_at.as_str()).with_text(
        worktree.updated_at.as_str(),
    );
    assert(r@.params =~= worktree_columns(id@, *worktree));
    r
}

/// Asks for a worktree.
pub const GET_WORKTREE: &'static str = "\nSELECT id, source_repo, worktree_path, branch_name, base_branch, base_commit, status, created_at, updated_at\nFROM worktrees\nWHERE id = ?1\n";

/// Asks for a worktree.
pub fn get_worktree(id: &str) -> (r: Statement)
    ensures
        r@ == (StatementView {
            sql: GET_WORKTREE@,
            params: seq![
                SqlView::Text(id@),
            ],
        }),
{
    let r = Statement::new(GET_WORKTREE).with_text(id);
    assert(r@.params =~= seq![
        SqlView::Text(id@),
    ]);
    r
}

/// Asks for the worktrees, the latest first.
pub const LIST_WORKTREES: &'static str = "\nSELECT id, source_repo, worktree_path, branch_name, base_branch, base_commit, status, created_at, updated_at\nFROM worktrees\nORDER BY updated_at DESC\n";

/// Asks for the worktrees, the latest first.
pub fn list_worktrees() -> (r: Statement)
    ensures
        r@ == (StatementView {
            sql: LIST_WORKTREES@,
            params: seq![],
        }),
{
    let r = Statement::new(LIST_WORKTREES);
    assert(r@.params =~= seq![]);
    r
}

/// Changes a worktree's status.
pub const SET_WORKTREE_STATUS: &'static str = "UPDATE worktrees SET status = ?2, updated_at = ?3 WHERE id = ?1";

/// Changes a worktree's status only.
pub fn set_worktree_status(id: &str, status: WorktreeStatus, now: &str) -> (r: Statement)
    ensures
        r@ == (StatementView {
            sql: SET_WORKTREE_STATUS@,
            params: seq![
                SqlView::Text(id@),
                SqlView::Text(persistence::worktree_name(status)),
                SqlView::Text(now@),
            ],
        }),
{
    let r = Statement::new(SET_WORKTREE_STATUS).with_text(id).with_text(status.as_str()).with_text(now);
    assert(r@.params =~= seq![
        SqlView::Text(id@),
        SqlView::Text(persistence::worktree_name(status)),
        SqlView::Text(now@),
    ]);
    r
}

// ---------------------------------------------------------------------------
// Sessions
// ---------------------------------------------------------------------------

/// Keeps a session in the application's database.
pub const UPSERT_SESSION: &'static str = "\nINSERT INTO sessions (id, workspace_id, provider_id, model, status, display_name, created_at, updated_at)\nVALUES (?1, ?2, ?3, ?4, ?5, ?6, ?7, ?8)\nON CONFLICT(id) DO UPDATE SET\n    workspace_id = excluded.workspace_id,\n    provider_id = excluded.provider_id,\n    model = excluded.model,\n    status = excluded.status,\n    display_name = excluded.display_name,\n    updated_at = excluded.updated_at\n";

/// Keeps a session in a workspace's database, which it does not leave.
pub const UPSERT_WORKSPACE_SESSION: &'static str = "\nINSERT INTO sessions (id, workspace_id, provider_id, model, status, display_name, created_at, updated_at)\nVALUES (?1, ?2, ?3, ?4, ?5, ?6, ?7, ?8)\nON CONFLICT(id) DO UPDATE SET\n    provider_id = excluded.provider_id,\n    model = excluded.model,\n    status = excluded.status,\n    display_name = excluded.display_name,\n    updated_at = excluded.updated_at\n";

/// The columns of a session, in the order in which they are written and read.
pub open spec fn session_columns(
    id: Seq<char>,
    workspace_id: Seq<char>,
    s: SessionRecord,
) -> Seq<SqlView> {
    seq![
        SqlView::Text(id),
        SqlView::Text(workspace_id),
        SqlView::Text(s.provider_id@),
        SqlView::Text(s.model@),
        SqlView::Text(persistence::status_name(s.status)),
        optional(text::opt(s.display_name)),
        SqlView::Text(s.created_at@),
        SqlView::Text(s.updated_at@),
    ]
}

fn session_statement(sql: &str, id: &str, workspace_id: &str, session: &SessionRecord) -> (r:
    Statement)
    ensures
        r@ == (StatementView {
            sql: sql@,
            params: session_columns(id@, workspace_id@, *session),
        }),
{
    let r = Statement::new(sql).with_text(id).with_text(workspace_id).with_text(
        session.provider_id.as_str(),
    ).with_text(session.model.as_str()).with_text(
        persistence::session_status_to_str(session.status),
    ).with_optional(as_optional(&session.display_name)).with_text(
        session.created_at.as_str(),
    ).with_text(session.updated_at.as_str());
    assert(r@.params =~= session_columns(id@, workspace_id@, *session));
    r
}

/// Keeps a session in the application's database, or changes the one that is kept.
pub fn upsert_session(id: &str, workspace_id: &str, session: &SessionRecord) -> (r: Statement)
    ensures
        r@ == (StatementView {
            sql: UPSERT_SESSION@,
            params: session_columns(id@, workspace_id@, *session),
        }),
{
    session_statement(UPSERT_SESSION, id, workspace_id, session)
}

/// Keeps a session in a workspace's database, or changes the one that is kept.
pub fn upsert_workspace_session(id: &str, workspace_id: &str, session: &SessionRecord) -> (r:
    Statement)
    ensures
        r@ == (StatementView {
            sql: UPSERT_WORKSPACE_SESSION@,
            params: session_columns(id@, workspace_id@, *session),
        }),
{
    session_statement(UPSERT_WORKSPACE_SESSION, id, workspace_id, session)
}

/// Changes a session's status.
pub const SET_SESSION_STATUS: &'static str = "UPDATE sessions SET status = ?2, updated_at = ?3 WHERE id = ?1";

/// Changes a session's status only.
pub fn set_session_status(id: &str, status: SessionStatus, now: &str) -> (r: Statement)
    ensures
        r@ == (StatementView {
            sql: SET_SESSION_STATUS@,
            params: seq![
                SqlView::Text(id@),
                SqlView::Text(persistence::status_name(status)),
                SqlView::Text(now@),
            ],
        }),
{
    let r = Statement::new(SET_SESSION_STATUS).with_text(id).with_text(persistence::session_status_to_str(status)).with_text(now);
    assert(r@.params =~= seq![
        SqlView::Text(id@),
        SqlView::Text(persistence::status_name(status)),
        SqlView::Text(now@),
    ]);
    r
}

/// Asks for a session.
pub const GET_SESSION: &'static str = "\nSELECT id, workspace_id, provider_id, model, status, display_name, created_at, updated_at\nFROM sessions\nWHERE id = ?1\n";

/// Asks for a session.
pub fn get_session(id: &str) -> (r: Statement)
    ensures
        r@ == (StatementView {
            sql: GET_SESSION@,
            params: seq![
                SqlView::Text(id@),
            ],
        }),
{
    let r = Statement::new(GET_SESSION).with_text(id);
    assert(r@.params =~= seq![
        SqlView::Text(id@),
    ]);
    r
}

/// Asks for the sessions of a workspace, the latest first.
pub const LIST_SESSIONS: &'static str = "\nSELECT id, workspace_id, provider_id, model, status, display_name, created_at, updated_at\nFROM sessions\nWHERE workspace_id = ?1\nORDER BY updated_at DESC\n";

/// Asks for the sessions of a workspace, the latest first.
pub fn list_sessions(workspace_id: &str) -> (r: Statement)
    ensures
        r@ == (StatementView {
            sql: LIST_SESSIONS@,
            params: seq![
                SqlView::Text(workspace_id@),
            ],
        }),
{
    let r = Statement::new(LIST_SESSIONS).with_text(workspace_id);
    assert(r@.params =~= seq![
        SqlView::Text(workspace_id@),
    ]);
    r
}

/// Asks for all sessions, the latest first.
pub const LIST_ALL_SESSIONS: &'static str = "\nSELECT id, workspace_id, provider_id, model, status, display_name, created_at, updated_at\nFROM sessions\nORDER BY updated_at DESC\n";

/// Asks for all sessions, the latest first.
pub fn list_all_sessions() -> (r: Statement)
    ensures
        r@ == (StatementView {
            sql: LIST_ALL_SESSIONS@,
            params: seq![],
        }),
{
    let r = Statement::new(LIST_ALL_SESSIONS);
    assert(r@.params =~= seq![]);
    r
}

/// The beginning of the question for sessions with certain statuses.
pub const INCOMPLETE_HEAD: &'static str = "\nSELECT id, workspace_id, provider_id, model, status, display_name, created_at, updated_at\nFROM sessions\nWHERE status IN ('";

/// Its end.
pub const INCOMPLETE_TAIL: &'static str = "')\nORDER BY updated_at DESC\n";

/// The statuses of sessions that may still be at work.
pub open spec fn open_statuses() -> Seq<SessionStatus> {
    seq![
        SessionStatus::Starting,
        SessionStatus::Streaming,
        SessionStatus::RunningTools,
        SessionStatus::WaitingForPermission,
    ]
}

/// Asks for the sessions that may still be at work, the latest first.
pub fn list_incomplete_sessions() -> (r: Statement)
    ensures
        r@ == (StatementView {
            sql: INCOMPLETE_HEAD@ + text::join(
                open_statuses().map_values(|s: SessionStatus| persistence::status_name(s)),
                "', '"@,
            ) + INCOMPLETE_TAIL@,
            params: seq![],
        }),
{
    let mut names = text::list3(
        persistence::session_status_to_str(SessionStatus::Starting),
        persistence::session_status_to_str(SessionStatus::Streaming),
        persistence::session_status_to_str(SessionStatus::RunningTools),
    );
    let ghost before = text::views(names@);
    names.push(
        persistence::session_status_to_str(SessionStatus::WaitingForPermission).to_string(),
    );
    assert(text::views(names@) =~= before.push(
        persistence::status_name(SessionStatus::WaitingForPermission),
    ));
    assert(text::views(names@) =~= open_statuses().map_values(
        |s: SessionStatus| persistence::status_name(s),
    ));
    let list = text::join_strings(names.as_slice(), "', '");
    Statement::new(text::cat3(INCOMPLETE_HEAD, list.as_str(), INCOMPLETE_TAIL).as_str())
}

/// The sessions that are asked for are the incomplete ones.
pub proof fn open_statuses_are_the_incomplete_ones(status: SessionStatus)
    ensures
        open_statuses().contains(status) == persistence::incomplete(status),
{
    let all = open_statuses();
    assert(all[0] == SessionStatus::Starting && all[1] == SessionStatus::Streaming && all[2]
        == SessionStatus::RunningTools && all[3] == SessionStatus::WaitingForPermission);
}

// ---------------------------------------------------------------------------
// Settings and credentials
// ---------------------------------------------------------------------------

/// Keeps a setting.
pub const PUT_SETTING: &'static str = "\nINSERT INTO settings (key, value_json, updated_at)\nVALUES (?1, ?2, ?3)\nON CONFLICT(key) DO UPDATE SET\n    value_json = excluded.value_json,\n    updated_at = excluded.updated_at\n";

/// Keeps a setting, or changes the one that is kept. The value is given as it is printed.
pub fn put_setting(key: &str, value_json: &str, now: &str) -> (r: Statement)
    ensures
        r@ == (StatementView {
            sql: PUT_SETTING@,
            params: seq![
                SqlView::Text(key@),
                SqlView::Text(value_json@),
                SqlView::Text(now@),
            ],
        }),
{
    let r = Statement::new(PUT_SETTING).with_text(key).with_text(value_json).with_text(now);
    assert(r@.params =~= seq![
        SqlView::Text(key@),
        SqlView::Text(value_json@),
        SqlView::Text(now@),
    ]);
    r
}

/// Asks for a setting.
pub const GET_SETTING: &'static str = "SELECT value_json FROM settings WHERE key = ?1";

/// Asks for a setting.
pub fn get_setting(key: &str) -> (r: Statement)
    ensures
        r@ == (StatementView {
            sql: GET_SETTING@,
            params: seq![
                SqlView::Text(key@),
            ],
        }),
{
    let r = Statement::new(GET_SETTING).with_text(key);
    assert(r@.params =~= seq![
        SqlView::Text(key@),
    ]);
    r
}

/// Keeps a provider's configuration.
pub const PUT_PROVIDER_CONFIG: &'static str = "\nINSERT INTO provider_configs (provider_id, config_json, updated_at)\nVALUES (?1, ?2, ?3)\nON CONFLICT(provider_id) DO UPDATE SET\n    config_json = excluded.config_json,\n    updated_at = excluded.updated_at\n";

/// Keeps a provider's configuration, given as it is printed.
pub fn put_provider_config(provider_id: &str, config_json: &str, now: &str) -> (r: Statement)
    ensures
        r@ == (StatementView {
            sql: PUT_PROVIDER_CONFIG@,
            params: seq![
                SqlView::Text(provider_id@),
                SqlView::Text(config_json@),
                SqlView::Text(now@),
            ],
        }),
{
    let r = Statement::new(PUT_PROVIDER_CONFIG).with_text(provider_id).with_text(config_json).with_text(now);
    assert(r@.params =~= seq![
        SqlView::Text(provider_id@),
        SqlView::Text(config_json@),
        SqlView::Text(now@),
    ]);
    r
}

/// Asks for a provider's configuration.
pub const GET_PROVIDER_CONFIG: &'static str = "SELECT config_json FROM provider_configs WHERE provider_id = ?1";

/// Asks for a provider's configuration.
pub fn provider_config(provider_id: &str) -> (r: Statement)
    ensures
        r@ == (StatementView {
            sql: GET_PROVIDER_CONFIG@,
            params: seq![
                SqlView::Text(provider_id@),
            ],
        }),
{
    let r = Statement::new(GET_PROVIDER_CONFIG).with_text(provider_id);
    assert(r@.params =~= seq![
        SqlView::Text(provider_id@),
    ]);
    r
}

/// Keeps where a provider's credentials come from.
pub const PUT_CREDENTIAL_SOURCE: &'static str = "\nINSERT INTO credential_sources (provider_id, source, identity_hint, updated_at)\nVALUES (?1, ?2, ?3, ?4)\nON CONFLICT(provider_id) DO UPDATE SET\n    source = excluded.source,\n    identity_hint = excluded.identity_hint,\n    updated_at = excluded.updated_at\n";

/// Keeps where a provider's credentials come from.
pub fn put_credential_source(provider_id: &str, source: &str, identity_hint: Option<&str>, now: &str) -> (r: Statement)
    ensures
        r@ == (StatementView {
            sql: PUT_CREDENTIAL_SOURCE@,
            params: seq![
                SqlView::Text(provider_id@),
                SqlView::Text(source@),
                optional(given(identity_hint)),
                SqlView::Text(now@),
            ],
        }),
{
    let r = Statement::new(PUT_CREDENTIAL_SOURCE).with_text(provider_id).with_text(source).with_optional(identity_hint).with_text(now);
    assert(r@.params =~= seq![
        SqlView::Text(provider_id@),
        SqlView::Text(source@),
        optional(given(identity_hint)),
        SqlView::Text(now@),
    ]);
    r
}

/// Asks where a provider's credentials come from.
pub const GET_CREDENTIAL_SOURCE: &'static str = "\nSELECT provider_id, source, identity_hint, updated_at\nFROM credential_sources\nWHERE provider_id = ?1\n";

/// Asks where a provider's credentials come from.
pub fn credential_source(provider_id: &str) -> (r: Statement)
    ensures
        r@ == (StatementView {
            sql: GET_CREDENTIAL_SOURCE@,
            params: seq![
                SqlView::Text(provider_id@),
            ],
        }),
{
    let r = Statement::new(GET_CREDENTIAL_SOURCE).with_text(provider_id);
    assert(r@.params =~= seq![
        SqlView::Text(provider_id@),
    ]);
    r
}

// ---------------------------------------------------------------------------
// Rules
// ---------------------------------------------------------------------------

/// Counts the rules of a scope that are the same.
pub const COUNT_RULES: &'static str = "\nSELECT COUNT(*)\nFROM allow_rules\nWHERE (workspace_id IS ?1 OR workspace_id = ?1)\n  AND (session_id IS ?2 OR session_id = ?2)\n  AND kind = ?3\n  AND value = ?4\n";

/// Counts the rules of a session that are the same, in a workspace's database.
pub const COUNT_WORKSPACE_RULES: &'static str = "\nSELECT COUNT(*)\nFROM allow_rules\nWHERE (session_id IS ?1 OR session_id = ?1)\n  AND kind = ?2\n  AND value = ?3\n";

/// Adds a rule.
pub const ADD_RULE: &'static str = "\nINSERT OR IGNORE INTO allow_rules (workspace_id, session_id, kind, value, created_at)\nVALUES (?1, ?2, ?3, ?4, ?5)\n";

/// Adds a rule to a workspace's database.
pub const ADD_WORKSPACE_RULE: &'static str = "\nINSERT OR IGNORE INTO allow_rules (session_id, kind, value, created_at)\nVALUES (?1, ?2, ?3, ?4)\n";

/// Asks for the rules of a scope, in the order in which they came.
pub const LIST_RULES: &'static str = "\nSELECT kind, value\nFROM allow_rules\nWHERE (workspace_id IS ?1 OR workspace_id = ?1)\n  AND (session_id IS ?2 OR session_id = ?2)\nORDER BY id\n";

/// Asks for the rules of a session in a workspace's database.
pub const LIST_WORKSPACE_RULES: &'static str = "\nSELECT kind, value\nFROM allow_rules\nWHERE session_id IS ?1 OR session_id = ?1\nORDER BY id\n";

/// Counts the rules of a scope that are the same.
pub fn count_allow_rules(workspace_id: Option<&str>, session_id: Option<&str>, rule: &AllowRule) -> (r: Statement)
    ensures
        r@ == (StatementView {
            sql: COUNT_RULES@,
            params: seq![
                optional(given(workspace_id)),
                optional(given(session_id)),
                SqlView::Text(persistence::rule_kind_name(rule.kind)),
                SqlView::Text(rule.value@),
            ],
        }),
{
    let r = Statement::new(COUNT_RULES).with_optional(workspace_id).with_optional(session_id).with_text(persistence::allow_rule_kind_to_str(rule.kind)).with_text(rule.value.as_str());
    assert(r@.params =~= seq![
        optional(given(workspace_id)),
        optional(given(session_id)),
        SqlView::Text(persistence::rule_kind_name(rule.kind)),
        SqlView::Text(rule.value@),
    ]);
    r
}

/// Counts the rules of a session that are the same, in a workspace's database.
pub fn count_workspace_allow_rules(session_id: Option<&str>, rule: &AllowRule) -> (r: Statement)
    ensures
        r@ == (StatementView {
            sql: COUNT_WORKSPACE_RULES@,
            params: seq![
                optional(given(session_id)),
                SqlView::Text(persistence::rule_kind_name(rule.kind)),
                SqlView::Text(rule.value@),
            ],
        }),
{
    let r = Statement::new(COUNT_WORKSPACE_RULES).with_optional(session_id).with_text(persistence::allow_rule_kind_to_str(rule.kind)).with_text(rule.value.as_str());
    assert(r@.params =~= seq![
        optional(given(session_id)),
        SqlView::Text(persistence::rule_kind_name(rule.kind)),
        SqlView::Text(rule.value@),
    ]);
    r
}

/// Adds a rule to a scope, unless as many as `existing`, at least one, are the same.
pub fn add_allow_rule(
    existing: i64,
    workspace_id: Option<&str>,
    session_id: Option<&str>,
    rule: &AllowRule,
    now: &str,
) -> (r: Option<Statement>)
    ensures
        match r {
            Some(s) => existing <= 0 && s@ == (StatementView {
                sql: ADD_RULE@,
                params: seq![
                    optional(given(workspace_id)),
                    optional(given(session_id)),
                    SqlView::Text(persistence::rule_kind_name(rule.kind)),
                    SqlView::Text(rule.value@),
                    SqlView::Text(now@),
                ],
            }),
            None => existing > 0,
        },
{
    if existing > 0 {
        return None;
    }
    let r = Statement::new(ADD_RULE).with_optional(workspace_id).with_optional(
        session_id,
    ).with_text(persistence::allow_rule_kind_to_str(rule.kind)).with_text(
        rule.value.as_str(),
    ).with_text(now);
    assert(r@.params =~= seq![
        optional(given(workspace_id)),
        optional(given(session_id)),
        SqlView::Text(persistence::rule_kind_name(rule.kind)),
        SqlView::Text(rule.value@),
        SqlView::Text(now@),
    ]);
    Some(r)
}

/// Adds a rule to a workspace's database, unless as many as `existing`, at least one, are the
/// same.
pub fn add_workspace_allow_rule(
    existing: i64,
    session_id: Option<&str>,
    rule: &AllowRule,
    now: &str,
) -> (r: Option<Statement>)
    ensures
        match r {
            Some(s) => existing <= 0 && s@ == (StatementView {
                sql: ADD_WORKSPACE_RULE@,
                params: seq![
                    optional(given(session_id)),
                    SqlView::Text(persistence::rule_kind_name(rule.kind)),
                    SqlView::Text(rule.value@),
                    SqlView::Text(now@),
                ],
            }),
            None => existing > 0,
        },
{
    if existing > 0 {
        return None;
    }
    let r = Statement::new(ADD_WORKSPACE_RULE).with_optional(session_id).with_text(
        persistence::allow_rule_kind_to_str(rule.kind),
    ).with_text(rule.value.as_str()).with_text(now);
    assert(r@.params =~= seq![
        optional(given(session_id)),
        SqlView::Text(persistence::rule_kind_name(rule.kind)),
        SqlView::Text(rule.value@),
        SqlView::Text(now@),
    ]);
    Some(r)
}

/// Asks for the rules of a scope, in the order in which they came.
pub fn allow_rules(workspace_id: Option<&str>, session_id: Option<&str>) -> (r: Statement)
    ensures
        r@ == (StatementView {
            sql: LIST_RULES@,
            params: seq![
                optional(given(workspace_id)),
                optional(given(session_id)),
            ],
        }),
{
    let r = Statement::new(LIST_RULES).with_optional(workspace_id).with_optional(session_id);
    assert(r@.params =~= seq![
        optional(given(workspace_id)),
        optional(given(session_id)),
    ]);
    r
}

/// Asks for the rules of a session in a workspace's database.
pub fn workspace_allow_rules(session_id: Option<&str>) -> (r: Statement)
    ensures
        r@ == (StatementView {
            sql: LIST_WORKSPACE_RULES@,
            params: seq![
                optional(given(session_id)),
            ],
        }),
{
    let r = Statement::new(LIST_WORKSPACE_RULES).with_optional(session_id);
    assert(r@.params =~= seq![
        optional(given(session_id)),
    ]);
    r
}

// ---------------------------------------------------------------------------
// Messages and events
// ---------------------------------------------------------------------------

/// Drops a session's messages.
pub const DELETE_MESSAGES: &'static str = "DELETE FROM messages WHERE session_id = ?1";

/// Drops a session's messages.
pub fn delete_messages(session_id: &str) -> (r: Statement)
    ensures
        r@ == (StatementView {
            sql: DELETE_MESSAGES@,
            params: seq![
                SqlView::Text(session_id@),
            ],
        }),
{
    let r = Statement::new(DELETE_MESSAGES).with_text(session_id);
    assert(r@.params =~= seq![
        SqlView::Text(session_id@),
    ]);
    r
}

/// Keeps a message.
pub const INSERT_MESSAGE: &'static str = "\nINSERT INTO messages (session_id, role, content, ordinal, created_at)\nVALUES (?1, ?2, ?3, ?4, ?5)\n";

/// What keeps a message, which was handed over at the given place.
pub open spec fn message_kept(
    session_id: Seq<char>,
    message: StoredMessage,
    index: int,
    now: Seq<char>,
) -> StatementView {
    StatementView {
        sql: INSERT_MESSAGE@,
        params: seq![
            SqlView::Text(session_id),
            SqlView::Text(message.role@),
            SqlView::Text(message.content@),
            SqlView::Integer(
                if message.ordinal < 0 {
                    index
                } else {
                    message.ordinal as int
                },
            ),
            SqlView::Text(now),
        ],
    }
}

/// Keeps a message, which was handed over at the given place.
pub fn insert_message(session_id: &str, message: &StoredMessage, index: i64, now: &str) -> (r:
    Statement)
    ensures
        r@ == message_kept(session_id@, *message, index as int, now@),
{
    let r = Statement::new(INSERT_MESSAGE).with_text(session_id).with_text(
        message.role.as_str(),
    ).with_text(message.content.as_str()).with(
        SqlValue::Integer(message.stored_ordinal(index)),
    ).with_text(now);
    assert(r@.params =~= message_kept(session_id@, *message, index as int, now@).params);
    r
}

pub open spec fn statement_views(statements: Seq<Statement>) -> Seq<StatementView> {
    statements.map_values(|s: Statement| s@)
}

/// What keeps messages in place of those that a session had: the old ones are dropped, and
/// the new ones kept one after the other.
pub open spec fn messages_replaced(
    session_id: Seq<char>,
    messages: Seq<StoredMessage>,
    now: Seq<char>,
) -> Seq<StatementView> {
    seq![
        StatementView { sql: DELETE_MESSAGES@, params: seq![SqlView::Text(session_id)] },
    ] + Seq::new(messages.len(), |i: int| message_kept(session_id, messages[i], i, now))
}

/// Keeps the messages in place of those that the session had: the statements are to be run
/// in this order.
pub fn replace_messages(session_id: &str, messages: &[StoredMessage], now: &str) -> (r: Vec<
    Statement,
>)
    requires
        messages@.len() <= i64::MAX,
    ensures
        statement_views(r@) == messages_replaced(session_id@, messages@, now@),
{
    let ghost wanted = messages_replaced(session_id@, messages@, now@);
    let mut r: Vec<Statement> = Vec::new();
    r.push(delete_messages(session_id));
    assert(statement_views(r@) =~= wanted.take(1));
    let mut i: usize = 0;
    while i < messages.len()
        invariant
            i <= messages@.len() <= i64::MAX,
            wanted == messages_replaced(session_id@, messages@, now@),
            statement_views(r@) == wanted.take(i + 1),
        decreases messages@.len() - i,
    {
        let ghost before = statement_views(r@);
        let statement = insert_message(session_id, &messages[i], i as i64, now);
        let ghost shown = statement@;
        r.push(statement);
        assert(statement_views(r@) =~= before.push(shown));
        assert(wanted.take(i + 2) =~= wanted.take(i + 1).push(wanted[i + 1]));
        i += 1;
    }
    assert(wanted.take(i + 1) =~= wanted);
    r
}

/// Asks for a session's messages in their order.
pub const LIST_MESSAGES: &'static str = "\nSELECT role, content, ordinal\nFROM messages\nWHERE session_id = ?1\nORDER BY ordinal ASC\n";

/// Asks for a session's messages in their order.
pub fn messages(session_id: &str) -> (r: Statement)
    ensures
        r@ == (StatementView {
            sql: LIST_MESSAGES@,
            params: seq![
                SqlView::Text(session_id@),
            ],
        }),
{
    let r = Statement::new(LIST_MESSAGES).with_text(session_id);
    assert(r@.params =~= seq![
        SqlView::Text(session_id@),
    ]);
    r
}

/// Asks for the place behind a session's events.
pub const NEXT_EVENT: &'static str = "SELECT COALESCE(MAX(ordinal), -1) + 1 FROM session_events WHERE session_id = ?1";

/// Asks for the place behind a session's events.
pub fn next_event_ordinal(session_id: &str) -> (r: Statement)
    ensures
        r@ == (StatementView {
            sql: NEXT_EVENT@,
            params: seq![
                SqlView::Text(session_id@),
            ],
        }),
{
    let r = Statement::new(NEXT_EVENT).with_text(session_id);
    assert(r@.params =~= seq![
        SqlView::Text(session_id@),
    ]);
    r
}

/// Keeps an event.
pub const APPEND_EVENT: &'static str = "\nINSERT INTO session_events (session_id, event_json, ordinal, created_at)\nVALUES (?1, ?2, ?3, ?4)\n";

/// Keeps an event, given as it is printed, at a place.
pub fn append_event(session_id: &str, event_json: &str, ordinal: i64, now: &str) -> (r: Statement)
    ensures
        r@ == (StatementView {
            sql: APPEND_EVENT@,
            params: seq![
                SqlView::Text(session_id@),
                SqlView::Text(event_json@),
                SqlView::Integer(ordinal as int),
                SqlView::Text(now@),
            ],
        }),
{
    let r = Statement::new(APPEND_EVENT).with_text(session_id).with_text(event_json).with(SqlValue::Integer(ordinal)).with_text(now);
    assert(r@.params =~= seq![
        SqlView::Text(session_id@),
        SqlView::Text(event_json@),
        SqlView::Integer(ordinal as int),
        SqlView::Text(now@),
    ]);
    r
}

/// Asks for a session's events in their order.
pub const LIST_EVENTS: &'static str = "\nSELECT event_json\nFROM session_events\nWHERE session_id = ?1\nORDER BY ordinal ASC\n";

/// Asks for a session's events in their order.
pub fn events(session_id: &str) -> (r: Statement)
    ensures
        r@ == (StatementView {
            sql: LIST_EVENTS@,
            params: seq![
                SqlView::Text(session_id@),
            ],
        }),
{
    let r = Statement::new(LIST_EVENTS).with_text(session_id);
    assert(r@.params =~= seq![
        SqlView::Text(session_id@),
    ]);
    r
}

// ---------------------------------------------------------------------------
// Tool calls and blobs
// ---------------------------------------------------------------------------

/// Keeps a tool call.
pub const UPSERT_TOOL_CALL: &'static str = "\nINSERT INTO tool_calls (id, session_id, name, input_json, status, created_at, updated_at)\nVALUES (?1, ?2, ?3, ?4, ?5, ?6, ?6)\nON CONFLICT(id) DO UPDATE SET\n    input_json = excluded.input_json,\n    status = excluded.status,\n    updated_at = excluded.updated_at\n";

/// Keeps a tool call, with its input as it is printed.
pub fn upsert_tool_call_with(call: &ToolCallRecord, session_id: &str, input_json: &str, now: &str) -> (r: Statement)
    ensures
        r@ == (StatementView {
            sql: UPSERT_TOOL_CALL@,
            params: seq![
                SqlView::Text(call.id@),
                SqlView::Text(session_id@),
                SqlView::Text(call.name@),
                SqlView::Text(input_json@),
                SqlView::Text(call.status@),
                SqlView::Text(now@),
            ],
        }),
{
    let r = Statement::new(UPSERT_TOOL_CALL).with_text(call.id.as_str()).with_text(session_id).with_text(call.name.as_str()).with_text(input_json).with_text(call.status.as_str()).with_text(now);
    assert(r@.params =~= seq![
        SqlView::Text(call.id@),
        SqlView::Text(session_id@),
        SqlView::Text(call.name@),
        SqlView::Text(input_json@),
        SqlView::Text(call.status@),
        SqlView::Text(now@),
    ]);
    r
}

/// Keeps a tool call, or changes the one that is kept.
pub fn upsert_tool_call(call: &ToolCallRecord, session_id: &str, now: &str) -> (r: Statement)
    ensures
        r@ == (StatementView {
            sql: UPSERT_TOOL_CALL@,
            params: seq![
                SqlView::Text(call.id@),
                SqlView::Text(session_id@),
                SqlView::Text(call.name@),
                SqlView::Text(json::json_text(call.input_json@)),
                SqlView::Text(call.status@),
                SqlView::Text(now@),
            ],
        }),
{
    let input_json = call.input_json.to_text();
    upsert_tool_call_with(call, session_id, input_json.as_str(), now)
}

/// Keeps what a tool call has given back.
pub const ADD_TOOL_RESULT: &'static str = "\nINSERT INTO tool_results (tool_call_id, output, exit_code, blob_id, created_at)\nVALUES (?1, ?2, ?3, ?4, ?5)\n";

/// An exit code that may be missing.
pub open spec fn exit_value(code: Option<i32>) -> SqlView {
    match code {
        Some(n) => SqlView::Integer(n as int),
        None => SqlView::Null,
    }
}

/// What keeps a result of a tool call.
pub open spec fn result_kept(result: ToolResultRecord, now: Seq<char>) -> StatementView {
    StatementView {
        sql: ADD_TOOL_RESULT@,
        params: seq![
            SqlView::Text(result.tool_call_id@),
            SqlView::Text(result.output@),
            exit_value(result.exit_code),
            optional(text::opt(result.blob_id)),
            SqlView::Text(now),
        ],
    }
}

/// Keeps what a tool call has given back.
pub fn insert_tool_result(result: &ToolResultRecord, now: &str) -> (r: Statement)
    ensures
        r@ == result_kept(*result, now@),
{
    let code = match result.exit_code {
        Some(code) => SqlValue::Integer(code as i64),
        None => SqlValue::Null,
    };
    let r = Statement::new(ADD_TOOL_RESULT).with_text(result.tool_call_id.as_str()).with_text(
        result.output.as_str(),
    ).with(code).with_optional(as_optional(&result.blob_id)).with_text(now);
    assert(r@.params =~= result_kept(*result, now@).params);
    r
}

/// Notes that a tool call is done.
pub const COMPLETE_TOOL_CALL: &'static str = "UPDATE tool_calls SET status = 'completed', updated_at = ?1 WHERE id = ?2";

/// What notes that a tool call is done.
pub open spec fn call_completed(tool_call_id: Seq<char>, now: Seq<char>) -> StatementView {
    StatementView {
        sql: COMPLETE_TOOL_CALL@,
        params: seq![SqlView::Text(now), SqlView::Text(tool_call_id)],
    }
}

/// Notes that a tool call is done.
pub fn complete_tool_call(tool_call_id: &str, now: &str) -> (r: Statement)
    ensures
        r@ == call_completed(tool_call_id@, now@),
{
    let r = Statement::new(COMPLETE_TOOL_CALL).with_text(now).with_text(tool_call_id);
    assert(r@.params =~= call_completed(tool_call_id@, now@).params);
    r
}

/// Keeps what a tool call has given back, and notes that the call is done: the statements
/// are to be run in this order.
pub fn add_tool_result(result: &ToolResultRecord, now: &str) -> (r: Vec<Statement>)
    ensures
        statement_views(r@) == seq![
            result_kept(*result, now@),
            call_completed(result.tool_call_id@, now@),
        ],
{
    let mut r: Vec<Statement> = Vec::new();
    r.push(insert_tool_result(result, now));
    r.push(complete_tool_call(result.tool_call_id.as_str(), now));
    assert(statement_views(r@) =~= seq![
        result_kept(*result, now@),
        call_completed(result.tool_call_id@, now@),
    ]);
    r
}

/// Notes that a tool call has failed.
pub const FAIL_TOOL_CALL: &'static str = "UPDATE tool_calls SET status = 'failed', updated_at = ?1 WHERE id = ?2";

/// Notes that a tool call has failed.
pub fn mark_tool_failed(tool_call_id: &str, now: &str) -> (r: Statement)
    ensures
        r@ == (StatementView {
            sql: FAIL_TOOL_CALL@,
            params: seq![
                SqlView::Text(now@),
                SqlView::Text(tool_call_id@),
            ],
        }),
{
    let r = Statement::new(FAIL_TOOL_CALL).with_text(now).with_text(tool_call_id);
    assert(r@.params =~= seq![
        SqlView::Text(now@),
        SqlView::Text(tool_call_id@),
    ]);
    r
}

/// Keeps a blob.
pub const PUT_BLOB: &'static str = "\nINSERT INTO blobs (id, path, bytes, created_at)\nVALUES (?1, ?2, ?3, ?4)\nON CONFLICT(id) DO UPDATE SET\n    path = excluded.path,\n    bytes = excluded.bytes\n";

/// The columns of a blob, in the order in which they are written and read. Its size stands
/// there as a signed number with the same bits.
pub open spec fn blob_columns(b: BlobRecord) -> Seq<SqlView> {
    seq![
        SqlView::Text(b.id@),
        SqlView::Text(b.path@),
        SqlView::Integer(b.bytes as i64 as int),
        SqlView::Text(b.created_at@),
    ]
}

/// Keeps a blob, or changes the one that is kept.
pub fn put_blob(blob: &BlobRecord) -> (r: Statement)
    ensures
        r@ == (StatementView { sql: PUT_BLOB@, params: blob_columns(*blob) }),
{
    let r = Statement::new(PUT_BLOB).with_text(blob.id.as_str()).with_text(
        blob.path.as_str(),
    ).with(SqlValue::Integer(#[verifier::truncate] (blob.bytes as i64))).with_text(
        blob.created_at.as_str(),
    );
    assert(r@.params =~= blob_columns(*blob));
    r
}

/// Asks for a blob.
pub const GET_BLOB: &'static str = "SELECT id, path, bytes, created_at FROM blobs WHERE id = ?1";

/// Asks for a blob.
pub fn blob(id: &str) -> (r: Statement)
    ensures
        r@ == (StatementView {
            sql: GET_BLOB@,
            params: seq![
                SqlView::Text(id@),
            ],
        }),
{
    let r = Statement::new(GET_BLOB).with_text(id);
    assert(r@.params =~= seq![
        SqlView::Text(id@),
    ]);
    r
}

// ---------------------------------------------------------------------------
// Rows
// ---------------------------------------------------------------------------

/// Why a row cannot be read.
#[derive(Debug)]
pub enum RowError {
    /// The column is not there, or holds something else.
    Column(usize),
    /// The column holds a name that nothing has.
    Name(String),
}

/// The content of a `RowError`.
pub enum RowErrorView {
    Column(nat),
    Name(Seq<char>),
}

impl View for RowError {
    type V = RowErrorView;

    open spec fn view(&self) -> RowErrorView {
        match self {
            RowError::Column(i) => RowErrorView::Column(*i as nat),
            RowError::Name(s) => RowErrorView::Name(s@),
        }
    }
}

/// The text in a column.
pub open spec fn text_in(row: Seq<SqlView>, i: nat) -> Result<Seq<char>, RowErrorView> {
    if i < row.len() && row[i as int] is Text {
        Ok(row[i as int]->Text_0)
    } else {
        Err(RowErrorView::Column(i))
    }
}

/// The text in a column that may be empty.
pub open spec fn optional_in(row: Seq<SqlView>, i: nat) -> Result<
    Option<Seq<char>>,
    RowErrorView,
> {
    if i < row.len() && row[i as int] is Null {
        Ok(None)
    } else {
        match text_in(row, i) {
            Ok(s) => Ok(Some(s)),
            Err(e) => Err(e),
        }
    }
}

/// The number in a column.
pub open spec fn integer_in(row: Seq<SqlView>, i: nat) -> Result<int, RowErrorView> {
    if i < row.len() && row[i as int] is Integer {
        Ok(row[i as int]->Integer_0)
    } else {
        Err(RowErrorView::Column(i))
    }
}

fn read_text(row: &Vec<SqlValue>, i: usize) -> (r: Result<String, RowError>)
    ensures
        match r {
            Ok(s) => text_in(value_views(row@), i as nat) == Ok::<Seq<char>, RowErrorView>(s@),
            Err(e) => text_in(value_views(row@), i as nat) == Err::<Seq<char>, RowErrorView>(e@),
        },
{
    assert(value_views(row@).len() == row@.len());
    if i < row.len() {
        match &row[i] {
            SqlValue::Text(s) => Ok(s.clone()),
            _ => Err(RowError::Column(i)),
        }
    } else {
        Err(RowError::Column(i))
    }
}

fn read_optional(row: &Vec<SqlValue>, i: usize) -> (r: Result<Option<String>, RowError>)
    ensures
        match r {
            Ok(s) => optional_in(value_views(row@), i as nat) == Ok::<
                Option<Seq<char>>,
                RowErrorView,
            >(text::opt(s)),
            Err(e) => optional_in(value_views(row@), i as nat) == Err::<
                Option<Seq<char>>,
                RowErrorView,
            >(e@),
        },
{
    assert(value_views(row@).len() == row@.len());
    if i < row.len() {
        match &row[i] {
            SqlValue::Text(s) => Ok(Some(s.clone())),
            SqlValue::Null => Ok(None),
            _ => Err(RowError::Column(i)),
        }
    } else {
        Err(RowError::Column(i))
    }
}

fn read_integer(row: &Vec<SqlValue>, i: usize) -> (r: Result<i64, RowError>)
    ensures
        match r {
            Ok(n) => integer_in(value_views(row@), i as nat) == Ok::<int, RowErrorView>(n as int),
            Err(e) => integer_in(value_views(row@), i as nat) == Err::<int, RowErrorView>(e@),
        },
{
    assert(value_views(row@).len() == row@.len());
    if i < row.len() {
        match &row[i] {
            SqlValue::Integer(n) => Ok(*n),
            _ => Err(RowError::Column(i)),
        }
    } else {
        Err(RowError::Column(i))
    }
}

/// The first reason why a row cannot be read as a workspace.
pub open spec fn workspace_error(row: Seq<SqlView>) -> Option<RowErrorView> {
    if text_in(row, 1) is Err {
        Some(text_in(row, 1)->Err_0)
    } else if text_in(row, 2) is Err {
        Some(text_in(row, 2)->Err_0)
    } else if text_in(row, 3) is Err {
        Some(text_in(row, 3)->Err_0)
    } else if text_in(row, 4) is Err {
        Some(text_in(row, 4)->Err_0)
    } else {
        None
    }
}

/// Whether a row holds a workspace.
pub open spec fn workspace_in(row: Seq<SqlView>, x: WorkspaceRecord) -> bool {
    &&& x.path@ == text_in(row, 1)->Ok_0
    &&& x.display_name@ == text_in(row, 2)->Ok_0
    &&& x.created_at@ == text_in(row, 3)->Ok_0
    &&& x.updated_at@ == text_in(row, 4)->Ok_0
}

/// Reads a workspace from a row.
pub fn read_workspace(id: WorkspaceId, row: &Vec<SqlValue>) -> (r: Result<WorkspaceRecord, RowError>)
    ensures
        match r {
            Ok(x) => workspace_error(value_views(row@)) is None && workspace_in(value_views(row@), x) && x.id == id,
            Err(e) => workspace_error(value_views(row@)) == Some(e@),
        },
{
    let path = match read_text(row, 1) {
        Ok(v) => v,
        Err(e) => {
            return Err(e);
        },
    };
    let display_name = match read_text(row, 2) {
        Ok(v) => v,
        Err(e) => {
            return Err(e);
        },
    };
    let created_at = match read_text(row, 3) {
        Ok(v) => v,
        Err(e) => {
            return Err(e);
        },
    };
    let updated_at = match read_text(row, 4) {
        Ok(v) => v,
        Err(e) => {
            return Err(e);
        },
    };
    Ok(WorkspaceRecord { id, path, display_name, created_at, updated_at })
}

/// The first reason why a row cannot be read as a worktree.
pub open spec fn worktree_error(row: Seq<SqlView>) -> Option<RowErrorView> {
    if text_in(row, 1) is Err {
        Some(text_in(row, 1)->Err_0)
    } else if text_in(row, 2) is Err {
        Some(text_in(row, 2)->Err_0)
    } else if text_in(row, 3) is Err {
        Some(text_in(row, 3)->Err_0)
    } else if text_in(row, 4) is Err {
        Some(text_in(row, 4)->Err_0)
    } else if text_in(row, 5) is Err {
        Some(text_in(row, 5)->Err_0)
    } else if text_in(row, 6) is Err {
        Some(text_in(row, 6)->Err_0)
    } else if text_in(row, 7) is Err {
        Some(text_in(row, 7)->Err_0)
    } else if text_in(row, 8) is Err {
        Some(text_in(row, 8)->Err_0)
    } else {
        None
    }
}

/// Whether a row holds a worktree.
pub open spec fn worktree_in(row: Seq<SqlView>, x: WorktreeRecord) -> bool {
    &&& x.source_repo@ == text_in(row, 1)->Ok_0
    &&& x.worktree_path@ == text_in(row, 2)->Ok_0
    &&& x.branch_name@ == text_in(row, 3)->Ok_0
    &&& x.base_branch@ == text_in(row, 4)->Ok_0
    &&& x.base_commit@ == text_in(row, 5)->Ok_0
    &&& x.status == persistence::worktree_named(text_in(row, 6)->Ok_0)
    &&& x.created_at@ == text_in(row, 7)->Ok_0
    &&& x.updated_at@ == text_in(row, 8)->Ok_0
}

/// Reads a worktree from a row.
pub fn read_worktree(id: WorkspaceId, row: &Vec<SqlValue>) -> (r: Result<WorktreeRecord, RowError>)
    ensures
        match r {
            Ok(x) => worktree_error(value_views(row@)) is None && worktree_in(value_views(row@), x) && x.id == id,
            Err(e) => worktree_error(value_views(row@)) == Some(e@),
        },
{
    let source_repo = match read_text(row, 1) {
        Ok(v) => v,
        Err(e) => {
            return Err(e);
        },
    };
    let worktree_path = match read_text(row, 2) {
        Ok(v) => v,
        Err(e) => {
            return Err(e);
        },
    };
    let branch_name = match read_text(row, 3) {
        Ok(v) => v,
        Err(e) => {
            return Err(e);
        },
    };
    let base_branch = match read_text(row, 4) {
        Ok(v) => v,
        Err(e) => {
            return Err(e);
        },
    };
    let base_commit = match read_text(row, 5) {
        Ok(v) => v,
        Err(e) => {
            return Err(e);
        },
    };
    let status = match read_text(row, 6) {
        Ok(v) => v,
        Err(e) => {
            return Err(e);
        },
    };
    let status = WorktreeStatus::from_db_value(status.as_str());
    let created_at = match read_text(row, 7) {
        Ok(v) => v,
        Err(e) => {
            return Err(e);
        },
    };
    let updated_at = match read_text(row, 8) {
        Ok(v) => v,
        Err(e) => {
            return Err(e);
        },
    };
    Ok(WorktreeRecord { id, source_repo, worktree_path, branch_name, base_branch, base_commit, status, created_at, updated_at })
}

/// The first reason why a row cannot be read as a session.
pub open spec fn session_error(row: Seq<SqlView>) -> Option<RowErrorView> {
    if text_in(row, 2) is Err {
        Some(text_in(row, 2)->Err_0)
    } else if text_in(row, 3) is Err {
        Some(text_in(row, 3)->Err_0)
    } else if text_in(row, 4) is Err {
        Some(text_in(row, 4)->Err_0)
    } else if persistence::status_named(text_in(row, 4)->Ok_0) is None {
        Some(RowErrorView::Name(text_in(row, 4)->Ok_0))
    } else if optional_in(row, 5) is Err {
        Some(optional_in(row, 5)->Err_0)
    } else if text_in(row, 6) is Err {
        Some(text_in(row, 6)->Err_0)
    } else if text_in(row, 7) is Err {
        Some(text_in(row, 7)->Err_0)
    } else {
        None
    }
}

/// Whether a row holds a session.
pub open spec fn session_in(row: Seq<SqlView>, x: SessionRecord) -> bool {
    &&& x.provider_id@ == text_in(row, 2)->Ok_0
    &&& x.model@ == text_in(row, 3)->Ok_0
    &&& Some(x.status) == persistence::status_named(text_in(row, 4)->Ok_0)
    &&& text::opt(x.display_name) == optional_in(row, 5)->Ok_0
    &&& x.created_at@ == text_in(row, 6)->Ok_0
    &&& x.updated_at@ == text_in(row, 7)->Ok_0
}

/// Reads a session from a row.
pub fn read_session(id: SessionId, workspace_id: WorkspaceId, row: &Vec<SqlValue>) -> (r: Result<SessionRecord, RowError>)
    ensures
        match r {
            Ok(x) => session_error(value_views(row@)) is None && session_in(value_views(row@), x) && x.id == id && x.workspace_id == workspace_id,
            Err(e) => session_error(value_views(row@)) == Some(e@),
        },
{
    let provider_id = match read_text(row, 2) {
        Ok(v) => v,
        Err(e) => {
            return Err(e);
        },
    };
    let model = match read_text(row, 3) {
        Ok(v) => v,
        Err(e) => {
            return Err(e);
        },
    };
    let status = match read_text(row, 4) {
        Ok(v) => v,
        Err(e) => {
            return Err(e);
        },
    };
    let status = match persistence::parse_session_status(status.as_str()) {
        Some(v) => v,
        None => {
            return Err(RowError::Name(status));
        },
    };
    let display_name = match read_optional(row, 5) {
        Ok(v) => v,
        Err(e) => {
            return Err(e);
        },
    };
    let created_at = match read_text(row, 6) {
        Ok(v) => v,
        Err(e) => {
            return Err(e);
        },
    };
    let updated_at = match read_text(row, 7) {
        Ok(v) => v,
        Err(e) => {
            return Err(e);
        },
    };
    Ok(SessionRecord { id, workspace_id, provider_id, model, status, display_name, created_at, updated_at })
}

/// The first reason why a row cannot be read as where credentials come from.
pub open spec fn credential_source_error(row: Seq<SqlView>) -> Option<RowErrorView> {
    if text_in(row, 0) is Err {
        Some(text_in(row, 0)->Err_0)
    } else if text_in(row, 1) is Err {
        Some(text_in(row, 1)->Err_0)
    } else if optional_in(row, 2) is Err {
        Some(optional_in(row, 2)->Err_0)
    } else if text_in(row, 3) is Err {
        Some(text_in(row, 3)->Err_0)
    } else {
        None
    }
}

/// Whether a row holds where credentials come from.
pub open spec fn credential_source_in(row: Seq<SqlView>, x: CredentialSourceRecord) -> bool {
    &&& x.provider_id@ == text_in(row, 0)->Ok_0
    &&& x.source@ == text_in(row, 1)->Ok_0
    &&& text::opt(x.identity_hint) == optional_in(row, 2)->Ok_0
    &&& x.updated_at@ == text_in(row, 3)->Ok_0
}

/// Reads where credentials come from from a row.
pub fn read_credential_source(row: &Vec<SqlValue>) -> (r: Result<CredentialSourceRecord, RowError>)
    ensures
        match r {
            Ok(x) => credential_source_error(value_views(row@)) is None && credential_source_in(value_views(row@), x),
            Err(e) => credential_source_error(value_views(row@)) == Some(e@),
        },
{
    let provider_id = match read_text(row, 0) {
        Ok(v) => v,
        Err(e) => {
            return Err(e);
        },
    };
    let source = match read_text(row, 1) {
        Ok(v) => v,
        Err(e) => {
            return Err(e);
        },
    };
    let identity_hint = match read_optional(row, 2) {
        Ok(v) => v,
        Err(e) => {
            return Err(e);
        },
    };
    let updated_at = match read_text(row, 3) {
        Ok(v) => v,
        Err(e) => {
            return Err(e);
        },
    };
    Ok(CredentialSourceRecord { provider_id, source, identity_hint, updated_at })
}

/// The first reason why a row cannot be read as a rule.
pub open spec fn allow_rule_error(row: Seq<SqlView>) -> Option<RowErrorView> {
    if text_in(row, 0) is Err {
        Some(text_in(row, 0)->Err_0)
    } else if persistence::rule_kind_named(text_in(row, 0)->Ok_0) is None {
        Some(RowErrorView::Name(text_in(row, 0)->Ok_0))
    } else if text_in(row, 1) is Err {
        Some(text_in(row, 1)->Err_0)
    } else {
        None
    }
}

/// Whether a row holds a rule.
pub open spec fn allow_rule_in(row: Seq<SqlView>, x: AllowRule) -> bool {
    &&& Some(x.kind) == persistence::rule_kind_named(text_in(row, 0)->Ok_0)
    &&& x.value@ == text_in(row, 1)->Ok_0
}

/// Reads a rule from a row.
pub fn read_allow_rule(row: &Vec<SqlValue>) -> (r: Result<AllowRule, RowError>)
    ensures
        match r {
            Ok(x) => allow_rule_error(value_views(row@)) is None && allow_rule_in(value_views(row@), x),
            Err(e) => allow_rule_error(value_views(row@)) == Some(e@),
        },
{
    let kind = match read_text(row, 0) {
        Ok(v) => v,
        Err(e) => {
            return Err(e);
        },
    };
    let kind = match persistence::parse_allow_rule_kind(kind.as_str()) {
        Some(v) => v,
        None => {
            return Err(RowError::Name(kind));
        },
    };
    let value = match read_text(row, 1) {
        Ok(v) => v,
        Err(e) => {
            return Err(e);
        },
    };
    Ok(AllowRule { kind, value })
}

/// The first reason why a row cannot be read as a message.
pub open spec fn message_error(row: Seq<SqlView>) -> Option<RowErrorView> {
    if text_in(row, 0) is Err {
        Some(text_in(row, 0)->Err_0)
    } else if text_in(row, 1) is Err {
        Some(text_in(row, 1)->Err_0)
    } else if integer_in(row, 2) is Err {
        Some(integer_in(row, 2)->Err_0)
    } else {
        None
    }
}

/// Whether a row holds a message.
pub open spec fn message_in(row: Seq<SqlView>, x: StoredMessage) -> bool {
    &&& x.role@ == text_in(row, 0)->Ok_0
    &&& x.content@ == text_in(row, 1)->Ok_0
    &&& x.ordinal == integer_in(row, 2)->Ok_0
}

/// Reads a message from a row.
pub fn read_message(row: &Vec<SqlValue>) -> (r: Result<StoredMessage, RowError>)
    ensures
        match r {
            Ok(x) => message_error(value_views(row@)) is None && message_in(value_views(row@), x),
            Err(e) => message_error(value_views(row@)) == Some(e@),
        },
{
    let role = match read_text(row, 0) {
        Ok(v) => v,
        Err(e) => {
            return Err(e);
        },
    };
    let content = match read_text(row, 1) {
        Ok(v) => v,
        Err(e) => {
            return Err(e);
        },
    };
    let ordinal = match read_integer(row, 2) {
        Ok(v) => v,
        Err(e) => {
            return Err(e);
        },
    };
    Ok(StoredMessage { role, content, ordinal })
}

/// The first reason why a row cannot be read as a blob.
pub open spec fn blob_error(row: Seq<SqlView>) -> Option<RowErrorView> {
    if text_in(row, 0) is Err {
        Some(text_in(row, 0)->Err_0)
    } else if text_in(row, 1) is Err {
        Some(text_in(row, 1)->Err_0)
    } else if integer_in(row, 2) is Err {
        Some(integer_in(row, 2)->Err_0)
    } else if text_in(row, 3) is Err {
        Some(text_in(row, 3)->Err_0)
    } else {
        None
    }
}

/// Whether a row holds a blob.
pub open spec fn blob_in(row: Seq<SqlView>, x: BlobRecord) -> bool {
    &&& x.id@ == text_in(row, 0)->Ok_0
    &&& x.path@ == text_in(row, 1)->Ok_0
    &&& x.bytes == (integer_in(row, 2)->Ok_0 as i64) as u64
    &&& x.created_at@ == text_in(row, 3)->Ok_0
}

/// Reads a blob from a row.
pub fn read_blob(row: &Vec<SqlValue>) -> (r: Result<BlobRecord, RowError>)
    ensures
        match r {
            Ok(x) => blob_error(value_views(row@)) is None && blob_in(value_views(row@), x),
            Err(e) => blob_error(value_views(row@)) == Some(e@),
        },
{
    let id = match read_text(row, 0) {
        Ok(v) => v,
        Err(e) => {
            return Err(e);
        },
    };
    let path = match read_text(row, 1) {
        Ok(v) => v,
        Err(e) => {
            return Err(e);
        },
    };
    let bytes = match read_integer(row, 2) {
        Ok(v) => v,
        Err(e) => {
            return Err(e);
        },
    };
    let bytes = #[verifier::truncate] (bytes as u64);
    let created_at = match read_text(row, 3) {
        Ok(v) => v,
        Err(e) => {
            return Err(e);
        },
    };
    Ok(BlobRecord { id, path, bytes, created_at })
}

// ---------------------------------------------------------------------------
// Laws
// ---------------------------------------------------------------------------

/// A session is read from its columns as it was written.
pub proof fn stored_sessions_are_read_back(id: Seq<char>, workspace_id: Seq<char>, s: SessionRecord)
    ensures
        session_error(session_columns(id, workspace_id, s)) is None,
        session_in(session_columns(id, workspace_id, s), s),
{
    persistence::names_are_read_back(WorktreeStatus::Active, s.status, AllowRuleKind::ToolName);
    let row = session_columns(id, workspace_id, s);
    assert(row[2] == SqlView::Text(s.provider_id@) && row[5] == optional(text::opt(s.display_name)));
}

/// A worktree is read from its columns as it was written.
pub proof fn stored_worktrees_are_read_back(id: Seq<char>, w: WorktreeRecord)
    ensures
        worktree_error(worktree_columns(id, w)) is None,
        worktree_in(worktree_columns(id, w), w),
{
    persistence::names_are_read_back(w.status, SessionStatus::Idle, AllowRuleKind::ToolName);
}

/// A rule is read from its columns as it was written.
pub proof fn stored_rules_are_read_back(rule: AllowRule)
    ensures
        allow_rule_error(
            seq![
                SqlView::Text(persistence::rule_kind_name(rule.kind)),
                SqlView::Text(rule.value@),
            ],
        ) is None,
        allow_rule_in(
            seq![
                SqlView::Text(persistence::rule_kind_name(rule.kind)),
                SqlView::Text(rule.value@),
            ],
            rule,
        ),
{
    persistence::names_are_read_back(WorktreeStatus::Active, SessionStatus::Idle, rule.kind);
}

/// A blob is read from its columns as it was written, however large it is.
pub proof fn stored_blobs_are_read_back(b: BlobRecord)
    ensures
        blob_error(blob_columns(b)) is None,
        blob_in(blob_columns(b), b),
{
    let n = b.bytes;
    assert((n as i64) as u64 == n) by (bit_vector);
}

/// The columns of a session stand in the order in which the statements name them: the ids of
/// the session and its workspace, the provider, the model, the state, the name and the two
/// times.
pub proof fn columns_of_a_session_stand_in_order(
    id: Seq<char>,
    workspace_id: Seq<char>,
    s: SessionRecord,
)
    ensures
        ({
            let row = session_columns(id, workspace_id, s);
            &&& row.len() == 8
            &&& row[0] == SqlView::Text(id)
            &&& row[1] == SqlView::Text(workspace_id)
            &&& row[2] == SqlView::Text(s.provider_id@)
            &&& row[3] == SqlView::Text(s.model@)
            &&& row[4] == SqlView::Text(persistence::status_name(s.status))
            &&& s.display_name is None ==> row[5] == SqlView::Null
            &&& s.display_name matches Some(n) ==> row[5] == SqlView::Text(n@)
            &&& row[6] == SqlView::Text(s.created_at@)
            &&& row[7] == SqlView::Text(s.updated_at@)
        }),
{
}

/// The columns of a worktree stand in the order in which the statements name them.
pub proof fn columns_of_a_worktree_stand_in_order(id: Seq<char>, w: WorktreeRecord)
    ensures
        ({
            let row = worktree_columns(id, w);
            &&& row.len() == 9
            &&& row[0] == SqlView::Text(id)
            &&& row[1] == SqlView::Text(w.source_repo@)
            &&& row[2] == SqlView::Text(w.worktree_path@)
            &&& row[3] == SqlView::Text(w.branch_name@)
            &&& row[4] == SqlView::Text(w.base_branch@)
            &&& row[5] == SqlView::Text(w.base_commit@)
            &&& row[6] == SqlView::Text(persistence::worktree_name(w.status))
            &&& row[7] == SqlView::Text(w.created_at@)
            &&& row[8] == SqlView::Text(w.updated_at@)
        }),
{
}

/// The messages of a session take the place of those that were stored: these are deleted
/// first, and each message is then stored with its role and its content, at its own place or,
/// where it has none, at its place in the list.
pub proof fn messages_take_the_place_of_the_stored_ones(
    session_id: Seq<char>,
    messages: Seq<StoredMessage>,
    now: Seq<char>,
    i: int,
)
    requires
        0 <= i < messages.len(),
    ensures
        ({
            let all = messages_replaced(session_id, messages, now);
            &&& all.len() == messages.len() + 1
            &&& all[0].sql == DELETE_MESSAGES@
            &&& all[0].params == seq![SqlView::Text(session_id)]
            &&& all[i + 1].sql == INSERT_MESSAGE@
            &&& all[i + 1].params == seq![
                SqlView::Text(session_id),
                SqlView::Text(messages[i].role@),
                SqlView::Text(messages[i].content@),
                SqlView::Integer(
                    if messages[i].ordinal < 0 {
                        i
                    } else {
                        messages[i].ordinal as int
                    },
                ),
                SqlView::Text(now),
            ]
        }),
{
}

/// What came of a tool call is stored under the call, with its output, its exit code and
/// where the whole output lies, and the call is then marked as completed.
pub proof fn a_result_is_stored_under_its_call(result: ToolResultRecord, now: Seq<char>)
    ensures
        result_kept(result, now).params.len() == 5,
        result_kept(result, now).params[0] == SqlView::Text(result.tool_call_id@),
        result_kept(result, now).params[1] == SqlView::Text(result.output@),
        result.exit_code matches Some(n) ==> result_kept(result, now).params[2]
            == SqlView::Integer(n as int),
        result.exit_code is None ==> result_kept(result, now).params[2] == SqlView::Null,
        result.blob_id matches Some(b) ==> result_kept(result, now).params[3] == SqlView::Text(b@),
        result.blob_id is None ==> result_kept(result, now).params[3] == SqlView::Null,
        call_completed(result.tool_call_id@, now).params == seq![
            SqlView::Text(now),
            SqlView::Text(result.tool_call_id@),
        ],
{
}

/// What a row holds is read by its place, and only as what it is: a text as a text, a number
/// as a number, and nothing only where nothing may stand.
pub proof fn columns_are_read_by_their_place(row: Seq<SqlView>, i: nat, s: Seq<char>, n: int)
    ensures
        i < row.len() && row[i as int] == SqlView::Text(s) ==> text_in(row, i) == Ok::<
            Seq<char>,
            RowErrorView,
        >(s) && optional_in(row, i) == Ok::<Option<Seq<char>>, RowErrorView>(Some(s))
            && integer_in(row, i) is Err,
        i < row.len() && row[i as int] == SqlView::Integer(n) ==> integer_in(row, i) == Ok::<
            int,
            RowErrorView,
        >(n) && text_in(row, i) is Err && optional_in(row, i) is Err,
        i < row.len() && row[i as int] == SqlView::Null ==> optional_in(row, i) == Ok::<
            Option<Seq<char>>,
            RowErrorView,
        >(None) && text_in(row, i) is Err && integer_in(row, i) is Err,
        i >= row.len() ==> text_in(row, i) == Err::<Seq<char>, RowErrorView>(
            RowErrorView::Column(i),
        ) && optional_in(row, i) is Err && integer_in(row, i) is Err,
{
}

/// A message, a workspace and where a credential came from are read from their columns in
/// the order of the statements.
pub proof fn rows_are_read_in_the_order_of_their_columns(
    a: Seq<char>,
    b: Seq<char>,
    c: Seq<char>,
    d: Seq<char>,
    id: Seq<char>,
    n: int,
    m: StoredMessage,
    w: WorkspaceRecord,
    s: CredentialSourceRecord,
)
    ensures
        message_error(seq![SqlView::Text(a), SqlView::Text(b), SqlView::Integer(n)]) is None,
        message_in(seq![SqlView::Text(a), SqlView::Text(b), SqlView::Integer(n)], m) <==> m.role@
            == a && m.content@ == b && m.ordinal == n,
        workspace_error(
            seq![
                SqlView::Text(id),
                SqlView::Text(a),
                SqlView::Text(b),
                SqlView::Text(c),
                SqlView::Text(d),
            ],
        ) is None,
        workspace_in(
            seq![
                SqlView::Text(id),
                SqlView::Text(a),
                SqlView::Text(b),
                SqlView::Text(c),
                SqlView::Text(d),
            ],
            w,
        ) <==> w.path@ == a && w.display_name@ == b && w.created_at@ == c && w.updated_at@ == d,
        credential_source_error(
            seq![SqlView::Text(a), SqlView::Text(b), SqlView::Text(c), SqlView::Text(d)],
        ) is None,
        credential_source_in(
            seq![SqlView::Text(a), SqlView::Text(b), SqlView::Text(c), SqlView::Text(d)],
            s,
        ) <==> s.provider_id@ == a && s.source@ == b && text::opt(s.identity_hint) == Some(c)
            && s.updated_at@ == d,
        credential_source_in(
            seq![SqlView::Text(a), SqlView::Text(b), SqlView::Null, SqlView::Text(d)],
            s,
        ) <==> s.provider_id@ == a && s.source@ == b && text::opt(s.identity_hint) is None
            && s.updated_at@ == d,
{
}

} // verus!
