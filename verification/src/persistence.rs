//! What is kept of workspaces and sessions, and how the databases that keep it change from
//! version to version.
use vstd::prelude::*;

pub mod statements;

use crate::json::Json;
use crate::runtime::types::{AllowRuleKind, SessionId, SessionStatus};
use crate::text;
use crate::tools::paths;

verus! {

/// The version of the application's database.
pub const APP_SCHEMA_VERSION: i64 = 3;

/// The version of a workspace's database.
pub const WORKSPACE_SCHEMA_VERSION: i64 = 2;

/// The tables of the application's database at first.
pub const APP_TABLES: &'static str = "\nCREATE TABLE workspaces (\n    id TEXT PRIMARY KEY,\n    path TEXT NOT NULL UNIQUE,\n    display_name TEXT NOT NULL,\n    created_at TEXT NOT NULL,\n    updated_at TEXT NOT NULL\n);\n\nCREATE TABLE sessions (\n    id TEXT PRIMARY KEY,\n    workspace_id TEXT NOT NULL,\n    provider_id TEXT NOT NULL,\n    model TEXT NOT NULL,\n    status TEXT NOT NULL,\n    created_at TEXT NOT NULL,\n    updated_at TEXT NOT NULL,\n    FOREIGN KEY(workspace_id) REFERENCES workspaces(id) ON DELETE CASCADE\n);\n\nCREATE TABLE settings (\n    key TEXT PRIMARY KEY,\n    value_json TEXT NOT NULL,\n    updated_at TEXT NOT NULL\n);\n\nCREATE TABLE provider_configs (\n    provider_id TEXT PRIMARY KEY,\n    config_json TEXT NOT NULL,\n    updated_at TEXT NOT NULL\n);\n\nCREATE TABLE credential_sources (\n    provider_id TEXT PRIMARY KEY,\n    source TEXT NOT NULL,\n    identity_hint TEXT,\n    updated_at TEXT NOT NULL\n);\n\nCREATE TABLE allow_rules (\n    id INTEGER PRIMARY KEY AUTOINCREMENT,\n    workspace_id TEXT,\n    session_id TEXT,\n    kind TEXT NOT NULL,\n    value TEXT NOT NULL,\n    created_at TEXT NOT NULL,\n    UNIQUE(workspace_id, session_id, kind, value)\n);\n\nCREATE INDEX idx_sessions_workspace ON sessions(workspace_id);\nCREATE INDEX idx_allow_rules_scope ON allow_rules(workspace_id, session_id);\n";

/// The table of worktrees in the application's database.
pub const WORKTREE_TABLE: &'static str = "\nCREATE TABLE worktrees (\n    id TEXT PRIMARY KEY,\n    source_repo TEXT NOT NULL,\n    worktree_path TEXT NOT NULL,\n    branch_name TEXT NOT NULL,\n    base_branch TEXT NOT NULL,\n    base_commit TEXT NOT NULL,\n    status TEXT NOT NULL,\n    created_at TEXT NOT NULL,\n    updated_at TEXT NOT NULL,\n    FOREIGN KEY(id) REFERENCES workspaces(id) ON DELETE CASCADE\n);\n\nCREATE INDEX idx_worktrees_source ON worktrees(source_repo);\n";

/// The tables of a workspace's database at first.
pub const WORKSPACE_TABLES: &'static str = "\nCREATE TABLE sessions (\n    id TEXT PRIMARY KEY,\n    workspace_id TEXT NOT NULL,\n    provider_id TEXT NOT NULL,\n    model TEXT NOT NULL,\n    status TEXT NOT NULL,\n    created_at TEXT NOT NULL,\n    updated_at TEXT NOT NULL\n);\n\nCREATE TABLE messages (\n    id INTEGER PRIMARY KEY AUTOINCREMENT,\n    session_id TEXT NOT NULL,\n    role TEXT NOT NULL,\n    content TEXT NOT NULL,\n    ordinal INTEGER NOT NULL,\n    created_at TEXT NOT NULL,\n    UNIQUE(session_id, ordinal),\n    FOREIGN KEY(session_id) REFERENCES sessions(id) ON DELETE CASCADE\n);\n\nCREATE TABLE session_events (\n    id INTEGER PRIMARY KEY AUTOINCREMENT,\n    session_id TEXT NOT NULL,\n    event_json TEXT NOT NULL,\n    ordinal INTEGER NOT NULL,\n    created_at TEXT NOT NULL,\n    UNIQUE(session_id, ordinal),\n    FOREIGN KEY(session_id) REFERENCES sessions(id) ON DELETE CASCADE\n);\n\nCREATE TABLE tool_calls (\n    id TEXT PRIMARY KEY,\n    session_id TEXT NOT NULL,\n    name TEXT NOT NULL,\n    input_json TEXT NOT NULL,\n    status TEXT NOT NULL,\n    created_at TEXT NOT NULL,\n    updated_at TEXT NOT NULL,\n    FOREIGN KEY(session_id) REFERENCES sessions(id) ON DELETE CASCADE\n);\n\nCREATE TABLE tool_results (\n    id INTEGER PRIMARY KEY AUTOINCREMENT,\n    tool_call_id TEXT NOT NULL,\n    output TEXT NOT NULL,\n    exit_code INTEGER,\n    blob_id TEXT,\n    created_at TEXT NOT NULL,\n    FOREIGN KEY(tool_call_id) REFERENCES tool_calls(id) ON DELETE CASCADE\n);\n\nCREATE TABLE blobs (\n    id TEXT PRIMARY KEY,\n    path TEXT NOT NULL,\n    bytes INTEGER NOT NULL,\n    created_at TEXT NOT NULL\n);\n\nCREATE TABLE allow_rules (\n    id INTEGER PRIMARY KEY AUTOINCREMENT,\n    session_id TEXT,\n    kind TEXT NOT NULL,\n    value TEXT NOT NULL,\n    created_at TEXT NOT NULL,\n    UNIQUE(session_id, kind, value)\n);\n\nCREATE INDEX idx_messages_session ON messages(session_id, ordinal);\nCREATE INDEX idx_events_session ON session_events(session_id, ordinal);\nCREATE INDEX idx_tool_calls_session ON tool_calls(session_id);\n";

/// The column for the names of sessions.
pub const DISPLAY_NAME_COLUMN: &'static str = "\nALTER TABLE sessions ADD COLUMN display_name TEXT;\n";

// ---------------------------------------------------------------------------
// Records
// ---------------------------------------------------------------------------

/// Identifies a workspace.
#[derive(Debug, Clone, Copy, PartialEq, Eq, Structural, Hash)]
pub struct WorkspaceId(pub u128);

/// A workspace that has been opened.
#[derive(Debug)]
pub struct WorkspaceRecord {
    pub id: WorkspaceId,
    pub path: String,
    pub display_name: String,
    pub created_at: String,
    pub updated_at: String,
}

/// A session.
#[derive(Debug)]
pub struct SessionRecord {
    pub id: SessionId,
    pub workspace_id: WorkspaceId,
    pub provider_id: String,
    pub model: String,
    pub status: SessionStatus,
    pub display_name: Option<String>,
    pub created_at: String,
    pub updated_at: String,
}

/// What has become of a worktree.
#[derive(Debug, Clone, Copy, PartialEq, Eq, Structural)]
pub enum WorktreeStatus {
    /// It exists, and an agent may work in it.
    Active,
    /// There is a pull request for its branch that has not been merged.
    PrOpen,
    /// Its branch was merged locally. Only older databases hold this.
    Merged,
    /// It was discarded.
    Abandoned,
    /// Its directory was removed, and its sessions are kept.
    Archived,
}

/// A worktree.
#[derive(Debug)]
pub struct WorktreeRecord {
    pub id: WorkspaceId,
    pub source_repo: String,
    pub worktree_path: String,
    pub branch_name: String,
    pub base_branch: String,
    pub base_commit: String,
    pub status: WorktreeStatus,
    pub created_at: String,
    pub updated_at: String,
}

/// A message of a session's transcript.
#[derive(Debug)]
pub struct StoredMessage {
    pub role: String,
    pub content: String,
    pub ordinal: i64,
}

/// Where a provider's credentials come from.
#[derive(Debug)]
pub struct CredentialSourceRecord {
    pub provider_id: String,
    pub source: String,
    pub identity_hint: Option<String>,
    pub updated_at: String,
}

/// Output that is kept in a file of its own.
#[derive(Debug)]
pub struct BlobRecord {
    pub id: String,
    pub path: String,
    pub bytes: u64,
    pub created_at: String,
}

/// A tool call.
#[derive(Debug)]
pub struct ToolCallRecord {
    pub id: String,
    pub session_id: SessionId,
    pub name: String,
    pub input_json: Json,
    pub status: String,
}

/// What a tool call has given back.
#[derive(Debug)]
pub struct ToolResultRecord {
    pub tool_call_id: String,
    pub output: String,
    pub exit_code: Option<i32>,
    pub blob_id: Option<String>,
}

impl StoredMessage {
    pub fn new(role: &str, content: &str, ordinal: i64) -> (r: StoredMessage)
        ensures
            r.role@ == role@,
            r.content@ == content@,
            r.ordinal == ordinal,
    {
        StoredMessage { role: role.to_string(), content: content.to_string(), ordinal }
    }

    /// The place in the transcript under which the message is kept: its own, or, where it has
    /// none, the one at which it was handed over.
    pub fn stored_ordinal(&self, index: i64) -> (r: i64)
        ensures
            r == if self.ordinal < 0 {
                index
            } else {
                self.ordinal
            },
    {
        if self.ordinal < 0 {
            index
        } else {
            self.ordinal
        }
    }
}

/// The record of a session that starts now.
pub fn new_session_record(
    session_id: SessionId,
    workspace_id: WorkspaceId,
    provider_id: &str,
    model: &str,
    now: &str,
) -> (r: SessionRecord)
    ensures
        r.id == session_id,
        r.workspace_id == workspace_id,
        r.provider_id@ == provider_id@,
        r.model@ == model@,
        r.status == SessionStatus::Starting,
        r.display_name is None,
        r.created_at@ == now@,
        r.updated_at@ == now@,
{
    SessionRecord {
        id: session_id,
        workspace_id,
        provider_id: provider_id.to_string(),
        model: model.to_string(),
        status: SessionStatus::Starting,
        display_name: None,
        created_at: now.to_string(),
        updated_at: now.to_string(),
    }
}

/// The database of a workspace.
pub open spec fn state_path(dir: Seq<char>) -> Seq<char> {
    paths::joined(paths::joined(dir, ".inductor"@), "state.db"@)
}

/// The database of a workspace.
pub fn workspace_state_path(workspace_dir: &str) -> (r: String)
    ensures
        r@ == state_path(workspace_dir@),
{
    paths::join_path(paths::join_path(workspace_dir, ".inductor").as_str(), "state.db")
}

// ---------------------------------------------------------------------------
// Names
// ---------------------------------------------------------------------------

pub open spec fn worktree_name(status: WorktreeStatus) -> Seq<char> {
    match status {
        WorktreeStatus::Active => "active"@,
        WorktreeStatus::PrOpen => "pr_open"@,
        WorktreeStatus::Merged => "merged"@,
        WorktreeStatus::Abandoned => "abandoned"@,
        WorktreeStatus::Archived => "archived"@,
    }
}

pub open spec fn worktree_named(name: Seq<char>) -> WorktreeStatus {
    if name == "pr_open"@ {
        WorktreeStatus::PrOpen
    } else if name == "merged"@ {
        WorktreeStatus::Merged
    } else if name == "abandoned"@ {
        WorktreeStatus::Abandoned
    } else if name == "archived"@ {
        WorktreeStatus::Archived
    } else {
        WorktreeStatus::Active
    }
}

impl WorktreeStatus {
    /// How the status is called in the database.
    pub fn as_str(self) -> (r: &'static str)
        ensures
            r@ == worktree_name(self),
    {
        match self {
            WorktreeStatus::Active => "active",
            WorktreeStatus::PrOpen => "pr_open",
            WorktreeStatus::Merged => "merged",
            WorktreeStatus::Abandoned => "abandoned",
            WorktreeStatus::Archived => "archived",
        }
    }

    /// The status that the database calls so; what is not known is active.
    pub fn from_db_value(value: &str) -> (r: WorktreeStatus)
        ensures
            r == worktree_named(value@),
    {
        if text::same(value, "pr_open") {
            WorktreeStatus::PrOpen
        } else if text::same(value, "merged") {
            WorktreeStatus::Merged
        } else if text::same(value, "abandoned") {
            WorktreeStatus::Abandoned
        } else if text::same(value, "archived") {
            WorktreeStatus::Archived
        } else {
            WorktreeStatus::Active
        }
    }
}

pub open spec fn status_name(status: SessionStatus) -> Seq<char> {
    match status {
        SessionStatus::Starting => "starting"@,
        SessionStatus::Idle => "idle"@,
        SessionStatus::Streaming => "streaming"@,
        SessionStatus::RunningTools => "running_tools"@,
        SessionStatus::WaitingForPermission => "waiting_for_permission"@,
        SessionStatus::Completed => "completed"@,
        SessionStatus::Failed => "failed"@,
    }
}

pub open spec fn status_named(name: Seq<char>) -> Option<SessionStatus> {
    if name == "starting"@ {
        Some(SessionStatus::Starting)
    } else if name == "idle"@ {
        Some(SessionStatus::Idle)
    } else if name == "streaming"@ {
        Some(SessionStatus::Streaming)
    } else if name == "running_tools"@ {
        Some(SessionStatus::RunningTools)
    } else if name == "waiting_for_permission"@ {
        Some(SessionStatus::WaitingForPermission)
    } else if name == "completed"@ {
        Some(SessionStatus::Completed)
    } else if name == "failed"@ {
        Some(SessionStatus::Failed)
    } else {
        None
    }
}

/// How a session's status is called in the database.
pub fn session_status_to_str(status: SessionStatus) -> (r: &'static str)
    ensures
        r@ == status_name(status),
{
    match status {
        SessionStatus::Starting => "starting",
        SessionStatus::Idle => "idle",
        SessionStatus::Streaming => "streaming",
        SessionStatus::RunningTools => "running_tools",
        SessionStatus::WaitingForPermission => "waiting_for_permission",
        SessionStatus::Completed => "completed",
        SessionStatus::Failed => "failed",
    }
}

/// The session's status that the database calls so, if there is one.
pub fn parse_session_status(value: &str) -> (r: Option<SessionStatus>)
    ensures
        r == status_named(value@),
{
    if text::same(value, "starting") {
        Some(SessionStatus::Starting)
    } else if text::same(value, "idle") {
        Some(SessionStatus::Idle)
    } else if text::same(value, "streaming") {
        Some(SessionStatus::Streaming)
    } else if text::same(value, "running_tools") {
        Some(SessionStatus::RunningTools)
    } else if text::same(value, "waiting_for_permission") {
        Some(SessionStatus::WaitingForPermission)
    } else if text::same(value, "completed") {
        Some(SessionStatus::Completed)
    } else if text::same(value, "failed") {
        Some(SessionStatus::Failed)
    } else {
        None
    }
}

pub open spec fn rule_kind_name(kind: AllowRuleKind) -> Seq<char> {
    match kind {
        AllowRuleKind::BashPrefix => "bash_prefix"@,
        AllowRuleKind::BashRegex => "bash_regex"@,
        AllowRuleKind::PathWrite => "path_write"@,
        AllowRuleKind::ToolName => "tool_name"@,
    }
}

pub open spec fn rule_kind_named(name: Seq<char>) -> Option<AllowRuleKind> {
    if name == "bash_prefix"@ {
        Some(AllowRuleKind::BashPrefix)
    } else if name == "bash_regex"@ {
        Some(AllowRuleKind::BashRegex)
    } else if name == "path_write"@ {
        Some(AllowRuleKind::PathWrite)
    } else if name == "tool_name"@ {
        Some(AllowRuleKind::ToolName)
    } else {
        None
    }
}

/// How a kind of rules is called in the database.
pub fn allow_rule_kind_to_str(kind: AllowRuleKind) -> (r: &'static str)
    ensures
        r@ == rule_kind_name(kind),
{
    match kind {
        AllowRuleKind::BashPrefix => "bash_prefix",
        AllowRuleKind::BashRegex => "bash_regex",
        AllowRuleKind::PathWrite => "path_write",
        AllowRuleKind::ToolName => "tool_name",
    }
}

/// The kind of rules that the database calls so, if there is one.
pub fn parse_allow_rule_kind(value: &str) -> (r: Option<AllowRuleKind>)
    ensures
        r == rule_kind_named(value@),
{
    if text::same(value, "bash_prefix") {
        Some(AllowRuleKind::BashPrefix)
    } else if text::same(value, "bash_regex") {
        Some(AllowRuleKind::BashRegex)
    } else if text::same(value, "path_write") {
        Some(AllowRuleKind::PathWrite)
    } else if text::same(value, "tool_name") {
        Some(AllowRuleKind::ToolName)
    } else {
        None
    }
}

/// What the database is told, and what is read back from it, is the same.
pub proof fn names_are_read_back(
    worktree: WorktreeStatus,
    status: SessionStatus,
    kind: AllowRuleKind,
)
    ensures
        worktree_named(worktree_name(worktree)) == worktree,
        status_named(status_name(status)) == Some(status),
        rule_kind_named(rule_kind_name(kind)) == Some(kind),
{
    reveal_strlit("active");
    reveal_strlit("pr_open");
    reveal_strlit("merged");
    reveal_strlit("abandoned");
    reveal_strlit("archived");
    assert("active"@[0] != "pr_open"@[0] && "active"@[0] != "merged"@[0] && "active"@[1]
        != "abandoned"@[1] && "active"@[1] != "archived"@[1]);
    assert("merged"@[0] != "pr_open"@[0] && "abandoned"@[0] != "pr_open"@[0] && "abandoned"@[0]
        != "merged"@[0]);
    assert("archived"@[0] != "pr_open"@[0] && "archived"@[0] != "merged"@[0] && "archived"@[1]
        != "abandoned"@[1]);
    reveal_strlit("starting");
    reveal_strlit("idle");
    reveal_strlit("streaming");
    reveal_strlit("running_tools");
    reveal_strlit("waiting_for_permission");
    reveal_strlit("completed");
    reveal_strlit("failed");
    assert("streaming"@[2] != "starting"@[2]);
    assert("idle"@[0] != "starting"@[0] && "streaming"@[0] != "idle"@[0]);
    assert("running_tools"@[0] != "starting"@[0] && "running_tools"@[0] != "idle"@[0]
        && "running_tools"@[0] != "streaming"@[0]);
    assert("waiting_for_permission"@[0] != "starting"@[0] && "waiting_for_permission"@[0]
        != "idle"@[0] && "waiting_for_permission"@[0] != "streaming"@[0]
        && "waiting_for_permission"@[0] != "running_tools"@[0]);
    assert("completed"@[0] != "starting"@[0] && "completed"@[0] != "idle"@[0] && "completed"@[0]
        != "streaming"@[0] && "completed"@[0] != "running_tools"@[0] && "completed"@[0]
        != "waiting_for_permission"@[0]);
    assert("failed"@[0] != "starting"@[0] && "failed"@[0] != "idle"@[0] && "failed"@[0]
        != "streaming"@[0] && "failed"@[0] != "running_tools"@[0] && "failed"@[0]
        != "waiting_for_permission"@[0] && "failed"@[0] != "completed"@[0]);
    reveal_strlit("bash_prefix");
    reveal_strlit("bash_regex");
    reveal_strlit("path_write");
    reveal_strlit("tool_name");
    assert("bash_regex"@[5] != "bash_prefix"@[5]);
    assert("path_write"@[0] != "bash_prefix"@[0] && "path_write"@[0] != "bash_regex"@[0]);
    assert("tool_name"@[0] != "bash_prefix"@[0] && "tool_name"@[0] != "bash_regex"@[0]
        && "tool_name"@[0] != "path_write"@[0]);
}

/// Whether a session may still be at work.
pub open spec fn incomplete(status: SessionStatus) -> bool {
    status == SessionStatus::Starting || status == SessionStatus::Streaming || status
        == SessionStatus::RunningTools || status == SessionStatus::WaitingForPermission
}

/// Whether a session may still be at work.
pub fn is_incomplete(status: SessionStatus) -> (r: bool)
    ensures
        r == incomplete(status),
{
    match status {
        SessionStatus::Starting | SessionStatus::Streaming | SessionStatus::RunningTools
        | SessionStatus::WaitingForPermission => true,
        _ => false,
    }
}

// ---------------------------------------------------------------------------
// Errors
// ---------------------------------------------------------------------------

/// What can go wrong with a database. Errors from elsewhere are told as texts.
#[derive(Debug)]
pub enum PersistenceError {
    Sqlite(String),
    Io(String),
    Json(String),
    TimeFormat(String),
    FutureSchema { found: i64, supported: i64 },
}

/// The content of a `PersistenceError`.
pub enum PersistenceErrorView {
    Sqlite(Seq<char>),
    Io(Seq<char>),
    Json(Seq<char>),
    TimeFormat(Seq<char>),
    FutureSchema { found: i64, supported: i64 },
}

impl View for PersistenceError {
    type V = PersistenceErrorView;

    open spec fn view(&self) -> PersistenceErrorView {
        match self {
            PersistenceError::Sqlite(e) => PersistenceErrorView::Sqlite(e@),
            PersistenceError::Io(e) => PersistenceErrorView::Io(e@),
            PersistenceError::Json(e) => PersistenceErrorView::Json(e@),
            PersistenceError::TimeFormat(e) => PersistenceErrorView::TimeFormat(e@),
            PersistenceError::FutureSchema { found, supported } =>
                PersistenceErrorView::FutureSchema { found: *found, supported: *supported },
        }
    }
}

/// How an error is told.
pub open spec fn error_text(e: PersistenceErrorView) -> Seq<char> {
    match e {
        PersistenceErrorView::Sqlite(s) => "sqlite error: "@ + s,
        PersistenceErrorView::Io(s) => "io error: "@ + s,
        PersistenceErrorView::Json(s) => "json error: "@ + s,
        PersistenceErrorView::TimeFormat(s) => "time format error: "@ + s,
        PersistenceErrorView::FutureSchema { found, supported } => "database schema version "@
            + text::signed_decimal(found as int) + " is newer than supported version "@ + text::signed_decimal(
            supported as int,
        ),
    }
}

impl PersistenceError {
    /// How the error is told.
    pub fn message(&self) -> (r: String)
        ensures
            r@ == error_text(self@),
    {
        match self {
            PersistenceError::Sqlite(s) => text::cat2("sqlite error: ", s.as_str()),
            PersistenceError::Io(s) => text::cat2("io error: ", s.as_str()),
            PersistenceError::Json(s) => text::cat2("json error: ", s.as_str()),
            PersistenceError::TimeFormat(s) => text::cat2("time format error: ", s.as_str()),
            PersistenceError::FutureSchema { found, supported } => text::cat4(
                "database schema version ",
                text::signed_text(*found).as_str(),
                " is newer than supported version ",
                text::signed_text(*supported).as_str(),
            ),
        }
    }
}

// ---------------------------------------------------------------------------
// Migrations
// ---------------------------------------------------------------------------

/// A step that brings a database to a version.
#[derive(Debug)]
pub struct Migration {
    pub version: i64,
    pub sql: &'static str,
}

/// The content of a `Migration`.
pub struct MigrationView {
    pub version: i64,
    pub sql: Seq<char>,
}

impl View for Migration {
    type V = MigrationView;

    open spec fn view(&self) -> MigrationView {
        MigrationView { version: self.version, sql: self.sql@ }
    }
}

pub open spec fn migration_views(ms: Seq<Migration>) -> Seq<MigrationView> {
    ms.map_values(|m: Migration| m@)
}

/// The steps of the application's database.
pub open spec fn app_steps() -> Seq<MigrationView> {
    seq![
        MigrationView { version: 1, sql: APP_TABLES@ },
        MigrationView { version: 2, sql: DISPLAY_NAME_COLUMN@ },
        MigrationView { version: 3, sql: WORKTREE_TABLE@ },
    ]
}

/// The steps of a workspace's database.
pub open spec fn workspace_steps() -> Seq<MigrationView> {
    seq![
        MigrationView { version: 1, sql: WORKSPACE_TABLES@ },
        MigrationView { version: 2, sql: DISPLAY_NAME_COLUMN@ },
    ]
}

/// The steps of the application's database.
pub fn app_migrations() -> (r: Vec<Migration>)
    ensures
        migration_views(r@) == app_steps(),
{
    let mut r: Vec<Migration> = Vec::new();
    r.push(Migration { version: 1, sql: APP_TABLES });
    r.push(Migration { version: 2, sql: DISPLAY_NAME_COLUMN });
    r.push(Migration { version: 3, sql: WORKTREE_TABLE });
    assert(migration_views(r@) =~= app_steps());
    r
}

/// The steps of a workspace's database.
pub fn workspace_migrations() -> (r: Vec<Migration>)
    ensures
        migration_views(r@) == workspace_steps(),
{
    let mut r: Vec<Migration> = Vec::new();
    r.push(Migration { version: 1, sql: WORKSPACE_TABLES });
    r.push(Migration { version: 2, sql: DISPLAY_NAME_COLUMN });
    assert(migration_views(r@) =~= workspace_steps());
    r
}

/// What has to be done to a database: whether it is copied first, and which steps are
/// taken, in order.
#[derive(Debug)]
pub struct MigrationPlan {
    pub backup: bool,
    pub steps: Vec<Migration>,
}

/// The content of a `MigrationPlan`.
pub struct PlanView {
    pub backup: bool,
    pub steps: Seq<MigrationView>,
}

impl View for MigrationPlan {
    type V = PlanView;

    open spec fn view(&self) -> PlanView {
        PlanView { backup: self.backup, steps: migration_views(self.steps@) }
    }
}

/// The steps that a database of a version lacks.
pub open spec fn lacking(ms: Seq<MigrationView>, current: i64) -> Seq<MigrationView>
    decreases ms.len(),
{
    if ms.len() == 0 {
        seq![]
    } else {
        let before = lacking(ms.drop_last(), current);
        if ms.last().version > current {
            before.push(ms.last())
        } else {
            before
        }
    }
}

/// What has to be done to a database of a version, given the version that is supported and
/// whether there is a file to copy; an error if the database is newer.
pub open spec fn plan(
    current: i64,
    supported: i64,
    ms: Seq<MigrationView>,
    has_backup: bool,
) -> Result<PlanView, PersistenceErrorView> {
    if current > supported {
        Err(PersistenceErrorView::FutureSchema { found: current, supported })
    } else {
        let steps = lacking(ms, current);
        Ok(PlanView { backup: has_backup && steps.len() > 0, steps })
    }
}

/// What has to be done to a database of a version.
pub fn plan_migrations(
    current: i64,
    supported: i64,
    migrations: Vec<Migration>,
    has_backup: bool,
) -> (r: Result<MigrationPlan, PersistenceError>)
    ensures
        match r {
            Ok(p) => plan(current, supported, migration_views(migrations@), has_backup) == Ok::<
                PlanView,
                PersistenceErrorView,
            >(p@),
            Err(e) => plan(current, supported, migration_views(migrations@), has_backup) == Err::<
                PlanView,
                PersistenceErrorView,
            >(e@),
        },
{
    if current > supported {
        return Err(PersistenceError::FutureSchema { found: current, supported });
    }
    let ghost all = migration_views(migrations@);
    let mut steps: Vec<Migration> = Vec::new();
    let mut i: usize = 0;
    assert(migration_views(steps@) =~= lacking(all.take(0), current));
    while i < migrations.len()
        invariant
            i <= migrations@.len(),
            all == migration_views(migrations@),
            migration_views(steps@) == lacking(all.take(i as int), current),
        decreases migrations@.len() - i,
    {
        assert(all.take(i + 1).drop_last() =~= all.take(i as int));
        assert(all.take(i + 1).last() == migrations@[i as int]@);
        if migrations[i].version > current {
            let ghost before = migration_views(steps@);
            steps.push(Migration { version: migrations[i].version, sql: migrations[i].sql });
            assert(migration_views(steps@) =~= before.push(all[i as int]));
        }
        i += 1;
    }
    assert(all.take(i as int) =~= all);
    assert(migration_views(steps@).len() == steps@.len());
    Ok(MigrationPlan { backup: has_backup && steps.len() > 0, steps })
}

/// The version of a database after steps have been taken.
pub open spec fn version_after(current: i64, steps: Seq<MigrationView>) -> i64
    decreases steps.len(),
{
    if steps.len() == 0 {
        current
    } else {
        let before = version_after(current, steps.drop_last());
        if steps.last().version > before {
            steps.last().version
        } else {
            before
        }
    }
}

/// Whether each step brings a database to a higher version than those before it, and the
/// last one to the version that is supported.
pub open spec fn leads_up(ms: Seq<MigrationView>, supported: i64) -> bool {
    &&& ms.len() > 0
    &&& ms.last().version == supported
    &&& forall|i: int, j: int|
        0 <= i < j < ms.len() ==> (#[trigger] ms[i]).version < (#[trigger] ms[j]).version
}

proof fn lemma_version_after(current: i64, ms: Seq<MigrationView>)
    requires
        forall|i: int, j: int|
            0 <= i < j < ms.len() ==> (#[trigger] ms[i]).version < (#[trigger] ms[j]).version,
    ensures
        version_after(current, lacking(ms, current)) == if ms.len() > 0 && ms.last().version
            > current {
            ms.last().version
        } else {
            current
        },
    decreases ms.len(),
{
    if ms.len() > 0 {
        let shorter = ms.drop_last();
        assert forall|i: int, j: int| 0 <= i < j < shorter.len() implies (
        #[trigger] shorter[i]).version < (#[trigger] shorter[j]).version by {
            assert(ms[i].version < ms[j].version);
        }
        lemma_version_after(current, shorter);
        let before = lacking(shorter, current);
        if shorter.len() > 0 {
            assert(ms[shorter.len() - 1].version < ms[ms.len() - 1].version);
        }
        if ms.last().version > current {
            assert(lacking(ms, current).drop_last() =~= before);
        }
    }
}

proof fn lemma_nothing_lacks(ms: Seq<MigrationView>, current: i64)
    requires
        forall|i: int| 0 <= i < ms.len() ==> (#[trigger] ms[i]).version <= current,
    ensures
        lacking(ms, current).len() == 0,
    decreases ms.len(),
{
    if ms.len() > 0 {
        let shorter = ms.drop_last();
        assert forall|i: int| 0 <= i < shorter.len() implies (#[trigger] shorter[i]).version
            <= current by {
            assert(ms[i].version <= current);
        }
        lemma_nothing_lacks(shorter, current);
        assert(ms[ms.len() - 1].version <= current);
    }
}

/// A database that is not newer is brought to the version that is supported; then nothing
/// is left to be done.
pub proof fn migrations_lead_to_the_supported_version(
    current: i64,
    supported: i64,
    ms: Seq<MigrationView>,
    has_backup: bool,
)
    requires
        current <= supported,
        leads_up(ms, supported),
    ensures
        ({
            let first = plan(current, supported, ms, has_backup);
            &&& first is Ok
            &&& version_after(current, first->Ok_0.steps) == supported
            &&& plan(supported, supported, ms, has_backup) == Ok::<PlanView, PersistenceErrorView>(
                PlanView { backup: false, steps: seq![] },
            )
        }),
{
    lemma_version_after(current, ms);
    assert forall|i: int| 0 <= i < ms.len() implies (#[trigger] ms[i]).version <= supported by {
        if i < ms.len() - 1 {
            assert(ms[i].version < ms[ms.len() - 1].version);
        }
    }
    lemma_nothing_lacks(ms, supported);
    assert(lacking(ms, supported) =~= seq![]);
}

/// The steps of both databases lead to the versions that are supported.
pub proof fn own_migrations_lead_up()
    ensures
        leads_up(app_steps(), APP_SCHEMA_VERSION),
        leads_up(workspace_steps(), WORKSPACE_SCHEMA_VERSION),
{
}

// ---------------------------------------------------------------------------
// Backups
// ---------------------------------------------------------------------------

/// The file to which a database is copied at a time, in seconds of Unix time.
pub open spec fn backup_path(path: Seq<char>, timestamp: i64) -> Seq<char> {
    path + ".bak."@ + text::signed_decimal(timestamp as int)
}

/// The file to which a database is copied before it changes, if it was there before.
pub fn file_backup(path: &str, existed_before_open: bool, timestamp: i64) -> (r: Option<String>)
    ensures
        text::opt(r) == if existed_before_open {
            Some(backup_path(path@, timestamp))
        } else {
            None
        },
{
    if !existed_before_open {
        return None;
    }
    Some(text::cat3(path, ".bak.", text::signed_text(timestamp).as_str()))
}

/// The last index at which `p` stands in `s`, not behind `from`.
pub open spec fn find_last(s: Seq<char>, p: Seq<char>, from: int) -> Option<int>
    decreases from + 1,
{
    if from < 0 {
        None
    } else if text::occurs_at(s, p, from) {
        Some(from)
    } else {
        find_last(s, p, from - 1)
    }
}

/// The file that a backup is a copy of.
pub open spec fn backup_origin(backup: Seq<char>) -> Seq<char> {
    match find_last(backup, ".bak."@, backup.len() as int) {
        Some(i) => backup.take(i),
        None => backup,
    }
}

/// The file that a backup is a copy of.
pub fn backup_source(backup: &str) -> (r: String)
    ensures
        r@ == backup_origin(backup@),
{
    let cs = text::chars_of(backup);
    let ps = text::chars_of(".bak.");
    let mut i: usize = cs.len();
    loop
        invariant
            i <= cs@.len(),
            cs@ == backup@,
            ps@ == ".bak."@,
            find_last(cs@, ps@, cs@.len() as int) == find_last(cs@, ps@, i as int),
        decreases i,
    {
        if text::stands_at(cs.as_slice(), ps.as_slice(), i) {
            let r = text::string_of(vstd::slice::slice_subrange(cs.as_slice(), 0, i));
            assert(r@ =~= cs@.take(i as int));
            return r;
        }
        if i == 0 {
            assert(find_last(cs@, ps@, -1) is None);
            return backup.to_string();
        }
        i -= 1;
    }
}

proof fn lemma_decimal_plain(n: nat)
    ensures
        text::decimal(n).len() > 0,
        forall|i: int| 0 <= i < text::decimal(n).len() ==> text::is_digit(#[trigger] text::decimal(n)[i]),
    decreases n,
{
    if n >= 10 {
        lemma_decimal_plain(n / 10);
    }
}

proof fn lemma_find_last(s: Seq<char>, p: Seq<char>, at: int, from: int)
    requires
        0 <= at <= from,
        text::occurs_at(s, p, at),
        forall|j: int| at < j <= from ==> !text::occurs_at(s, p, j),
    ensures
        find_last(s, p, from) == Some(at),
    decreases from - at,
{
    if from > at {
        lemma_find_last(s, p, at, from - 1);
    }
}

/// A backup is known by its name: the file that it is a copy of is read from it.
pub proof fn backups_name_their_origin(path: Seq<char>, timestamp: i64)
    ensures
        backup_origin(backup_path(path, timestamp)) == path,
{
    reveal_strlit(".bak.");
    reveal_strlit("-");
    let p = ".bak."@;
    let at = path.len() as int;
    let n = text::signed_decimal(timestamp as int);
    let s = backup_path(path, timestamp);
    let digits = text::decimal(
        if timestamp < 0 {
            (-(timestamp as int)) as nat
        } else {
            timestamp as nat
        },
    );
    lemma_decimal_plain(
        if timestamp < 0 {
            (-(timestamp as int)) as nat
        } else {
            timestamp as nat
        },
    );
    assert forall|i: int| 0 <= i < n.len() implies n[i] != '.' by {
        if timestamp < 0 {
            if i > 0 {
                assert(n[i] == digits[i - 1]);
                assert(text::is_digit(digits[i - 1]));
            }
        } else {
            assert(n[i] == digits[i]);
            assert(text::is_digit(digits[i]));
        }
    }
    assert(s.subrange(at, at + 5) =~= p);
    assert forall|j: int| at < j <= s.len() implies !text::occurs_at(s, p, j) by {
        if text::occurs_at(s, p, j) {
            assert(s.subrange(j, j + 5)[0] == p[0]);
            assert(s[j] == '.');
            assert(s.subrange(j, j + 5)[4] == p[4]);
            assert(s[j + 4] == '.');
            if j < at + 5 {
                assert(s[j] == p[j - at]);
            } else {
                assert(s[j] == n[j - at - 5]);
            }
            assert(j == at + 4);
            assert(s[j + 4] == n[j + 4 - at - 5]);
        }
    }
    lemma_find_last(s, p, at, s.len() as int);
    assert(s.take(at) =~= path);
}

// ---------------------------------------------------------------------------
// What the database holds
// ---------------------------------------------------------------------------

/// The states of worktrees and sessions and the kinds of rules are stored under these names,
/// and a name that nothing has is none, save that a worktree is then taken as active.
pub proof fn states_are_stored_under_their_names(name: Seq<char>)
    ensures
        worktree_name(WorktreeStatus::Active) == "active"@,
        worktree_name(WorktreeStatus::PrOpen) == "pr_open"@,
        worktree_name(WorktreeStatus::Merged) == "merged"@,
        worktree_name(WorktreeStatus::Abandoned) == "abandoned"@,
        worktree_name(WorktreeStatus::Archived) == "archived"@,
        status_name(SessionStatus::Starting) == "starting"@,
        status_name(SessionStatus::Idle) == "idle"@,
        status_name(SessionStatus::Streaming) == "streaming"@,
        status_name(SessionStatus::RunningTools) == "running_tools"@,
        status_name(SessionStatus::WaitingForPermission) == "waiting_for_permission"@,
        status_name(SessionStatus::Completed) == "completed"@,
        status_name(SessionStatus::Failed) == "failed"@,
        rule_kind_name(AllowRuleKind::BashPrefix) == "bash_prefix"@,
        rule_kind_name(AllowRuleKind::BashRegex) == "bash_regex"@,
        rule_kind_name(AllowRuleKind::PathWrite) == "path_write"@,
        rule_kind_name(AllowRuleKind::ToolName) == "tool_name"@,
        (forall|s: SessionStatus| name != #[trigger] status_name(s)) ==> status_named(name) is None,
        (forall|k: AllowRuleKind| name != #[trigger] rule_kind_name(k)) ==> rule_kind_named(name)
            is None,
        (forall|w: WorktreeStatus| name != #[trigger] worktree_name(w)) ==> worktree_named(name)
            == WorktreeStatus::Active,
{
    if forall|s: SessionStatus| name != #[trigger] status_name(s) {
        assert(name != status_name(SessionStatus::Starting));
        assert(name != status_name(SessionStatus::Idle));
        assert(name != status_name(SessionStatus::Streaming));
        assert(name != status_name(SessionStatus::RunningTools));
        assert(name != status_name(SessionStatus::WaitingForPermission));
        assert(name != status_name(SessionStatus::Completed));
        assert(name != status_name(SessionStatus::Failed));
    }
    if forall|k: AllowRuleKind| name != #[trigger] rule_kind_name(k) {
        assert(name != rule_kind_name(AllowRuleKind::BashPrefix));
        assert(name != rule_kind_name(AllowRuleKind::BashRegex));
        assert(name != rule_kind_name(AllowRuleKind::PathWrite));
        assert(name != rule_kind_name(AllowRuleKind::ToolName));
    }
    if forall|w: WorktreeStatus| name != #[trigger] worktree_name(w) {
        assert(name != worktree_name(WorktreeStatus::Active));
        assert(name != worktree_name(WorktreeStatus::PrOpen));
        assert(name != worktree_name(WorktreeStatus::Merged));
        assert(name != worktree_name(WorktreeStatus::Abandoned));
        assert(name != worktree_name(WorktreeStatus::Archived));
    }
}

proof fn lemma_lacking(ms: Seq<MigrationView>, current: i64)
    ensures
        lacking(ms, current) == ms.filter(|m: MigrationView| m.version > current),
    decreases ms.len(),
{
    reveal(Seq::filter);
    if ms.len() > 0 {
        lemma_lacking(ms.drop_last(), current);
    }
}

/// A database that is newer than what is supported is left alone; an older one is taken
/// through the steps beyond its version, in their order, and is copied before, where it can
/// be, exactly if there are any.
pub proof fn a_database_is_taken_through_the_steps_it_lacks(
    current: i64,
    supported: i64,
    ms: Seq<MigrationView>,
    can_copy: bool,
)
    ensures
        current > supported ==> plan(current, supported, ms, can_copy) == Err::<
            PlanView,
            PersistenceErrorView,
        >(PersistenceErrorView::FutureSchema { found: current, supported }),
        current <= supported ==> (plan(current, supported, ms, can_copy) matches Ok(p) && p.steps
            == ms.filter(|m: MigrationView| m.version > current) && (p.backup <==> can_copy
            && ms.filter(|m: MigrationView| m.version > current).len() > 0)),
{
    lemma_lacking(ms, current);
}

/// A project's own state lies in a directory of its own in the project.
pub proof fn the_state_lies_in_the_project(dir: Seq<char>)
    requires
        dir.len() > 0,
        dir.last() != '/',
    ensures
        state_path(dir) == dir + "/.inductor/state.db"@,
{
    reveal_strlit(".inductor");
    reveal_strlit("state.db");
    reveal_strlit("/.inductor/state.db");
    let inner = ".inductor"@;
    let file = "state.db"@;
    paths::joining_puts_a_path_behind_a_directory(dir, inner);
    let below = dir.push('/') + inner;
    assert(below.last() == 'r');
    paths::joining_puts_a_path_behind_a_directory(below, file);
    assert(below.push('/') + file =~= dir + "/.inductor/state.db"@);
}

/// An error tells what failed, and a database that is too new is told with both versions.
pub proof fn errors_tell_what_failed(s: Seq<char>, found: i64, supported: i64)
    ensures
        error_text(PersistenceErrorView::Sqlite(s)) == "sqlite error: "@ + s,
        error_text(PersistenceErrorView::Io(s)) == "io error: "@ + s,
        error_text(PersistenceErrorView::Json(s)) == "json error: "@ + s,
        error_text(PersistenceErrorView::TimeFormat(s)) == "time format error: "@ + s,
        error_text(PersistenceErrorView::FutureSchema { found, supported })
            == "database schema version "@ + text::signed_decimal(found as int)
            + " is newer than supported version "@ + text::signed_decimal(supported as int),
{
}

} // verus!
