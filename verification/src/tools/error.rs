use vstd::prelude::*;

use crate::text;

verus! {

/// Why a tool call failed. Paths are in the form in which they are shown, and the
/// `source` of an I/O failure is the text of the operating system's error.
#[derive(Debug)]
pub enum ToolError {
    WorkspaceIo { path: String, source: String },
    WorkspaceNotDirectory { path: String },
    AbsolutePath { path: String },
    InvalidPath { path: String },
    PathEscapesWorkspace { path: String, workspace_root: String },
    Io { path: String, source: String },
    CommandSpawnFailed { command: String, source: String },
    CommandCancelled { command: String },
    CommandCheckpoint { command_id: String, command: String, elapsed_secs: u64, output: String },
    UnknownBackgroundCommand { command_id: String },
    BackgroundCommandRegistryPoisoned,
    CommandKillTimedOut { command_id: String },
    BinaryFile { path: String },
    StaleFile { path: String, expected_hash: String, actual_hash: String },
    EditTargetNotFound { path: String, old: String },
    EditTargetNotUnique { path: String, old: String, count: usize },
    EmptyEdit,
    EmptyPatch,
    EmptyTodoList,
    InvalidPattern(String),
    InvalidUrl(String),
    NotDirectory { path: String },
    WebFetchFailed { url: String, message: String },
    RenameTargetExists { path: String },
    InvalidPatch(String),
    PatchApplyFailed { path: String, message: String },
    FreshReadRequired { path: String },
}

/// The content of a `ToolError`.
pub enum ToolErrorView {
    WorkspaceIo { path: Seq<char>, source: Seq<char> },
    WorkspaceNotDirectory { path: Seq<char> },
    AbsolutePath { path: Seq<char> },
    InvalidPath { path: Seq<char> },
    PathEscapesWorkspace { path: Seq<char>, workspace_root: Seq<char> },
    Io { path: Seq<char>, source: Seq<char> },
    CommandSpawnFailed { command: Seq<char>, source: Seq<char> },
    CommandCancelled { command: Seq<char> },
    CommandCheckpoint { command_id: Seq<char>, command: Seq<char>, elapsed_secs: nat, output: Seq<char> },
    UnknownBackgroundCommand { command_id: Seq<char> },
    BackgroundCommandRegistryPoisoned,
    CommandKillTimedOut { command_id: Seq<char> },
    BinaryFile { path: Seq<char> },
    StaleFile { path: Seq<char>, expected_hash: Seq<char>, actual_hash: Seq<char> },
    EditTargetNotFound { path: Seq<char>, old: Seq<char> },
    EditTargetNotUnique { path: Seq<char>, old: Seq<char>, count: nat },
    EmptyEdit,
    EmptyPatch,
    EmptyTodoList,
    InvalidPattern(Seq<char>),
    InvalidUrl(Seq<char>),
    NotDirectory { path: Seq<char> },
    WebFetchFailed { url: Seq<char>, message: Seq<char> },
    RenameTargetExists { path: Seq<char> },
    InvalidPatch(Seq<char>),
    PatchApplyFailed { path: Seq<char>, message: Seq<char> },
    FreshReadRequired { path: Seq<char> },
}

impl View for ToolError {
    type V = ToolErrorView;

    open spec fn view(&self) -> ToolErrorView {
        match self {
            ToolError::WorkspaceIo { path, source } => ToolErrorView::WorkspaceIo { path: path@, source: source@ },
            ToolError::WorkspaceNotDirectory { path } => ToolErrorView::WorkspaceNotDirectory { path: path@ },
            ToolError::AbsolutePath { path } => ToolErrorView::AbsolutePath { path: path@ },
            ToolError::InvalidPath { path } => ToolErrorView::InvalidPath { path: path@ },
            ToolError::PathEscapesWorkspace { path, workspace_root } => ToolErrorView::PathEscapesWorkspace { path: path@, workspace_root: workspace_root@ },
            ToolError::Io { path, source } => ToolErrorView::Io { path: path@, source: source@ },
            ToolError::CommandSpawnFailed { command, source } => ToolErrorView::CommandSpawnFailed { command: command@, source: source@ },
            ToolError::CommandCancelled { command } => ToolErrorView::CommandCancelled { command: command@ },
            ToolError::CommandCheckpoint { command_id, command, elapsed_secs, output } => ToolErrorView::CommandCheckpoint { command_id: command_id@, command: command@, elapsed_secs: *elapsed_secs as nat, output: output@ },
            ToolError::UnknownBackgroundCommand { command_id } => ToolErrorView::UnknownBackgroundCommand { command_id: command_id@ },
            ToolError::BackgroundCommandRegistryPoisoned => ToolErrorView::BackgroundCommandRegistryPoisoned,
            ToolError::CommandKillTimedOut { command_id } => ToolErrorView::CommandKillTimedOut { command_id: command_id@ },
            ToolError::BinaryFile { path } => ToolErrorView::BinaryFile { path: path@ },
            ToolError::StaleFile { path, expected_hash, actual_hash } => ToolErrorView::StaleFile { path: path@, expected_hash: expected_hash@, actual_hash: actual_hash@ },
            ToolError::EditTargetNotFound { path, old } => ToolErrorView::EditTargetNotFound { path: path@, old: old@ },
            ToolError::EditTargetNotUnique { path, old, count } => ToolErrorView::EditTargetNotUnique { path: path@, old: old@, count: *count as nat },
            ToolError::EmptyEdit => ToolErrorView::EmptyEdit,
            ToolError::EmptyPatch => ToolErrorView::EmptyPatch,
            ToolError::EmptyTodoList => ToolErrorView::EmptyTodoList,
            ToolError::InvalidPattern(text) => ToolErrorView::InvalidPattern(text@),
            ToolError::InvalidUrl(text) => ToolErrorView::InvalidUrl(text@),
            ToolError::NotDirectory { path } => ToolErrorView::NotDirectory { path: path@ },
            ToolError::WebFetchFailed { url, message } => ToolErrorView::WebFetchFailed { url: url@, message: message@ },
            ToolError::RenameTargetExists { path } => ToolErrorView::RenameTargetExists { path: path@ },
            ToolError::InvalidPatch(text) => ToolErrorView::InvalidPatch(text@),
            ToolError::PatchApplyFailed { path, message } => ToolErrorView::PatchApplyFailed { path: path@, message: message@ },
            ToolError::FreshReadRequired { path } => ToolErrorView::FreshReadRequired { path: path@ },
        }
    }
}

/// A number of seconds, with the minutes apart from the first minute on.
pub open spec fn duration_text(secs: nat) -> Seq<char> {
    if secs / 60 == 0 {
        text::decimal(secs % 60) + "s"@
    } else {
        text::decimal(secs / 60) + "m "@ + text::decimal(secs % 60) + "s"@
    }
}

pub fn format_duration(secs: u64) -> (r: String)
    ensures
        r@ == duration_text(secs as nat),
{
    let minutes: u64 = secs / 60;
    let seconds: u64 = secs % 60;
    if minutes == 0 {
        text::cat2(text::decimal_text(seconds).as_str(), "s")
    } else {
        text::cat4(
            text::decimal_text(minutes).as_str(),
            "m ",
            text::decimal_text(seconds).as_str(),
            "s",
        )
    }
}

/// What a checkpoint says of the output that a command has written so far.
pub open spec fn partial_output_text(output: Seq<char>) -> Seq<char> {
    if text::trimmed(output).len() == 0 {
        "No output was captured before the checkpoint."@
    } else {
        "Partial output captured before the checkpoint:\n"@ + output
    }
}

pub fn format_partial_output(output: &str) -> (r: String)
    ensures
        r@ == partial_output_text(output@),
{
    let t = text::trim(output);
    if text::is_blank_len(&t) {
        "No output was captured before the checkpoint.".to_string()
    } else {
        text::cat2("Partial output captured before the checkpoint:\n", output)
    }
}

/// The message of an error, given the quoted form of the command it is about.
pub open spec fn error_message(e: ToolErrorView, quoted: Seq<char>) -> Seq<char> {
    match e {
        ToolErrorView::WorkspaceIo { path, source } => "failed to inspect workspace "@ + path + ": "@ + source,
        ToolErrorView::WorkspaceNotDirectory { path } => "workspace is not a directory: "@ + path,
        ToolErrorView::AbsolutePath { path } => "tool paths must be workspace-relative: "@ + path,
        ToolErrorView::InvalidPath { path } => "invalid tool path: "@ + path,
        ToolErrorView::PathEscapesWorkspace { path, workspace_root } => "tool path "@ + path + " escapes workspace "@ + workspace_root,
        ToolErrorView::Io { path, source } => path + ": "@ + source,
        ToolErrorView::CommandSpawnFailed { source, .. } => "failed to run command "@ + quoted + ": "@ + source,
        ToolErrorView::CommandCancelled { .. } => "command cancelled: "@ + quoted,
        ToolErrorView::CommandCheckpoint { command_id, elapsed_secs, output, .. } => "command "@ + quoted + " has been running for "@ + duration_text(elapsed_secs) + " and reached the tool checkpoint. command_id: "@ + command_id + ". The command is still running in the background. Call bash_wait with this command_id to keep waiting and receive the final output when it finishes, or call bash_kill with this command_id to stop it. "@ + partial_output_text(output),
        ToolErrorView::UnknownBackgroundCommand { command_id } => "unknown background command_id: "@ + command_id,
        ToolErrorView::BackgroundCommandRegistryPoisoned => "background command registry is unavailable"@,
        ToolErrorView::CommandKillTimedOut { command_id } => "timed out while stopping background command_id: "@ + command_id,
        ToolErrorView::BinaryFile { path } => "refusing to edit binary file: "@ + path,
        ToolErrorView::StaleFile { path, expected_hash, actual_hash } => "refusing stale edit for "@ + path + ": expected hash "@ + expected_hash + ", current hash "@ + actual_hash,
        ToolErrorView::EditTargetNotFound { path, .. } => "edit target was not found in "@ + path,
        ToolErrorView::EditTargetNotUnique { path, count, .. } => "edit target is not unique in "@ + path + ": matched "@ + text::decimal(count) + " times"@,
        ToolErrorView::EmptyEdit => "edit list is empty"@,
        ToolErrorView::EmptyPatch => "patch contains no operations"@,
        ToolErrorView::EmptyTodoList => "todo list is empty"@,
        ToolErrorView::InvalidPattern(text) => "invalid glob pattern: "@ + text,
        ToolErrorView::InvalidUrl(text) => "web_fetch url must start with http:// or https://: "@ + text,
        ToolErrorView::NotDirectory { path } => "path is not a directory: "@ + path,
        ToolErrorView::WebFetchFailed { url, message } => "failed to fetch "@ + url + ": "@ + message,
        ToolErrorView::RenameTargetExists { path } => "rename target already exists: "@ + path,
        ToolErrorView::InvalidPatch(text) => "invalid patch: "@ + text,
        ToolErrorView::PatchApplyFailed { path, message } => "failed to apply patch to "@ + path + ": "@ + message,
        ToolErrorView::FreshReadRequired { path } => "line-aware patch of "@ + path + " requires a fresh read_file: the file was written since it was last read"@,
    }
}

/// The command that an error is about.
pub open spec fn error_command(e: ToolErrorView) -> Seq<char> {
    match e {
        ToolErrorView::CommandSpawnFailed { command, .. } => command,
        ToolErrorView::CommandCancelled { command } => command,
        ToolErrorView::CommandCheckpoint { command, .. } => command,
        _ => seq![],
    }
}

impl ToolError {
    /// The failure to inspect the workspace directory.
    pub fn workspace_io(path: &str, source: &str) -> (r: ToolError)
        ensures
            r@ == (ToolErrorView::WorkspaceIo { path: path@, source: source@ }),
    {
        ToolError::WorkspaceIo { path: path.to_string(), source: source.to_string() }
    }

    /// The failure of an I/O operation on a path.
    pub fn io(path: &str, source: &str) -> (r: ToolError)
        ensures
            r@ == (ToolErrorView::Io { path: path@, source: source@ }),
    {
        ToolError::Io { path: path.to_string(), source: source.to_string() }
    }

    /// The command that the error is about, empty where it is about none.
    pub fn command(&self) -> (r: String)
        ensures
            r@ == error_command(self@),
    {
        match self {
            ToolError::CommandSpawnFailed { command, .. } => command.clone(),
            ToolError::CommandCancelled { command } => command.clone(),
            ToolError::CommandCheckpoint { command, .. } => command.clone(),
            _ => String::new(),
        }
    }

    /// The message of the error, with `quoted` in place of the command's quoted form.
    pub fn message_quoting(&self, quoted: &str) -> (r: String)
        ensures
            r@ == error_message(self@, quoted@),
    {
        match self {
            ToolError::WorkspaceIo { path, source } => text::cat4("failed to inspect workspace ", path.as_str(), ": ", source.as_str()),
            ToolError::WorkspaceNotDirectory { path } => text::cat2("workspace is not a directory: ", path.as_str()),
            ToolError::AbsolutePath { path } => text::cat2("tool paths must be workspace-relative: ", path.as_str()),
            ToolError::InvalidPath { path } => text::cat2("invalid tool path: ", path.as_str()),
            ToolError::PathEscapesWorkspace { path, workspace_root } => text::cat4("tool path ", path.as_str(), " escapes workspace ", workspace_root.as_str()),
            ToolError::Io { path, source } => text::cat3(path.as_str(), ": ", source.as_str()),
            ToolError::CommandSpawnFailed { source, .. } => text::cat4("failed to run command ", quoted, ": ", source.as_str()),
            ToolError::CommandCancelled { .. } => text::cat2("command cancelled: ", quoted),
            ToolError::CommandCheckpoint { command_id, elapsed_secs, output, .. } => {
                let mut r = text::cat5("command ", quoted, " has been running for ", format_duration(*elapsed_secs).as_str(), " and reached the tool checkpoint. command_id: ");
                r.push_str(command_id.as_str());
                r.push_str(". The command is still running in the background. Call bash_wait with this command_id to keep waiting and receive the final output when it finishes, or call bash_kill with this command_id to stop it. ");
                r.push_str(format_partial_output(output.as_str()).as_str());
                r
            },
            ToolError::UnknownBackgroundCommand { command_id } => text::cat2("unknown background command_id: ", command_id.as_str()),
            ToolError::BackgroundCommandRegistryPoisoned => "background command registry is unavailable".to_string(),
            ToolError::CommandKillTimedOut { command_id } => text::cat2("timed out while stopping background command_id: ", command_id.as_str()),
            ToolError::BinaryFile { path } => text::cat2("refusing to edit binary file: ", path.as_str()),
            ToolError::StaleFile { path, expected_hash, actual_hash } => {
                let mut r = text::cat5("refusing stale edit for ", path.as_str(), ": expected hash ", expected_hash.as_str(), ", current hash ");
                r.push_str(actual_hash.as_str());
                r
            },
            ToolError::EditTargetNotFound { path, .. } => text::cat2("edit target was not found in ", path.as_str()),
            ToolError::EditTargetNotUnique { path, count, .. } => text::cat5("edit target is not unique in ", path.as_str(), ": matched ", text::decimal_text(*count as u64).as_str(), " times"),
            ToolError::EmptyEdit => "edit list is empty".to_string(),
            ToolError::EmptyPatch => "patch contains no operations".to_string(),
            ToolError::EmptyTodoList => "todo list is empty".to_string(),
            ToolError::InvalidPattern(text) => text::cat2("invalid glob pattern: ", text.as_str()),
            ToolError::InvalidUrl(text) => text::cat2("web_fetch url must start with http:// or https://: ", text.as_str()),
            ToolError::NotDirectory { path } => text::cat2("path is not a directory: ", path.as_str()),
            ToolError::WebFetchFailed { url, message } => text::cat4("failed to fetch ", url.as_str(), ": ", message.as_str()),
            ToolError::RenameTargetExists { path } => text::cat2("rename target already exists: ", path.as_str()),
            ToolError::InvalidPatch(text) => text::cat2("invalid patch: ", text.as_str()),
            ToolError::PatchApplyFailed { path, message } => text::cat4("failed to apply patch to ", path.as_str(), ": ", message.as_str()),
            ToolError::FreshReadRequired { path } => text::cat3("line-aware patch of ", path.as_str(), " requires a fresh read_file: the file was written since it was last read"),
        }
    }

    /// The message of the error.
    pub fn message(&self) -> (r: String)
        ensures
            r@ == error_message(self@, text::debug_text(error_command(self@))),
    {
        let command = self.command();
        let quoted = text::debug_of(command.as_str());
        self.message_quoting(quoted.as_str())
    }
}

/// A time is told in seconds below a minute, and from then on in minutes and the seconds
/// that are left.
pub proof fn a_time_is_told_in_minutes_and_seconds(minutes: nat, seconds: nat)
    requires
        seconds < 60,
    ensures
        minutes == 0 ==> duration_text(60 * minutes + seconds) == text::decimal(seconds) + "s"@,
        minutes > 0 ==> duration_text(60 * minutes + seconds) == text::decimal(minutes) + "m "@
            + text::decimal(seconds) + "s"@,
{
}

} // verus!
