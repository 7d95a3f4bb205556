use vstd::prelude::*;

use crate::json;
use crate::json::{Json, JsonView};
use crate::text;

verus! {

/// The tools that a model can call.
#[derive(Debug, Clone, Copy, PartialEq, Eq, Structural, Hash)]
pub enum ToolName {
    ReadFile,
    ListDir,
    WriteFile,
    EditFile,
    MultiEdit,
    ApplyPatchFreeform,
    ApplyPatchStructured,
    Glob,
    Grep,
    WebFetch,
    TodoWrite,
    Bash,
    BashWait,
    BashKill,
    ApplyPatch,
    ReadBlob,
}

/// The name under which a tool is called.
pub open spec fn tool_name(name: ToolName) -> Seq<char> {
    match name {
        ToolName::ReadFile => "read_file"@,
        ToolName::ListDir => "list_dir"@,
        ToolName::WriteFile => "write_file"@,
        ToolName::EditFile => "edit_file"@,
        ToolName::MultiEdit => "multi_edit"@,
        ToolName::ApplyPatchFreeform => "apply_patch_freeform"@,
        ToolName::ApplyPatchStructured => "apply_patch_structured"@,
        ToolName::Glob => "glob"@,
        ToolName::Grep => "grep"@,
        ToolName::WebFetch => "web_fetch"@,
        ToolName::TodoWrite => "todo_write"@,
        ToolName::Bash => "bash"@,
        ToolName::BashWait => "bash_wait"@,
        ToolName::BashKill => "bash_kill"@,
        ToolName::ApplyPatch => "apply_patch"@,
        ToolName::ReadBlob => "read_blob"@,
    }
}

/// The title under which a call of the tool is shown.
pub open spec fn tool_title(name: ToolName) -> Seq<char> {
    match name {
        ToolName::ReadFile => "Read File"@,
        ToolName::ListDir => "List Directory"@,
        ToolName::WriteFile => "Write File"@,
        ToolName::EditFile => "Edit File"@,
        ToolName::MultiEdit => "Multi Edit"@,
        ToolName::ApplyPatchFreeform => "Apply Patch"@,
        ToolName::ApplyPatchStructured => "Apply Patch"@,
        ToolName::Glob => "Find Files"@,
        ToolName::Grep => "Search Text"@,
        ToolName::WebFetch => "Fetch Webpage"@,
        ToolName::TodoWrite => "Update Todo List"@,
        ToolName::Bash => "Run Command"@,
        ToolName::BashWait => "Wait For Command"@,
        ToolName::BashKill => "Stop Command"@,
        ToolName::ApplyPatch => "Apply Patch"@,
        ToolName::ReadBlob => "Read Stored Output"@,
    }
}

/// What the model is told of the tool.
pub open spec fn tool_description(name: ToolName) -> Seq<char> {
    match name {
        ToolName::ReadFile => "Read a UTF-8 text file. Paths may be workspace-relative or absolute when unrestricted access is enabled."@,
        ToolName::ListDir => "List entries in a directory, with directories suffixed by slash."@,
        ToolName::WriteFile => "Create or overwrite a file with the given contents. Parent directories are created."@,
        ToolName::EditFile => "Replace an exact substring in an existing file."@,
        ToolName::MultiEdit => "Apply multiple exact substring replacements to one existing file in order."@,
        ToolName::ApplyPatchFreeform => "Apply a unified diff patch to files in the workspace."@,
        ToolName::ApplyPatchStructured => "Apply a structured patch containing edit, multi-edit, or rename operations."@,
        ToolName::Glob => "Find files by glob pattern."@,
        ToolName::Grep => "Search text files for a substring or regular expression."@,
        ToolName::WebFetch => "Fetch a webpage and return its text content."@,
        ToolName::TodoWrite => "Update the agent task list for multi-step work."@,
        ToolName::Bash => "Run a shell command in the workspace. Long-running commands may return a checkpoint with a command_id; use bash_wait to keep waiting for final output or bash_kill to stop it."@,
        ToolName::BashWait => "Continue waiting for a bash command that returned a checkpoint. Returns final output when the command finishes, or another checkpoint after timeout_secs while it keeps running."@,
        ToolName::BashKill => "Stop a bash command that is still running after a checkpoint and return the output captured so far."@,
        ToolName::ApplyPatch => "Change files: with a Begin Patch text, or with line-aware operations on files that were just read."@,
        ToolName::ReadBlob => "Read a bounded range of bytes of a stored tool output."@,
    }
}

/// The tools that change nothing.
pub open spec fn tool_reads_only(name: ToolName) -> bool {
    match name {
        ToolName::ReadFile | ToolName::ListDir | ToolName::Glob | ToolName::Grep | ToolName::WebFetch | ToolName::TodoWrite | ToolName::BashWait | ToolName::ReadBlob => true,
        _ => false,
    }
}

/// All tools, in the order in which they are advertised.
pub open spec fn all_tools() -> Seq<ToolName> {
    seq![
        ToolName::ReadFile,
        ToolName::ListDir,
        ToolName::WriteFile,
        ToolName::EditFile,
        ToolName::MultiEdit,
        ToolName::ApplyPatchFreeform,
        ToolName::ApplyPatchStructured,
        ToolName::Glob,
        ToolName::Grep,
        ToolName::WebFetch,
        ToolName::TodoWrite,
        ToolName::Bash,
        ToolName::BashWait,
        ToolName::BashKill,
        ToolName::ApplyPatch,
        ToolName::ReadBlob,
    ]
}

// ---------------------------------------------------------------------------
// Schemas
// ---------------------------------------------------------------------------

/// The schema of a value of a basic type.
pub open spec fn typed(kind: Seq<char>) -> JsonView {
    json::empty_object().with("type"@, JsonView::Text(kind))
}

/// The schema of a value of a basic type, with a description.
pub open spec fn described(kind: Seq<char>, description: Seq<char>) -> JsonView {
    typed(kind).with("description"@, JsonView::Text(description))
}

/// The schema of a text that is one of a list.
pub open spec fn one_of(values: Seq<Seq<char>>) -> JsonView {
    typed("string"@).with("enum"@, texts(values))
}

/// The schema of an array.
pub open spec fn array_of(items: JsonView) -> JsonView {
    typed("array"@).with("items"@, items)
}

/// The schema of an object, which names the members that must be there, if any.
pub open spec fn record(properties: JsonView, required: Seq<Seq<char>>) -> JsonView {
    let schema = typed("object"@).with("properties"@, properties);
    if required.len() == 0 {
        schema
    } else {
        schema.with("required"@, texts(required))
    }
}

/// The array of the given texts.
pub open spec fn texts(values: Seq<Seq<char>>) -> JsonView {
    JsonView::Array(values.map_values(|v: Seq<char>| JsonView::Text(v)))
}

/// The members of a line-aware operation, all of which must be there.
pub open spec fn line_fields() -> Seq<Seq<char>> {
    seq!["op"@, "path"@, "start_line"@, "end_line"@, "old"@, "new"@]
}

/// The schema of the tool's input.
pub open spec fn tool_schema(name: ToolName) -> JsonView {
    match name {
        ToolName::ReadFile => record(
            json::empty_object()
                .with("path"@, described("string"@, "File path"@))
                .with("start_line"@, described("integer"@, "Optional first line, from 1"@))
                .with("end_line"@, described("integer"@, "Optional last line"@)),
            seq!["path"@],
        ),
        ToolName::ListDir => record(
            json::empty_object()
                .with("path"@, described("string"@, "Optional directory path"@)),
            seq![],
        ),
        ToolName::WriteFile => record(
            json::empty_object()
                .with("path"@, described("string"@, "File path"@))
                .with("content"@, described("string"@, "Full file contents"@)),
            seq!["path"@, "content"@],
        ),
        ToolName::EditFile => record(
            json::empty_object()
                .with("path"@, described("string"@, "File path"@))
                .with("old"@, described("string"@, "Exact text to replace. Must be unique."@))
                .with("new"@, described("string"@, "Replacement text"@))
                .with("expected_hash"@, described("string"@, "Optional sha256 of the current file contents"@)),
            seq!["path"@, "old"@, "new"@],
        ),
        ToolName::MultiEdit => record(
            json::empty_object()
                .with("path"@, described("string"@, "File path"@))
                .with("edits"@, array_of(record(
                    json::empty_object()
                        .with("old"@, described("string"@, "Exact text to replace"@))
                        .with("new"@, described("string"@, "Replacement text"@)),
                    seq!["old"@, "new"@],
                )))
                .with("expected_hash"@, described("string"@, "Optional sha256 of the current file contents"@)),
            seq!["path"@, "edits"@],
        ),
        ToolName::ApplyPatchFreeform => record(
            json::empty_object()
                .with("patch"@, described("string"@, "Unified diff patch"@)),
            seq!["patch"@],
        ),
        ToolName::ApplyPatchStructured => record(
            json::empty_object()
                .with("operations"@, array_of(record(
                    json::empty_object()
                        .with("type"@, one_of(seq!["edit"@, "multi_edit"@, "rename"@]))
                        .with("path"@, typed("string"@))
                        .with("from"@, typed("string"@))
                        .with("to"@, typed("string"@))
                        .with("old"@, typed("string"@))
                        .with("new"@, typed("string"@))
                        .with("edits"@, array_of(record(
                            json::empty_object()
                                .with("old"@, typed("string"@))
                                .with("new"@, typed("string"@)),
                            seq!["old"@, "new"@],
                        )))
                        .with("expected_hash"@, typed("string"@)),
                    seq!["type"@],
                ))),
            seq!["operations"@],
        ),
        ToolName::Glob => record(
            json::empty_object()
                .with("pattern"@, described("string"@, "Glob pattern"@))
                .with("path"@, described("string"@, "Optional directory path"@)),
            seq!["pattern"@],
        ),
        ToolName::Grep => record(
            json::empty_object()
                .with("pattern"@, described("string"@, "Search pattern"@)),
            seq!["pattern"@],
        ),
        ToolName::WebFetch => record(
            json::empty_object()
                .with("url"@, described("string"@, "HTTP or HTTPS URL"@)),
            seq!["url"@],
        ),
        ToolName::TodoWrite => record(
            json::empty_object()
                .with("todos"@, array_of(record(
                    json::empty_object()
                        .with("content"@, typed("string"@))
                        .with("status"@, one_of(seq!["pending"@, "in_progress"@, "completed"@])),
                    seq!["content"@, "status"@],
                ))),
            seq!["todos"@],
        ),
        ToolName::Bash => record(
            json::empty_object()
                .with("command"@, described("string"@, "Shell command"@)),
            seq!["command"@],
        ),
        ToolName::BashWait => record(
            json::empty_object()
                .with("command_id"@, described("string"@, "command_id returned by a bash checkpoint"@))
                .with("timeout_secs"@, described("integer"@, "Seconds to wait before returning another checkpoint; defaults to 30"@)),
            seq!["command_id"@],
        ),
        ToolName::BashKill => record(
            json::empty_object()
                .with("command_id"@, described("string"@, "command_id returned by a bash checkpoint"@)),
            seq!["command_id"@],
        ),
        ToolName::ApplyPatch => record(
            json::empty_object()
                .with("patch"@, described("string"@, "Text from *** Begin Patch to *** End Patch"@))
                .with("operations"@, array_of(record(
                    json::empty_object()
                        .with("op"@, one_of(seq!["update"@, "insert_before"@, "insert_after"@]))
                        .with("path"@, described("string"@, "File path"@))
                        .with("start_line"@, described("integer"@, "First line, from 1"@))
                        .with("end_line"@, described("integer"@, "Last line"@))
                        .with("old"@, described("string"@, "Exact text of these lines"@))
                        .with("new"@, described("string"@, "New text"@)),
                    line_fields(),
                ))),
            seq![],
        ),
        ToolName::ReadBlob => record(
            json::empty_object()
                .with("blob_id"@, described("string"@, "blob_id of a stored output"@))
                .with("start_byte"@, described("integer"@, "First byte; defaults to 0"@))
                .with("limit_bytes"@, described("integer"@, "How many bytes to read at most"@)),
            seq!["blob_id"@],
        ),
    }
}

fn of_type(kind: &str) -> (r: Json)
    ensures
        r@ == typed(kind@),
{
    Json::object().with("type", Json::text(kind))
}

fn describe(kind: &str, description: &str) -> (r: Json)
    ensures
        r@ == described(kind@, description@),
{
    of_type(kind).with("description", Json::text(description))
}

fn text_array(values: Vec<String>) -> (r: Json)
    ensures
        r@ == texts(text::views(values@)),
{
    let mut items: Vec<Json> = Vec::new();
    let mut i: usize = 0;
    while i < values.len()
        invariant
            i <= values@.len(),
            items@.len() == i,
            forall|k: int| 0 <= k < i ==> (#[trigger] items@[k])@ == JsonView::Text(values@[k]@),
        decreases values@.len() - i,
    {
        items.push(Json::text(values[i].as_str()));
        i += 1;
    }
    proof {
        json::lemma_array_view(items@);
        assert(json::array_view(items@) =~= text::views(values@).map_values(|v: Seq<char>| JsonView::Text(v)));
    }
    Json::Array(items)
}

fn choice(values: Vec<String>) -> (r: Json)
    ensures
        r@ == one_of(text::views(values@)),
{
    of_type("string").with("enum", text_array(values))
}

fn array(items: Json) -> (r: Json)
    ensures
        r@ == array_of(items@),
{
    of_type("array").with("items", items)
}

fn object(properties: Json, required: Vec<String>) -> (r: Json)
    ensures
        r@ == record(properties@, text::views(required@)),
{
    let schema = of_type("object").with("properties", properties);
    if required.len() == 0 {
        schema
    } else {
        schema.with("required", text_array(required))
    }
}

fn line_field_names() -> (r: Vec<String>)
    ensures
        text::views(r@) == line_fields(),
{
    let mut r = text::list3("op", "path", "start_line");
    let ghost named = text::views(r@);
    r.push("end_line".to_string());
    r.push("old".to_string());
    r.push("new".to_string());
    assert(text::views(r@) =~= named.push("end_line"@).push("old"@).push("new"@));
    assert(text::views(r@) =~= line_fields());
    r
}

/// The schema of the tool's input.
pub fn input_schema(name: ToolName) -> (r: Json)
    ensures
        r@ == tool_schema(name),
{
    match name {
        ToolName::ReadFile => object(
            Json::object()
                .with("path", describe("string", "File path"))
                .with("start_line", describe("integer", "Optional first line, from 1"))
                .with("end_line", describe("integer", "Optional last line")),
            text::list1("path"),
        ),
        ToolName::ListDir => object(
            Json::object()
                .with("path", describe("string", "Optional directory path")),
            Vec::new(),
        ),
        ToolName::WriteFile => object(
            Json::object()
                .with("path", describe("string", "File path"))
                .with("content", describe("string", "Full file contents")),
            text::list2("path", "content"),
        ),
        ToolName::EditFile => object(
            Json::object()
                .with("path", describe("string", "File path"))
                .with("old", describe("string", "Exact text to replace. Must be unique."))
                .with("new", describe("string", "Replacement text"))
                .with("expected_hash", describe("string", "Optional sha256 of the current file contents")),
            text::list3("path", "old", "new"),
        ),
        ToolName::MultiEdit => object(
            Json::object()
                .with("path", describe("string", "File path"))
                .with("edits", array(object(
                    Json::object()
                        .with("old", describe("string", "Exact text to replace"))
                        .with("new", describe("string", "Replacement text")),
                    text::list2("old", "new"),
                )))
                .with("expected_hash", describe("string", "Optional sha256 of the current file contents")),
            text::list2("path", "edits"),
        ),
        ToolName::ApplyPatchFreeform => object(
            Json::object()
                .with("patch", describe("string", "Unified diff patch")),
            text::list1("patch"),
        ),
        ToolName::ApplyPatchStructured => object(
            Json::object()
                .with("operations", array(object(
                    Json::object()
                        .with("type", choice(text::list3("edit", "multi_edit", "rename")))
                        .with("path", of_type("string"))
                        .with("from", of_type("string"))
                        .with("to", of_type("string"))
                        .with("old", of_type("string"))
                        .with("new", of_type("string"))
                        .with("edits", array(object(
                            Json::object()
                                .with("old", of_type("string"))
                                .with("new", of_type("string")),
                            text::list2("old", "new"),
                        )))
                        .with("expected_hash", of_type("string")),
                    text::list1("type"),
                ))),
            text::list1("operations"),
        ),
        ToolName::Glob => object(
            Json::object()
                .with("pattern", describe("string", "Glob pattern"))
                .with("path", describe("string", "Optional directory path")),
            text::list1("pattern"),
        ),
        ToolName::Grep => object(
            Json::object()
                .with("pattern", describe("string", "Search pattern")),
            text::list1("pattern"),
        ),
        ToolName::WebFetch => object(
            Json::object()
                .with("url", describe("string", "HTTP or HTTPS URL")),
            text::list1("url"),
        ),
        ToolName::TodoWrite => object(
            Json::object()
                .with("todos", array(object(
                    Json::object()
                        .with("content", of_type("string"))
                        .with("status", choice(text::list3("pending", "in_progress", "completed"))),
                    text::list2("content", "status"),
                ))),
            text::list1("todos"),
        ),
        ToolName::Bash => object(
            Json::object()
                .with("command", describe("string", "Shell command")),
            text::list1("command"),
        ),
        ToolName::BashWait => object(
            Json::object()
                .with("command_id", describe("string", "command_id returned by a bash checkpoint"))
                .with("timeout_secs", describe("integer", "Seconds to wait before returning another checkpoint; defaults to 30")),
            text::list1("command_id"),
        ),
        ToolName::BashKill => object(
            Json::object()
                .with("command_id", describe("string", "command_id returned by a bash checkpoint")),
            text::list1("command_id"),
        ),
        ToolName::ApplyPatch => object(
            Json::object()
                .with("patch", describe("string", "Text from *** Begin Patch to *** End Patch"))
                .with("operations", array(object(
                    Json::object()
                        .with("op", choice(text::list3("update", "insert_before", "insert_after")))
                        .with("path", describe("string", "File path"))
                        .with("start_line", describe("integer", "First line, from 1"))
                        .with("end_line", describe("integer", "Last line"))
                        .with("old", describe("string", "Exact text of these lines"))
                        .with("new", describe("string", "New text")),
                    line_field_names(),
                ))),
            Vec::new(),
        ),
        ToolName::ReadBlob => object(
            Json::object()
                .with("blob_id", describe("string", "blob_id of a stored output"))
                .with("start_byte", describe("integer", "First byte; defaults to 0"))
                .with("limit_bytes", describe("integer", "How many bytes to read at most")),
            text::list1("blob_id"),
        ),
    }
}

impl ToolName {
    /// The name under which the tool is called.
    pub fn as_str(self) -> (r: &'static str)
        ensures
            r@ == tool_name(self),
    {
        match self {
            ToolName::ReadFile => "read_file",
            ToolName::ListDir => "list_dir",
            ToolName::WriteFile => "write_file",
            ToolName::EditFile => "edit_file",
            ToolName::MultiEdit => "multi_edit",
            ToolName::ApplyPatchFreeform => "apply_patch_freeform",
            ToolName::ApplyPatchStructured => "apply_patch_structured",
            ToolName::Glob => "glob",
            ToolName::Grep => "grep",
            ToolName::WebFetch => "web_fetch",
            ToolName::TodoWrite => "todo_write",
            ToolName::Bash => "bash",
            ToolName::BashWait => "bash_wait",
            ToolName::BashKill => "bash_kill",
            ToolName::ApplyPatch => "apply_patch",
            ToolName::ReadBlob => "read_blob",
        }
    }

    /// The title under which a call of the tool is shown.
    pub fn title(self) -> (r: &'static str)
        ensures
            r@ == tool_title(self),
    {
        match self {
            ToolName::ReadFile => "Read File",
            ToolName::ListDir => "List Directory",
            ToolName::WriteFile => "Write File",
            ToolName::EditFile => "Edit File",
            ToolName::MultiEdit => "Multi Edit",
            ToolName::ApplyPatchFreeform => "Apply Patch",
            ToolName::ApplyPatchStructured => "Apply Patch",
            ToolName::Glob => "Find Files",
            ToolName::Grep => "Search Text",
            ToolName::WebFetch => "Fetch Webpage",
            ToolName::TodoWrite => "Update Todo List",
            ToolName::Bash => "Run Command",
            ToolName::BashWait => "Wait For Command",
            ToolName::BashKill => "Stop Command",
            ToolName::ApplyPatch => "Apply Patch",
            ToolName::ReadBlob => "Read Stored Output",
        }
    }

    /// What the model is told of the tool.
    pub fn description(self) -> (r: &'static str)
        ensures
            r@ == tool_description(self),
    {
        match self {
            ToolName::ReadFile => "Read a UTF-8 text file. Paths may be workspace-relative or absolute when unrestricted access is enabled.",
            ToolName::ListDir => "List entries in a directory, with directories suffixed by slash.",
            ToolName::WriteFile => "Create or overwrite a file with the given contents. Parent directories are created.",
            ToolName::EditFile => "Replace an exact substring in an existing file.",
            ToolName::MultiEdit => "Apply multiple exact substring replacements to one existing file in order.",
            ToolName::ApplyPatchFreeform => "Apply a unified diff patch to files in the workspace.",
            ToolName::ApplyPatchStructured => "Apply a structured patch containing edit, multi-edit, or rename operations.",
            ToolName::Glob => "Find files by glob pattern.",
            ToolName::Grep => "Search text files for a substring or regular expression.",
            ToolName::WebFetch => "Fetch a webpage and return its text content.",
            ToolName::TodoWrite => "Update the agent task list for multi-step work.",
            ToolName::Bash => "Run a shell command in the workspace. Long-running commands may return a checkpoint with a command_id; use bash_wait to keep waiting for final output or bash_kill to stop it.",
            ToolName::BashWait => "Continue waiting for a bash command that returned a checkpoint. Returns final output when the command finishes, or another checkpoint after timeout_secs while it keeps running.",
            ToolName::BashKill => "Stop a bash command that is still running after a checkpoint and return the output captured so far.",
            ToolName::ApplyPatch => "Change files: with a Begin Patch text, or with line-aware operations on files that were just read.",
            ToolName::ReadBlob => "Read a bounded range of bytes of a stored tool output.",
        }
    }

    /// Whether the tool changes nothing.
    pub fn read_only(self) -> (r: bool)
        ensures
            r == tool_reads_only(self),
    {
        match self {
            ToolName::ReadFile | ToolName::ListDir | ToolName::Glob | ToolName::Grep | ToolName::WebFetch | ToolName::TodoWrite | ToolName::BashWait | ToolName::ReadBlob => true,
            _ => false,
        }
    }
}

/// A tool as it is advertised to a model.
#[derive(Debug)]
pub struct ToolDefinition {
    pub name: ToolName,
    pub description: &'static str,
    pub input_schema: Json,
    pub read_only: bool,
}

impl ToolDefinition {
    /// Whether this is the definition of the tool `name`.
    pub open spec fn defines(self, name: ToolName) -> bool {
        &&& self.name == name
        &&& self.description@ == tool_description(name)
        &&& self.input_schema@ == tool_schema(name)
        &&& self.read_only == tool_reads_only(name)
    }
}

/// All tools, in the order in which they are advertised.
pub fn tool_list() -> (v: Vec<ToolName>)
    ensures
        v@ == all_tools(),
{
    let mut v: Vec<ToolName> = Vec::new();
    v.push(ToolName::ReadFile);
    v.push(ToolName::ListDir);
    v.push(ToolName::WriteFile);
    v.push(ToolName::EditFile);
    v.push(ToolName::MultiEdit);
    v.push(ToolName::ApplyPatchFreeform);
    v.push(ToolName::ApplyPatchStructured);
    v.push(ToolName::Glob);
    v.push(ToolName::Grep);
    v.push(ToolName::WebFetch);
    v.push(ToolName::TodoWrite);
    v.push(ToolName::Bash);
    v.push(ToolName::BashWait);
    v.push(ToolName::BashKill);
    v.push(ToolName::ApplyPatch);
    v.push(ToolName::ReadBlob);
    assert(v@ =~= all_tools());
    v
}

/// The definitions of all tools.
pub fn tool_definitions() -> (defs: Vec<ToolDefinition>)
    ensures
        defs@.len() == all_tools().len(),
        forall|i: int|
            0 <= i < defs@.len() ==> (#[trigger] defs@[i]).defines(all_tools()[i]),
{
    let tools = tool_list();
    let mut defs: Vec<ToolDefinition> = Vec::new();
    let mut i: usize = 0;
    while i < tools.len()
        invariant
            i <= tools@.len(),
            tools@ == all_tools(),
            defs@.len() == i,
            forall|k: int| 0 <= k < i ==> (#[trigger] defs@[k]).defines(all_tools()[k]),
        decreases tools@.len() - i,
    {
        let name = tools[i];
        defs.push(
            ToolDefinition {
                name,
                description: name.description(),
                input_schema: input_schema(name),
                read_only: name.read_only(),
            },
        );
        i += 1;
    }
    defs
}

/// The names of all tools, as they are called.
pub open spec fn all_names() -> Seq<Seq<char>> {
    all_tools().map_values(|t: ToolName| tool_name(t))
}

/// The names of all tools.
pub fn tool_names() -> (names: Vec<String>)
    ensures
        text::views(names@) == all_names(),
{
    let tools = tool_list();
    let mut names: Vec<String> = Vec::new();
    let mut i: usize = 0;
    while i < tools.len()
        invariant
            i <= tools@.len(),
            tools@ == all_tools(),
            names@.len() == i,
            forall|k: int| 0 <= k < i ==> (#[trigger] names@[k])@ == tool_name(all_tools()[k]),
        decreases tools@.len() - i,
    {
        names.push(tools[i].as_str().to_string());
        i += 1;
    }
    assert(text::views(names@) =~= all_names());
    names
}

/// The line that documents a tool, given the text of its schema.
pub open spec fn doc_line(name: ToolName, schema: Seq<char>) -> Seq<char> {
    "- "@ + tool_name(name) + " "@ + schema
}

/// The lines that document all tools in a prompt.
pub open spec fn prompt_docs() -> Seq<char> {
    text::join(
        all_tools().map_values(|t: ToolName| doc_line(t, json::json_text(tool_schema(t)))),
        "\n"@,
    )
}

/// Whether a value is an object that is read back from its text.
#[verifier::opaque]
spec fn is_kept(v: JsonView, n: nat) -> bool {
    v is Object && json::is_plain(v, n)
}

proof fn lemma_empty(n: nat)
    requires
        n > 0,
    ensures
        is_kept(json::empty_object(), n),
{
    reveal(is_kept);
}

proof fn lemma_with(v: JsonView, name: Seq<char>, x: JsonView, n: nat)
    requires
        n > 0,
        is_kept(v, n),
        is_kept(x, (n - 1) as nat),
    ensures
        is_kept(v.with(name, x), n),
{
    reveal(is_kept);
}

proof fn lemma_typed(kind: Seq<char>, n: nat)
    requires
        n > 0,
    ensures
        is_kept(typed(kind), n),
{
    reveal(is_kept);
    assert(json::is_plain(JsonView::Text(kind), (n - 1) as nat));
}

proof fn lemma_described(kind: Seq<char>, description: Seq<char>, n: nat)
    requires
        n > 0,
    ensures
        is_kept(described(kind, description), n),
{
    reveal(is_kept);
    assert(json::is_plain(JsonView::Text(kind), (n - 1) as nat));
    assert(json::is_plain(JsonView::Text(description), (n - 1) as nat));
}

proof fn lemma_texts(values: Seq<Seq<char>>, n: nat)
    requires
        n > 0,
    ensures
        json::is_plain(texts(values), n),
{
    let items = values.map_values(|v: Seq<char>| JsonView::Text(v));
    assert forall|k: int| 0 <= k < items.len() implies json::is_plain(
        #[trigger] items[k],
        (n - 1) as nat,
    ) by {
        assert(items[k] == JsonView::Text(values[k]));
    }
}

proof fn lemma_one_of(values: Seq<Seq<char>>, n: nat)
    requires
        n > 1,
    ensures
        is_kept(one_of(values), n),
{
    reveal(is_kept);
    lemma_typed("string"@, n);
    lemma_texts(values, (n - 1) as nat);
}

proof fn lemma_array_of(items: JsonView, n: nat)
    requires
        n > 0,
        is_kept(items, (n - 1) as nat),
    ensures
        is_kept(array_of(items), n),
{
    reveal(is_kept);
    lemma_typed("array"@, n);
}

proof fn lemma_record(properties: JsonView, required: Seq<Seq<char>>, n: nat)
    requires
        n > 1,
        is_kept(properties, (n - 1) as nat),
    ensures
        is_kept(record(properties, required), n),
{
    reveal(is_kept);
    lemma_typed("object"@, n);
    lemma_texts(required, (n - 1) as nat);
}

proof fn lemma_schema(name: ToolName)
    ensures
        is_kept(tool_schema(name), json::MAX_NESTING as nat),
{
    match name {
        ToolName::ReadFile => {
            lemma_empty(126);
            lemma_described("string"@, "File path"@, 125);
            lemma_with(json::empty_object(), "path"@, described("string"@, "File path"@), 126);
            let p1 = json::empty_object().with("path"@, described("string"@, "File path"@));
            let first = described("integer"@, "Optional first line, from 1"@);
            lemma_described("integer"@, "Optional first line, from 1"@, 125);
            lemma_with(p1, "start_line"@, first, 126);
            let p2 = p1.with("start_line"@, first);
            let last = described("integer"@, "Optional last line"@);
            lemma_described("integer"@, "Optional last line"@, 125);
            lemma_with(p2, "end_line"@, last, 126);
            lemma_record(p2.with("end_line"@, last), seq!["path"@], 127);
        },
        ToolName::ListDir => {
            lemma_empty(126);
            lemma_described("string"@, "Optional directory path"@, 125);
            lemma_with(json::empty_object(), "path"@, described("string"@, "Optional directory path"@), 126);
            let p1 = json::empty_object().with("path"@, described("string"@, "Optional directory path"@));
            lemma_record(p1, seq![], 127);
        },
        ToolName::WriteFile => {
            lemma_empty(126);
            lemma_described("string"@, "File path"@, 125);
            lemma_with(json::empty_object(), "path"@, described("string"@, "File path"@), 126);
            let p1 = json::empty_object().with("path"@, described("string"@, "File path"@));
            lemma_described("string"@, "Full file contents"@, 125);
            lemma_with(p1, "content"@, described("string"@, "Full file contents"@), 126);
            let p2 = p1.with("content"@, described("string"@, "Full file contents"@));
            lemma_record(p2, seq!["path"@, "content"@], 127);
        },
        ToolName::EditFile => {
            lemma_empty(126);
            lemma_described("string"@, "File path"@, 125);
            lemma_with(json::empty_object(), "path"@, described("string"@, "File path"@), 126);
            let p1 = json::empty_object().with("path"@, described("string"@, "File path"@));
            lemma_described("string"@, "Exact text to replace. Must be unique."@, 125);
            lemma_with(p1, "old"@, described("string"@, "Exact text to replace. Must be unique."@), 126);
            let p2 = p1.with("old"@, described("string"@, "Exact text to replace. Must be unique."@));
            lemma_described("string"@, "Replacement text"@, 125);
            lemma_with(p2, "new"@, described("string"@, "Replacement text"@), 126);
            let p3 = p2.with("new"@, described("string"@, "Replacement text"@));
            lemma_described("string"@, "Optional sha256 of the current file contents"@, 125);
            lemma_with(p3, "expected_hash"@, described("string"@, "Optional sha256 of the current file contents"@), 126);
            let p4 = p3.with("expected_hash"@, described("string"@, "Optional sha256 of the current file contents"@));
            lemma_record(p4, seq!["path"@, "old"@, "new"@], 127);
        },
        ToolName::MultiEdit => {
            lemma_empty(126);
            lemma_described("string"@, "File path"@, 125);
            lemma_with(json::empty_object(), "path"@, described("string"@, "File path"@), 126);
            let p1 = json::empty_object().with("path"@, described("string"@, "File path"@));
            lemma_empty(123);
            lemma_described("string"@, "Exact text to replace"@, 122);
            lemma_with(json::empty_object(), "old"@, described("string"@, "Exact text to replace"@), 123);
            let p2 = json::empty_object().with("old"@, described("string"@, "Exact text to replace"@));
            lemma_described("string"@, "Replacement text"@, 122);
            lemma_with(p2, "new"@, described("string"@, "Replacement text"@), 123);
            let p3 = p2.with("new"@, described("string"@, "Replacement text"@));
            lemma_record(p3, seq!["old"@, "new"@], 124);
            let r4 = record(p3, seq!["old"@, "new"@]);
            lemma_array_of(r4, 125);
            lemma_with(p1, "edits"@, array_of(r4), 126);
            let p5 = p1.with("edits"@, array_of(r4));
            lemma_described("string"@, "Optional sha256 of the current file contents"@, 125);
            lemma_with(p5, "expected_hash"@, described("string"@, "Optional sha256 of the current file contents"@), 126);
            let p6 = p5.with("expected_hash"@, described("string"@, "Optional sha256 of the current file contents"@));
            lemma_record(p6, seq!["path"@, "edits"@], 127);
        },
        ToolName::ApplyPatchFreeform => {
            lemma_empty(126);
            lemma_described("string"@, "Unified diff patch"@, 125);
            lemma_with(json::empty_object(), "patch"@, described("string"@, "Unified diff patch"@), 126);
            let p1 = json::empty_object().with("patch"@, described("string"@, "Unified diff patch"@));
            lemma_record(p1, seq!["patch"@], 127);
        },
        ToolName::ApplyPatchStructured => {
            lemma_empty(126);
            lemma_empty(123);
            lemma_one_of(seq!["edit"@, "multi_edit"@, "rename"@], 122);
            lemma_with(json::empty_object(), "type"@, one_of(seq!["edit"@, "multi_edit"@, "rename"@]), 123);
            let p1 = json::empty_object().with("type"@, one_of(seq!["edit"@, "multi_edit"@, "rename"@]));
            lemma_typed("string"@, 122);
            lemma_with(p1, "path"@, typed("string"@), 123);
            let p2 = p1.with("path"@, typed("string"@));
            lemma_typed("string"@, 122);
            lemma_with(p2, "from"@, typed("string"@), 123);
            let p3 = p2.with("from"@, typed("string"@));
            lemma_typed("string"@, 122);
            lemma_with(p3, "to"@, typed("string"@), 123);
            let p4 = p3.with("to"@, typed("string"@));
            lemma_typed("string"@, 122);
            lemma_with(p4, "old"@, typed("string"@), 123);
            let p5 = p4.with("old"@, typed("string"@));
            lemma_typed("string"@, 122);
            lemma_with(p5, "new"@, typed("string"@), 123);
            let p6 = p5.with("new"@, typed("string"@));
            lemma_empty(120);
            lemma_typed("string"@, 119);
            lemma_with(json::empty_object(), "old"@, typed("string"@), 120);
            let p7 = json::empty_object().with("old"@, typed("string"@));
            lemma_typed("string"@, 119);
            lemma_with(p7, "new"@, typed("string"@), 120);
            let p8 = p7.with("new"@, typed("string"@));
            lemma_record(p8, seq!["old"@, "new"@], 121);
            let r9 = record(p8, seq!["old"@, "new"@]);
            lemma_array_of(r9, 122);
            lemma_with(p6, "edits"@, array_of(r9), 123);
            let p10 = p6.with("edits"@, array_of(r9));
            lemma_typed("string"@, 122);
            lemma_with(p10, "expected_hash"@, typed("string"@), 123);
            let p11 = p10.with("expected_hash"@, typed("string"@));
            lemma_record(p11, seq!["type"@], 124);
            let r12 = record(p11, seq!["type"@]);
            lemma_array_of(r12, 125);
            lemma_with(json::empty_object(), "operations"@, array_of(r12), 126);
            let p13 = json::empty_object().with("operations"@, array_of(r12));
            lemma_record(p13, seq!["operations"@], 127);
        },
        ToolName::Glob => {
            lemma_empty(126);
            lemma_described("string"@, "Glob pattern"@, 125);
            lemma_with(json::empty_object(), "pattern"@, described("string"@, "Glob pattern"@), 126);
            let p1 = json::empty_object().with("pattern"@, described("string"@, "Glob pattern"@));
            lemma_described("string"@, "Optional directory path"@, 125);
            lemma_with(p1, "path"@, described("string"@, "Optional directory path"@), 126);
            let p2 = p1.with("path"@, described("string"@, "Optional directory path"@));
            lemma_record(p2, seq!["pattern"@], 127);
        },
        ToolName::Grep => {
            lemma_empty(126);
            lemma_described("string"@, "Search pattern"@, 125);
            lemma_with(json::empty_object(), "pattern"@, described("string"@, "Search pattern"@), 126);
            let p1 = json::empty_object().with("pattern"@, described("string"@, "Search pattern"@));
            lemma_record(p1, seq!["pattern"@], 127);
        },
        ToolName::WebFetch => {
            lemma_empty(126);
            lemma_described("string"@, "HTTP or HTTPS URL"@, 125);
            lemma_with(json::empty_object(), "url"@, described("string"@, "HTTP or HTTPS URL"@), 126);
            let p1 = json::empty_object().with("url"@, described("string"@, "HTTP or HTTPS URL"@));
            lemma_record(p1, seq!["url"@], 127);
        },
        ToolName::TodoWrite => {
            lemma_empty(126);
            lemma_empty(123);
            lemma_typed("string"@, 122);
            lemma_with(json::empty_object(), "content"@, typed("string"@), 123);
            let p1 = json::empty_object().with("content"@, typed("string"@));
            lemma_one_of(seq!["pending"@, "in_progress"@, "completed"@], 122);
            lemma_with(p1, "status"@, one_of(seq!["pending"@, "in_progress"@, "completed"@]), 123);
            let p2 = p1.with("status"@, one_of(seq!["pending"@, "in_progress"@, "completed"@]));
            lemma_record(p2, seq!["content"@, "status"@], 124);
            let r3 = record(p2, seq!["content"@, "status"@]);
            lemma_array_of(r3, 125);
            lemma_with(json::empty_object(), "todos"@, array_of(r3), 126);
            let p4 = json::empty_object().with("todos"@, array_of(r3));
            lemma_record(p4, seq!["todos"@], 127);
        },
        ToolName::Bash => {
            lemma_empty(126);
            lemma_described("string"@, "Shell command"@, 125);
            lemma_with(json::empty_object(), "command"@, described("string"@, "Shell command"@), 126);
            let p1 = json::empty_object().with("command"@, described("string"@, "Shell command"@));
            lemma_record(p1, seq!["command"@], 127);
        },
        ToolName::BashWait => {
            lemma_empty(126);
            lemma_described("string"@, "command_id returned by a bash checkpoint"@, 125);
            lemma_with(json::empty_object(), "command_id"@, described("string"@, "command_id returned by a bash checkpoint"@), 126);
            let p1 = json::empty_object().with("command_id"@, described("string"@, "command_id returned by a bash checkpoint"@));
            lemma_described("integer"@, "Seconds to wait before returning another checkpoint; defaults to 30"@, 125);
            lemma_with(p1, "timeout_secs"@, described("integer"@, "Seconds to wait before returning another checkpoint; defaults to 30"@), 126);
            let p2 = p1.with("timeout_secs"@, described("integer"@, "Seconds to wait before returning another checkpoint; defaults to 30"@));
            lemma_record(p2, seq!["command_id"@], 127);
        },
        ToolName::BashKill => {
            lemma_empty(126);
            lemma_described("string"@, "command_id returned by a bash checkpoint"@, 125);
            lemma_with(json::empty_object(), "command_id"@, described("string"@, "command_id returned by a bash checkpoint"@), 126);
            let p1 = json::empty_object().with("command_id"@, described("string"@, "command_id returned by a bash checkpoint"@));
            lemma_record(p1, seq!["command_id"@], 127);
        },
        ToolName::ApplyPatch => {
            lemma_empty(126);
            lemma_described("string"@, "Text from *** Begin Patch to *** End Patch"@, 125);
            lemma_with(json::empty_object(), "patch"@, described("string"@, "Text from *** Begin Patch to *** End Patch"@), 126);
            let p1 = json::empty_object().with("patch"@, described("string"@, "Text from *** Begin Patch to *** End Patch"@));
            lemma_empty(123);
            lemma_one_of(seq!["update"@, "insert_before"@, "insert_after"@], 122);
            lemma_with(json::empty_object(), "op"@, one_of(seq!["update"@, "insert_before"@, "insert_after"@]), 123);
            let p2 = json::empty_object().with("op"@, one_of(seq!["update"@, "insert_before"@, "insert_after"@]));
            lemma_described("string"@, "File path"@, 122);
            lemma_with(p2, "path"@, described("string"@, "File path"@), 123);
            let p3 = p2.with("path"@, described("string"@, "File path"@));
            lemma_described("integer"@, "First line, from 1"@, 122);
            lemma_with(p3, "start_line"@, described("integer"@, "First line, from 1"@), 123);
            let p4 = p3.with("start_line"@, described("integer"@, "First line, from 1"@));
            lemma_described("integer"@, "Last line"@, 122);
            lemma_with(p4, "end_line"@, described("integer"@, "Last line"@), 123);
            let p5 = p4.with("end_line"@, described("integer"@, "Last line"@));
            lemma_described("string"@, "Exact text of these lines"@, 122);
            lemma_with(p5, "old"@, described("string"@, "Exact text of these lines"@), 123);
            let p6 = p5.with("old"@, described("string"@, "Exact text of these lines"@));
            lemma_described("string"@, "New text"@, 122);
            lemma_with(p6, "new"@, described("string"@, "New text"@), 123);
            let p7 = p6.with("new"@, described("string"@, "New text"@));
            lemma_record(p7, line_fields(), 124);
            let r8 = record(p7, line_fields());
            lemma_array_of(r8, 125);
            lemma_with(p1, "operations"@, array_of(r8), 126);
            let p9 = p1.with("operations"@, array_of(r8));
            lemma_record(p9, seq![], 127);
        },
        ToolName::ReadBlob => {
            lemma_empty(126);
            lemma_described("string"@, "blob_id of a stored output"@, 125);
            lemma_with(json::empty_object(), "blob_id"@, described("string"@, "blob_id of a stored output"@), 126);
            let p1 = json::empty_object().with("blob_id"@, described("string"@, "blob_id of a stored output"@));
            lemma_described("integer"@, "First byte; defaults to 0"@, 125);
            lemma_with(p1, "start_byte"@, described("integer"@, "First byte; defaults to 0"@), 126);
            let p2 = p1.with("start_byte"@, described("integer"@, "First byte; defaults to 0"@));
            lemma_described("integer"@, "How many bytes to read at most"@, 125);
            lemma_with(p2, "limit_bytes"@, described("integer"@, "How many bytes to read at most"@), 126);
            let p3 = p2.with("limit_bytes"@, described("integer"@, "How many bytes to read at most"@));
            lemma_record(p3, seq!["blob_id"@], 127);
        },
    }
}

proof fn lemma_name_is_one_line(name: ToolName)
    ensures
        text::one_line(tool_name(name)),
{
    reveal_strlit("read_file");
    reveal_strlit("list_dir");
    reveal_strlit("write_file");
    reveal_strlit("edit_file");
    reveal_strlit("multi_edit");
    reveal_strlit("apply_patch_freeform");
    reveal_strlit("apply_patch_structured");
    reveal_strlit("glob");
    reveal_strlit("grep");
    reveal_strlit("web_fetch");
    reveal_strlit("todo_write");
    reveal_strlit("bash");
    reveal_strlit("bash_wait");
    reveal_strlit("bash_kill");
    reveal_strlit("apply_patch");
    reveal_strlit("read_blob");
}

/// Whether a line documents a tool: behind a dash and the name of the tool stands the
/// schema of its input as a JSON object.
pub open spec fn documents(line: Seq<char>, name: ToolName) -> bool {
    let start = "- "@ + tool_name(name) + " "@;
    &&& text::starts_with(line, start)
    &&& start.len() < line.len() && line[start.len() as int] == '{'
    &&& json::reads_as(line.skip(start.len() as int), tool_schema(name))
}

/// The line that documents a tool, given the text of its schema.
pub fn tool_doc_line(name: ToolName, schema: &str) -> (r: String)
    ensures
        r@ == doc_line(name, schema@),
{
    text::cat4("- ", name.as_str(), " ", schema)
}

/// The lines that document all tools in a prompt: one line for each tool, in the order in
/// which they are advertised, and no line end behind the last.
pub fn tool_prompt_docs() -> (r: String)
    ensures
        r@ == prompt_docs(),
        text::lines(r@).len() == all_tools().len(),
        forall|i: int|
            0 <= i < all_tools().len() ==> documents(
                #[trigger] text::lines(r@)[i],
                all_tools()[i],
            ),
        r@.len() > 0 && r@.last() != '\n',
{
    let tools = tool_list();
    let mut lines: Vec<String> = Vec::new();
    let mut i: usize = 0;
    while i < tools.len()
        invariant
            i <= tools@.len(),
            tools@ == all_tools(),
            lines@.len() == i,
            forall|k: int|
                0 <= k < i ==> (#[trigger] lines@[k])@ == doc_line(
                    all_tools()[k],
                    json::json_text(tool_schema(all_tools()[k])),
                ) && documents(lines@[k]@, all_tools()[k]) && text::one_line(lines@[k]@),
        decreases tools@.len() - i,
    {
        let name = tools[i];
        let schema = input_schema(name).to_text();
        let line = tool_doc_line(name, schema.as_str());
        proof {
            lemma_schema(name);
            reveal(is_kept);
            lemma_name_is_one_line(name);
            reveal_strlit("- ");
            reveal_strlit(" ");
            let start = "- "@ + tool_name(name) + " "@;
            assert(line@ =~= start + schema@);
            assert(line@.subrange(0, start.len() as int) =~= start);
            assert(line@.skip(start.len() as int) =~= schema@);
            assert(text::one_line(line@)) by {
                assert forall|k: int| 0 <= k < line@.len() implies #[trigger] line@[k] != '\n'
                    && line@[k] != '\r' by {
                    if k < 2 {
                        assert(line@[k] == "- "@[k]);
                    } else if k < start.len() - 1 {
                        assert(line@[k] == tool_name(name)[k - 2]);
                    } else if k == start.len() - 1 {
                        assert(line@[k] == " "@[0]);
                    } else {
                        assert(line@[k] == schema@[k - start.len()]);
                    }
                }
            }
        }
        lines.push(line);
        i += 1;
    }
    let ghost shown = text::views(lines@);
    assert(shown =~= all_tools().map_values(
        |t: ToolName| doc_line(t, json::json_text(tool_schema(t))),
    ));
    let r = text::join_strings(lines.as_slice(), "\n");
    proof {
        assert forall|k: int| 0 <= k < shown.len() implies text::one_line(#[trigger] shown[k])
            && shown[k].len() > 0 && documents(shown[k], all_tools()[k]) by {
            assert(shown[k] == lines@[k]@);
        }
        text::joined_lines_come_apart(shown);
        let last = shown.last();
        assert(last == shown[shown.len() - 1]);
        assert(r@.last() == last.last());
        assert(last.last() == last[last.len() - 1]);
    }
    r
}

/// No two tools are called by the same name.
pub proof fn tool_names_are_distinct(a: ToolName, b: ToolName)
    requires
        tool_name(a) == tool_name(b),
    ensures
        a == b,
{
    reveal_strlit("read_file");
    reveal_strlit("list_dir");
    reveal_strlit("write_file");
    reveal_strlit("edit_file");
    reveal_strlit("multi_edit");
    reveal_strlit("apply_patch_freeform");
    reveal_strlit("apply_patch_structured");
    reveal_strlit("glob");
    reveal_strlit("grep");
    reveal_strlit("web_fetch");
    reveal_strlit("todo_write");
    reveal_strlit("bash");
    reveal_strlit("bash_wait");
    reveal_strlit("bash_kill");
    reveal_strlit("apply_patch");
    reveal_strlit("read_blob");
    assert("read_blob"@[5] == 'b');
    assert("read_file"@.len() == 9);
    assert("read_file"@[0] == 'r');
    assert("edit_file"@[0] == 'e');
    assert("read_file"@ != "edit_file"@);
    let x = tool_name(a);
    let y = tool_name(b);
    assert(x.len() == y.len());
    assert(x[0] == y[0]);
    assert(x[1] == y[1]);
    assert(x[5] == y[5]);
    match a {
        ToolName::ReadFile => {},
        ToolName::ListDir => {},
        ToolName::WriteFile => {},
        ToolName::EditFile => {},
        ToolName::MultiEdit => {},
        ToolName::ApplyPatchFreeform => {},
        ToolName::ApplyPatchStructured => {},
        ToolName::Glob => {},
        ToolName::Grep => {},
        ToolName::WebFetch => {},
        ToolName::TodoWrite => {},
        ToolName::Bash => {},
        ToolName::BashWait => {},
        ToolName::BashKill => {},
        ToolName::ApplyPatch => {},
        ToolName::ReadBlob => {},
    }
}

/// Every tool is advertised.
pub proof fn every_tool_is_advertised(name: ToolName)
    ensures
        all_tools().contains(name),
{
    let tools = all_tools();
    assert(tools[0] == ToolName::ReadFile);
    assert(tools[1] == ToolName::ListDir);
    assert(tools[2] == ToolName::WriteFile);
    assert(tools[3] == ToolName::EditFile);
    assert(tools[4] == ToolName::MultiEdit);
    assert(tools[5] == ToolName::ApplyPatchFreeform);
    assert(tools[6] == ToolName::ApplyPatchStructured);
    assert(tools[7] == ToolName::Glob);
    assert(tools[8] == ToolName::Grep);
    assert(tools[9] == ToolName::WebFetch);
    assert(tools[10] == ToolName::TodoWrite);
    assert(tools[11] == ToolName::Bash);
    assert(tools[12] == ToolName::BashWait);
    assert(tools[13] == ToolName::BashKill);
    assert(tools[14] == ToolName::ApplyPatch);
    assert(tools[15] == ToolName::ReadBlob);
}

// ---------------------------------------------------------------------------
// What a tool is asked with
// ---------------------------------------------------------------------------

/// The type of a field that a tool is called with.
pub open spec fn asked_kind(name: ToolName, field: Seq<char>) -> Option<Seq<char>> {
    match json::field(tool_schema(name), "properties"@) {
        Some(fields) => match json::field(fields, field) {
            Some(f) => json::text_field(f, "type"@),
            None => None,
        },
        None => None,
    }
}

/// Whether a tool must be called with these fields.
pub open spec fn is_needed(name: ToolName, fields: Seq<Seq<char>>) -> bool {
    json::field(tool_schema(name), "required"@) == Some(
        JsonView::Array(fields.map_values(|f: Seq<char>| JsonView::Text(f))),
    )
}

proof fn lemma_schema_names()
    ensures
        "type"@ != "properties"@,
        "type"@ != "required"@,
        "properties"@ != "required"@,
        "type"@ != "description"@,
        "type"@ != "items"@,
        "type"@ != "enum"@,
{
    reveal_strlit("type");
    reveal_strlit("properties");
    reveal_strlit("required");
    reveal_strlit("description");
    reveal_strlit("items");
    reveal_strlit("enum");
    assert("type"@.len() == 4 && "properties"@.len() == 10 && "required"@.len() == 8
        && "description"@.len() == 11 && "items"@.len() == 5);
    assert("type"@[0] == 't' && "enum"@[0] == 'e');
}

/// The tools that read and write files are called with a path, and with what they write.
pub proof fn what_file_tools_are_asked_with()
    ensures
        is_needed(ToolName::ReadFile, seq!["path"@]),
        asked_kind(ToolName::ReadFile, "path"@) == Some("string"@),
        asked_kind(ToolName::ReadFile, "start_line"@) == Some("integer"@),
        asked_kind(ToolName::ReadFile, "end_line"@) == Some("integer"@),
        json::field(tool_schema(ToolName::ListDir), "required"@) is None,
        asked_kind(ToolName::ListDir, "path"@) == Some("string"@),
        is_needed(ToolName::WriteFile, seq!["path"@, "content"@]),
        asked_kind(ToolName::WriteFile, "path"@) == Some("string"@),
        asked_kind(ToolName::WriteFile, "content"@) == Some("string"@),
        is_needed(ToolName::EditFile, seq!["path"@, "old"@, "new"@]),
        asked_kind(ToolName::EditFile, "path"@) == Some("string"@),
        asked_kind(ToolName::EditFile, "old"@) == Some("string"@),
        asked_kind(ToolName::EditFile, "new"@) == Some("string"@),
        asked_kind(ToolName::EditFile, "expected_hash"@) == Some("string"@),
        is_needed(ToolName::MultiEdit, seq!["path"@, "edits"@]),
        asked_kind(ToolName::MultiEdit, "path"@) == Some("string"@),
        asked_kind(ToolName::MultiEdit, "edits"@) == Some("array"@),
        asked_kind(ToolName::MultiEdit, "expected_hash"@) == Some("string"@),
        is_needed(ToolName::Glob, seq!["pattern"@]),
        asked_kind(ToolName::Glob, "pattern"@) == Some("string"@),
        asked_kind(ToolName::Glob, "path"@) == Some("string"@),
        is_needed(ToolName::Grep, seq!["pattern"@]),
        asked_kind(ToolName::Grep, "pattern"@) == Some("string"@),
{
    lemma_schema_names();
    reveal_strlit("path");
    reveal_strlit("start_line");
    reveal_strlit("end_line");
    reveal_strlit("content");
    reveal_strlit("old");
    reveal_strlit("new");
    reveal_strlit("expected_hash");
    reveal_strlit("edits");
    reveal_strlit("pattern");
    assert("path"@.len() == 4 && "start_line"@.len() == 10 && "end_line"@.len() == 8
        && "content"@.len() == 7 && "old"@.len() == 3 && "new"@.len() == 3
        && "expected_hash"@.len() == 13 && "edits"@.len() == 5 && "pattern"@.len() == 7);
    assert("old"@[0] == 'o' && "new"@[0] == 'n');
}

/// The other tools are called with a patch, a pattern, an address, a list, a command, or the
/// id of what was kept.
pub proof fn what_other_tools_are_asked_with()
    ensures
        is_needed(ToolName::ApplyPatchFreeform, seq!["patch"@]),
        asked_kind(ToolName::ApplyPatchFreeform, "patch"@) == Some("string"@),
        is_needed(ToolName::ApplyPatchStructured, seq!["operations"@]),
        asked_kind(ToolName::ApplyPatchStructured, "operations"@) == Some("array"@),
        json::field(tool_schema(ToolName::ApplyPatch), "required"@) is None,
        asked_kind(ToolName::ApplyPatch, "patch"@) == Some("string"@),
        asked_kind(ToolName::ApplyPatch, "operations"@) == Some("array"@),
        is_needed(ToolName::WebFetch, seq!["url"@]),
        asked_kind(ToolName::WebFetch, "url"@) == Some("string"@),
        is_needed(ToolName::TodoWrite, seq!["todos"@]),
        asked_kind(ToolName::TodoWrite, "todos"@) == Some("array"@),
        is_needed(ToolName::Bash, seq!["command"@]),
        asked_kind(ToolName::Bash, "command"@) == Some("string"@),
        is_needed(ToolName::BashWait, seq!["command_id"@]),
        asked_kind(ToolName::BashWait, "command_id"@) == Some("string"@),
        asked_kind(ToolName::BashWait, "timeout_secs"@) == Some("integer"@),
        is_needed(ToolName::BashKill, seq!["command_id"@]),
        asked_kind(ToolName::BashKill, "command_id"@) == Some("string"@),
        is_needed(ToolName::ReadBlob, seq!["blob_id"@]),
        asked_kind(ToolName::ReadBlob, "blob_id"@) == Some("string"@),
        asked_kind(ToolName::ReadBlob, "start_byte"@) == Some("integer"@),
        asked_kind(ToolName::ReadBlob, "limit_bytes"@) == Some("integer"@),
{
    lemma_schema_names();
    reveal_strlit("patch");
    reveal_strlit("operations");
    reveal_strlit("command_id");
    reveal_strlit("timeout_secs");
    reveal_strlit("blob_id");
    reveal_strlit("start_byte");
    reveal_strlit("limit_bytes");
    assert("patch"@.len() == 5 && "operations"@.len() == 10 && "command_id"@.len() == 10
        && "timeout_secs"@.len() == 12 && "blob_id"@.len() == 7 && "start_byte"@.len() == 10
        && "limit_bytes"@.len() == 11);
}

/// A tool only reads exactly if it changes no file and runs no command.
pub proof fn tools_that_only_read(name: ToolName)
    ensures
        tool_reads_only(name) <==> name != ToolName::WriteFile && name != ToolName::EditFile
            && name != ToolName::MultiEdit && name != ToolName::ApplyPatch && name
            != ToolName::ApplyPatchFreeform && name != ToolName::ApplyPatchStructured && name
            != ToolName::Bash && name != ToolName::BashKill,
{
}

/// Tools go by these names and are shown under these titles.
pub proof fn tools_go_by_their_names()
    ensures
        tool_name(ToolName::ReadFile) == "read_file"@ && tool_title(ToolName::ReadFile)
            == "Read File"@,
        tool_name(ToolName::ListDir) == "list_dir"@ && tool_title(ToolName::ListDir)
            == "List Directory"@,
        tool_name(ToolName::WriteFile) == "write_file"@ && tool_title(ToolName::WriteFile)
            == "Write File"@,
        tool_name(ToolName::EditFile) == "edit_file"@ && tool_title(ToolName::EditFile)
            == "Edit File"@,
        tool_name(ToolName::MultiEdit) == "multi_edit"@ && tool_title(ToolName::MultiEdit)
            == "Multi Edit"@,
        tool_name(ToolName::Glob) == "glob"@ && tool_title(ToolName::Glob) == "Find Files"@,
        tool_name(ToolName::Grep) == "grep"@ && tool_title(ToolName::Grep) == "Search Text"@,
        tool_name(ToolName::Bash) == "bash"@ && tool_title(ToolName::Bash) == "Run Command"@,
        tool_name(ToolName::BashWait) == "bash_wait"@ && tool_title(ToolName::BashWait)
            == "Wait For Command"@,
        tool_name(ToolName::BashKill) == "bash_kill"@ && tool_title(ToolName::BashKill)
            == "Stop Command"@,
        tool_name(ToolName::ApplyPatch) == "apply_patch"@ && tool_title(ToolName::ApplyPatch)
            == "Apply Patch"@,
        tool_title(ToolName::ApplyPatchFreeform) == "Apply Patch"@,
        tool_title(ToolName::ApplyPatchStructured) == "Apply Patch"@,
        tool_title(ToolName::WebFetch) == "Fetch Webpage"@,
        tool_title(ToolName::TodoWrite) == "Update Todo List"@,
        tool_title(ToolName::ReadBlob) == "Read Stored Output"@,
{
}

/// Each tool has a line of its own in what is told of the tools, in their order: its name
/// and what it is asked with.
pub proof fn each_tool_has_its_line()
    ensures
        all_tools().len() == 16,
        prompt_docs() == text::join(
            all_tools().map_values(
                |t: ToolName| "- "@ + tool_name(t) + " "@ + json::json_text(tool_schema(t)),
            ),
            "\n"@,
        ),
{
    assert(all_tools().map_values(
        |t: ToolName| doc_line(t, json::json_text(tool_schema(t))),
    ) =~= all_tools().map_values(
        |t: ToolName| "- "@ + tool_name(t) + " "@ + json::json_text(tool_schema(t)),
    ));
}

} // verus!
