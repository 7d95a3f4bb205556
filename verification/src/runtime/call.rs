//! Tool calls: the envelope in which a model writes one, and what a call asks for.
use vstd::prelude::*;
use vstd::slice::slice_subrange;

use crate::json;
use crate::json::{Json, JsonView};
use crate::text;
use crate::text_laws;
use crate::tools::apply;
use crate::tools::apply::{OperationView, StructuredPatchOperation};
use crate::tools::edit;
use crate::tools::edit::{TextEdit, TextEditView};
use crate::tools::error;
use crate::tools::error::{ToolError, ToolErrorView};
use crate::tools::files;
use crate::tools::files::{TodoItem, TodoView};
use crate::tools::line_patch;
use crate::tools::line_patch::{PatchOperation, PatchOperationView};
use crate::tools::names;
use crate::tools::names::ToolName;

verus! {

// ---------------------------------------------------------------------------
// Envelopes
// ---------------------------------------------------------------------------

/// A tool call: the name of the tool and its input.
#[derive(Debug)]
pub struct ParsedToolCall {
    pub name: String,
    pub input: Json,
}

/// The content of a `ParsedToolCall`.
pub struct CallView {
    pub name: Seq<char>,
    pub input: JsonView,
}

impl View for ParsedToolCall {
    type V = CallView;

    open spec fn view(&self) -> CallView {
        CallView { name: self.name@, input: self.input@ }
    }
}

impl Clone for ParsedToolCall {
    fn clone(&self) -> (r: ParsedToolCall)
        ensures
            r@ == self@,
    {
        ParsedToolCall { name: self.name.clone(), input: self.input.clone() }
    }
}

/// Why an envelope holds no tool call.
#[derive(Debug)]
pub enum ToolCallParseError {
    Unterminated,
    InvalidJson(String),
    MissingName,
}

/// The content of a `ToolCallParseError`.
pub enum ParseErrorView {
    Unterminated,
    InvalidJson(Seq<char>),
    MissingName,
}

impl View for ToolCallParseError {
    type V = ParseErrorView;

    open spec fn view(&self) -> ParseErrorView {
        match self {
            ToolCallParseError::Unterminated => ParseErrorView::Unterminated,
            ToolCallParseError::InvalidJson(detail) => ParseErrorView::InvalidJson(detail@),
            ToolCallParseError::MissingName => ParseErrorView::MissingName,
        }
    }
}

pub open spec fn parse_error_message(e: ParseErrorView) -> Seq<char> {
    match e {
        ParseErrorView::Unterminated => "tool call envelope is missing its closing tag"@,
        ParseErrorView::InvalidJson(detail) => "tool call envelope is not valid JSON: "@ + detail,
        ParseErrorView::MissingName => "tool call envelope is missing a string `name` field"@,
    }
}

impl ToolCallParseError {
    pub fn message(&self) -> (r: String)
        ensures
            r@ == parse_error_message(self@),
    {
        match self {
            ToolCallParseError::Unterminated => {
                "tool call envelope is missing its closing tag".to_string()
            },
            ToolCallParseError::InvalidJson(detail) => text::cat2(
                "tool call envelope is not valid JSON: ",
                detail.as_str(),
            ),
            ToolCallParseError::MissingName => {
                "tool call envelope is missing a string `name` field".to_string()
            },
        }
    }
}

/// What stands between the first opening mark and the first closing mark behind it,
/// without surrounding white space: nothing where there is no opening mark, and no body
/// where there is no closing mark.
pub open spec fn envelope(s: Seq<char>) -> Option<Option<Seq<char>>> {
    let open = "<inductor_tool_call>"@;
    let close = "</inductor_tool_call>"@;
    match text::find(s, open) {
        None => None,
        Some(i) => {
            let rest = s.skip(i + open.len());
            match text::find(rest, close) {
                None => Some(None),
                Some(j) => Some(Some(text::trimmed(rest.take(j)))),
            }
        },
    }
}

/// The call that the body of an envelope denotes, given how it reads as JSON. Input that
/// is left out is an empty object.
pub open spec fn envelope_call(body: Result<JsonView, Seq<char>>) -> Result<
    CallView,
    ParseErrorView,
> {
    match body {
        Err(detail) => Err(ParseErrorView::InvalidJson(detail)),
        Ok(v) => match json::text_field(v, "name"@) {
            Some(name) if text::trimmed(name).len() > 0 => Ok(
                CallView {
                    name,
                    input: match json::field(v, "input"@) {
                        Some(input) => input,
                        None => json::empty_object(),
                    },
                },
            ),
            _ => Err(ParseErrorView::MissingName),
        },
    }
}

/// The tool call in a reply of a model, if there is one.
pub open spec fn tool_call(s: Seq<char>) -> Option<Result<CallView, ParseErrorView>> {
    match envelope(s) {
        None => None,
        Some(None) => Some(Err(ParseErrorView::Unterminated)),
        Some(Some(body)) => Some(envelope_call(json::json_parse(body))),
    }
}

pub open spec fn call_result(r: Result<ParsedToolCall, ToolCallParseError>) -> Result<
    CallView,
    ParseErrorView,
> {
    match r {
        Ok(call) => Ok(call@),
        Err(e) => Err(e@),
    }
}

pub open spec fn found_call(r: Option<Result<ParsedToolCall, ToolCallParseError>>) -> Option<
    Result<CallView, ParseErrorView>,
> {
    match r {
        Some(c) => Some(call_result(c)),
        None => None,
    }
}

/// The body of the envelope in a reply.
pub fn find_envelope(s: &str) -> (r: Option<Option<String>>)
    ensures
        match r {
            Some(body) => envelope(s@) == Some(text::opt(body)),
            None => envelope(s@) is None,
        },
{
    let cs = text::chars_of(s);
    let open = text::chars_of("<inductor_tool_call>");
    let close = text::chars_of("</inductor_tool_call>");
    let total: usize = cs.len();
    match text::find_chars(cs.as_slice(), open.as_slice(), 0) {
        None => None,
        Some(i) => {
            let start: usize = i + open.len();
            proof {
                text::lemma_find_skip(cs@, close@, start as int, start as int);
            }
            match text::find_chars(cs.as_slice(), close.as_slice(), start) {
                None => Some(None),
                Some(j) => {
                    let body = text::string_of(slice_subrange(cs.as_slice(), start, j));
                    assert(body@ =~= cs@.skip(start as int).take(j - start));
                    Some(Some(text::trim(body.as_str())))
                },
            }
        },
    }
}

/// The call that the body of an envelope denotes, given how it reads as JSON.
pub fn call_from_body(body: Result<Json, String>) -> (r: Result<ParsedToolCall, ToolCallParseError>)
    ensures
        call_result(r) == envelope_call(
            match body {
                Ok(j) => Ok(j@),
                Err(e) => Err(e@),
            },
        ),
{
    let value = match body {
        Ok(value) => value,
        Err(detail) => {
            return Err(ToolCallParseError::InvalidJson(detail));
        },
    };
    let name = match value.get_string("name") {
        Some(name) => name,
        None => {
            return Err(ToolCallParseError::MissingName);
        },
    };
    let shown = text::trim(name.as_str());
    if text::is_blank_len(&shown) {
        return Err(ToolCallParseError::MissingName);
    }
    let input = match value.get("input") {
        Some(input) => input.clone(),
        None => Json::object(),
    };
    Ok(ParsedToolCall { name, input })
}

/// Looks for a tool call in a reply of a model.
pub fn parse_tool_call(s: &str) -> (r: Option<Result<ParsedToolCall, ToolCallParseError>>)
    ensures
        found_call(r) == tool_call(s@),
{
    match find_envelope(s) {
        None => None,
        Some(None) => Some(Err(ToolCallParseError::Unterminated)),
        Some(Some(body)) => Some(call_from_body(json::parse(body.as_str()))),
    }
}

/// A reply without an opening mark holds no call.
pub proof fn a_reply_without_a_mark_is_final(s: Seq<char>)
    requires
        !text::contains(s, "<inductor_tool_call>"@),
    ensures
        tool_call(s) is None,
{
    text::lemma_contains_find(s, "<inductor_tool_call>"@);
}

/// An opening mark makes a reply hold a call or an error: the turn goes on.
pub proof fn a_mark_is_never_ignored(s: Seq<char>)
    requires
        text::contains(s, "<inductor_tool_call>"@),
    ensures
        tool_call(s) is Some,
{
    text::lemma_contains_find(s, "<inductor_tool_call>"@);
}

// ---------------------------------------------------------------------------
// What a call asks for
// ---------------------------------------------------------------------------

/// Why a tool call could not be carried out.
#[derive(Debug)]
pub enum ToolExecError {
    UnknownTool(String),
    MissingField { tool: String, field: &'static str },
    Runtime(ToolError),
}

/// The content of a `ToolExecError`.
pub enum ExecErrorView {
    UnknownTool(Seq<char>),
    MissingField { tool: Seq<char>, field: Seq<char> },
    Runtime(ToolErrorView),
}

impl View for ToolExecError {
    type V = ExecErrorView;

    open spec fn view(&self) -> ExecErrorView {
        match self {
            ToolExecError::UnknownTool(name) => ExecErrorView::UnknownTool(name@),
            ToolExecError::MissingField { tool, field } => ExecErrorView::MissingField {
                tool: tool@,
                field: field@,
            },
            ToolExecError::Runtime(e) => ExecErrorView::Runtime(e@),
        }
    }
}

pub open spec fn exec_error_message(e: ExecErrorView) -> Seq<char> {
    match e {
        ExecErrorView::UnknownTool(name) => "unknown tool: "@ + name,
        ExecErrorView::MissingField { tool, field } => "tool "@ + tool + " requires a string `"@
            + field + "` input field"@,
        ExecErrorView::Runtime(e) => error::error_message(
            e,
            text::debug_text(error::error_command(e)),
        ),
    }
}

impl ToolExecError {
    pub fn message(&self) -> (r: String)
        ensures
            r@ == exec_error_message(self@),
    {
        match self {
            ToolExecError::UnknownTool(name) => text::cat2("unknown tool: ", name.as_str()),
            ToolExecError::MissingField { tool, field } => text::cat5(
                "tool ",
                tool.as_str(),
                " requires a string `",
                field,
                "` input field",
            ),
            ToolExecError::Runtime(e) => e.message(),
        }
    }
}

/// What a tool call asks the tools to do.
#[derive(Debug)]
pub enum ToolAction {
    ReadFile { path: String, start_line: Option<usize>, end_line: Option<usize> },
    ListDir { dir: Option<String> },
    WriteFile { path: String, content: String },
    EditFile { path: String, old: String, new: String, expected_hash: Option<String> },
    MultiEdit { path: String, edits: Vec<TextEdit>, expected_hash: Option<String> },
    ApplyPatchFreeform { patch: String },
    ApplyPatchStructured { operations: Vec<StructuredPatchOperation> },
    Glob { pattern: String, dir: Option<String> },
    Grep { pattern: String },
    WebFetch { url: String },
    TodoWrite { todos: Vec<TodoItem> },
    Bash { command: String },
    BashWait { command_id: String, timeout_secs: u64 },
    BashKill { command_id: String },
    ApplyPatch { changes: Vec<PatchOperation> },
    ReadBlob { blob_id: String, start_byte: usize, limit_bytes: usize },
}

/// The content of a `ToolAction`.
pub enum ToolActionView {
    ReadFile { path: Seq<char>, start_line: Option<nat>, end_line: Option<nat> },
    ListDir { dir: Option<Seq<char>> },
    WriteFile { path: Seq<char>, content: Seq<char> },
    EditFile { path: Seq<char>, old: Seq<char>, new: Seq<char>, expected_hash: Option<Seq<char>> },
    MultiEdit { path: Seq<char>, edits: Seq<TextEditView>, expected_hash: Option<Seq<char>> },
    ApplyPatchFreeform { patch: Seq<char> },
    ApplyPatchStructured { operations: Seq<OperationView> },
    Glob { pattern: Seq<char>, dir: Option<Seq<char>> },
    Grep { pattern: Seq<char> },
    WebFetch { url: Seq<char> },
    TodoWrite { todos: Seq<TodoView> },
    Bash { command: Seq<char> },
    BashWait { command_id: Seq<char>, timeout_secs: u64 },
    BashKill { command_id: Seq<char> },
    ApplyPatch { changes: Seq<PatchOperationView> },
    ReadBlob { blob_id: Seq<char>, start_byte: nat, limit_bytes: nat },
}

impl View for ToolAction {
    type V = ToolActionView;

    open spec fn view(&self) -> ToolActionView {
        match self {
            ToolAction::ReadFile { path, start_line, end_line } => ToolActionView::ReadFile { path: path@, start_line: files::opt_number(*start_line), end_line: files::opt_number(*end_line) },
            ToolAction::ListDir { dir } => ToolActionView::ListDir { dir: text::opt(*dir) },
            ToolAction::WriteFile { path, content } => ToolActionView::WriteFile { path: path@, content: content@ },
            ToolAction::EditFile { path, old, new, expected_hash } => ToolActionView::EditFile { path: path@, old: old@, new: new@, expected_hash: text::opt(*expected_hash) },
            ToolAction::MultiEdit { path, edits, expected_hash } => ToolActionView::MultiEdit { path: path@, edits: edit::edit_views(edits@), expected_hash: text::opt(*expected_hash) },
            ToolAction::ApplyPatchFreeform { patch } => ToolActionView::ApplyPatchFreeform { patch: patch@ },
            ToolAction::ApplyPatchStructured { operations } => ToolActionView::ApplyPatchStructured { operations: apply::operation_views(operations@) },
            ToolAction::Glob { pattern, dir } => ToolActionView::Glob { pattern: pattern@, dir: text::opt(*dir) },
            ToolAction::Grep { pattern } => ToolActionView::Grep { pattern: pattern@ },
            ToolAction::WebFetch { url } => ToolActionView::WebFetch { url: url@ },
            ToolAction::TodoWrite { todos } => ToolActionView::TodoWrite { todos: files::todo_views(todos@) },
            ToolAction::Bash { command } => ToolActionView::Bash { command: command@ },
            ToolAction::BashWait { command_id, timeout_secs } => ToolActionView::BashWait { command_id: command_id@, timeout_secs: *timeout_secs },
            ToolAction::BashKill { command_id } => ToolActionView::BashKill { command_id: command_id@ },
            ToolAction::ApplyPatch { changes } => ToolActionView::ApplyPatch { changes: line_patch::patch_operation_views(changes@) },
            ToolAction::ReadBlob { blob_id, start_byte, limit_bytes } => ToolActionView::ReadBlob { blob_id: blob_id@, start_byte: *start_byte as nat, limit_bytes: *limit_bytes as nat },
        }
    }
}

pub open spec fn missing<T>(tool: Seq<char>, field: Seq<char>) -> Result<T, ExecErrorView> {
    Err(ExecErrorView::MissingField { tool, field })
}

/// The edit that a JSON value denotes.
pub open spec fn edit_of(v: JsonView) -> Option<TextEditView> {
    match (json::record_text(v, 0, 2, "old"@), json::record_text(v, 1, 2, "new"@)) {
        (Some(old), Some(new)) => Some(TextEditView { old, new }),
        _ => None,
    }
}

/// The edits that a JSON value denotes.
pub open spec fn edits_of(items: Seq<JsonView>) -> Option<Seq<TextEditView>>
    decreases items.len(),
{
    if items.len() == 0 {
        Some(seq![])
    } else {
        match (edits_of(items.drop_last()), edit_of(items.last())) {
            (Some(before), Some(e)) => Some(before.push(e)),
            _ => None,
        }
    }
}

pub open spec fn edit_list(v: Option<JsonView>) -> Option<Seq<TextEditView>> {
    match v {
        Some(JsonView::Array(items)) => edits_of(items),
        _ => None,
    }
}

/// The task that a JSON value denotes.
pub open spec fn todo_of(v: JsonView) -> Option<TodoView> {
    match (json::record_text(v, 0, 2, "content"@), json::record_text(v, 1, 2, "status"@)) {
        (Some(content), Some(status)) => Some(TodoView { content, status }),
        _ => None,
    }
}

/// The tasks that a JSON value denotes.
pub open spec fn todos_of(items: Seq<JsonView>) -> Option<Seq<TodoView>>
    decreases items.len(),
{
    if items.len() == 0 {
        Some(seq![])
    } else {
        match (todos_of(items.drop_last()), todo_of(items.last())) {
            (Some(before), Some(t)) => Some(before.push(t)),
            _ => None,
        }
    }
}

pub open spec fn todo_list(v: Option<JsonView>) -> Option<Seq<TodoView>> {
    match v {
        Some(JsonView::Array(items)) => todos_of(items),
        _ => None,
    }
}

/// The kind of an operation of a structured patch: a member of an object, or the first
/// item of an array.
pub open spec fn operation_kind(v: JsonView) -> Option<Seq<char>> {
    match v {
        JsonView::Object(_) => json::text_field(v, "type"@),
        JsonView::Array(items) if items.len() > 0 => json::as_text(items[0]),
        _ => None,
    }
}

/// The operation of a structured patch that a JSON value denotes.
pub open spec fn operation_of(v: JsonView) -> Option<OperationView> {
    match operation_kind(v) {
        Some(kind) => if kind == "edit"@ {
            match (
                json::record_text(v, 1, 5, "path"@),
                json::record_text(v, 2, 5, "old"@),
                json::record_text(v, 3, 5, "new"@),
                json::record_optional(v, 4, 5, "expected_hash"@),
            ) {
                (Some(path), Some(old), Some(new), Some(expected_hash)) => Some(
                    OperationView::Edit { path, old, new, expected_hash },
                ),
                _ => None,
            }
        } else if kind == "multi_edit"@ {
            match (
                json::record_text(v, 1, 4, "path"@),
                edit_list(json::record_field(v, 2, 4, "edits"@)),
                json::record_optional(v, 3, 4, "expected_hash"@),
            ) {
                (Some(path), Some(edits), Some(expected_hash)) => Some(
                    OperationView::MultiEdit { path, edits, expected_hash },
                ),
                _ => None,
            }
        } else if kind == "rename"@ {
            match (
                json::record_text(v, 1, 4, "from"@),
                json::record_text(v, 2, 4, "to"@),
                json::record_optional(v, 3, 4, "expected_hash"@),
            ) {
                (Some(from), Some(to), Some(expected_hash)) => Some(
                    OperationView::Rename { from, to, expected_hash },
                ),
                _ => None,
            }
        } else {
            None
        },
        None => None,
    }
}

pub open spec fn operations_of(items: Seq<JsonView>) -> Option<Seq<OperationView>>
    decreases items.len(),
{
    if items.len() == 0 {
        Some(seq![])
    } else {
        match (operations_of(items.drop_last()), operation_of(items.last())) {
            (Some(before), Some(o)) => Some(before.push(o)),
            _ => None,
        }
    }
}

/// The operations of the structured patch that a JSON value denotes.
pub open spec fn operation_list(v: JsonView) -> Option<Seq<OperationView>> {
    match json::record_field(v, 0, 1, "operations"@) {
        Some(JsonView::Array(items)) => operations_of(items),
        _ => None,
    }
}

/// A number as an index: one that no index reaches stands for the largest.
pub open spec fn as_index(n: nat) -> nat {
    if n <= usize::MAX {
        n
    } else {
        usize::MAX as nat
    }
}

/// What stands in place of the old lines after a line-aware operation: an insertion keeps
/// them.
pub open spec fn lines_put(op: Seq<char>, old: Seq<char>, new: Seq<char>) -> Option<Seq<char>> {
    if op == "update"@ {
        Some(new)
    } else if op == "insert_before"@ {
        Some(new + old)
    } else if op == "insert_after"@ {
        Some(old + new)
    } else {
        None
    }
}

/// The line-aware operation that a JSON value denotes.
pub open spec fn line_operation_of(v: JsonView) -> Option<PatchOperationView> {
    match (
        json::text_field(v, "op"@),
        json::text_field(v, "path"@),
        json::unsigned_field(v, "start_line"@),
        json::unsigned_field(v, "end_line"@),
        json::text_field(v, "old"@),
        json::text_field(v, "new"@),
    ) {
        (Some(op), Some(path), Some(start), Some(end), Some(old), Some(new)) => match lines_put(
            op,
            old,
            new,
        ) {
            Some(put) => Some(
                PatchOperationView::Lines {
                    path,
                    start_line: as_index(start),
                    end_line: as_index(end),
                    old,
                    new: put,
                },
            ),
            None => None,
        },
        _ => None,
    }
}

pub open spec fn line_operations_of(items: Seq<JsonView>) -> Option<Seq<PatchOperationView>>
    decreases items.len(),
{
    if items.len() == 0 {
        Some(seq![])
    } else {
        match (line_operations_of(items.drop_last()), line_operation_of(items.last())) {
            (Some(before), Some(o)) => Some(before.push(o)),
            _ => None,
        }
    }
}

/// What a call of `apply_patch` asks for: the operations of the patch text, where there is
/// one, and else the line-aware operations.
pub open spec fn patch_action(call: CallView) -> Result<ToolActionView, ExecErrorView> {
    match (json::text_field(call.input, "patch"@), json::items_field(call.input, "operations"@)) {
        (Some(patch), _) => match line_patch::marked_patch(patch) {
            Ok(changes) => Ok(ToolActionView::ApplyPatch { changes }),
            Err(e) => Err(ExecErrorView::Runtime(e)),
        },
        (None, Some(items)) => match line_operations_of(items) {
            Some(changes) => Ok(ToolActionView::ApplyPatch { changes }),
            None => missing(call.name, "operations"@),
        },
        (None, None) => missing(call.name, "patch"@),
    }
}

/// How many bytes `read_blob` reads where the call does not say it.
pub const READ_BLOB_DEFAULT_BYTES: usize = 16384;

/// The number in a member of the input, or what stands for it.
pub open spec fn index_field(input: JsonView, field: Seq<char>, absent: nat) -> nat {
    match json::unsigned_field(input, field) {
        Some(n) => as_index(n),
        None => absent,
    }
}

/// The number of a line in a member of the input.
pub open spec fn line_field(input: JsonView, field: Seq<char>) -> Option<nat> {
    match json::unsigned_field(input, field) {
        Some(n) => Some(as_index(n)),
        None => None,
    }
}

/// What a call of one of the tools that finish at once asks for.
pub open spec fn plain_action(call: CallView) -> Result<ToolActionView, ExecErrorView> {
    let input = call.input;
    let tool = call.name;
    let text_of = |field: Seq<char>| json::text_field(input, field);
    let hash = json::text_field(input, "expected_hash"@);
    if tool == "read_file"@ {
        match text_of("path"@) {
            Some(path) => Ok(
                ToolActionView::ReadFile {
                    path,
                    start_line: line_field(input, "start_line"@),
                    end_line: line_field(input, "end_line"@),
                },
            ),
            None => missing(tool, "path"@),
        }
    } else if tool == "list_dir"@ {
        Ok(ToolActionView::ListDir { dir: text_of("path"@) })
    } else if tool == "write_file"@ {
        match (text_of("path"@), text_of("content"@)) {
            (None, _) => missing(tool, "path"@),
            (_, None) => missing(tool, "content"@),
            (Some(path), Some(content)) => Ok(ToolActionView::WriteFile { path, content }),
        }
    } else if tool == "edit_file"@ {
        match (text_of("path"@), text_of("old"@), text_of("new"@)) {
            (None, _, _) => missing(tool, "path"@),
            (_, None, _) => missing(tool, "old"@),
            (_, _, None) => missing(tool, "new"@),
            (Some(path), Some(old), Some(new)) => Ok(
                ToolActionView::EditFile { path, old, new, expected_hash: hash },
            ),
        }
    } else if tool == "multi_edit"@ {
        match (text_of("path"@), edit_list(json::field(input, "edits"@))) {
            (None, _) => missing(tool, "path"@),
            (_, None) => missing(tool, "edits"@),
            (Some(path), Some(edits)) => Ok(
                ToolActionView::MultiEdit { path, edits, expected_hash: hash },
            ),
        }
    } else if tool == "apply_patch_freeform"@ {
        match text_of("patch"@) {
            Some(patch) => Ok(ToolActionView::ApplyPatchFreeform { patch }),
            None => missing(tool, "patch"@),
        }
    } else if tool == "apply_patch_structured"@ {
        match operation_list(input) {
            Some(operations) => Ok(ToolActionView::ApplyPatchStructured { operations }),
            None => missing(tool, "operations"@),
        }
    } else if tool == "glob"@ {
        match text_of("pattern"@) {
            Some(pattern) => Ok(ToolActionView::Glob { pattern, dir: text_of("path"@) }),
            None => missing(tool, "pattern"@),
        }
    } else if tool == "grep"@ {
        match text_of("pattern"@) {
            Some(pattern) => Ok(ToolActionView::Grep { pattern }),
            None => missing(tool, "pattern"@),
        }
    } else if tool == "web_fetch"@ {
        match text_of("url"@) {
            Some(url) => Ok(ToolActionView::WebFetch { url }),
            None => missing(tool, "url"@),
        }
    } else if tool == "todo_write"@ {
        match todo_list(json::field(input, "todos"@)) {
            Some(todos) => Ok(ToolActionView::TodoWrite { todos }),
            None => missing(tool, "todos"@),
        }
    } else if tool == "bash"@ {
        match text_of("command"@) {
            Some(command) => Ok(ToolActionView::Bash { command }),
            None => missing(tool, "command"@),
        }
    } else if tool == "apply_patch"@ {
        patch_action(call)
    } else if tool == "read_blob"@ {
        match text_of("blob_id"@) {
            Some(blob_id) => Ok(
                ToolActionView::ReadBlob {
                    blob_id,
                    start_byte: index_field(input, "start_byte"@, 0),
                    limit_bytes: index_field(
                        input,
                        "limit_bytes"@,
                        READ_BLOB_DEFAULT_BYTES as nat,
                    ),
                },
            ),
            None => missing(tool, "blob_id"@),
        }
    } else {
        Err(ExecErrorView::UnknownTool(tool))
    }
}

/// What a call of any tool asks for.
pub open spec fn tool_action(call: CallView) -> Result<ToolActionView, ExecErrorView> {
    if call.name == "bash_wait"@ {
        match json::text_field(call.input, "command_id"@) {
            Some(command_id) => Ok(
                ToolActionView::BashWait {
                    command_id,
                    timeout_secs: match json::unsigned_field(call.input, "timeout_secs"@) {
                        Some(n) => n as u64,
                        None => 30,
                    },
                },
            ),
            None => missing(call.name, "command_id"@),
        }
    } else if call.name == "bash_kill"@ {
        match json::text_field(call.input, "command_id"@) {
            Some(command_id) => Ok(ToolActionView::BashKill { command_id }),
            None => missing(call.name, "command_id"@),
        }
    } else {
        plain_action(call)
    }
}

pub open spec fn action_result(r: Result<ToolAction, ToolExecError>) -> Result<
    ToolActionView,
    ExecErrorView,
> {
    match r {
        Ok(a) => Ok(a@),
        Err(e) => Err(e@),
    }
}

fn read_edit(v: &Json) -> (r: Option<TextEdit>)
    ensures
        match r {
            Some(e) => edit_of(v@) == Some(e@),
            None => edit_of(v@) is None,
        },
{
    match (v.record_string(0, 2, "old"), v.record_string(1, 2, "new")) {
        (Some(old), Some(new)) => Some(TextEdit { old, new }),
        _ => None,
    }
}

fn read_edits(v: Option<&Json>) -> (r: Option<Vec<TextEdit>>)
    ensures
        match r {
            Some(edits) => edit_list(
                match v {
                    Some(j) => Some(j@),
                    None => None,
                },
            ) == Some(edit::edit_views(edits@)),
            None => edit_list(
                match v {
                    Some(j) => Some(j@),
                    None => None,
                },
            ) is None,
        },
{
    let items = match v {
        Some(Json::Array(items)) => items,
        _ => {
            return None;
        },
    };
    let ghost all = json::array_view(items@);
    proof {
        json::lemma_array_view(items@);
    }
    let mut out: Vec<TextEdit> = Vec::new();
    let mut i: usize = 0;
    assert(edit::edit_views(out@) =~= seq![]);
    while i < items.len()
        invariant
            i <= items@.len(),
            all == json::array_view(items@),
            all.len() == items@.len(),
            forall|k: int| 0 <= k < items@.len() ==> #[trigger] all[k] == items@[k]@,
            v == Some(&Json::Array(*items)),
            edits_of(all.take(i as int)) == Some(edit::edit_views(out@)),
        decreases items@.len() - i,
    {
        assert(all.take(i + 1).drop_last() =~= all.take(i as int));
        assert(all.take(i + 1).last() == items@[i as int]@);
        match read_edit(&items[i]) {
            Some(e) => {
                let ghost before = edit::edit_views(out@);
                let ghost shown = e@;
                out.push(e);
                assert(edit::edit_views(out@) =~= before.push(shown));
            },
            None => {
                proof {
                    lemma_no_edits(all, i + 1);
                }
                return None;
            },
        }
        i += 1;
    }
    assert(all.take(i as int) =~= all);
    Some(out)
}

proof fn lemma_no_edits(items: Seq<JsonView>, n: int)
    requires
        0 <= n <= items.len(),
        edits_of(items.take(n)) is None,
    ensures
        edits_of(items) is None,
    decreases items.len() - n,
{
    if n == items.len() {
        assert(items.take(n) =~= items);
    } else {
        assert(items.take(n + 1).drop_last() =~= items.take(n));
        lemma_no_edits(items, n + 1);
    }
}

fn read_todo(v: &Json) -> (r: Option<TodoItem>)
    ensures
        match r {
            Some(t) => todo_of(v@) == Some(t@),
            None => todo_of(v@) is None,
        },
{
    match (v.record_string(0, 2, "content"), v.record_string(1, 2, "status")) {
        (Some(content), Some(status)) => Some(TodoItem { content, status }),
        _ => None,
    }
}

fn read_todos(v: Option<&Json>) -> (r: Option<Vec<TodoItem>>)
    ensures
        match r {
            Some(todos) => todo_list(
                match v {
                    Some(j) => Some(j@),
                    None => None,
                },
            ) == Some(files::todo_views(todos@)),
            None => todo_list(
                match v {
                    Some(j) => Some(j@),
                    None => None,
                },
            ) is None,
        },
{
    let items = match v {
        Some(Json::Array(items)) => items,
        _ => {
            return None;
        },
    };
    let ghost all = json::array_view(items@);
    proof {
        json::lemma_array_view(items@);
    }
    let mut out: Vec<TodoItem> = Vec::new();
    let mut i: usize = 0;
    assert(files::todo_views(out@) =~= seq![]);
    while i < items.len()
        invariant
            i <= items@.len(),
            all == json::array_view(items@),
            all.len() == items@.len(),
            forall|k: int| 0 <= k < items@.len() ==> #[trigger] all[k] == items@[k]@,
            v == Some(&Json::Array(*items)),
            todos_of(all.take(i as int)) == Some(files::todo_views(out@)),
        decreases items@.len() - i,
    {
        assert(all.take(i + 1).drop_last() =~= all.take(i as int));
        assert(all.take(i + 1).last() == items@[i as int]@);
        match read_todo(&items[i]) {
            Some(t) => {
                let ghost before = files::todo_views(out@);
                let ghost shown = t@;
                out.push(t);
                assert(files::todo_views(out@) =~= before.push(shown));
            },
            None => {
                proof {
                    lemma_no_todos(all, i + 1);
                }
                return None;
            },
        }
        i += 1;
    }
    assert(all.take(i as int) =~= all);
    Some(out)
}

proof fn lemma_no_todos(items: Seq<JsonView>, n: int)
    requires
        0 <= n <= items.len(),
        todos_of(items.take(n)) is None,
    ensures
        todos_of(items) is None,
    decreases items.len() - n,
{
    if n == items.len() {
        assert(items.take(n) =~= items);
    } else {
        assert(items.take(n + 1).drop_last() =~= items.take(n));
        lemma_no_todos(items, n + 1);
    }
}

fn read_kind(v: &Json) -> (r: Option<String>)
    ensures
        text::opt(r) == operation_kind(v@),
{
    match v {
        Json::Object(_) => v.get_string("type"),
        Json::Array(items) => {
            proof {
                json::lemma_array_view(items@);
            }
            if items.len() > 0 {
                assert(json::array_view(items@)[0] == items@[0]@);
                match items[0].as_str() {
                    Some(s) => Some(s.to_string()),
                    None => None,
                }
            } else {
                None
            }
        },
        _ => None,
    }
}

fn read_operation(v: &Json) -> (r: Option<StructuredPatchOperation>)
    ensures
        match r {
            Some(o) => operation_of(v@) == Some(o@),
            None => operation_of(v@) is None,
        },
{
    let kind = match read_kind(v) {
        Some(kind) => kind,
        None => {
            return None;
        },
    };
    if text::same(kind.as_str(), "edit") {
        match (
            v.record_string(1, 5, "path"),
            v.record_string(2, 5, "old"),
            v.record_string(3, 5, "new"),
            v.record_optional_string(4, 5, "expected_hash"),
        ) {
            (Some(path), Some(old), Some(new), Some(expected_hash)) => Some(
                StructuredPatchOperation::Edit { path, old, new, expected_hash },
            ),
            _ => None,
        }
    } else if text::same(kind.as_str(), "multi_edit") {
        match (
            v.record_string(1, 4, "path"),
            read_edits(v.record_member(2, 4, "edits")),
            v.record_optional_string(3, 4, "expected_hash"),
        ) {
            (Some(path), Some(edits), Some(expected_hash)) => Some(
                StructuredPatchOperation::MultiEdit { path, edits, expected_hash },
            ),
            _ => None,
        }
    } else if text::same(kind.as_str(), "rename") {
        match (
            v.record_string(1, 4, "from"),
            v.record_string(2, 4, "to"),
            v.record_optional_string(3, 4, "expected_hash"),
        ) {
            (Some(from), Some(to), Some(expected_hash)) => Some(
                StructuredPatchOperation::Rename { from, to, expected_hash },
            ),
            _ => None,
        }
    } else {
        None
    }
}

fn read_operations(v: &Json) -> (r: Option<Vec<StructuredPatchOperation>>)
    ensures
        match r {
            Some(ops) => operation_list(v@) == Some(apply::operation_views(ops@)),
            None => operation_list(v@) is None,
        },
{
    let items = match v.record_member(0, 1, "operations") {
        Some(Json::Array(items)) => items,
        _ => {
            return None;
        },
    };
    let ghost all = json::array_view(items@);
    proof {
        json::lemma_array_view(items@);
    }
    let mut out: Vec<StructuredPatchOperation> = Vec::new();
    let mut i: usize = 0;
    assert(apply::operation_views(out@) =~= seq![]);
    while i < items.len()
        invariant
            i <= items@.len(),
            all == json::array_view(items@),
            all.len() == items@.len(),
            forall|k: int| 0 <= k < items@.len() ==> #[trigger] all[k] == items@[k]@,
            json::record_field(v@, 0, 1, "operations"@) == Some(JsonView::Array(all)),
            operations_of(all.take(i as int)) == Some(apply::operation_views(out@)),
        decreases items@.len() - i,
    {
        assert(all.take(i + 1).drop_last() =~= all.take(i as int));
        assert(all.take(i + 1).last() == items@[i as int]@);
        match read_operation(&items[i]) {
            Some(o) => {
                let ghost before = apply::operation_views(out@);
                let ghost shown = o@;
                out.push(o);
                assert(apply::operation_views(out@) =~= before.push(shown));
            },
            None => {
                proof {
                    lemma_no_operations(all, i + 1);
                }
                return None;
            },
        }
        i += 1;
    }
    assert(all.take(i as int) =~= all);
    Some(out)
}

proof fn lemma_no_operations(items: Seq<JsonView>, n: int)
    requires
        0 <= n <= items.len(),
        operations_of(items.take(n)) is None,
    ensures
        operations_of(items) is None,
    decreases items.len() - n,
{
    if n == items.len() {
        assert(items.take(n) =~= items);
    } else {
        assert(items.take(n + 1).drop_last() =~= items.take(n));
        lemma_no_operations(items, n + 1);
    }
}

fn index_of(n: u64) -> (r: usize)
    ensures
        r == as_index(n as nat),
{
    if n <= usize::MAX as u64 {
        n as usize
    } else {
        usize::MAX
    }
}

fn read_index(input: &Json, field: &str, absent: usize) -> (r: usize)
    ensures
        r == index_field(input@, field@, absent as nat),
{
    match input.get_u64(field) {
        Some(n) => index_of(n),
        None => absent,
    }
}

fn read_line_number(input: &Json, field: &str) -> (r: Option<usize>)
    ensures
        files::opt_number(r) == line_field(input@, field@),
{
    match input.get_u64(field) {
        Some(n) => Some(index_of(n)),
        None => None,
    }
}

fn read_line_operation(v: &Json) -> (r: Option<PatchOperation>)
    ensures
        match r {
            Some(o) => line_operation_of(v@) == Some(o@),
            None => line_operation_of(v@) is None,
        },
{
    match (
        v.get_string("op"),
        v.get_string("path"),
        v.get_u64("start_line"),
        v.get_u64("end_line"),
        v.get_string("old"),
        v.get_string("new"),
    ) {
        (Some(op), Some(path), Some(start), Some(end), Some(old), Some(new)) => {
            let put = if text::same(op.as_str(), "update") {
                new
            } else if text::same(op.as_str(), "insert_before") {
                text::cat2(new.as_str(), old.as_str())
            } else if text::same(op.as_str(), "insert_after") {
                text::cat2(old.as_str(), new.as_str())
            } else {
                return None;
            };
            Some(
                PatchOperation::Lines {
                    path,
                    start_line: index_of(start),
                    end_line: index_of(end),
                    old,
                    new: put,
                },
            )
        },
        _ => None,
    }
}

fn read_line_operations(items: &Vec<Json>) -> (r: Option<Vec<PatchOperation>>)
    ensures
        match r {
            Some(ops) => line_operations_of(json::array_view(items@)) == Some(
                line_patch::patch_operation_views(ops@),
            ),
            None => line_operations_of(json::array_view(items@)) is None,
        },
{
    let ghost all = json::array_view(items@);
    proof {
        json::lemma_array_view(items@);
    }
    let mut out: Vec<PatchOperation> = Vec::new();
    let mut i: usize = 0;
    assert(line_patch::patch_operation_views(out@) =~= seq![]);
    while i < items.len()
        invariant
            i <= items@.len(),
            all == json::array_view(items@),
            all.len() == items@.len(),
            forall|k: int| 0 <= k < items@.len() ==> #[trigger] all[k] == items@[k]@,
            line_operations_of(all.take(i as int)) == Some(
                line_patch::patch_operation_views(out@),
            ),
        decreases items@.len() - i,
    {
        assert(all.take(i + 1).drop_last() =~= all.take(i as int));
        assert(all.take(i + 1).last() == items@[i as int]@);
        match read_line_operation(&items[i]) {
            Some(o) => {
                let ghost before = line_patch::patch_operation_views(out@);
                let ghost shown = o@;
                out.push(o);
                assert(line_patch::patch_operation_views(out@) =~= before.push(shown));
            },
            None => {
                proof {
                    lemma_no_line_operations(all, i + 1);
                }
                return None;
            },
        }
        i += 1;
    }
    assert(all.take(i as int) =~= all);
    Some(out)
}

proof fn lemma_no_line_operations(items: Seq<JsonView>, n: int)
    requires
        0 <= n <= items.len(),
        line_operations_of(items.take(n)) is None,
    ensures
        line_operations_of(items) is None,
    decreases items.len() - n,
{
    if n == items.len() {
        assert(items.take(n) =~= items);
    } else {
        assert(items.take(n + 1).drop_last() =~= items.take(n));
        lemma_no_line_operations(items, n + 1);
    }
}

fn read_patch(call: &ParsedToolCall) -> (r: Result<ToolAction, ToolExecError>)
    ensures
        action_result(r) == patch_action(call@),
{
    let name = call.name.as_str();
    if let Some(patch) = call.input.get_string("patch") {
        return match line_patch::parse_marked_patch(patch.as_str()) {
            Ok(changes) => Ok(ToolAction::ApplyPatch { changes }),
            Err(e) => Err(ToolExecError::Runtime(e)),
        };
    }
    match call.input.get_array("operations") {
        Some(items) => match read_line_operations(items) {
            Some(changes) => Ok(ToolAction::ApplyPatch { changes }),
            None => Err(lacks(name, "operations")),
        },
        None => Err(lacks(name, "patch")),
    }
}

fn lacks(tool: &str, field: &'static str) -> (r: ToolExecError)
    ensures
        r@ == (ExecErrorView::MissingField { tool: tool@, field: field@ }),
{
    ToolExecError::MissingField { tool: tool.to_string(), field }
}

fn string_field(input: &Json, field: &'static str, tool: &str) -> (r: Result<
    String,
    ToolExecError,
>)
    ensures
        match r {
            Ok(s) => json::text_field(input@, field@) == Some(s@),
            Err(e) => json::text_field(input@, field@) is None && e@
                == (ExecErrorView::MissingField { tool: tool@, field: field@ }),
        },
{
    match input.get_string(field) {
        Some(s) => Ok(s),
        None => Err(lacks(tool, field)),
    }
}

/// What a call of one of the tools that finish at once asks for.
pub fn execute_tool_call(call: &ParsedToolCall) -> (r: Result<ToolAction, ToolExecError>)
    ensures
        action_result(r) == plain_action(call@),
{
    let input = &call.input;
    let name = call.name.as_str();
    if text::same(name, ToolName::ReadFile.as_str()) {
        match string_field(input, "path", name) {
            Ok(path) => Ok(
                ToolAction::ReadFile {
                    path,
                    start_line: read_line_number(input, "start_line"),
                    end_line: read_line_number(input, "end_line"),
                },
            ),
            Err(e) => Err(e),
        }
    } else if text::same(name, ToolName::ListDir.as_str()) {
        Ok(ToolAction::ListDir { dir: input.get_string("path") })
    } else if text::same(name, ToolName::WriteFile.as_str()) {
        let path = match string_field(input, "path", name) {
            Ok(s) => s,
            Err(e) => {
                return Err(e);
            },
        };
        match string_field(input, "content", name) {
            Ok(content) => Ok(ToolAction::WriteFile { path, content }),
            Err(e) => Err(e),
        }
    } else if text::same(name, ToolName::EditFile.as_str()) {
        let path = match string_field(input, "path", name) {
            Ok(s) => s,
            Err(e) => {
                return Err(e);
            },
        };
        let old = match string_field(input, "old", name) {
            Ok(s) => s,
            Err(e) => {
                return Err(e);
            },
        };
        let new = match string_field(input, "new", name) {
            Ok(s) => s,
            Err(e) => {
                return Err(e);
            },
        };
        Ok(
            ToolAction::EditFile {
                path,
                old,
                new,
                expected_hash: input.get_string("expected_hash"),
            },
        )
    } else if text::same(name, ToolName::MultiEdit.as_str()) {
        let path = match string_field(input, "path", name) {
            Ok(s) => s,
            Err(e) => {
                return Err(e);
            },
        };
        match read_edits(input.get("edits")) {
            Some(edits) => Ok(
                ToolAction::MultiEdit {
                    path,
                    edits,
                    expected_hash: input.get_string("expected_hash"),
                },
            ),
            None => Err(lacks(name, "edits")),
        }
    } else if text::same(name, ToolName::ApplyPatchFreeform.as_str()) {
        match string_field(input, "patch", name) {
            Ok(patch) => Ok(ToolAction::ApplyPatchFreeform { patch }),
            Err(e) => Err(e),
        }
    } else if text::same(name, ToolName::ApplyPatchStructured.as_str()) {
        match read_operations(input) {
            Some(operations) => Ok(ToolAction::ApplyPatchStructured { operations }),
            None => Err(lacks(name, "operations")),
        }
    } else if text::same(name, ToolName::Glob.as_str()) {
        match string_field(input, "pattern", name) {
            Ok(pattern) => Ok(ToolAction::Glob { pattern, dir: input.get_string("path") }),
            Err(e) => Err(e),
        }
    } else if text::same(name, ToolName::Grep.as_str()) {
        match string_field(input, "pattern", name) {
            Ok(pattern) => Ok(ToolAction::Grep { pattern }),
            Err(e) => Err(e),
        }
    } else if text::same(name, ToolName::WebFetch.as_str()) {
        match string_field(input, "url", name) {
            Ok(url) => Ok(ToolAction::WebFetch { url }),
            Err(e) => Err(e),
        }
    } else if text::same(name, ToolName::TodoWrite.as_str()) {
        match read_todos(input.get("todos")) {
            Some(todos) => Ok(ToolAction::TodoWrite { todos }),
            None => Err(lacks(name, "todos")),
        }
    } else if text::same(name, ToolName::Bash.as_str()) {
        match string_field(input, "command", name) {
            Ok(command) => Ok(ToolAction::Bash { command }),
            Err(e) => Err(e),
        }
    } else if text::same(name, ToolName::ApplyPatch.as_str()) {
        read_patch(call)
    } else if text::same(name, ToolName::ReadBlob.as_str()) {
        let start_byte: usize = read_index(input, "start_byte", 0);
        let limit_bytes: usize = read_index(input, "limit_bytes", READ_BLOB_DEFAULT_BYTES);
        match string_field(input, "blob_id", name) {
            Ok(blob_id) => Ok(ToolAction::ReadBlob { blob_id, start_byte, limit_bytes }),
            Err(e) => Err(e),
        }
    } else {
        Err(ToolExecError::UnknownTool(name.to_string()))
    }
}

/// What a call of any tool asks for.
pub fn execute_tool_call_cancellable_until(call: &ParsedToolCall) -> (r: Result<
    ToolAction,
    ToolExecError,
>)
    ensures
        action_result(r) == tool_action(call@),
{
    let name = call.name.as_str();
    if text::same(name, ToolName::BashWait.as_str()) {
        let timeout_secs: u64 = match call.input.get_u64("timeout_secs") {
            Some(n) => n,
            None => 30,
        };
        match string_field(&call.input, "command_id", name) {
            Ok(command_id) => Ok(ToolAction::BashWait { command_id, timeout_secs }),
            Err(e) => Err(e),
        }
    } else if text::same(name, ToolName::BashKill.as_str()) {
        match string_field(&call.input, "command_id", name) {
            Ok(command_id) => Ok(ToolAction::BashKill { command_id }),
            Err(e) => Err(e),
        }
    } else {
        execute_tool_call(call)
    }
}

// ---------------------------------------------------------------------------
// How calls are read
// ---------------------------------------------------------------------------

/// A call that stands in a reply between its two marks is found, whatever stands before and
/// behind it: the text between the marks is read as JSON, without the white space round it.
/// A mark that is not closed is an error.
pub proof fn a_call_is_found_between_its_marks(
    before: Seq<char>,
    body: Seq<char>,
    behind: Seq<char>,
)
    requires
        forall|i: int|
            0 <= i < before.len() ==> !#[trigger] text::occurs_at(
                before + "<inductor_tool_call>"@ + (body + "</inductor_tool_call>"@ + behind),
                "<inductor_tool_call>"@,
                i,
            ),
        forall|i: int|
            0 <= i < body.len() ==> !#[trigger] text::occurs_at(
                body + "</inductor_tool_call>"@ + behind,
                "</inductor_tool_call>"@,
                i,
            ),
    ensures
        tool_call(
            before + "<inductor_tool_call>"@ + (body + "</inductor_tool_call>"@ + behind),
        ) == Some(envelope_call(json::json_parse(text::trimmed(body)))),
{
    reveal_strlit("<inductor_tool_call>");
    reveal_strlit("</inductor_tool_call>");
    let open = "<inductor_tool_call>"@;
    let close = "</inductor_tool_call>"@;
    let rest = body + close + behind;
    let s = before + open + rest;
    text_laws::the_first_match_is_replaced(before, open, rest, seq![]);
    text_laws::the_first_match_is_replaced(body, close, behind, seq![]);
    assert(s.skip(before.len() + open.len() as int) =~= rest);
    assert(rest.take(body.len() as int) =~= body);
}

/// A mark that is not closed is told as such.
pub proof fn an_open_mark_is_an_error(before: Seq<char>, rest: Seq<char>)
    requires
        forall|i: int|
            0 <= i < before.len() ==> !#[trigger] text::occurs_at(
                before + "<inductor_tool_call>"@ + rest,
                "<inductor_tool_call>"@,
                i,
            ),
        !text::contains(rest, "</inductor_tool_call>"@),
    ensures
        tool_call(before + "<inductor_tool_call>"@ + rest) == Some(
            Err::<CallView, ParseErrorView>(ParseErrorView::Unterminated),
        ),
{
    reveal_strlit("<inductor_tool_call>");
    let open = "<inductor_tool_call>"@;
    let s = before + open + rest;
    text_laws::the_first_match_is_replaced(before, open, rest, seq![]);
    assert(s.skip(before.len() + open.len() as int) =~= rest);
    text::lemma_contains_find(rest, "</inductor_tool_call>"@);
}

/// A call has the name and the input that it is written with; without an input it has an
/// empty one, and without a name, or with a blank one, it is no call.
pub proof fn a_call_is_read_as_it_is_written(v: JsonView, name: Seq<char>, detail: Seq<char>)
    ensures
        json::text_field(v, "name"@) == Some(name) && text::trimmed(name).len() > 0 ==> (
        envelope_call(Ok(v)) matches Ok(call) && call.name == name && (json::field(
            v,
            "input"@,
        ) matches Some(input) ==> call.input == input) && (json::field(v, "input"@) is None
            ==> call.input == JsonView::Object(Map::empty()))),
        json::text_field(v, "name"@) is None || (json::text_field(v, "name"@) == Some(name)
            && text::trimmed(name).len() == 0) ==> envelope_call(Ok(v)) == Err::<
            CallView,
            ParseErrorView,
        >(ParseErrorView::MissingName),
        envelope_call(Err(detail)) == Err::<CallView, ParseErrorView>(
            ParseErrorView::InvalidJson(detail),
        ),
{
}

proof fn lemma_names()
    ensures
        "read_file"@.len() == 9 && "read_file"@[0] == 'r' && "read_file"@[5] == 'f',
        "list_dir"@.len() == 8,
        "write_file"@.len() == 10 && "write_file"@[0] == 'w',
        "edit_file"@.len() == 9 && "edit_file"@[0] == 'e',
        "multi_edit"@.len() == 10 && "multi_edit"@[0] == 'm',
        "apply_patch_freeform"@.len() == 20,
        "apply_patch_structured"@.len() == 22,
        "glob"@.len() == 4 && "glob"@[0] == 'g' && "glob"@[1] == 'l',
        "grep"@.len() == 4 && "grep"@[0] == 'g' && "grep"@[1] == 'r',
        "web_fetch"@.len() == 9 && "web_fetch"@[0] == 'w',
        "todo_write"@.len() == 10 && "todo_write"@[0] == 't',
        "bash"@.len() == 4 && "bash"@[0] == 'b',
        "apply_patch"@.len() == 11,
        "read_blob"@.len() == 9 && "read_blob"@[0] == 'r' && "read_blob"@[5] == 'b',
        "bash_wait"@.len() == 9 && "bash_wait"@[0] == 'b' && "bash_wait"@[5] == 'w',
        "bash_kill"@.len() == 9 && "bash_kill"@[0] == 'b' && "bash_kill"@[5] == 'k',
{
    reveal_strlit("read_file");
    reveal_strlit("list_dir");
    reveal_strlit("write_file");
    reveal_strlit("edit_file");
    reveal_strlit("multi_edit");
    reveal_strlit("apply_patch_freeform");
    reveal_strlit("apply_patch_structured");
    reveal_strlit("glob");
    reveal_strlit("grep");
    reveal_strlit("web_fetch");
    reveal_strlit("todo_write");
    reveal_strlit("bash");
    reveal_strlit("apply_patch");
    reveal_strlit("read_blob");
    reveal_strlit("bash_wait");
    reveal_strlit("bash_kill");
}

/// A call that names a file is carried out on that file with the texts that it holds: what
/// is written is its content, what is replaced its old text and what takes its place its
/// new text, under the hash that it expects.
pub proof fn calls_on_files_hold_what_is_done(
    call: CallView,
    path: Seq<char>,
    a: Seq<char>,
    b: Seq<char>,
)
    requires
        json::text_field(call.input, "path"@) == Some(path),
    ensures
        call.name == "read_file"@ ==> (tool_action(call) matches Ok(
            ToolActionView::ReadFile { path: p, start_line, end_line },
        ) && p == path && (start_line is Some <==> json::unsigned_field(
            call.input,
            "start_line"@,
        ) is Some) && (end_line is Some <==> json::unsigned_field(call.input, "end_line"@) is Some)
            && (json::unsigned_field(call.input, "start_line"@) matches Some(n) ==> (n <= usize::MAX ==> start_line == Some(n))) && (json::unsigned_field(
            call.input,
            "end_line"@,
        ) matches Some(n) ==> (n <= usize::MAX ==> end_line == Some(n)))),
        call.name == "list_dir"@ ==> tool_action(call) == Ok::<ToolActionView, ExecErrorView>(
            ToolActionView::ListDir { dir: Some(path) },
        ),
        call.name == "write_file"@ && json::text_field(call.input, "content"@) == Some(a)
            ==> tool_action(call) == Ok::<ToolActionView, ExecErrorView>(
            ToolActionView::WriteFile { path, content: a },
        ),
        call.name == "edit_file"@ && json::text_field(call.input, "old"@) == Some(a)
            && json::text_field(call.input, "new"@) == Some(b) ==> tool_action(call) == Ok::<
            ToolActionView,
            ExecErrorView,
        >(
            ToolActionView::EditFile {
                path,
                old: a,
                new: b,
                expected_hash: json::text_field(call.input, "expected_hash"@),
            },
        ),
        call.name == "glob"@ && json::text_field(call.input, "pattern"@) == Some(a)
            ==> tool_action(call) == Ok::<ToolActionView, ExecErrorView>(
            ToolActionView::Glob { pattern: a, dir: Some(path) },
        ),
{
    lemma_names();
}

/// A call of another tool is carried out on the one text that it holds.
pub proof fn other_calls_hold_what_is_done(call: CallView, a: Seq<char>)
    ensures
        call.name == "bash"@ && json::text_field(call.input, "command"@) == Some(a) ==> tool_action(
            call,
        ) == Ok::<ToolActionView, ExecErrorView>(ToolActionView::Bash { command: a }),
        call.name == "grep"@ && json::text_field(call.input, "pattern"@) == Some(a) ==> tool_action(
            call,
        ) == Ok::<ToolActionView, ExecErrorView>(ToolActionView::Grep { pattern: a }),
        call.name == "web_fetch"@ && json::text_field(call.input, "url"@) == Some(a)
            ==> tool_action(call) == Ok::<ToolActionView, ExecErrorView>(
            ToolActionView::WebFetch { url: a },
        ),
        call.name == "apply_patch_freeform"@ && json::text_field(call.input, "patch"@) == Some(a)
            ==> tool_action(call) == Ok::<ToolActionView, ExecErrorView>(
            ToolActionView::ApplyPatchFreeform { patch: a },
        ),
        call.name == "bash_kill"@ && json::text_field(call.input, "command_id"@) == Some(a)
            ==> tool_action(call) == Ok::<ToolActionView, ExecErrorView>(
            ToolActionView::BashKill { command_id: a },
        ),
        call.name == "bash_wait"@ && json::text_field(call.input, "command_id"@) == Some(a) ==> (
        tool_action(call) matches Ok(ToolActionView::BashWait { command_id, timeout_secs })
            && command_id == a && (json::unsigned_field(call.input, "timeout_secs"@) is None
            ==> timeout_secs == 30) && (json::unsigned_field(
            call.input,
            "timeout_secs"@,
        ) matches Some(n) ==> (n <= u64::MAX ==> timeout_secs == n))),
        call.name == "read_blob"@ && json::text_field(call.input, "blob_id"@) == Some(a) ==> (
        tool_action(call) matches Ok(
            ToolActionView::ReadBlob { blob_id, start_byte, limit_bytes },
        ) && blob_id == a && (json::unsigned_field(call.input, "start_byte"@) is None ==> start_byte
            == 0) && (json::unsigned_field(call.input, "limit_bytes"@) is None ==> limit_bytes
            == 16384) && (json::unsigned_field(call.input, "start_byte"@) matches Some(n) ==> (n <= usize::MAX ==> start_byte == n)) && (json::unsigned_field(
            call.input,
            "limit_bytes"@,
        ) matches Some(n) ==> (n <= usize::MAX ==> limit_bytes == n))),
        call.name == "list_dir"@ && json::text_field(call.input, "path"@) is None ==> tool_action(
            call,
        ) == Ok::<ToolActionView, ExecErrorView>(ToolActionView::ListDir { dir: None }),
{
    lemma_names();
}

/// A call that lacks a text that it needs is refused with the name of the field, the path
/// before the others, and a call of a tool that does not exist with the tool's name.
pub proof fn calls_that_lack_a_field_are_refused(call: CallView)
    ensures
        (call.name == "read_file"@ || call.name == "write_file"@ || call.name == "edit_file"@
            || call.name == "multi_edit"@) && json::text_field(call.input, "path"@) is None
            ==> tool_action(call) == Err::<ToolActionView, ExecErrorView>(
            ExecErrorView::MissingField { tool: call.name, field: "path"@ },
        ),
        call.name == "bash"@ && json::text_field(call.input, "command"@) is None ==> tool_action(
            call,
        ) == Err::<ToolActionView, ExecErrorView>(
            ExecErrorView::MissingField { tool: call.name, field: "command"@ },
        ),
        (call.name == "glob"@ || call.name == "grep"@) && json::text_field(
            call.input,
            "pattern"@,
        ) is None ==> tool_action(call) == Err::<ToolActionView, ExecErrorView>(
            ExecErrorView::MissingField { tool: call.name, field: "pattern"@ },
        ),
        call.name == "write_file"@ && json::text_field(call.input, "path"@) is Some
            && json::text_field(call.input, "content"@) is None ==> tool_action(call) == Err::<
            ToolActionView,
            ExecErrorView,
        >(ExecErrorView::MissingField { tool: call.name, field: "content"@ }),
        (call.name == "bash_wait"@ || call.name == "bash_kill"@) && json::text_field(
            call.input,
            "command_id"@,
        ) is None ==> tool_action(call) == Err::<ToolActionView, ExecErrorView>(
            ExecErrorView::MissingField { tool: call.name, field: "command_id"@ },
        ),
        (forall|t: ToolName| call.name != #[trigger] names::tool_name(t)) ==> tool_action(call)
            == Err::<ToolActionView, ExecErrorView>(ExecErrorView::UnknownTool(call.name)),
{
    lemma_names();
    if forall|t: ToolName| call.name != #[trigger] names::tool_name(t) {
        assert(call.name != names::tool_name(ToolName::ReadFile));
        assert(call.name != names::tool_name(ToolName::ListDir));
        assert(call.name != names::tool_name(ToolName::WriteFile));
        assert(call.name != names::tool_name(ToolName::EditFile));
        assert(call.name != names::tool_name(ToolName::MultiEdit));
        assert(call.name != names::tool_name(ToolName::ApplyPatchFreeform));
        assert(call.name != names::tool_name(ToolName::ApplyPatchStructured));
        assert(call.name != names::tool_name(ToolName::ApplyPatch));
        assert(call.name != names::tool_name(ToolName::Glob));
        assert(call.name != names::tool_name(ToolName::Grep));
        assert(call.name != names::tool_name(ToolName::WebFetch));
        assert(call.name != names::tool_name(ToolName::TodoWrite));
        assert(call.name != names::tool_name(ToolName::Bash));
        assert(call.name != names::tool_name(ToolName::BashWait));
        assert(call.name != names::tool_name(ToolName::BashKill));
        assert(call.name != names::tool_name(ToolName::ReadBlob));
    }
}

/// An operation on lines puts its new text in place of the lines that it names, or before
/// or behind them: whatever stands round them, they are replaced, or kept with the new text
/// beside them.
pub proof fn an_insertion_keeps_the_lines_it_names(
    v: JsonView,
    path: Seq<char>,
    before: Seq<Seq<char>>,
    named: Seq<Seq<char>>,
    behind: Seq<Seq<char>>,
    new: Seq<char>,
)
    requires
        named.len() > 0,
        before.len() + named.len() <= usize::MAX,
        forall|i: int|
            0 <= i < (before + named + behind).len() ==> text::one_line(
                #[trigger] (before + named + behind)[i],
            ),
        json::text_field(v, "path"@) == Some(path),
        json::unsigned_field(v, "start_line"@) == Some(before.len() + 1),
        json::unsigned_field(v, "end_line"@) == Some(before.len() + named.len()),
        json::text_field(v, "old"@) == Some(text::concat(line_patch::ended(named))),
        json::text_field(v, "new"@) == Some(new),
    ensures
        ({
            let content = text::concat(line_patch::ended(before + named + behind));
            let a = text::concat(line_patch::ended(before));
            let old = text::concat(line_patch::ended(named));
            let b = text::concat(line_patch::ended(behind));
            let put = match json::text_field(v, "op"@) {
                Some(op) => if op == "update"@ {
                    Some(a + new + b)
                } else if op == "insert_before"@ {
                    Some(a + (new + old) + b)
                } else if op == "insert_after"@ {
                    Some(a + (old + new) + b)
                } else {
                    None
                },
                None => None,
            };
            match line_operation_of(v) {
                Some(PatchOperationView::Lines { path: p, start_line, end_line, old: o, new: n }) => {
                    p == path && put is Some && line_patch::line_updated(
                        content,
                        start_line,
                        end_line,
                        o,
                        n,
                    ) == Ok::<Seq<char>, ToolErrorView>(put->0)
                },
                Some(_) => false,
                None => put is None,
            }
        }),
{
    let old = text::concat(line_patch::ended(named));
    line_patch::the_named_lines_are_replaced(before, named, behind, new);
    line_patch::the_named_lines_are_replaced(before, named, behind, new + old);
    line_patch::the_named_lines_are_replaced(before, named, behind, old + new);
}

/// The edits, things to do and operations of a call are those of its items, one for each, in
/// their order; an item that is none makes the whole list none.
pub proof fn lists_are_read_item_by_item(items: Seq<JsonView>)
    ensures
        (exists|i: int| 0 <= i < items.len() && edit_of(#[trigger] items[i]) is None) <==> edits_of(
            items,
        ) is None,
        edits_of(items) matches Some(all) ==> all.len() == items.len() && forall|i: int|
            0 <= i < items.len() ==> edit_of(#[trigger] items[i]) == Some(all[i]),
        todos_of(items) matches Some(all) ==> all.len() == items.len() && forall|i: int|
            0 <= i < items.len() ==> todo_of(#[trigger] items[i]) == Some(all[i]),
        operations_of(items) matches Some(all) ==> all.len() == items.len() && forall|i: int|
            0 <= i < items.len() ==> operation_of(#[trigger] items[i]) == Some(all[i]),
        line_operations_of(items) matches Some(all) ==> all.len() == items.len() && forall|i: int|
            0 <= i < items.len() ==> line_operation_of(#[trigger] items[i]) == Some(all[i]),
        (forall|i: int| 0 <= i < items.len() ==> todo_of(#[trigger] items[i]) is Some)
            ==> todos_of(items) is Some,
        (forall|i: int| 0 <= i < items.len() ==> operation_of(#[trigger] items[i]) is Some)
            ==> operations_of(items) is Some,
        (forall|i: int| 0 <= i < items.len() ==> line_operation_of(#[trigger] items[i]) is Some)
            ==> line_operations_of(items) is Some,
    decreases items.len(),
{
    if items.len() > 0 {
        let front = items.drop_last();
        lists_are_read_item_by_item(front);
        assert(forall|i: int| 0 <= i < front.len() ==> front[i] == items[i]);
        assert(items[items.len() - 1] == items.last());
        if edits_of(items) is None {
            if edits_of(front) is None {
                let i = choose|i: int| 0 <= i < front.len() && edit_of(#[trigger] front[i]) is None;
                assert(edit_of(items[i]) is None);
            } else {
                assert(edit_of(items[items.len() - 1]) is None);
            }
        }
        if exists|i: int| 0 <= i < items.len() && edit_of(#[trigger] items[i]) is None {
            let i = choose|i: int| 0 <= i < items.len() && edit_of(#[trigger] items[i]) is None;
            if i < front.len() {
                assert(edit_of(front[i]) is None);
            }
        }
    }
}

/// An edit, a thing to do and an operation of a structured patch are read from their fields
/// by name.
pub proof fn items_are_read_by_their_fields(
    m: Map<Seq<char>, JsonView>,
    a: Seq<char>,
    b: Seq<char>,
    c: Seq<char>,
)
    ensures
        ({
            let v = JsonView::Object(m);
            let field = |name: Seq<char>| json::text_field(v, name);
            &&& field("old"@) == Some(a) && field("new"@) == Some(b) ==> edit_of(v) == Some(
                TextEditView { old: a, new: b },
            )
            &&& field("content"@) == Some(a) && field("status"@) == Some(b) ==> todo_of(v) == Some(
                TodoView { content: a, status: b },
            )
            &&& field("type"@) == Some("edit"@) && field("path"@) == Some(a) && field("old"@)
                == Some(b) && field("new"@) == Some(c) && json::field(v, "expected_hash"@) is None
                ==> operation_of(v) == Some(
                OperationView::Edit { path: a, old: b, new: c, expected_hash: None },
            )
            &&& field("type"@) == Some("rename"@) && field("from"@) == Some(a) && field("to"@)
                == Some(b) && field("expected_hash"@) == Some(c) ==> operation_of(v) == Some(
                OperationView::Rename { from: a, to: b, expected_hash: Some(c) },
            )
        }),
{
    reveal_strlit("edit");
    reveal_strlit("multi_edit");
    reveal_strlit("rename");
    assert("edit"@.len() == 4 && "multi_edit"@.len() == 10 && "rename"@.len() == 6);
}

} // verus!
