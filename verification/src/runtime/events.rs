//! What happens in a session, as it is told to those who watch it.
use vstd::prelude::*;

use crate::json;
use crate::json::{Json, JsonView};
use crate::runtime::types::{
    PermissionDecision,
    PermissionRequestId,
    SessionId,
    SessionStatus,
    StopReason,
    ToolCallId,
};
use crate::text;

verus! {

/// How a file changed.
#[derive(Debug)]
pub struct PatchFile {
    pub path: String,
    pub additions: u64,
    pub deletions: u64,
    pub diff: Option<String>,
}

/// The content of a `PatchFile`.
pub struct PatchFileView {
    pub path: Seq<char>,
    pub additions: u64,
    pub deletions: u64,
    pub diff: Option<Seq<char>>,
}

impl View for PatchFile {
    type V = PatchFileView;

    open spec fn view(&self) -> PatchFileView {
        PatchFileView {
            path: self.path@,
            additions: self.additions,
            deletions: self.deletions,
            diff: text::opt(self.diff),
        }
    }
}

pub open spec fn patch_file_views(files: Seq<PatchFile>) -> Seq<PatchFileView> {
    files.map_values(|f: PatchFile| f@)
}

/// What became of a file.
#[derive(Debug)]
pub struct DiagnosticFile {
    pub path: String,
    pub exists: bool,
    pub bytes: Option<u64>,
    pub lines: Option<u64>,
}

/// The content of a `DiagnosticFile`.
pub struct DiagnosticView {
    pub path: Seq<char>,
    pub exists: bool,
    pub bytes: Option<u64>,
    pub lines: Option<u64>,
}

impl View for DiagnosticFile {
    type V = DiagnosticView;

    open spec fn view(&self) -> DiagnosticView {
        DiagnosticView {
            path: self.path@,
            exists: self.exists,
            bytes: self.bytes,
            lines: self.lines,
        }
    }
}

pub open spec fn diagnostic_views(files: Seq<DiagnosticFile>) -> Seq<DiagnosticView> {
    files.map_values(|f: DiagnosticFile| f@)
}

/// A question and what the user answered.
#[derive(Debug)]
pub struct QuestionAnswer {
    pub question: String,
    pub answer: String,
}

/// The content of a `QuestionAnswer`.
pub struct AnswerView {
    pub question: Seq<char>,
    pub answer: Seq<char>,
}

impl View for QuestionAnswer {
    type V = AnswerView;

    open spec fn view(&self) -> AnswerView {
        AnswerView {
            question: self.question@,
            answer: self.answer@,
        }
    }
}

pub open spec fn answer_views(answers: Seq<QuestionAnswer>) -> Seq<AnswerView> {
    answers.map_values(|a: QuestionAnswer| a@)
}

/// Something that happened in a session.
#[derive(Debug)]
pub enum SessionEvent {
    Status { session_id: SessionId, status: SessionStatus },
    StepStart { session_id: SessionId, index: u32 },
    StepFinish { session_id: SessionId, index: u32, stop_reason: StopReason },
    ContextPrepared { session_id: SessionId, token_count: u64, original_token_count: u64, compacted: bool, summary: Option<String> },
    ContextCompaction { session_id: SessionId, provider_id: String, phase: String, pre_tokens: Option<u64>, post_tokens: Option<u64>, summary: Option<String>, details: Option<Json> },
    ContextCheckpoint { session_id: SessionId, provider_id: String, model: String, kind: String, payload: Json, summary: Option<String> },
    TextStart { session_id: SessionId, text_id: String },
    TextDelta { session_id: SessionId, text: String },
    TextEnd { session_id: SessionId, text_id: String, text: String },
    ToolInputStart { session_id: SessionId, tool_call_id: ToolCallId, name: String },
    ToolInputEnd { session_id: SessionId, tool_call_id: ToolCallId, input_json: Json },
    ToolCallRequested { session_id: SessionId, tool_call_id: ToolCallId, name: String, input_json: Json },
    ToolCallStart { session_id: SessionId, tool_call_id: ToolCallId, name: String, input_json: Json },
    ToolCallProgress { session_id: SessionId, tool_call_id: ToolCallId, message: String },
    ToolCallResult { session_id: SessionId, tool_call_id: ToolCallId, title: Option<String>, metadata: Json, output: String, exit_code: Option<i32> },
    ToolCallError { session_id: SessionId, tool_call_id: ToolCallId, message: String },
    PermissionRequest { session_id: SessionId, request_id: PermissionRequestId, reason: String, tool_name: String, input_json: Json },
    PermissionResolved { session_id: SessionId, request_id: PermissionRequestId, decision: PermissionDecision },
    Patch { session_id: SessionId, additions: u64, deletions: u64, files: Vec<PatchFile> },
    Diagnostics { session_id: SessionId, reports: Vec<DiagnosticFile> },
    QuestionsAnswered { session_id: SessionId, tool_call_id: ToolCallId, answers: Vec<QuestionAnswer> },
    /// The tokens that a request took. What it cost, in US dollars, is a JSON number.
    Usage { session_id: SessionId, input_tokens: Option<u64>, output_tokens: Option<u64>, cache_read_tokens: Option<u64>, total_cost_usd: Option<Json> },
    Error { session_id: SessionId, message: String },
    Result { session_id: SessionId, stop_reason: StopReason },
}

/// The content of a `SessionEvent`.
pub enum EventView {
    Status { session_id: SessionId, status: SessionStatus },
    StepStart { session_id: SessionId, index: u32 },
    StepFinish { session_id: SessionId, index: u32, stop_reason: StopReason },
    ContextPrepared { session_id: SessionId, token_count: u64, original_token_count: u64, compacted: bool, summary: Option<Seq<char>> },
    ContextCompaction { session_id: SessionId, provider_id: Seq<char>, phase: Seq<char>, pre_tokens: Option<u64>, post_tokens: Option<u64>, summary: Option<Seq<char>>, details: Option<JsonView> },
    ContextCheckpoint { session_id: SessionId, provider_id: Seq<char>, model: Seq<char>, kind: Seq<char>, payload: JsonView, summary: Option<Seq<char>> },
    TextStart { session_id: SessionId, text_id: Seq<char> },
    TextDelta { session_id: SessionId, text: Seq<char> },
    TextEnd { session_id: SessionId, text_id: Seq<char>, text: Seq<char> },
    ToolInputStart { session_id: SessionId, tool_call_id: ToolCallId, name: Seq<char> },
    ToolInputEnd { session_id: SessionId, tool_call_id: ToolCallId, input_json: JsonView },
    ToolCallRequested { session_id: SessionId, tool_call_id: ToolCallId, name: Seq<char>, input_json: JsonView },
    ToolCallStart { session_id: SessionId, tool_call_id: ToolCallId, name: Seq<char>, input_json: JsonView },
    ToolCallProgress { session_id: SessionId, tool_call_id: ToolCallId, message: Seq<char> },
    ToolCallResult { session_id: SessionId, tool_call_id: ToolCallId, title: Option<Seq<char>>, metadata: JsonView, output: Seq<char>, exit_code: Option<i32> },
    ToolCallError { session_id: SessionId, tool_call_id: ToolCallId, message: Seq<char> },
    PermissionRequest { session_id: SessionId, request_id: PermissionRequestId, reason: Seq<char>, tool_name: Seq<char>, input_json: JsonView },
    PermissionResolved { session_id: SessionId, request_id: PermissionRequestId, decision: PermissionDecision },
    Patch { session_id: SessionId, additions: u64, deletions: u64, files: Seq<PatchFileView> },
    Diagnostics { session_id: SessionId, reports: Seq<DiagnosticView> },
    QuestionsAnswered { session_id: SessionId, tool_call_id: ToolCallId, answers: Seq<AnswerView> },
    Usage { session_id: SessionId, input_tokens: Option<u64>, output_tokens: Option<u64>, cache_read_tokens: Option<u64>, total_cost_usd: Option<JsonView> },
    Error { session_id: SessionId, message: Seq<char> },
    Result { session_id: SessionId, stop_reason: StopReason },
}

impl View for SessionEvent {
    type V = EventView;

    open spec fn view(&self) -> EventView {
        match self {
            SessionEvent::Status { session_id, status } => EventView::Status { session_id: *session_id, status: *status },
            SessionEvent::StepStart { session_id, index } => EventView::StepStart { session_id: *session_id, index: *index },
            SessionEvent::StepFinish { session_id, index, stop_reason } => EventView::StepFinish { session_id: *session_id, index: *index, stop_reason: *stop_reason },
            SessionEvent::ContextPrepared { session_id, token_count, original_token_count, compacted, summary } => EventView::ContextPrepared { session_id: *session_id, token_count: *token_count, original_token_count: *original_token_count, compacted: *compacted, summary: text::opt(*summary) },
            SessionEvent::ContextCompaction { session_id, provider_id, phase, pre_tokens, post_tokens, summary, details } => EventView::ContextCompaction { session_id: *session_id, provider_id: provider_id@, phase: phase@, pre_tokens: *pre_tokens, post_tokens: *post_tokens, summary: text::opt(*summary), details: json::opt(*details) },
            SessionEvent::ContextCheckpoint { session_id, provider_id, model, kind, payload, summary } => EventView::ContextCheckpoint { session_id: *session_id, provider_id: provider_id@, model: model@, kind: kind@, payload: payload@, summary: text::opt(*summary) },
            SessionEvent::TextStart { session_id, text_id } => EventView::TextStart { session_id: *session_id, text_id: text_id@ },
            SessionEvent::TextDelta { session_id, text } => EventView::TextDelta { session_id: *session_id, text: text@ },
            SessionEvent::TextEnd { session_id, text_id, text } => EventView::TextEnd { session_id: *session_id, text_id: text_id@, text: text@ },
            SessionEvent::ToolInputStart { session_id, tool_call_id, name } => EventView::ToolInputStart { session_id: *session_id, tool_call_id: *tool_call_id, name: name@ },
            SessionEvent::ToolInputEnd { session_id, tool_call_id, input_json } => EventView::ToolInputEnd { session_id: *session_id, tool_call_id: *tool_call_id, input_json: input_json@ },
            SessionEvent::ToolCallRequested { session_id, tool_call_id, name, input_json } => EventView::ToolCallRequested { session_id: *session_id, tool_call_id: *tool_call_id, name: name@, input_json: input_json@ },
            SessionEvent::ToolCallStart { session_id, tool_call_id, name, input_json } => EventView::ToolCallStart { session_id: *session_id, tool_call_id: *tool_call_id, name: name@, input_json: input_json@ },
            SessionEvent::ToolCallProgress { session_id, tool_call_id, message } => EventView::ToolCallProgress { session_id: *session_id, tool_call_id: *tool_call_id, message: message@ },
            SessionEvent::ToolCallResult { session_id, tool_call_id, title, metadata, output, exit_code } => EventView::ToolCallResult { session_id: *session_id, tool_call_id: *tool_call_id, title: text::opt(*title), metadata: metadata@, output: output@, exit_code: *exit_code },
            SessionEvent::ToolCallError { session_id, tool_call_id, message } => EventView::ToolCallError { session_id: *session_id, tool_call_id: *tool_call_id, message: message@ },
            SessionEvent::PermissionRequest { session_id, request_id, reason, tool_name, input_json } => EventView::PermissionRequest { session_id: *session_id, request_id: *request_id, reason: reason@, tool_name: tool_name@, input_json: input_json@ },
            SessionEvent::PermissionResolved { session_id, request_id, decision } => EventView::PermissionResolved { session_id: *session_id, request_id: *request_id, decision: *decision },
            SessionEvent::Patch { session_id, additions, deletions, files } => EventView::Patch { session_id: *session_id, additions: *additions, deletions: *deletions, files: patch_file_views(files@) },
            SessionEvent::Diagnostics { session_id, reports } => EventView::Diagnostics { session_id: *session_id, reports: diagnostic_views(reports@) },
            SessionEvent::QuestionsAnswered { session_id, tool_call_id, answers } => EventView::QuestionsAnswered { session_id: *session_id, tool_call_id: *tool_call_id, answers: answer_views(answers@) },
            SessionEvent::Usage { session_id, input_tokens, output_tokens, cache_read_tokens, total_cost_usd } => EventView::Usage { session_id: *session_id, input_tokens: *input_tokens, output_tokens: *output_tokens, cache_read_tokens: *cache_read_tokens, total_cost_usd: json::opt(*total_cost_usd) },
            SessionEvent::Error { session_id, message } => EventView::Error { session_id: *session_id, message: message@ },
            SessionEvent::Result { session_id, stop_reason } => EventView::Result { session_id: *session_id, stop_reason: *stop_reason },
        }
    }
}

pub open spec fn event_views(events: Seq<SessionEvent>) -> Seq<EventView> {
    events.map_values(|e: SessionEvent| e@)
}

/// No events.
pub fn no_events() -> (r: Vec<SessionEvent>)
    ensures
        event_views(r@) == Seq::<EventView>::empty(),
{
    let r: Vec<SessionEvent> = Vec::new();
    assert(event_views(r@) =~= Seq::<EventView>::empty());
    r
}

/// Appends an event.
pub fn emit(events: &mut Vec<SessionEvent>, event: SessionEvent)
    ensures
        event_views(final(events)@) == event_views(old(events)@).push(event@),
{
    let ghost before = event_views(events@);
    let ghost added = event@;
    events.push(event);
    assert(event_views(events@) =~= before.push(added));
}

} // verus!
