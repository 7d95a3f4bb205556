//! The provider that speaks the Responses API: what its events mean, and how a turn with
//! it goes.
use vstd::prelude::*;

use crate::json;
use crate::json::{Json, JsonView};
use crate::provider::bridge;
use crate::provider::codex_request;
use crate::provider::common::{ProviderToolResponse, ToolResponseView};
use crate::provider::http;
use crate::provider::http::{
    ChunkOutcome, ChunkView, HttpAction, HttpActionView, HttpStep, ResponseOutcome, ResponseView,
    ToolOutcome, ToolOutcomeView,
};
use crate::provider::sse;
use crate::provider::sse::{ProgressView, StreamProgress, TypeKeys};
use crate::runtime::events;
use crate::runtime::events::{EventView, SessionEvent};
use crate::runtime::prompt::TurnRequest;
use crate::runtime::types::{SessionId, SessionStatus, StopReason, ToolCallId};
use crate::text;

verus! {

// ---------------------------------------------------------------------------
// Events of the provider
// ---------------------------------------------------------------------------

/// A call of a tool that the provider waits for.
#[derive(Debug)]
pub struct PendingFunctionCall {
    pub tool_call_id: ToolCallId,
    /// The name under which the provider knows the call.
    pub call_id: String,
    pub name: String,
}

/// The content of a `PendingFunctionCall`.
pub struct FunctionCallView {
    pub tool_call_id: ToolCallId,
    pub call_id: Seq<char>,
    pub name: Seq<char>,
}

impl View for PendingFunctionCall {
    type V = FunctionCallView;

    open spec fn view(&self) -> FunctionCallView {
        FunctionCallView {
            tool_call_id: self.tool_call_id,
            call_id: self.call_id@,
            name: self.name@,
        }
    }
}

pub open spec fn call_views(calls: Seq<PendingFunctionCall>) -> Seq<FunctionCallView> {
    calls.map_values(|c: PendingFunctionCall| c@)
}

/// What an event of the provider says.
#[derive(Debug)]
pub struct ParsedResponseEvent {
    pub events: Vec<SessionEvent>,
    /// What has to be sent back to the provider.
    pub output_items: Vec<Json>,
    pub function_calls: Vec<PendingFunctionCall>,
    pub completed: bool,
}

/// The content of a `ParsedResponseEvent`.
pub struct ParsedView {
    pub events: Seq<EventView>,
    pub output_items: Seq<JsonView>,
    pub function_calls: Seq<FunctionCallView>,
    pub completed: bool,
}

impl View for ParsedResponseEvent {
    type V = ParsedView;

    open spec fn view(&self) -> ParsedView {
        ParsedView {
            events: events::event_views(self.events@),
            output_items: json::array_view(self.output_items@),
            function_calls: call_views(self.function_calls@),
            completed: self.completed,
        }
    }
}

/// An event that says nothing.
pub open spec fn nothing() -> ParsedView {
    ParsedView { events: seq![], output_items: seq![], function_calls: seq![], completed: false }
}

/// An event that only has to be told.
pub open spec fn told(event: EventView) -> ParsedView {
    ParsedView { events: seq![event], ..nothing() }
}

/// The tokens that an event tells, if it does.
pub open spec fn usage_told(session_id: SessionId, v: JsonView) -> Option<EventView> {
    let usage = match json::inner_field(v, "response"@, "usage"@) {
        Some(u) => Some(u),
        None => json::field(v, "usage"@),
    };
    match usage {
        Some(u) => Some(
            EventView::Usage {
                session_id,
                input_tokens: match bridge::count_field(u, "input_tokens"@) {
                    Some(n) => Some(n),
                    None => bridge::count_field(u, "prompt_tokens"@),
                },
                output_tokens: match bridge::count_field(u, "output_tokens"@) {
                    Some(n) => Some(n),
                    None => bridge::count_field(u, "completion_tokens"@),
                },
                cache_read_tokens: match json::field(u, "input_tokens_details"@) {
                    Some(d) => bridge::count_field(d, "cached_tokens"@),
                    None => None,
                },
                total_cost_usd: None,
            },
        ),
        None => None,
    }
}

/// A call as it is sent back to the provider: without the provider's own id for it.
pub open spec fn call_item(name: Seq<char>, call_id: Seq<char>, item: JsonView) -> JsonView {
    json::empty_object()
        .with("type"@, JsonView::Text("function_call"@))
        .with("call_id"@, JsonView::Text(call_id))
        .with("name"@, JsonView::Text(name))
        .with(
            "arguments"@,
            JsonView::Text(
                match json::text_field(item, "arguments"@) {
                    Some(a) => a,
                    None => "{}"@,
                },
            ),
        )
}

/// The arguments of a call, given how their text reads as JSON.
pub open spec fn call_input(read: Option<Result<JsonView, Seq<char>>>) -> JsonView {
    match read {
        Some(Ok(v)) => v,
        _ => json::empty_object(),
    }
}

/// How the arguments of a call read as JSON, if there are any.
pub open spec fn read_arguments(item: JsonView) -> Option<Result<JsonView, Seq<char>>> {
    match json::text_field(item, "arguments"@) {
        Some(a) => Some(json::json_parse(a)),
        None => None,
    }
}

/// What a call of a tool says, given how its arguments read as JSON. The id is new.
pub open spec fn function_call(
    session_id: SessionId,
    item: JsonView,
    arguments: Option<Result<JsonView, Seq<char>>>,
    fresh: u128,
) -> ParsedView {
    match json::text_field(item, "name"@) {
        None => nothing(),
        Some(name) => match json::text_field(item, "call_id"@) {
            None => told(
                EventView::Error {
                    session_id,
                    message: "codex provider function_call is missing call_id"@,
                },
            ),
            Some(call_id) => ParsedView {
                events: seq![
                    EventView::ToolCallRequested {
                        session_id,
                        tool_call_id: ToolCallId(fresh),
                        name,
                        input_json: call_input(arguments),
                    },
                ],
                output_items: seq![call_item(name, call_id, item)],
                function_calls: seq![
                    FunctionCallView { tool_call_id: ToolCallId(fresh), call_id, name },
                ],
                completed: false,
            },
        },
    }
}

/// What an item that is done says. The id is new.
pub open spec fn item_done(session_id: SessionId, item: JsonView, fresh: u128) -> ParsedView {
    let kind = json::text_field(item, "type"@);
    if kind == Some("function_call"@) {
        function_call(session_id, item, read_arguments(item), fresh)
    } else if kind == Some("web_search_call"@) {
        told(
            EventView::ToolCallStart {
                session_id,
                tool_call_id: ToolCallId(fresh),
                name: "web_search"@,
                input_json: json::empty_object().with(
                    "query"@,
                    JsonView::Text(
                        match json::inner_text(item, "action"@, "query"@) {
                            Some(q) => q,
                            None => ""@,
                        },
                    ),
                ),
            },
        )
    } else {
        nothing()
    }
}

/// The message of an error.
pub open spec fn error_message(v: JsonView) -> Seq<char> {
    match json::inner_text(v, "error"@, "message"@) {
        Some(m) => m,
        None => match json::text_field(v, "message"@) {
            Some(m) => m,
            None => "codex provider stream failed"@,
        },
    }
}

/// What an event of a kind says. The id is new.
pub open spec fn event_said(session_id: SessionId, kind: Seq<char>, v: JsonView, fresh: u128)
    -> ParsedView {
    if kind == "response.output_text.delta"@ || kind == "output_text.delta"@ || kind
        == "text_delta"@ {
        let delta = match json::field(v, "delta"@) {
            Some(d) => json::as_text(d),
            None => json::text_field(v, "text"@),
        };
        match delta {
            Some(t) => told(EventView::TextDelta { session_id, text: t }),
            None => nothing(),
        }
    } else if kind == "response.output_item.done"@ {
        match json::field(v, "item"@) {
            Some(item) => item_done(session_id, item, fresh),
            None => nothing(),
        }
    } else if kind == "response.completed"@ || kind == "completed"@ || kind == "done"@ {
        match usage_told(session_id, v) {
            Some(u) => ParsedView { completed: true, ..told(u) },
            None => ParsedView { completed: true, ..nothing() },
        }
    } else if kind == "response.failed"@ || kind == "error"@ {
        told(EventView::Error { session_id, message: error_message(v) })
    } else {
        nothing()
    }
}

/// What an event says, given its name and how its data reads as JSON. The id is new.
pub open spec fn event_read(
    session_id: SessionId,
    name: Option<Seq<char>>,
    read: Result<JsonView, Seq<char>>,
    fresh: u128,
) -> ParsedView {
    match read {
        Err(_) => nothing(),
        Ok(v) => match json::text_field(v, "type"@) {
            Some(kind) => event_said(session_id, kind, v, fresh),
            None => match name {
                Some(kind) => event_said(session_id, kind, v, fresh),
                None => nothing(),
            },
        },
    }
}

/// What an event says. The id is new.
pub open spec fn event_parsed(session_id: SessionId, raw: Seq<char>, fresh: u128) -> ParsedView {
    let data = sse::event_data(raw);
    if data.len() == 0 || data == "[DONE]"@ {
        nothing()
    } else {
        event_read(session_id, sse::event_name(raw), json::json_parse(data), fresh)
    }
}

fn no_calls() -> (r: Vec<PendingFunctionCall>)
    ensures
        call_views(r@) == Seq::<FunctionCallView>::empty(),
{
    let r: Vec<PendingFunctionCall> = Vec::new();
    assert(call_views(r@) =~= Seq::<FunctionCallView>::empty());
    r
}

fn says_nothing() -> (r: ParsedResponseEvent)
    ensures
        r@ == nothing(),
{
    ParsedResponseEvent {
        events: events::no_events(),
        output_items: json::no_items(),
        function_calls: no_calls(),
        completed: false,
    }
}

fn says(event: SessionEvent) -> (r: ParsedResponseEvent)
    ensures
        r@ == told(event@),
{
    ParsedResponseEvent {
        events: bridge::one_event(event),
        output_items: json::no_items(),
        function_calls: no_calls(),
        completed: false,
    }
}

fn usage_event(session_id: SessionId, value: &Json) -> (r: Option<SessionEvent>)
    ensures
        match r {
            Some(e) => usage_told(session_id, value@) == Some(e@),
            None => usage_told(session_id, value@) is None,
        },
{
    let found = match value.get_inner("response", "usage") {
        Some(u) => Some(u),
        None => value.get("usage"),
    };
    match found {
        Some(u) => {
            let input_tokens = match u.get_u64("input_tokens") {
                Some(n) => Some(n),
                None => u.get_u64("prompt_tokens"),
            };
            let output_tokens = match u.get_u64("output_tokens") {
                Some(n) => Some(n),
                None => u.get_u64("completion_tokens"),
            };
            let cache_read_tokens = match u.get("input_tokens_details") {
                Some(d) => d.get_u64("cached_tokens"),
                None => None,
            };
            Some(
                SessionEvent::Usage {
                    session_id,
                    input_tokens,
                    output_tokens,
                    cache_read_tokens,
                    total_cost_usd: None,
                },
            )
        },
        None => None,
    }
}

/// A call as it is sent back to the provider.
pub fn function_call_input_item(name: &str, call_id: &str, item: &Json) -> (r: Json)
    ensures
        r@ == call_item(name@, call_id@, item@),
{
    let arguments = match item.get_str("arguments") {
        Some(a) => a,
        None => "{}",
    };
    Json::object()
        .with("type", Json::text("function_call"))
        .with("call_id", Json::text(call_id))
        .with("name", Json::text(name))
        .with("arguments", Json::text(arguments))
}

/// How the text of arguments reads as JSON, if there is one.
pub open spec fn read_view(r: Option<Result<Json, String>>) -> Option<Result<JsonView, Seq<char>>> {
    match r {
        Some(Ok(j)) => Some(Ok(j@)),
        Some(Err(e)) => Some(Err(e@)),
        None => None,
    }
}

/// What a call of a tool says, given how its arguments read as JSON. The id is new.
pub fn function_call_given(
    session_id: SessionId,
    item: &Json,
    arguments: Option<Result<Json, String>>,
    fresh: u128,
) -> (r: ParsedResponseEvent)
    ensures
        r@ == function_call(session_id, item@, read_view(arguments), fresh),
{
    let name = match item.get_str("name") {
        Some(n) => n,
        None => {
            return says_nothing();
        },
    };
    let call_id = match item.get_str("call_id") {
        Some(c) => c,
        None => {
            return says(
                SessionEvent::Error {
                    session_id,
                    message: "codex provider function_call is missing call_id".to_string(),
                },
            );
        },
    };
    let input_json = match arguments {
        Some(Ok(v)) => v,
        _ => Json::object(),
    };
    let mut output_items = json::no_items();
    json::push_item(&mut output_items, function_call_input_item(name, call_id, item));
    assert(json::array_view(output_items@) =~= seq![call_item(name@, call_id@, item@)]);
    let tool_call_id = ToolCallId(fresh);
    let mut function_calls: Vec<PendingFunctionCall> = Vec::new();
    function_calls.push(
        PendingFunctionCall {
            tool_call_id,
            call_id: call_id.to_string(),
            name: name.to_string(),
        },
    );
    assert(call_views(function_calls@) =~= seq![
        FunctionCallView { tool_call_id, call_id: call_id@, name: name@ },
    ]);
    let events = bridge::one_event(
        SessionEvent::ToolCallRequested {
            session_id,
            tool_call_id,
            name: name.to_string(),
            input_json,
        },
    );
    ParsedResponseEvent { events, output_items, function_calls, completed: false }
}

fn parse_item(session_id: SessionId, item: &Json, fresh: u128) -> (r: ParsedResponseEvent)
    ensures
        r@ == item_done(session_id, item@, fresh),
{
    let kind = match item.get_str("type") {
        Some(k) => k,
        None => {
            return says_nothing();
        },
    };
    if text::same(kind, "function_call") {
        let arguments = match item.get_str("arguments") {
            Some(a) => Some(json::parse(a)),
            None => None,
        };
        function_call_given(session_id, item, arguments, fresh)
    } else if text::same(kind, "web_search_call") {
        let query = match item.get_inner_str("action", "query") {
            Some(q) => q,
            None => "",
        };
        says(
            SessionEvent::ToolCallStart {
                session_id,
                tool_call_id: ToolCallId(fresh),
                name: "web_search".to_string(),
                input_json: Json::object().with("query", Json::text(query)),
            },
        )
    } else {
        says_nothing()
    }
}

/// What an event of a kind says. The id is new.
pub fn parse_response_value(session_id: SessionId, kind: &str, value: &Json, fresh: u128) -> (r:
    ParsedResponseEvent)
    ensures
        r@ == event_said(session_id, kind@, value@, fresh),
{
    if text::same(kind, "response.output_text.delta") || text::same(kind, "output_text.delta")
        || text::same(kind, "text_delta") {
        let delta = match value.get("delta") {
            Some(d) => d.as_str(),
            None => value.get_str("text"),
        };
        match delta {
            Some(t) => says(SessionEvent::TextDelta { session_id, text: t.to_string() }),
            None => says_nothing(),
        }
    } else if text::same(kind, "response.output_item.done") {
        match value.get("item") {
            Some(item) => parse_item(session_id, item, fresh),
            None => says_nothing(),
        }
    } else if text::same(kind, "response.completed") || text::same(kind, "completed")
        || text::same(kind, "done") {
        let mut parsed = match usage_event(session_id, value) {
            Some(u) => says(u),
            None => says_nothing(),
        };
        parsed.completed = true;
        parsed
    } else if text::same(kind, "response.failed") || text::same(kind, "error") {
        let message = match value.get_inner_str("error", "message") {
            Some(m) => m,
            None => match value.get_str("message") {
                Some(m) => m,
                None => "codex provider stream failed",
            },
        };
        says(SessionEvent::Error { session_id, message: message.to_string() })
    } else {
        says_nothing()
    }
}

/// What an event says, given its name and how its data reads as JSON. The id is new.
pub fn parse_response_given(
    session_id: SessionId,
    name: Option<String>,
    read: Result<Json, String>,
    fresh: u128,
) -> (r: ParsedResponseEvent)
    ensures
        r@ == event_read(
            session_id,
            text::opt(name),
            match read {
                Ok(j) => Ok(j@),
                Err(e) => Err(e@),
            },
            fresh,
        ),
{
    let value = match read {
        Ok(v) => v,
        Err(_) => {
            return says_nothing();
        },
    };
    match value.get_str("type") {
        Some(kind) => parse_response_value(session_id, kind, &value, fresh),
        None => match name {
            Some(kind) => parse_response_value(session_id, kind.as_str(), &value, fresh),
            None => says_nothing(),
        },
    }
}

/// What an event says. The id is new.
pub fn parse_response_stream_event_detail(session_id: SessionId, raw: &str, fresh: u128) -> (r:
    ParsedResponseEvent)
    ensures
        r@ == event_parsed(session_id, raw@, fresh),
{
    let data = sse::data_of_event(raw);
    if text::is_blank_len(&data) || text::same(data.as_str(), "[DONE]") {
        return says_nothing();
    }
    let name = sse::name_of_event(raw);
    parse_response_given(session_id, name, json::parse(data.as_str()), fresh)
}

/// A tool's result as it is sent to the provider.
pub open spec fn output_item(call_id: Seq<char>, response: ToolResponseView) -> JsonView {
    json::empty_object()
        .with("type"@, JsonView::Text("function_call_output"@))
        .with("call_id"@, JsonView::Text(call_id))
        .with("output"@, JsonView::Text(result_text(response)))
}

/// A tool's result as the model reads it.
pub open spec fn result_text(response: ToolResponseView) -> Seq<char> {
    if response.is_error {
        "error: "@ + response.output
    } else {
        response.output
    }
}

/// A tool's result as the model reads it.
pub fn tool_result_text(response: &ProviderToolResponse) -> (r: String)
    ensures
        r@ == result_text(response@),
{
    if response.is_error {
        text::cat2("error: ", response.output.as_str())
    } else {
        response.output.clone()
    }
}

/// A tool's result as it is sent to the provider.
pub fn function_call_output_item(pending: &PendingFunctionCall, response: &ProviderToolResponse)
    -> (r: Json)
    ensures
        r@ == output_item(pending@.call_id, response@),
{
    let output = tool_result_text(response);
    Json::object()
        .with("type", Json::text("function_call_output"))
        .with("call_id", Json::text(pending.call_id.as_str()))
        .with("output", Json::text(output.as_str()))
}

// ---------------------------------------------------------------------------
// Turns
// ---------------------------------------------------------------------------

/// How far a turn has got.
#[derive(Debug, Clone, Copy, PartialEq, Eq, Structural)]
pub enum CodexPhase {
    /// A request is being sent.
    Requesting,
    /// The next piece of the response is awaited.
    Reading,
    /// Events of the response have to be parsed.
    Framing,
    /// The response has ended, and its last event has to be parsed.
    LastFrame,
    /// The results of tools are awaited.
    Awaiting,
    Ended,
}

/// A turn with the provider.
#[derive(Debug)]
pub struct CodexTurn {
    pub session_id: SessionId,
    /// How long the provider may be silent, in seconds.
    pub idle_secs: u64,
    /// What is sent of the conversation.
    pub input: Vec<Json>,
    /// How often a response that breaks off may be asked for again.
    pub retries: u64,
    pub progress: StreamProgress,
    pub buffer: String,
    /// The events that have to be parsed.
    pub frames: Vec<String>,
    /// What has to be sent back to the provider.
    pub output_items: Vec<Json>,
    pub calls: Vec<PendingFunctionCall>,
    /// How many of the calls have their results.
    pub answered: usize,
    pub phase: CodexPhase,
}

/// The content of a `CodexTurn`.
pub struct CodexView {
    pub session_id: SessionId,
    pub idle_secs: u64,
    pub input: Seq<JsonView>,
    pub retries: u64,
    pub progress: ProgressView,
    pub buffer: Seq<char>,
    pub frames: Seq<Seq<char>>,
    pub output_items: Seq<JsonView>,
    pub calls: Seq<FunctionCallView>,
    pub answered: nat,
    pub phase: CodexPhase,
}

impl View for CodexTurn {
    type V = CodexView;

    open spec fn view(&self) -> CodexView {
        CodexView {
            session_id: self.session_id,
            idle_secs: self.idle_secs,
            input: json::array_view(self.input@),
            retries: self.retries,
            progress: self.progress@,
            buffer: self.buffer@,
            frames: text::views(self.frames@),
            output_items: json::array_view(self.output_items@),
            calls: call_views(self.calls@),
            answered: self.answered as nat,
            phase: self.phase,
        }
    }
}

/// What a step leads to.
pub struct CodexOutcome {
    pub turn: CodexView,
    pub events: Seq<EventView>,
    pub action: HttpActionView,
}

/// Whether a step has led to an outcome.
pub open spec fn came_to(turn: CodexView, step: HttpStep, outcome: CodexOutcome) -> bool {
    &&& turn == outcome.turn
    &&& events::event_views(step.events@) == outcome.events
    &&& step.action@ == outcome.action
}

/// The turn goes on.
pub open spec fn goes_on(
    turn: CodexView,
    phase: CodexPhase,
    told: Seq<EventView>,
    action: HttpActionView,
) -> CodexOutcome {
    CodexOutcome { turn: CodexView { phase, ..turn }, events: told, action }
}

/// The turn ends.
pub open spec fn ends(turn: CodexView, told: Seq<EventView>) -> CodexOutcome {
    goes_on(turn, CodexPhase::Ended, told, HttpActionView::Finished)
}

/// The turn ends with an error.
pub open spec fn ends_with_error(turn: CodexView, message: Seq<char>) -> CodexOutcome {
    ends(turn, seq![EventView::Error { session_id: turn.session_id, message }])
}

/// The turn has been cancelled.
pub open spec fn interrupted(turn: CodexView) -> CodexOutcome {
    ends(
        turn,
        seq![
            EventView::Result {
                session_id: turn.session_id,
                stop_reason: StopReason::Interrupted,
            },
        ],
    )
}

/// The turn begins with what is sent of the conversation.
pub open spec fn codex_begun(session_id: SessionId, idle_secs: u64, input: Seq<JsonView>)
    -> CodexOutcome {
    CodexOutcome {
        turn: CodexView {
            session_id,
            idle_secs,
            input,
            retries: 1,
            progress: sse::unread(seq![], None),
            buffer: seq![],
            frames: seq![],
            output_items: seq![],
            calls: seq![],
            answered: 0,
            phase: CodexPhase::Requesting,
        },
        events: seq![EventView::Status { session_id, status: SessionStatus::Starting }],
        action: HttpActionView::Request,
    }
}

/// A request has been answered, or has not.
pub open spec fn codex_answered(turn: CodexView, outcome: ResponseView) -> CodexOutcome {
    match outcome {
        ResponseView::Cancelled => interrupted(turn),
        ResponseView::Idle => ends_with_error(
            turn,
            "Codex provider produced no response for "@ + text::decimal(turn.idle_secs as nat)
                + " seconds; stopped the stale run"@,
        ),
        ResponseView::Failed { error } => goes_on(
            turn,
            CodexPhase::Ended,
            seq![],
            HttpActionView::Fail { error },
        ),
        ResponseView::Refused { status, body } => ends_with_error(
            turn,
            "codex provider request failed with HTTP "@ + status + ": "@ + sse::redacted(body),
        ),
        ResponseView::Opened { status, content_type } => goes_on(
            CodexView {
                progress: sse::unread(status, content_type),
                buffer: seq![],
                frames: seq![],
                output_items: seq![],
                calls: seq![],
                answered: 0,
                ..turn
            },
            CodexPhase::Reading,
            seq![
                EventView::Status {
                    session_id: turn.session_id,
                    status: SessionStatus::Streaming,
                },
            ],
            HttpActionView::NextChunk,
        ),
    }
}

/// A piece of the response has come, given the text that it holds.
pub open spec fn text_came(turn: CodexView, bytes: nat, added: Seq<char>) -> CodexOutcome {
    let all = turn.buffer + added;
    let after = CodexView {
        progress: ProgressView {
            bytes_read: (turn.progress.bytes_read + bytes) as u64,
            ..turn.progress
        },
        buffer: sse::unframed(all),
        frames: sse::frames(all),
        ..turn
    };
    if sse::frames(all).len() == 0 {
        goes_on(after, CodexPhase::Reading, seq![], HttpActionView::NextChunk)
    } else {
        goes_on(after, CodexPhase::Framing, seq![], HttpActionView::NextFrame)
    }
}

/// The response is complete: the turn ends, unless tools were called.
pub open spec fn response_done(turn: CodexView, told: Seq<EventView>) -> CodexOutcome {
    if turn.calls.len() == 0 {
        ends(
            turn,
            told.push(
                EventView::Result {
                    session_id: turn.session_id,
                    stop_reason: StopReason::EndTurn,
                },
            ),
        )
    } else {
        goes_on(
            CodexView { input: turn.input + turn.output_items, answered: 0, ..turn },
            CodexPhase::Awaiting,
            told,
            HttpActionView::AwaitTool,
        )
    }
}

/// The response has ended.
pub open spec fn response_ended(turn: CodexView) -> CodexOutcome {
    if text::trimmed(turn.buffer).len() == 0 {
        response_done(turn, seq![])
    } else {
        goes_on(
            CodexView { frames: seq![turn.buffer], buffer: seq![], ..turn },
            CodexPhase::LastFrame,
            seq![],
            HttpActionView::NextFrame,
        )
    }
}

/// What came of waiting for the next piece of the response.
pub open spec fn codex_read(turn: CodexView, outcome: ChunkView) -> CodexOutcome {
    match outcome {
        ChunkView::Cancelled => interrupted(turn),
        ChunkView::Idle => ends_with_error(
            turn,
            "Codex provider stream produced no events for "@ + text::decimal(
                turn.idle_secs as nat,
            ) + " seconds; stopped the stale run"@,
        ),
        ChunkView::Failed { error } => if !turn.progress.visible && turn.retries > 0 {
            goes_on(
                CodexView { retries: (turn.retries - 1) as u64, ..turn },
                CodexPhase::Requesting,
                seq![],
                HttpActionView::Request,
            )
        } else {
            goes_on(
                turn,
                CodexPhase::Ended,
                seq![],
                HttpActionView::Fail { error: sse::decode_error("Codex"@, error, turn.progress) },
            )
        },
        ChunkView::Bytes { bytes } => text_came(turn, bytes.len(), text::lossy_text(bytes)),
        ChunkView::Ended => response_ended(turn),
    }
}

/// The turn with what an event has said.
pub open spec fn noted(turn: CodexView, parsed: ParsedView) -> CodexView {
    CodexView {
        frames: turn.frames.skip(1),
        output_items: turn.output_items + parsed.output_items,
        calls: turn.calls + parsed.function_calls,
        ..turn
    }
}

/// The first event that has to be parsed has been, given the type that it tells.
pub open spec fn frame_parsed(turn: CodexView, parsed: ParsedView, kind: Option<Seq<char>>)
    -> CodexOutcome {
    let after = noted(turn, parsed);
    if turn.phase == CodexPhase::LastFrame {
        response_done(after, parsed.events)
    } else {
        let counted = CodexView {
            progress: ProgressView {
                events_parsed: (turn.progress.events_parsed + 1) as u64,
                last_event_type: kind,
                visible: turn.progress.visible || sse::any_visible(parsed.events),
                ..turn.progress
            },
            ..after
        };
        if after.frames.len() == 0 {
            goes_on(counted, CodexPhase::Reading, parsed.events, HttpActionView::NextChunk)
        } else {
            goes_on(counted, CodexPhase::Framing, parsed.events, HttpActionView::NextFrame)
        }
    }
}

/// The first event that has to be parsed is. The id is new.
pub open spec fn codex_framed(turn: CodexView, fresh: u128) -> CodexOutcome {
    frame_parsed(
        turn,
        event_parsed(turn.session_id, turn.frames[0], fresh),
        sse::first_type(text::lines(turn.frames[0]), TypeKeys::Type),
    )
}

/// A tool's result has come, or will not.
pub open spec fn codex_tool(turn: CodexView, outcome: ToolOutcomeView) -> CodexOutcome {
    let call = turn.calls[turn.answered as int];
    match outcome {
        ToolOutcomeView::Cancelled => interrupted(turn),
        ToolOutcomeView::Lost => ends(
            turn,
            seq![
                EventView::Error {
                    session_id: turn.session_id,
                    message: "codex provider lost local tool result for "@ + call.name,
                },
                EventView::Result { session_id: turn.session_id, stop_reason: StopReason::Error },
            ],
        ),
        ToolOutcomeView::Done { response } => if response.tool_call_id != call.tool_call_id {
            goes_on(turn, CodexPhase::Awaiting, seq![], HttpActionView::AwaitTool)
        } else {
            let after = CodexView {
                input: turn.input.push(output_item(call.call_id, response)),
                answered: turn.answered + 1,
                ..turn
            };
            if after.answered < turn.calls.len() {
                goes_on(after, CodexPhase::Awaiting, seq![], HttpActionView::AwaitTool)
            } else {
                goes_on(
                    CodexView { retries: 1, ..after },
                    CodexPhase::Requesting,
                    seq![],
                    HttpActionView::Request,
                )
            }
        },
    }
}

impl CodexTurn {
    /// What holds of a turn at every time.
    pub open spec fn valid(self) -> bool {
        &&& self.phase == CodexPhase::Framing || self.phase == CodexPhase::LastFrame
            ==> self.frames@.len() > 0
        &&& self.phase == CodexPhase::Awaiting ==> self.answered < self.calls@.len()
    }

    /// The turn begins with what is sent of the conversation.
    pub fn begin(session_id: SessionId, idle_secs: u64, input: Vec<Json>) -> (r: (
        CodexTurn,
        HttpStep,
    ))
        ensures
            r.0.valid(),
            came_to(r.0@, r.1, codex_begun(session_id, idle_secs, json::array_view(input@))),
    {
        let turn = CodexTurn {
            session_id,
            idle_secs,
            input,
            retries: 1,
            progress: StreamProgress::new(String::new(), None),
            buffer: String::new(),
            frames: Vec::new(),
            output_items: json::no_items(),
            calls: no_calls(),
            answered: 0,
            phase: CodexPhase::Requesting,
        };
        assert(turn@.frames =~= seq![]);
        assert(turn@.progress.status =~= seq![]);
        assert(turn@.buffer =~= seq![]);
        let events = bridge::one_event(
            SessionEvent::Status { session_id, status: SessionStatus::Starting },
        );
        (turn, HttpStep { events, action: HttpAction::Request })
    }

    /// The request that has to be sent.
    pub fn body(&self, req: &TurnRequest) -> (r: Json)
        ensures
            r@ == codex_request::body_json(req@, self@.input),
    {
        codex_request::request_body_with_input(req, json::copy_items(&self.input))
    }

    fn end_with_error(&mut self, message: String) -> (step: HttpStep)
        ensures
            final(self).valid(),
            came_to(final(self)@, step, ends_with_error(old(self)@, message@)),
    {
        let session_id = self.session_id;
        self.phase = CodexPhase::Ended;
        HttpStep {
            events: bridge::one_event(SessionEvent::Error { session_id, message }),
            action: HttpAction::Finished,
        }
    }

    fn interrupt(&mut self) -> (step: HttpStep)
        ensures
            final(self).valid(),
            came_to(final(self)@, step, interrupted(old(self)@)),
    {
        let session_id = self.session_id;
        self.phase = CodexPhase::Ended;
        HttpStep {
            events: bridge::one_event(
                SessionEvent::Result { session_id, stop_reason: StopReason::Interrupted },
            ),
            action: HttpAction::Finished,
        }
    }

    /// A request has been answered, or has not.
    pub fn answered(&mut self, outcome: ResponseOutcome) -> (step: HttpStep)
        requires
            old(self).valid(),
            old(self).phase == CodexPhase::Requesting,
        ensures
            final(self).valid(),
            came_to(final(self)@, step, codex_answered(old(self)@, outcome@)),
    {
        match outcome {
            ResponseOutcome::Cancelled => self.interrupt(),
            ResponseOutcome::Idle => {
                let message = text::cat3(
                    "Codex provider produced no response for ",
                    text::decimal_text(self.idle_secs).as_str(),
                    " seconds; stopped the stale run",
                );
                self.end_with_error(message)
            },
            ResponseOutcome::Failed { error } => {
                self.phase = CodexPhase::Ended;
                http::step_of(HttpAction::Fail { error })
            },
            ResponseOutcome::Refused { status, body } => {
                let message = text::cat4(
                    "codex provider request failed with HTTP ",
                    status.as_str(),
                    ": ",
                    sse::redact_error_body(body.as_str()).as_str(),
                );
                self.end_with_error(message)
            },
            ResponseOutcome::Opened { status, content_type } => {
                let session_id = self.session_id;
                self.progress = StreamProgress::new(status, content_type);
                self.buffer = String::new();
                self.frames = Vec::new();
                self.output_items = json::no_items();
                self.calls = no_calls();
                self.answered = 0;
                self.phase = CodexPhase::Reading;
                assert(self@.frames =~= seq![]);
                assert(self@.buffer =~= seq![]);
                HttpStep {
                    events: bridge::one_event(
                        SessionEvent::Status { session_id, status: SessionStatus::Streaming },
                    ),
                    action: HttpAction::NextChunk,
                }
            },
        }
    }

    /// A piece of the response has come, given the text that it holds.
    pub fn text_came(&mut self, bytes: usize, added: &str) -> (step: HttpStep)
        requires
            old(self).valid(),
            old(self).phase == CodexPhase::Reading,
            old(self).progress.bytes_read + bytes <= u64::MAX,
        ensures
            final(self).valid(),
            came_to(final(self)@, step, text_came(old(self)@, bytes as nat, added@)),
    {
        self.progress.bytes_read = self.progress.bytes_read + bytes as u64;
        self.buffer.push_str(added);
        self.frames = sse::drain_sse_events(&mut self.buffer);
        if self.frames.len() == 0 {
            http::step_of(HttpAction::NextChunk)
        } else {
            self.phase = CodexPhase::Framing;
            http::step_of(HttpAction::NextFrame)
        }
    }

    fn response_done(&mut self, told: Vec<SessionEvent>) -> (step: HttpStep)
        ensures
            final(self).valid(),
            came_to(
                final(self)@,
                step,
                response_done(old(self)@, events::event_views(told@)),
            ),
    {
        let session_id = self.session_id;
        let mut told = told;
        if self.calls.len() == 0 {
            self.phase = CodexPhase::Ended;
            events::emit(
                &mut told,
                SessionEvent::Result { session_id, stop_reason: StopReason::EndTurn },
            );
            return HttpStep { events: told, action: HttpAction::Finished };
        }
        json::push_items(&mut self.input, &self.output_items);
        self.answered = 0;
        self.phase = CodexPhase::Awaiting;
        HttpStep { events: told, action: HttpAction::AwaitTool }
    }

    /// What came of waiting for the next piece of the response.
    pub fn read(&mut self, outcome: ChunkOutcome) -> (step: HttpStep)
        requires
            old(self).valid(),
            old(self).phase == CodexPhase::Reading,
            outcome matches ChunkOutcome::Bytes { bytes } ==> old(self).progress.bytes_read
                + bytes@.len() <= u64::MAX,
        ensures
            final(self).valid(),
            came_to(final(self)@, step, codex_read(old(self)@, outcome@)),
    {
        match outcome {
            ChunkOutcome::Cancelled => self.interrupt(),
            ChunkOutcome::Idle => {
                let message = text::cat3(
                    "Codex provider stream produced no events for ",
                    text::decimal_text(self.idle_secs).as_str(),
                    " seconds; stopped the stale run",
                );
                self.end_with_error(message)
            },
            ChunkOutcome::Failed { error } => {
                if !self.progress.visible && self.retries > 0 {
                    self.retries = self.retries - 1;
                    self.phase = CodexPhase::Requesting;
                    http::step_of(HttpAction::Request)
                } else {
                    let error = sse::format_stream_decode_error("Codex", &error, &self.progress);
                    self.phase = CodexPhase::Ended;
                    http::step_of(HttpAction::Fail { error })
                }
            },
            ChunkOutcome::Bytes { bytes } => {
                let added = text::lossy_of(bytes.as_slice());
                self.text_came(bytes.len(), added.as_str())
            },
            ChunkOutcome::Ended => {
                let last = sse::drain_sse_events_at_eof(&mut self.buffer);
                assert(text::views(last@).len() == last@.len());
                if last.len() == 0 {
                    self.response_done(events::no_events())
                } else {
                    self.frames = last;
                    self.phase = CodexPhase::LastFrame;
                    http::step_of(HttpAction::NextFrame)
                }
            },
        }
    }

    fn note(&mut self, items: &Vec<Json>, calls: Vec<PendingFunctionCall>) -> (frame: String)
        requires
            old(self).frames@.len() > 0,
        ensures
            frame@ == old(self)@.frames[0],
            final(self)@ == (CodexView {
                frames: old(self)@.frames.skip(1),
                output_items: old(self)@.output_items + json::array_view(items@),
                calls: old(self)@.calls + call_views(calls@),
                ..old(self)@
            }),
    {
        let ghost before = self.frames@;
        let frame = self.frames.remove(0);
        assert(text::views(self.frames@) =~= text::views(before).skip(1));
        json::push_items(&mut self.output_items, items);
        let ghost old_calls = call_views(self.calls@);
        let ghost added = call_views(calls@);
        let mut calls = calls;
        self.calls.append(&mut calls);
        assert(call_views(self.calls@) =~= old_calls + added);
        frame
    }

    /// The first event that has to be parsed has been, given the type that it tells.
    pub fn frame_given(&mut self, parsed: ParsedResponseEvent, kind: Option<String>) -> (step:
        HttpStep)
        requires
            old(self).valid(),
            old(self).phase == CodexPhase::Framing || old(self).phase == CodexPhase::LastFrame,
            old(self).progress.events_parsed < u64::MAX,
        ensures
            final(self).valid(),
            came_to(final(self)@, step, frame_parsed(old(self)@, parsed@, text::opt(kind))),
    {
        let visible = sse::are_visible(&parsed.events);
        let last = self.phase == CodexPhase::LastFrame;
        let ParsedResponseEvent { events, output_items, function_calls, completed } = parsed;
        self.note(&output_items, function_calls);
        if last {
            return self.response_done(events);
        }
        self.progress.events_parsed = self.progress.events_parsed + 1;
        self.progress.last_event_type = kind;
        self.progress.visible = self.progress.visible || visible;
        if self.frames.len() == 0 {
            self.phase = CodexPhase::Reading;
            HttpStep { events, action: HttpAction::NextChunk }
        } else {
            self.phase = CodexPhase::Framing;
            HttpStep { events, action: HttpAction::NextFrame }
        }
    }

    /// The first event that has to be parsed is. The id is new.
    pub fn frame(&mut self, fresh: u128) -> (step: HttpStep)
        requires
            old(self).valid(),
            old(self).phase == CodexPhase::Framing || old(self).phase == CodexPhase::LastFrame,
            old(self).progress.events_parsed < u64::MAX,
        ensures
            final(self).valid(),
            came_to(final(self)@, step, codex_framed(old(self)@, fresh)),
    {
        let raw = self.frames[0].clone();
        let kind = sse::sse_event_type(raw.as_str(), TypeKeys::Type);
        let parsed = parse_response_stream_event_detail(self.session_id, raw.as_str(), fresh);
        self.frame_given(parsed, kind)
    }

    /// A tool's result has come, or will not.
    pub fn tool(&mut self, outcome: ToolOutcome) -> (step: HttpStep)
        requires
            old(self).valid(),
            old(self).phase == CodexPhase::Awaiting,
        ensures
            final(self).valid(),
            came_to(final(self)@, step, codex_tool(old(self)@, outcome@)),
    {
        let session_id = self.session_id;
        assert(self@.calls[self.answered as int] == self.calls@[self.answered as int]@);
        match outcome {
            ToolOutcome::Cancelled => self.interrupt(),
            ToolOutcome::Lost => {
                let message = text::cat2(
                    "codex provider lost local tool result for ",
                    self.calls[self.answered].name.as_str(),
                );
                let mut told = bridge::one_event(SessionEvent::Error { session_id, message });
                events::emit(
                    &mut told,
                    SessionEvent::Result { session_id, stop_reason: StopReason::Error },
                );
                assert(events::event_views(told@) =~= codex_tool(old(self)@, outcome@).events);
                self.phase = CodexPhase::Ended;
                HttpStep { events: told, action: HttpAction::Finished }
            },
            ToolOutcome::Done { response } => {
                if response.tool_call_id != self.calls[self.answered].tool_call_id {
                    return http::step_of(HttpAction::AwaitTool);
                }
                let total: usize = self.calls.len();
                let item = function_call_output_item(&self.calls[self.answered], &response);
                json::push_item(&mut self.input, item);
                self.answered = self.answered + 1;
                if self.answered < total {
                    http::step_of(HttpAction::AwaitTool)
                } else {
                    self.retries = 1;
                    self.phase = CodexPhase::Requesting;
                    http::step_of(HttpAction::Request)
                }
            },
        }
    }
}

// ---------------------------------------------------------------------------
// Laws
// ---------------------------------------------------------------------------

/// A response that breaks off after the user has seen something of it is never asked for
/// again, nor one that has been asked for again already.
pub proof fn only_unseen_responses_are_retried(turn: CodexView, outcome: ChunkView)
    ensures
        codex_read(turn, outcome).action is Request ==> !turn.progress.visible && turn.retries > 0
            && codex_read(turn, outcome).turn.retries < turn.retries && codex_read(
            turn,
            outcome,
        ).turn.input == turn.input,
{
}

/// Each tool that an event calls is told to the session under the id under which its
/// result is awaited, and is sent back to the provider under the provider's own name.
pub proof fn calls_are_told_and_sent_back(session_id: SessionId, raw: Seq<char>, fresh: u128)
    ensures
        ({
            let p = event_parsed(session_id, raw, fresh);
            &&& p.function_calls.len() == p.output_items.len()
            &&& p.function_calls.len() <= 1
            &&& p.function_calls.len() == 1 ==> {
                &&& p.events.len() == 1
                &&& p.events[0] matches EventView::ToolCallRequested { tool_call_id, name, .. }
                    && tool_call_id == p.function_calls[0].tool_call_id && name
                    == p.function_calls[0].name
                &&& json::text_field(p.output_items[0], "call_id"@) == Some(
                    p.function_calls[0].call_id,
                )
            }
        }),
{
    reveal_strlit("type");
    reveal_strlit("call_id");
    reveal_strlit("name");
    reveal_strlit("arguments");
    assert("call_id"@.len() == 7);
    assert("name"@.len() == 4);
    assert("arguments"@.len() == 9);
}

/// The result of a call is sent under the name of that call, and only when its id fits.
pub proof fn results_answer_their_calls(turn: CodexView, response: ToolResponseView)
    requires
        turn.answered < turn.calls.len(),
    ensures
        ({
            let call = turn.calls[turn.answered as int];
            let after = codex_tool(turn, ToolOutcomeView::Done { response }).turn;
            if response.tool_call_id == call.tool_call_id {
                after.input == turn.input.push(output_item(call.call_id, response))
                    && after.answered == turn.answered + 1
            } else {
                after.input == turn.input && after.answered == turn.answered
            }
        }),
{
}

/// A tool's failure does not end the turn: the provider is asked again when each call has
/// its result, whatever that is.
pub proof fn a_failed_tool_goes_on(turn: CodexView, response: ToolResponseView)
    requires
        turn.answered + 1 == turn.calls.len(),
        response.tool_call_id == turn.calls[turn.answered as int].tool_call_id,
    ensures
        codex_tool(turn, ToolOutcomeView::Done { response }).action is Request,
        codex_tool(turn, ToolOutcomeView::Done { response }).turn.phase == CodexPhase::Requesting,
{
}

// ---------------------------------------------------------------------------
// What the provider says, and what it is sent
// ---------------------------------------------------------------------------

proof fn lemma_event_kinds()
    ensures
        "response.output_text.delta"@.len() == 26,
        "output_text.delta"@.len() == 17,
        "text_delta"@.len() == 10,
        "response.output_item.done"@.len() == 25,
        "response.completed"@.len() == 18,
        "completed"@.len() == 9,
        "done"@.len() == 4,
        "response.failed"@.len() == 15,
        "error"@.len() == 5,
{
    reveal_strlit("response.output_text.delta");
    reveal_strlit("output_text.delta");
    reveal_strlit("text_delta");
    reveal_strlit("response.output_item.done");
    reveal_strlit("response.completed");
    reveal_strlit("completed");
    reveal_strlit("done");
    reveal_strlit("response.failed");
    reveal_strlit("error");
}

/// An event is told by its kind, which it has in its data or else in its name: a piece of
/// text as it is, an error with its message, and an end with the tokens that it counts.
/// What is no JSON, or of another kind, is passed over.
pub proof fn events_are_told_by_their_kind(
    session_id: SessionId,
    name: Option<Seq<char>>,
    v: JsonView,
    fresh: u128,
    detail: Seq<char>,
)
    ensures
        ({
            let kind = match json::text_field(v, "type"@) {
                Some(k) => Some(k),
                None => name,
            };
            let p = event_read(session_id, name, Ok(v), fresh);
            &&& kind == Some("response.output_text.delta"@) || kind == Some("output_text.delta"@)
                || kind == Some("text_delta"@) ==> {
                &&& p.function_calls.len() == 0 && p.output_items.len() == 0 && !p.completed
                &&& json::text_field(v, "delta"@) matches Some(text) ==> p.events == seq![
                    EventView::TextDelta { session_id, text },
                ]
                &&& json::field(v, "delta"@) is None ==> (json::text_field(v, "text"@) matches Some(
                    text,
                ) ==> p.events == seq![EventView::TextDelta { session_id, text }])
            }
            &&& kind == Some("response.completed"@) || kind == Some("completed"@) || kind == Some(
                "done"@,
            ) <==> p.completed
            &&& kind == Some("response.failed"@) || kind == Some("error"@) ==> p.events.len() == 1
                && (p.events[0] matches EventView::Error { session_id: s, message } && s
                == session_id && (json::inner_text(v, "error"@, "message"@) matches Some(m)
                ==> message == m))
            &&& kind is None ==> p == nothing()
        }),
        event_read(session_id, name, Err(detail), fresh) == nothing(),
{
    lemma_event_kinds();
}

/// A tool call of the provider is asked for with its name and its arguments, which are read
/// as JSON, and is sent back as it came, under the provider's own name for it.
pub proof fn calls_are_asked_for_with_their_arguments(
    session_id: SessionId,
    item: JsonView,
    name: Seq<char>,
    call_id: Seq<char>,
    arguments: Seq<char>,
    input: JsonView,
    fresh: u128,
)
    requires
        json::text_field(item, "type"@) == Some("function_call"@),
        json::text_field(item, "name"@) == Some(name),
        json::text_field(item, "call_id"@) == Some(call_id),
        json::text_field(item, "arguments"@) == Some(arguments),
        json::json_parse(arguments) == Ok::<JsonView, Seq<char>>(input),
    ensures
        ({
            let p = item_done(session_id, item, fresh);
            &&& p.events == seq![
                EventView::ToolCallRequested {
                    session_id,
                    tool_call_id: ToolCallId(fresh),
                    name,
                    input_json: input,
                },
            ]
            &&& p.function_calls == seq![
                FunctionCallView { tool_call_id: ToolCallId(fresh), call_id, name },
            ]
            &&& p.output_items.len() == 1
            &&& json::text_field(p.output_items[0], "type"@) == Some("function_call"@)
            &&& json::text_field(p.output_items[0], "call_id"@) == Some(call_id)
            &&& json::text_field(p.output_items[0], "name"@) == Some(name)
            &&& json::text_field(p.output_items[0], "arguments"@) == Some(arguments)
            &&& !p.completed
        }),
{
    lemma_item_names();
}

proof fn lemma_item_names()
    ensures
        "type"@.len() == 4 && "type"@[0] == 't',
        "call_id"@.len() == 7,
        "name"@.len() == 4 && "name"@[0] == 'n',
        "arguments"@.len() == 9,
        "output"@.len() == 6,
{
    reveal_strlit("type");
    reveal_strlit("call_id");
    reveal_strlit("name");
    reveal_strlit("arguments");
    reveal_strlit("output");
}

/// What an event tells is told at once, and the calls that it makes and what has to be sent
/// back are kept behind those before them.
pub proof fn what_an_event_tells_is_kept(
    turn: CodexView,
    parsed: ParsedView,
    kind: Option<Seq<char>>,
)
    requires
        turn.phase == CodexPhase::Framing,
        turn.frames.len() > 0,
    ensures
        ({
            let next = frame_parsed(turn, parsed, kind);
            &&& next.events == parsed.events
            &&& next.turn.calls == turn.calls + parsed.function_calls
            &&& next.turn.output_items == turn.output_items + parsed.output_items
            &&& next.turn.input == turn.input
            &&& next.turn.frames.len() == turn.frames.len() - 1
            &&& turn.frames.len() == 1 ==> next.action is NextChunk
            &&& turn.frames.len() > 1 ==> next.action is NextFrame && next.turn.frames[0]
                == turn.frames[1]
            &&& next.turn.progress.events_parsed == (turn.progress.events_parsed + 1) as u64
            &&& next.turn.progress.last_event_type == kind
            &&& turn.progress.visible ==> next.turn.progress.visible
        }),
{
}

/// A response that makes no calls ends the turn; one that does is sent back with all that it
/// holds, in order, and its first call is awaited.
pub proof fn a_response_ends_or_is_answered(turn: CodexView)
    requires
        text::trimmed(turn.buffer).len() == 0,
    ensures
        ({
            let next = codex_read(turn, ChunkView::Ended);
            &&& turn.calls.len() == 0 ==> next.action is Finished && next.events == seq![
                EventView::Result {
                    session_id: turn.session_id,
                    stop_reason: StopReason::EndTurn,
                },
            ]
            &&& turn.calls.len() > 0 ==> next.action is AwaitTool && next.turn.input == turn.input
                + turn.output_items && next.turn.answered == 0 && next.turn.calls == turn.calls
                && next.events.len() == 0
        }),
{
}

/// The turn behind the results of tools, one for each call.
pub open spec fn all_done(turn: CodexView, responses: Seq<ToolResponseView>) -> CodexOutcome
    decreases responses.len(),
{
    if responses.len() == 0 {
        goes_on(turn, turn.phase, seq![], HttpActionView::AwaitTool)
    } else {
        codex_tool(
            all_done(turn, responses.drop_last()).turn,
            ToolOutcomeView::Done { response: responses.last() },
        )
    }
}

/// When every call has its result, the provider is asked again. It then gets the results
/// behind all else, in the order of the calls, each under the provider's own name for its
/// call; the output is sent as it is, behind a word where it is an error.
pub proof fn results_are_sent_in_the_order_of_the_calls(
    turn: CodexView,
    responses: Seq<ToolResponseView>,
)
    requires
        turn.answered == 0,
        responses.len() <= turn.calls.len(),
        forall|i: int|
            0 <= i < responses.len() ==> (#[trigger] responses[i]).tool_call_id
                == turn.calls[i].tool_call_id,
    ensures
        ({
            let end = all_done(turn, responses);
            let sent = end.turn.input;
            &&& sent.len() == turn.input.len() + responses.len()
            &&& sent.take(turn.input.len() as int) == turn.input
            &&& forall|i: int|
                0 <= i < responses.len() ==> ({
                    let item = #[trigger] sent[turn.input.len() + i];
                    &&& json::text_field(item, "type"@) == Some("function_call_output"@)
                    &&& json::text_field(item, "call_id"@) == Some(turn.calls[i].call_id)
                    &&& json::text_field(item, "output"@) == Some(
                        if responses[i].is_error {
                            "error: "@ + responses[i].output
                        } else {
                            responses[i].output
                        },
                    )
                })
            &&& end.turn.calls == turn.calls
            &&& end.turn.answered == responses.len()
            &&& 0 < responses.len() == turn.calls.len() ==> end.action is Request
            &&& responses.len() < turn.calls.len() ==> end.action is AwaitTool
        }),
    decreases responses.len(),
{
    lemma_item_names();
    if responses.len() > 0 {
        let front = responses.drop_last();
        assert forall|i: int| 0 <= i < front.len() implies (#[trigger] front[i]).tool_call_id
            == turn.calls[i].tool_call_id by {
            assert(responses[i].tool_call_id == turn.calls[i].tool_call_id);
        }
        results_are_sent_in_the_order_of_the_calls(turn, front);
        let before = all_done(turn, front).turn;
        let last = responses.last();
        assert(responses[responses.len() - 1].tool_call_id == turn.calls[responses.len()
            - 1].tool_call_id);
        let sent = all_done(turn, responses).turn.input;
        assert(sent == before.input.push(output_item(turn.calls[front.len() as int].call_id, last)));
        assert(sent.take(turn.input.len() as int) =~= before.input.take(turn.input.len() as int));
        assert forall|i: int| 0 <= i < responses.len() implies ({
            let item = #[trigger] sent[turn.input.len() + i];
            &&& json::text_field(item, "type"@) == Some("function_call_output"@)
            &&& json::text_field(item, "call_id"@) == Some(turn.calls[i].call_id)
            &&& json::text_field(item, "output"@) == Some(
                if responses[i].is_error {
                    "error: "@ + responses[i].output
                } else {
                    responses[i].output
                },
            )
        }) by {
            if i < front.len() {
                assert(sent[turn.input.len() + i] == before.input[turn.input.len() + i]);
                assert(front[i] == responses[i]);
            }
        }
    } else {
        assert(turn.input.take(turn.input.len() as int) =~= turn.input);
    }
}

/// How a turn breaks off: when it is cancelled, with a result that says so; when the
/// provider is silent or refuses, with an error; when a tool's result is lost, with an
/// error and a result.
pub proof fn how_a_turn_breaks_off(turn: CodexView, error: Seq<char>, status: Seq<char>)
    ensures
        codex_answered(turn, ResponseView::Cancelled).action is Finished && codex_answered(
            turn,
            ResponseView::Cancelled,
        ).events == seq![
            EventView::Result {
                session_id: turn.session_id,
                stop_reason: StopReason::Interrupted,
            },
        ],
        codex_read(turn, ChunkView::Cancelled).events == seq![
            EventView::Result {
                session_id: turn.session_id,
                stop_reason: StopReason::Interrupted,
            },
        ],
        codex_read(turn, ChunkView::Cancelled).action is Finished,
        codex_tool(turn, ToolOutcomeView::Cancelled).action is Finished && codex_tool(
            turn,
            ToolOutcomeView::Cancelled,
        ).events.last() == (EventView::Result {
            session_id: turn.session_id,
            stop_reason: StopReason::Interrupted,
        }),
        codex_answered(turn, ResponseView::Idle).action is Finished && codex_answered(
            turn,
            ResponseView::Idle,
        ).events.last() is Error,
        codex_read(turn, ChunkView::Idle).action is Finished && codex_read(
            turn,
            ChunkView::Idle,
        ).events.last() is Error,
        codex_answered(turn, ResponseView::Failed { error }).action == (HttpActionView::Fail {
            error,
        }),
        codex_answered(turn, ResponseView::Refused { status, body: error }).events == seq![
            EventView::Error {
                session_id: turn.session_id,
                message: "codex provider request failed with HTTP "@ + status + ": "@
                    + sse::redacted(error),
            },
        ],
        codex_tool(turn, ToolOutcomeView::Lost).action is Finished && codex_tool(
            turn,
            ToolOutcomeView::Lost,
        ).events.last() == (EventView::Result {
            session_id: turn.session_id,
            stop_reason: StopReason::Error,
        }),
{
}

/// A response that breaks off before the user has seen anything of it is asked for once
/// more: a turn may do so once for each request.
pub proof fn an_unseen_response_is_asked_for_once_more(
    turn: CodexView,
    session_id: SessionId,
    idle_secs: u64,
    input: Seq<JsonView>,
    error: sse::ErrorChainView,
)
    ensures
        codex_begun(session_id, idle_secs, input).turn.retries == 1,
        codex_begun(session_id, idle_secs, input).turn.input == input,
        codex_begun(session_id, idle_secs, input).action is Request,
        !turn.progress.visible && turn.retries > 0 ==> codex_read(
            turn,
            ChunkView::Failed { error },
        ).action is Request && codex_read(turn, ChunkView::Failed { error }).turn.retries
            == turn.retries - 1,
        turn.progress.visible || turn.retries == 0 ==> codex_read(
            turn,
            ChunkView::Failed { error },
        ).action is Fail,
{
}

} // verus!
