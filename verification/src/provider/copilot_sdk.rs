//! The provider that runs the Copilot SDK behind a bridge.
use vstd::prelude::*;

use crate::json;
use crate::json::{Json, JsonView};
use crate::provider::bridge;
use crate::provider::bridge::{
    BridgeAction, BridgeActionView, BridgeCommand, BridgeStep, CommandView, PendingIds, SendOutcome,
    SendView,
};
use crate::provider::common::ProviderToolResponse;
use crate::provider::copilot_request;
use crate::runtime::events;
use crate::runtime::events::{EventView, SessionEvent};
use crate::runtime::prompt::{RequestView, TurnRequest};
use crate::runtime::types::{SessionId, SessionStatus, StopReason, ToolCallId};
use crate::text;

verus! {

// ---------------------------------------------------------------------------
// Requests
// ---------------------------------------------------------------------------

/// The command that runs the bridge: what the environment says, unless that is blank, or
/// the script of the installation.
pub open spec fn bridge_command(env: Option<Seq<char>>, dir: Seq<char>) -> CommandView {
    match env {
        Some(line) => if text::words(line).len() > 0 {
            bridge::command_of(line)
        } else {
            bridge::script_command(dir, "js/copilot_sdk_bridge.mjs"@)
        },
        None => bridge::script_command(dir, "js/copilot_sdk_bridge.mjs"@),
    }
}

/// The command that runs the bridge.
pub fn sdk_command(env: Option<&str>, dir: &str) -> (r: BridgeCommand)
    ensures
        r@ == bridge_command(
            match env {
                Some(e) => Some(e@),
                None => None,
            },
            dir@,
        ),
{
    match env {
        Some(line) => {
            let ws = text::split_whitespace(line);
            assert(text::views(ws@).len() == ws@.len());
            if ws.len() > 0 {
                bridge::parse_command_line(line)
            } else {
                bridge::command_for_script(dir, "js/copilot_sdk_bridge.mjs")
            }
        },
        None => bridge::command_for_script(dir, "js/copilot_sdk_bridge.mjs"),
    }
}

/// What the library does not write in JSON by itself: the session's id, the messages, the
/// pictures, and the checkpoint of the conversation.
#[derive(Debug)]
pub struct EncodedRequest {
    pub session_id: Json,
    pub messages: Json,
    pub images: Json,
    pub context_checkpoint: Json,
}

/// The content of an `EncodedRequest`.
pub struct EncodedView {
    pub session_id: JsonView,
    pub messages: JsonView,
    pub images: JsonView,
    pub context_checkpoint: JsonView,
}

impl View for EncodedRequest {
    type V = EncodedView;

    open spec fn view(&self) -> EncodedView {
        EncodedView {
            session_id: self.session_id@,
            messages: self.messages@,
            images: self.images@,
            context_checkpoint: self.context_checkpoint@,
        }
    }
}

/// The message with which a turn starts.
pub open spec fn request_json(
    req: RequestView,
    cwd: Seq<char>,
    token: Seq<char>,
    encoded: EncodedView,
) -> JsonView {
    json::empty_object()
        .with("session_id"@, encoded.session_id)
        .with("cwd"@, JsonView::Text(cwd))
        .with("github_token"@, JsonView::Text(token))
        .with("model"@, JsonView::Text(copilot_request::model_of(req.model)))
        .with("checkpoint_model"@, JsonView::Text(req.model))
        .with("prompt"@, JsonView::Text(req.prompt))
        .with("system_prompt"@, json::text_or_null(req.system_prompt))
        .with("messages"@, encoded.messages)
        .with("images"@, encoded.images)
        .with("context_checkpoint"@, encoded.context_checkpoint)
        .with("tool_definitions"@, bridge::definitions_json(req.tool_names))
}

/// The message with which a turn starts.
pub fn bridge_request(req: &TurnRequest, cwd: &str, token: &str, encoded: EncodedRequest) -> (r:
    Json)
    ensures
        r@ == request_json(req@, cwd@, token@, encoded@),
{
    let model = copilot_request::normalize_copilot_model(req.model.as_str());
    Json::object()
        .with("session_id", encoded.session_id)
        .with("cwd", Json::text(cwd))
        .with("github_token", Json::text(token))
        .with("model", Json::text(model.as_str()))
        .with("checkpoint_model", Json::text(req.model.as_str()))
        .with("prompt", Json::text(req.prompt.as_str()))
        .with("system_prompt", json::optional_text(&req.system_prompt))
        .with("messages", encoded.messages)
        .with("images", encoded.images)
        .with("context_checkpoint", encoded.context_checkpoint)
        .with("tool_definitions", bridge::tool_definitions_json(&req.tool_names))
}

// ---------------------------------------------------------------------------
// Messages of the bridge
// ---------------------------------------------------------------------------

pub open spec fn text_or(v: JsonView, name: Seq<char>, other: Seq<char>) -> Seq<char> {
    match json::text_field(v, name) {
        Some(t) => t,
        None => other,
    }
}

/// The event that a message of the bridge stands for, if it does and is not about a tool.
pub open spec fn sdk_event(session_id: SessionId, v: JsonView) -> Option<EventView> {
    match json::text_field(v, "type"@) {
        Some(kind) => if kind == "text_delta"@ {
            match json::text_field(v, "text"@) {
                Some(t) => if t.len() > 0 {
                    Some(EventView::TextDelta { session_id, text: t })
                } else {
                    None
                },
                None => None,
            }
        } else if kind == "usage"@ {
            Some(bridge::usage_told(session_id, v))
        } else if kind == "compaction"@ {
            Some(
                EventView::ContextCompaction {
                    session_id,
                    provider_id: "copilot"@,
                    phase: text_or(v, "phase"@, "unknown"@),
                    pre_tokens: bridge::count_field(v, "pre_tokens"@),
                    post_tokens: bridge::count_field(v, "post_tokens"@),
                    summary: json::text_field(v, "summary"@),
                    details: json::field(v, "details"@),
                },
            )
        } else if kind == "context_checkpoint"@ {
            Some(
                EventView::ContextCheckpoint {
                    session_id,
                    provider_id: "copilot"@,
                    model: text_or(v, "model"@, "gpt-4.1"@),
                    kind: text_or(v, "kind"@, "copilot_infinite_session"@),
                    payload: json::field_or_null(v, "payload"@),
                    summary: json::text_field(v, "summary"@),
                },
            )
        } else if kind == "result"@ {
            Some(
                EventView::Result {
                    session_id,
                    stop_reason: if json::text_field(v, "stop_reason"@) == Some("cancelled"@) {
                        StopReason::Interrupted
                    } else {
                        StopReason::EndTurn
                    },
                },
            )
        } else if kind == "error"@ {
            Some(
                EventView::Error {
                    session_id,
                    message: text_or(v, "message"@, "Copilot SDK bridge failed"@),
                },
            )
        } else {
            None
        },
        None => None,
    }
}

/// The event that a message of the bridge stands for, if it does and is not about a tool.
pub fn sdk_event_to_session_event(session_id: SessionId, value: &Json) -> (r: Option<SessionEvent>)
    ensures
        match r {
            Some(e) => sdk_event(session_id, value@) == Some(e@),
            None => sdk_event(session_id, value@) is None,
        },
{
    let kind = match value.get_str("type") {
        Some(k) => k,
        None => {
            return None;
        },
    };
    if text::same(kind, "text_delta") {
        match value.get_string("text") {
            Some(t) => if text::is_blank_len(&t) {
                None
            } else {
                Some(SessionEvent::TextDelta { session_id, text: t })
            },
            None => None,
        }
    } else if text::same(kind, "usage") {
        Some(bridge::usage_event(session_id, value))
    } else if text::same(kind, "compaction") {
        let details = match value.get("details") {
            Some(d) => Some(d.clone()),
            None => None,
        };
        Some(
            SessionEvent::ContextCompaction {
                session_id,
                provider_id: "copilot".to_string(),
                phase: bridge::string_or(value.get_string("phase"), "unknown"),
                pre_tokens: value.get_u64("pre_tokens"),
                post_tokens: value.get_u64("post_tokens"),
                summary: value.get_string("summary"),
                details,
            },
        )
    } else if text::same(kind, "context_checkpoint") {
        Some(
            SessionEvent::ContextCheckpoint {
                session_id,
                provider_id: "copilot".to_string(),
                model: bridge::string_or(value.get_string("model"), "gpt-4.1"),
                kind: bridge::string_or(value.get_string("kind"), "copilot_infinite_session"),
                payload: value.get_or_null("payload"),
                summary: value.get_string("summary"),
            },
        )
    } else if text::same(kind, "result") {
        let cancelled = match value.get_str("stop_reason") {
            Some(r) => text::same(r, "cancelled"),
            None => false,
        };
        let stop_reason = if cancelled {
            StopReason::Interrupted
        } else {
            StopReason::EndTurn
        };
        Some(SessionEvent::Result { session_id, stop_reason })
    } else if text::same(kind, "error") {
        let message = bridge::string_or(value.get_string("message"), "Copilot SDK bridge failed");
        Some(SessionEvent::Error { session_id, message })
    } else {
        None
    }
}

// ---------------------------------------------------------------------------
// Turns
// ---------------------------------------------------------------------------

/// How far a turn has got.
#[derive(Debug, Clone, Copy, PartialEq, Eq, Structural)]
pub enum SdkPhase {
    /// The bridge is being started and the request sent.
    Starting,
    /// A message of the bridge, or something else, is awaited.
    Waiting,
    /// A tool's result is being sent.
    SendingResult,
    Ended,
}

/// A turn with the bridge.
#[derive(Debug)]
pub struct SdkTurn {
    pub session_id: SessionId,
    /// How long the bridge may be silent, in seconds.
    pub idle_secs: u64,
    /// The tool calls that the bridge waits for.
    pub pending_tools: PendingIds,
    /// Whether there may be further results of tools.
    pub results_open: bool,
    pub phase: SdkPhase,
}

/// The content of an `SdkTurn`.
pub struct SdkView {
    pub session_id: SessionId,
    pub idle_secs: u64,
    pub pending_tools: Map<u128, Seq<char>>,
    pub results_open: bool,
    pub phase: SdkPhase,
}

impl View for SdkTurn {
    type V = SdkView;

    open spec fn view(&self) -> SdkView {
        SdkView {
            session_id: self.session_id,
            idle_secs: self.idle_secs,
            pending_tools: self.pending_tools@,
            results_open: self.results_open,
            phase: self.phase,
        }
    }
}

/// What a step leads to.
pub struct SdkOutcome {
    pub turn: SdkView,
    pub cancel: bool,
    pub events: Seq<EventView>,
    pub action: BridgeActionView,
}

/// Whether a step has led to an outcome.
pub open spec fn came_to(turn: SdkView, step: BridgeStep, outcome: SdkOutcome) -> bool {
    &&& turn == outcome.turn
    &&& step.cancel == outcome.cancel
    &&& events::event_views(step.events@) == outcome.events
    &&& step.action@ == outcome.action
}

/// The turn goes on waiting.
pub open spec fn waits(turn: SdkView, told: Seq<EventView>) -> SdkOutcome {
    SdkOutcome {
        turn: SdkView { phase: SdkPhase::Waiting, ..turn },
        cancel: false,
        events: told,
        action: BridgeActionView::Wait,
    }
}

/// The turn ends with an event.
pub open spec fn ends(turn: SdkView, cancel: bool, event: EventView) -> SdkOutcome {
    SdkOutcome {
        turn: SdkView { phase: SdkPhase::Ended, ..turn },
        cancel,
        events: seq![event],
        action: BridgeActionView::Finished,
    }
}

/// The turn ends with an error of its own.
pub open spec fn fails(turn: SdkView, error: Seq<char>) -> SdkOutcome {
    SdkOutcome {
        turn: SdkView { phase: SdkPhase::Ended, ..turn },
        cancel: false,
        events: seq![],
        action: BridgeActionView::Fail(error),
    }
}

/// The turn begins with a request.
pub open spec fn sdk_begun(session_id: SessionId, idle_secs: u64, request: JsonView)
    -> SdkOutcome {
    SdkOutcome {
        turn: SdkView {
            session_id,
            idle_secs,
            pending_tools: Map::empty(),
            results_open: true,
            phase: SdkPhase::Starting,
        },
        cancel: false,
        events: seq![EventView::Status { session_id, status: SessionStatus::Starting }],
        action: BridgeActionView::Start(request),
    }
}

/// A message has been sent, or has not.
pub open spec fn sdk_sent(turn: SdkView, outcome: SendView) -> SdkOutcome {
    match outcome {
        SendView::NotStarted(e) => fails(turn, e),
        SendView::Failed(e) => fails(turn, e),
        SendView::TimedOut => fails(turn, "timed out writing to Copilot SDK bridge"@),
        SendView::Sent => if turn.phase == SdkPhase::Starting {
            waits(
                turn,
                seq![
                    EventView::Status {
                        session_id: turn.session_id,
                        status: SessionStatus::Streaming,
                    },
                ],
            )
        } else {
            waits(turn, seq![])
        },
    }
}

/// A message of the bridge has come. The id is new.
pub open spec fn sdk_heard(turn: SdkView, v: JsonView, fresh: u128) -> SdkOutcome {
    if json::text_field(v, "type"@) == Some("tool_request"@) {
        waits(
            SdkView {
                pending_tools: turn.pending_tools.insert(fresh, bridge::bridge_id(v)),
                ..turn
            },
            seq![
                EventView::ToolCallRequested {
                    session_id: turn.session_id,
                    tool_call_id: ToolCallId(fresh),
                    name: bridge::told_name(v, "name"@),
                    input_json: json::field_or_null(v, "input"@),
                },
            ],
        )
    } else {
        match sdk_event(turn.session_id, v) {
            Some(e) => if e is Result || e is Error {
                ends(turn, false, e)
            } else {
                waits(turn, seq![e])
            },
            None => waits(turn, seq![]),
        }
    }
}

/// A line of the bridge has come, given how it reads as JSON.
pub open spec fn sdk_line(turn: SdkView, read: Result<JsonView, Seq<char>>, fresh: u128)
    -> SdkOutcome {
    match read {
        Ok(v) => sdk_heard(turn, v, fresh),
        Err(e) => fails(turn, e),
    }
}

/// The bridge has ended.
pub open spec fn sdk_exited(turn: SdkView, diagnostics: Seq<char>) -> SdkOutcome {
    ends(
        turn,
        false,
        EventView::Error {
            session_id: turn.session_id,
            message: "Copilot SDK bridge exited before returning a result"@ + diagnostics,
        },
    )
}

/// A tool call has been carried out.
pub open spec fn sdk_tool_done(
    turn: SdkView,
    call: ToolCallId,
    output: Seq<char>,
    is_error: bool,
) -> SdkOutcome {
    let after = SdkView { pending_tools: turn.pending_tools.remove(call.0), ..turn };
    match bridge::name_of(turn.pending_tools, call.0) {
        Some(id) => SdkOutcome {
            turn: SdkView { phase: SdkPhase::SendingResult, ..after },
            cancel: false,
            events: seq![],
            action: BridgeActionView::Send(bridge::result_json(id, output, is_error)),
        },
        None => waits(after, seq![]),
    }
}

/// The bridge has been silent for too long.
pub open spec fn sdk_idle(turn: SdkView) -> SdkOutcome {
    ends(
        turn,
        true,
        EventView::Error {
            session_id: turn.session_id,
            message: "Copilot SDK produced no events for "@ + text::decimal(turn.idle_secs as nat)
                + " seconds; killed the stale run"@,
        },
    )
}

/// The turn has been cancelled.
pub open spec fn sdk_cancelled(turn: SdkView) -> SdkOutcome {
    ends(
        turn,
        true,
        EventView::Result { session_id: turn.session_id, stop_reason: StopReason::Interrupted },
    )
}

impl SdkTurn {
    /// The turn begins with a request.
    pub fn begin(session_id: SessionId, idle_secs: u64, request: Json) -> (r: (
        SdkTurn,
        BridgeStep,
    ))
        ensures
            came_to(r.0@, r.1, sdk_begun(session_id, idle_secs, request@)),
    {
        let turn = SdkTurn {
            session_id,
            idle_secs,
            pending_tools: PendingIds::new(),
            results_open: true,
            phase: SdkPhase::Starting,
        };
        let events = bridge::one_event(
            SessionEvent::Status { session_id, status: SessionStatus::Starting },
        );
        (turn, BridgeStep { cancel: false, events, action: BridgeAction::Start(request) })
    }

    fn wait(&mut self, events: Vec<SessionEvent>) -> (step: BridgeStep)
        ensures
            came_to(final(self)@, step, waits(old(self)@, events::event_views(events@))),
    {
        self.phase = SdkPhase::Waiting;
        BridgeStep { cancel: false, events, action: BridgeAction::Wait }
    }

    fn end(&mut self, cancel: bool, event: SessionEvent) -> (step: BridgeStep)
        ensures
            came_to(final(self)@, step, ends(old(self)@, cancel, event@)),
    {
        self.phase = SdkPhase::Ended;
        BridgeStep { cancel, events: bridge::one_event(event), action: BridgeAction::Finished }
    }

    fn fail(&mut self, error: String) -> (step: BridgeStep)
        ensures
            came_to(final(self)@, step, fails(old(self)@, error@)),
    {
        self.phase = SdkPhase::Ended;
        BridgeStep { cancel: false, events: events::no_events(), action: BridgeAction::Fail(error) }
    }

    /// A message has been sent, or has not. There is no limit on how long a tool's result may
    /// take to be sent.
    pub fn sent(&mut self, outcome: SendOutcome) -> (step: BridgeStep)
        requires
            old(self).phase == SdkPhase::Starting || old(self).phase == SdkPhase::SendingResult,
            outcome is NotStarted || outcome is TimedOut ==> old(self).phase == SdkPhase::Starting,
        ensures
            came_to(final(self)@, step, sdk_sent(old(self)@, outcome@)),
    {
        match outcome {
            SendOutcome::NotStarted(e) => self.fail(e),
            SendOutcome::Failed(e) => self.fail(e),
            SendOutcome::TimedOut => {
                self.fail("timed out writing to Copilot SDK bridge".to_string())
            },
            SendOutcome::Sent => {
                if self.phase == SdkPhase::Starting {
                    let session_id = self.session_id;
                    let told = bridge::one_event(
                        SessionEvent::Status { session_id, status: SessionStatus::Streaming },
                    );
                    self.wait(told)
                } else {
                    self.wait(events::no_events())
                }
            },
        }
    }

    /// A message of the bridge has come. The id is new.
    pub fn heard(&mut self, value: &Json, fresh: u128) -> (step: BridgeStep)
        requires
            old(self).phase == SdkPhase::Waiting,
        ensures
            came_to(final(self)@, step, sdk_heard(old(self)@, value@, fresh)),
    {
        let session_id = self.session_id;
        let asks = match value.get_str("type") {
            Some(k) => text::same(k, "tool_request"),
            None => false,
        };
        if asks {
            let name = bridge::string_or(value.get_string("name"), "tool");
            self.pending_tools.insert(fresh, bridge::read_bridge_id(value));
            let told = bridge::one_event(
                SessionEvent::ToolCallRequested {
                    session_id,
                    tool_call_id: ToolCallId(fresh),
                    name,
                    input_json: value.get_or_null("input"),
                },
            );
            return self.wait(told);
        }
        match sdk_event_to_session_event(session_id, value) {
            Some(e) => {
                let last = match &e {
                    SessionEvent::Result { .. } => true,
                    SessionEvent::Error { .. } => true,
                    _ => false,
                };
                if last {
                    self.end(false, e)
                } else {
                    let told = bridge::one_event(e);
                    self.wait(told)
                }
            },
            None => self.wait(events::no_events()),
        }
    }

    /// A line of the bridge has come. The id is new.
    pub fn read_line(&mut self, line: &str, fresh: u128) -> (step: BridgeStep)
        requires
            old(self).phase == SdkPhase::Waiting,
        ensures
            came_to(final(self)@, step, sdk_line(old(self)@, json::json_parse(line@), fresh)),
    {
        match json::parse(line) {
            Ok(value) => self.heard(&value, fresh),
            Err(e) => self.fail(e),
        }
    }

    /// The bridge's output could not be read.
    pub fn read_failed(&mut self, error: String) -> (step: BridgeStep)
        requires
            old(self).phase == SdkPhase::Waiting,
        ensures
            came_to(final(self)@, step, fails(old(self)@, error@)),
    {
        self.fail(error)
    }

    /// The bridge has ended.
    pub fn exited(&mut self, diagnostics: &str) -> (step: BridgeStep)
        requires
            old(self).phase == SdkPhase::Waiting,
        ensures
            came_to(final(self)@, step, sdk_exited(old(self)@, diagnostics@)),
    {
        let session_id = self.session_id;
        let message = text::cat2(
            "Copilot SDK bridge exited before returning a result",
            diagnostics,
        );
        self.end(false, SessionEvent::Error { session_id, message })
    }

    /// A tool call has been carried out.
    pub fn tool_done(&mut self, response: ProviderToolResponse) -> (step: BridgeStep)
        requires
            old(self).phase == SdkPhase::Waiting,
        ensures
            came_to(
                final(self)@,
                step,
                sdk_tool_done(
                    old(self)@,
                    response.tool_call_id,
                    response.output@,
                    response.is_error,
                ),
            ),
    {
        match self.pending_tools.remove(response.tool_call_id.0) {
            Some(id) => {
                let value = bridge::tool_result_json(
                    id.as_str(),
                    response.output.as_str(),
                    response.is_error,
                );
                self.phase = SdkPhase::SendingResult;
                BridgeStep {
                    cancel: false,
                    events: events::no_events(),
                    action: BridgeAction::Send(value),
                }
            },
            None => self.wait(events::no_events()),
        }
    }

    /// There will be no further results of tools.
    pub fn results_closed(&mut self) -> (step: BridgeStep)
        requires
            old(self).phase == SdkPhase::Waiting,
        ensures
            came_to(
                final(self)@,
                step,
                waits(SdkView { results_open: false, ..old(self)@ }, seq![]),
            ),
    {
        self.results_open = false;
        self.wait(events::no_events())
    }

    /// The bridge has been silent for too long.
    pub fn idle(&mut self) -> (step: BridgeStep)
        requires
            old(self).phase == SdkPhase::Waiting,
        ensures
            came_to(final(self)@, step, sdk_idle(old(self)@)),
    {
        let session_id = self.session_id;
        let message = text::cat3(
            "Copilot SDK produced no events for ",
            text::decimal_text(self.idle_secs).as_str(),
            " seconds; killed the stale run",
        );
        self.end(true, SessionEvent::Error { session_id, message })
    }

    /// The turn has been cancelled.
    pub fn cancelled(&mut self) -> (step: BridgeStep)
        requires
            old(self).phase == SdkPhase::Waiting,
        ensures
            came_to(final(self)@, step, sdk_cancelled(old(self)@)),
    {
        let session_id = self.session_id;
        self.end(true, SessionEvent::Result { session_id, stop_reason: StopReason::Interrupted })
    }
}

// ---------------------------------------------------------------------------
// Laws
// ---------------------------------------------------------------------------

/// A result reaches the tool call that the bridge has asked for, once.
pub proof fn results_reach_the_call_that_asked(
    turn: SdkView,
    v: JsonView,
    fresh: u128,
    output: Seq<char>,
    is_error: bool,
)
    requires
        json::text_field(v, "type"@) == Some("tool_request"@),
    ensures
        ({
            let asked = sdk_heard(turn, v, fresh).turn;
            let answered = sdk_tool_done(asked, ToolCallId(fresh), output, is_error);
            &&& answered.action == BridgeActionView::Send(
                bridge::result_json(bridge::bridge_id(v), output, is_error),
            )
            &&& sdk_tool_done(answered.turn, ToolCallId(fresh), output, is_error).action
                == BridgeActionView::Wait
        }),
{
}

/// Whether a step has ended the turn exactly when nothing is left to do, with a result or an
/// error unless it has failed.
pub open spec fn well_ended(o: SdkOutcome) -> bool {
    &&& (o.turn.phase == SdkPhase::Ended) == (o.action is Finished || o.action is Fail)
    &&& o.action is Finished ==> o.events.len() > 0 && (o.events.last() is Result
        || o.events.last() is Error)
    &&& !(o.action is Finished) ==> forall|i: int|
        0 <= i < o.events.len() ==> !(#[trigger] o.events[i] is Result) && !(o.events[i] is Error)
}

/// Each step of a turn either goes on without a result or an error, or ends the turn.
pub proof fn a_turn_with_the_sdk_ends_once(
    turn: SdkView,
    outcome: SendView,
    v: JsonView,
    fresh: u128,
    call: ToolCallId,
    output: Seq<char>,
    is_error: bool,
)
    ensures
        well_ended(sdk_sent(turn, outcome)),
        well_ended(sdk_heard(turn, v, fresh)),
        well_ended(sdk_tool_done(turn, call, output, is_error)),
        well_ended(sdk_exited(turn, output)),
        well_ended(sdk_idle(turn)),
        well_ended(sdk_cancelled(turn)),
{
}

// ---------------------------------------------------------------------------
// What is said to the bridge, and what it says
// ---------------------------------------------------------------------------

proof fn lemma_sdk_kinds()
    ensures
        "tool_request"@.len() == 12,
        "text_delta"@.len() == 10 && "text_delta"@[0] == 't',
        "usage"@.len() == 5 && "usage"@[0] == 'u',
        "compaction"@.len() == 10 && "compaction"@[0] == 'c',
        "context_checkpoint"@.len() == 18,
        "result"@.len() == 6,
        "error"@.len() == 5 && "error"@[0] == 'e',
{
    reveal_strlit("tool_request");
    reveal_strlit("text_delta");
    reveal_strlit("usage");
    reveal_strlit("compaction");
    reveal_strlit("context_checkpoint");
    reveal_strlit("result");
    reveal_strlit("error");
}

/// What the bridge says is told: a piece of text as it is, unless it is empty, an error, and
/// an end with its reason. Only an error or an end stops the turn.
pub proof fn what_the_bridge_says_is_told(turn: SdkView, v: JsonView, fresh: u128)
    ensures
        json::text_field(v, "type"@) == Some("text_delta"@) ==> {
            let next = sdk_heard(turn, v, fresh);
            &&& next.action is Wait
            &&& match json::text_field(v, "text"@) {
                Some(text) if text.len() > 0 => next.events == seq![
                    EventView::TextDelta { session_id: turn.session_id, text },
                ],
                _ => next.events.len() == 0,
            }
        },
        json::text_field(v, "type"@) == Some("result"@) ==> {
            let next = sdk_heard(turn, v, fresh);
            &&& next.action is Finished
            &&& !next.cancel
            &&& next.events == seq![
                EventView::Result {
                    session_id: turn.session_id,
                    stop_reason: if json::text_field(v, "stop_reason"@) == Some("cancelled"@) {
                        StopReason::Interrupted
                    } else {
                        StopReason::EndTurn
                    },
                },
            ]
        },
        json::text_field(v, "type"@) == Some("error"@) ==> {
            let next = sdk_heard(turn, v, fresh);
            &&& next.action is Finished
            &&& next.events.len() == 1
            &&& next.events[0] matches EventView::Error { session_id, message } && session_id
                == turn.session_id && (json::text_field(v, "message"@) matches Some(m) ==> message
                == m)
        },
        json::text_field(v, "type"@) == Some("context_checkpoint"@) ==> {
            let next = sdk_heard(turn, v, fresh);
            &&& next.action is Wait
            &&& next.events.len() == 1
            &&& next.events[0] matches EventView::ContextCheckpoint {
                session_id,
                provider_id,
                model,
                payload,
                ..
            } && session_id == turn.session_id && provider_id == "copilot"@ && (json::text_field(
                v,
                "model"@,
            ) matches Some(m) ==> model == m) && (json::field(v, "payload"@) matches Some(p)
                ==> payload == p)
        },
        json::text_field(v, "type"@) == Some("compaction"@) ==> {
            let next = sdk_heard(turn, v, fresh);
            &&& next.action is Wait
            &&& next.events.len() == 1
            &&& next.events[0] matches EventView::ContextCompaction {
                provider_id,
                phase,
                pre_tokens,
                post_tokens,
                summary,
                ..
            } && provider_id == "copilot"@ && (json::text_field(v, "phase"@) matches Some(p)
                ==> phase == p) && pre_tokens == bridge::count_field(v, "pre_tokens"@)
                && post_tokens == bridge::count_field(v, "post_tokens"@) && summary
                == json::text_field(v, "summary"@)
        },
        json::text_field(v, "type"@) == Some("tool_request"@) ==> {
            let next = sdk_heard(turn, v, fresh);
            &&& next.action is Wait
            &&& next.turn.pending_tools.dom().contains(fresh)
            &&& json::text_field(v, "id"@) matches Some(id) ==> next.turn.pending_tools[fresh] == id
            &&& next.events.len() == 1
            &&& next.events[0] matches EventView::ToolCallRequested {
                session_id,
                tool_call_id,
                name,
                input_json,
            } && session_id == turn.session_id && tool_call_id == ToolCallId(fresh) && (
            json::text_field(v, "name"@) matches Some(n) ==> name == n) && (json::field(
                v,
                "input"@,
            ) matches Some(i) ==> input_json == i)
        },
{
    lemma_sdk_kinds();
}

/// What came of a tool call is sent under the name that the bridge has for the call, with
/// the output as it is and whether it failed; nothing is sent for a call that does not wait.
pub proof fn results_are_sent_as_they_came(
    turn: SdkView,
    call: ToolCallId,
    output: Seq<char>,
    is_error: bool,
)
    ensures
        turn.pending_tools.dom().contains(call.0) ==> {
            let action = sdk_tool_done(turn, call, output, is_error).action;
            &&& action is Send
            &&& json::text_field(action->Send_0, "type"@) == Some("tool_result"@)
            &&& json::text_field(action->Send_0, "id"@) == Some(turn.pending_tools[call.0])
            &&& json::text_field(action->Send_0, "output"@) == Some(output)
            &&& json::bool_field(action->Send_0, "is_error"@) == Some(is_error)
        },
        !turn.pending_tools.dom().contains(call.0) ==> sdk_tool_done(
            turn,
            call,
            output,
            is_error,
        ).action is Wait,
{
    reveal_strlit("type");
    reveal_strlit("id");
    reveal_strlit("output");
    reveal_strlit("is_error");
    assert("type"@.len() == 4 && "id"@.len() == 2 && "output"@.len() == 6 && "is_error"@.len()
        == 8);
}

/// A turn starts with a message that holds what was asked.
pub proof fn a_request_holds_what_was_asked(
    req: RequestView,
    cwd: Seq<char>,
    token: Seq<char>,
    encoded: EncodedView,
)
    ensures
        ({
            let v = request_json(req, cwd, token, encoded);
            &&& json::text_field(v, "prompt"@) == Some(req.prompt)
            &&& json::text_field(v, "cwd"@) == Some(cwd)
            &&& json::text_field(v, "github_token"@) == Some(token)
            &&& json::text_field(v, "model"@) == Some(copilot_request::model_of(req.model))
            &&& json::text_field(v, "checkpoint_model"@) == Some(req.model)
            &&& json::text_field(v, "system_prompt"@) == req.system_prompt
            &&& json::field(v, "session_id"@) == Some(encoded.session_id)
            &&& json::field(v, "messages"@) == Some(encoded.messages)
            &&& json::field(v, "images"@) == Some(encoded.images)
            &&& json::field(v, "context_checkpoint"@) == Some(encoded.context_checkpoint)
        }),
{
    reveal_strlit("session_id");
    reveal_strlit("cwd");
    reveal_strlit("github_token");
    reveal_strlit("model");
    reveal_strlit("checkpoint_model");
    reveal_strlit("prompt");
    reveal_strlit("system_prompt");
    reveal_strlit("messages");
    reveal_strlit("images");
    reveal_strlit("context_checkpoint");
    reveal_strlit("tool_definitions");
    assert("session_id"@.len() == 10 && "cwd"@.len() == 3 && "github_token"@.len() == 12
        && "model"@.len() == 5 && "checkpoint_model"@.len() == 16 && "prompt"@.len() == 6
        && "system_prompt"@.len() == 13 && "messages"@.len() == 8 && "images"@.len() == 6
        && "context_checkpoint"@.len() == 18 && "tool_definitions"@.len() == 16);
    assert("prompt"@[0] != "images"@[0]);
    assert("checkpoint_model"@[0] != "tool_definitions"@[0]);
}

/// A turn that is cancelled, or whose bridge is silent for too long, cancels the bridge; a
/// bridge that cannot be written to, or that says what is no JSON, fails the turn.
pub proof fn the_bridge_is_cancelled_when_the_turn_gives_up(
    turn: SdkView,
    error: Seq<char>,
    fresh: u128,
)
    ensures
        sdk_cancelled(turn).cancel && sdk_cancelled(turn).events == seq![
            EventView::Result {
                session_id: turn.session_id,
                stop_reason: StopReason::Interrupted,
            },
        ],
        sdk_idle(turn).cancel && sdk_idle(turn).events.last() is Error,
        !sdk_exited(turn, error).cancel && sdk_exited(turn, error).events.last() is Error,
        sdk_sent(turn, SendView::Failed(error)).action == BridgeActionView::Fail(error),
        sdk_sent(turn, SendView::NotStarted(error)).action == BridgeActionView::Fail(error),
        sdk_sent(turn, SendView::TimedOut).action is Fail,
        sdk_sent(turn, SendView::Sent).action is Wait,
        sdk_line(turn, Err(error), fresh).action == BridgeActionView::Fail(error),
{
}

/// The bridge is the one that the environment names, or else the program's own script.
pub proof fn the_bridge_is_the_one_that_is_named(line: Seq<char>, dir: Seq<char>)
    ensures
        text::words(line).len() > 0 ==> bridge_command(Some(line), dir) == bridge::command_of(
            line,
        ),
        text::words(line).len() == 0 ==> bridge_command(Some(line), dir) == bridge_command(
            None,
            dir,
        ),
        bridge_command(None, dir) == bridge::script_command(dir, "js/copilot_sdk_bridge.mjs"@),
{
}

/// A turn begins with its request and with no tool open, and says so.
pub proof fn a_turn_begins_with_its_request(
    session_id: SessionId,
    idle_secs: u64,
    request: JsonView,
)
    ensures
        ({
            let begun = sdk_begun(session_id, idle_secs, request);
            &&& begun.action == BridgeActionView::Start(request)
            &&& begun.events == seq![
                EventView::Status { session_id, status: SessionStatus::Starting },
            ]
            &&& !begun.cancel
            &&& begun.turn.session_id == session_id && begun.turn.idle_secs == idle_secs
            &&& begun.turn.pending_tools.dom() =~= Set::empty()
            &&& begun.turn.results_open
        }),
{
}

} // verus!
