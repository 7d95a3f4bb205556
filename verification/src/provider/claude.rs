//! The provider that runs an agent SDK behind a bridge.
use vstd::prelude::*;

use crate::json;
use crate::json::{Json, JsonView};
use crate::provider::bridge;
use crate::provider::bridge::{
    BridgeAction, BridgeActionView, BridgeCommand, BridgeStep, CallIds, CommandView, PendingIds,
    SendOutcome, SendView,
};
use crate::provider::common::ProviderToolResponse;
use crate::provider::models;
use crate::provider::models::{ModelInfo, ModelView};
use crate::runtime::events;
use crate::runtime::events::{EventView, SessionEvent};
use crate::runtime::prompt::{RequestView, TurnRequest};
use crate::runtime::types::{
    PermissionDecision, PermissionRequestId, SessionId, SessionStatus, StopReason, ToolCallId,
};
use crate::text;

verus! {

// ---------------------------------------------------------------------------
// The provider
// ---------------------------------------------------------------------------

/// How the bridge is run.
#[derive(Debug)]
pub struct ClaudeProvider {
    pub command: BridgeCommand,
    pub cwd: String,
}

/// The command that runs the bridge: what the environment says, or the script of the
/// installation.
pub open spec fn bridge_command(env: Option<Seq<char>>, dir: Seq<char>) -> CommandView {
    match env {
        Some(line) => bridge::command_of(line),
        None => bridge::script_command(dir, "js/claude_agent_sdk_bridge.mjs"@),
    }
}

impl ClaudeProvider {
    /// The provider that works in a directory. The command is what the environment says,
    /// or the script in the directory of the installation.
    pub fn with_cwd(cwd: String, env: Option<&str>, dir: &str) -> (r: ClaudeProvider)
        ensures
            r.cwd@ == cwd@,
            r.command@ == bridge_command(
                match env {
                    Some(e) => Some(e@),
                    None => None,
                },
                dir@,
            ),
    {
        let command = match env {
            Some(line) => bridge::parse_command_line(line),
            None => bridge::command_for_script(dir, "js/claude_agent_sdk_bridge.mjs"),
        };
        ClaudeProvider { command, cwd }
    }

    /// The provider with a command of its own.
    pub fn with_command(command: &str, args: Vec<String>, cwd: String) -> (r: ClaudeProvider)
        ensures
            r.cwd@ == cwd@,
            r.command@ == (CommandView { command: command@, args: text::views(args@) }),
    {
        ClaudeProvider { command: BridgeCommand { command: command.to_string(), args }, cwd }
    }

    pub fn id(&self) -> (r: String)
        ensures
            r@ == models::vendor(),
    {
        models::vendor_name()
    }
}

/// The model that is asked for under a name, which may be an older one.
pub open spec fn model_of(name: Seq<char>) -> Seq<char> {
    let m = text::trimmed(name);
    let full = |rest: Seq<char>| m == models::vendor() + rest;
    if m == ""@ || full("-sonnet-4"@) || full("-sonnet-4-20250514"@) || full("-sonnet-4.6"@) {
        "sonnet"@
    } else if full("-fable-5"@) || m == "fable-5"@ {
        "fable"@
    } else if full("-opus-4"@) || full("-opus-4-20250514"@) || full("-opus-4.8"@) {
        "opus"@
    } else if full("-haiku-3.5"@) || full("-3-5-haiku"@) || full("-3-5-haiku-latest"@) || full(
        "-haiku-4.5"@,
    ) {
        "haiku"@
    } else {
        m
    }
}

/// Whether a text is the vendor's name with `rest` behind it.
fn is_full(s: &str, rest: &str) -> (r: bool)
    ensures
        r == (s@ == models::vendor() + rest@),
{
    text::same(s, text::cat2(models::vendor_name().as_str(), rest).as_str())
}

/// The model that is asked for under a name.
pub fn normalize_claude_model(model: &str) -> (r: String)
    ensures
        r@ == model_of(model@),
{
    let m = text::trim(model);
    let s = m.as_str();
    if text::same(s, "") || is_full(s, "-sonnet-4") || is_full(s, "-sonnet-4-20250514") || is_full(
        s,
        "-sonnet-4.6",
    ) {
        "sonnet".to_string()
    } else if is_full(s, "-fable-5") || text::same(s, "fable-5") {
        "fable".to_string()
    } else if is_full(s, "-opus-4") || is_full(s, "-opus-4-20250514") || is_full(s, "-opus-4.8") {
        "opus".to_string()
    } else if is_full(s, "-haiku-3.5") || is_full(s, "-3-5-haiku") || is_full(
        s,
        "-3-5-haiku-latest",
    ) || is_full(s, "-haiku-4.5") {
        "haiku".to_string()
    } else {
        m
    }
}

/// The models that are always offered.
pub open spec fn own_models() -> Seq<ModelView> {
    seq![
        models::named_model("sonnet"@, models::brand() + " Sonnet"@),
        models::named_model("fable"@, "Fable"@),
        models::named_model("opus"@, "Opus (1M context)"@),
        models::named_model("haiku"@, "Haiku"@),
    ]
}

/// The models that are offered, with those that the environment names.
pub open spec fn catalog(env: Option<Seq<char>>) -> Seq<ModelView> {
    models::extended(
        own_models(),
        models::ids_of(env).map_values(|id: Seq<char>| model_of(id)),
    )
}

/// The models that are offered, with those that the environment names.
pub fn claude_model_catalog(env: Option<&str>) -> (r: Vec<ModelInfo>)
    ensures
        models::model_views(r@) == catalog(
            match env {
                Some(e) => Some(e@),
                None => None,
            },
        ),
{
    let mut r: Vec<ModelInfo> = Vec::new();
    let sonnet = text::cat2(models::brand_name().as_str(), " Sonnet");
    r.push(ModelInfo::named("sonnet", sonnet.as_str()));
    r.push(ModelInfo::named("fable", "Fable"));
    r.push(ModelInfo::named("opus", "Opus (1M context)"));
    r.push(ModelInfo::named("haiku", "Haiku"));
    assert(models::model_views(r@) =~= own_models());
    let named = models::read_ids_of(env);
    let ghost all = text::views(named@).map_values(|id: Seq<char>| model_of(id));
    let mut ids: Vec<String> = Vec::new();
    let mut i: usize = 0;
    while i < named.len()
        invariant
            i <= named@.len(),
            ids@.len() == i,
            all == text::views(named@).map_values(|id: Seq<char>| model_of(id)),
            forall|k: int| 0 <= k < i ==> (#[trigger] ids@[k])@ == all[k],
        decreases named@.len() - i,
    {
        ids.push(normalize_claude_model(named[i].as_str()));
        i += 1;
    }
    assert(text::views(ids@) =~= all);
    models::extend_models(&mut r, &ids);
    r
}

// ---------------------------------------------------------------------------
// Authorization
// ---------------------------------------------------------------------------

/// Whether the SDK has a usable login.
#[derive(Debug)]
pub struct AuthCheck {
    pub ok: bool,
    pub error: Option<String>,
}

/// The content of an `AuthCheck`.
pub struct AuthCheckView {
    pub ok: bool,
    pub error: Option<Seq<char>>,
}

impl View for AuthCheck {
    type V = AuthCheckView;

    open spec fn view(&self) -> AuthCheckView {
        AuthCheckView { ok: self.ok, error: text::opt(self.error) }
    }
}

/// The message that asks a bridge whether there is a usable login.
pub fn auth_request(cwd: &str) -> (r: Json)
    ensures
        r@ == json::empty_object().with("mode"@, JsonView::Text("check_auth"@)).with(
            "cwd"@,
            JsonView::Text(cwd@),
        ),
{
    Json::object().with("mode", Json::text("check_auth")).with("cwd", Json::text(cwd))
}

/// What a message of the bridge says about the login, if it does.
pub open spec fn auth_told(v: JsonView) -> Option<AuthCheckView> {
    match json::text_field(v, "type"@) {
        Some(kind) => if kind == "auth_check"@ {
            Some(
                AuthCheckView {
                    ok: json::bool_field(v, "ok"@) == Some(true),
                    error: json::text_field(v, "error"@),
                },
            )
        } else if kind == "error"@ {
            Some(AuthCheckView { ok: false, error: json::text_field(v, "message"@) })
        } else {
            None
        },
        None => None,
    }
}

/// What a message of the bridge says about the login, if it does.
pub fn check_auth(value: &Json) -> (r: Option<AuthCheck>)
    ensures
        match r {
            Some(c) => auth_told(value@) == Some(c@),
            None => auth_told(value@) is None,
        },
{
    match value.get_str("type") {
        Some(kind) => if text::same(kind, "auth_check") {
            let ok = match value.get_bool("ok") {
                Some(b) => b,
                None => false,
            };
            Some(AuthCheck { ok, error: value.get_string("error") })
        } else if text::same(kind, "error") {
            Some(AuthCheck { ok: false, error: value.get_string("message") })
        } else {
            None
        },
        None => None,
    }
}

/// What a line of the bridge says about the login, if it does. A line must be JSON.
pub fn check_auth_line(line: &str) -> (r: Result<Option<AuthCheck>, String>)
    ensures
        match (r, json::json_parse(line@)) {
            (Ok(Some(c)), Ok(v)) => auth_told(v) == Some(c@),
            (Ok(None), Ok(v)) => auth_told(v) is None,
            (Err(e), Err(cause)) => e@ == cause,
            _ => false,
        },
{
    match json::parse(line) {
        Ok(v) => Ok(check_auth(&v)),
        Err(e) => Err(e),
    }
}

/// The bridge has ended without a word about the login.
pub fn auth_unknown(diagnostics: &str) -> (r: AuthCheck)
    ensures
        r@ == (AuthCheckView {
            ok: false,
            error: Some(
                models::brand() + " Agent SDK bridge exited before reporting auth status"@
                    + diagnostics@,
            ),
        }),
{
    AuthCheck {
        ok: false,
        error: Some(
            text::cat3(
                models::brand_name().as_str(),
                " Agent SDK bridge exited before reporting auth status",
                diagnostics,
            ),
        ),
    }
}

// ---------------------------------------------------------------------------
// Requests
// ---------------------------------------------------------------------------

/// The approval policy that goes with a request.
pub open spec fn policy_of(metadata: JsonView) -> Seq<char> {
    match json::text_field(metadata, "approval_policy"@) {
        Some(p) => p,
        None => "never"@,
    }
}

/// The message with which a turn starts, given how its messages and pictures are written
/// in JSON.
pub open spec fn request_json(
    req: RequestView,
    cwd: Seq<char>,
    messages: JsonView,
    images: JsonView,
) -> JsonView {
    json::empty_object()
        .with("prompt"@, JsonView::Text(req.prompt))
        .with("cwd"@, JsonView::Text(cwd))
        .with("model"@, JsonView::Text(model_of(req.model)))
        .with("messages"@, messages)
        .with("images"@, images)
        .with("system_prompt"@, json::text_or_null(req.system_prompt))
        .with("approval_policy"@, JsonView::Text(policy_of(req.metadata)))
        .with("tool_definitions"@, bridge::definitions_json(req.tool_names))
}

/// The message with which a turn starts.
pub fn bridge_request(req: &TurnRequest, cwd: &str, messages: Json, images: Json) -> (r: Json)
    ensures
        r@ == request_json(req@, cwd@, messages@, images@),
{
    let policy = match req.metadata.get_str("approval_policy") {
        Some(p) => p,
        None => "never",
    };
    let model = normalize_claude_model(req.model.as_str());
    Json::object()
        .with("prompt", Json::text(req.prompt.as_str()))
        .with("cwd", Json::text(cwd))
        .with("model", Json::text(model.as_str()))
        .with("messages", messages)
        .with("images", images)
        .with("system_prompt", json::optional_text(&req.system_prompt))
        .with("approval_policy", Json::text(policy))
        .with("tool_definitions", bridge::tool_definitions_json(&req.tool_names))
}

// ---------------------------------------------------------------------------
// Messages of the bridge
// ---------------------------------------------------------------------------

pub open spec fn stop_reason_of(value: Seq<char>) -> StopReason {
    if value == "cancelled"@ {
        StopReason::Interrupted
    } else if value == "error"@ || value == "refusal"@ {
        StopReason::Error
    } else {
        StopReason::EndTurn
    }
}

/// The event that a message of the bridge stands for, if it does.
pub open spec fn bridge_event(session_id: SessionId, v: JsonView) -> Option<EventView> {
    match json::text_field(v, "type"@) {
        Some(kind) => if kind == "text_delta"@ {
            match json::text_field(v, "text"@) {
                Some(t) => if t.len() > 0 {
                    Some(EventView::TextDelta { session_id, text: t })
                } else {
                    None
                },
                None => None,
            }
        } else if kind == "result"@ {
            Some(
                EventView::Result {
                    session_id,
                    stop_reason: match json::text_field(v, "stop_reason"@) {
                        Some(r) => stop_reason_of(r),
                        None => StopReason::EndTurn,
                    },
                },
            )
        } else if kind == "error"@ {
            Some(
                EventView::Error {
                    session_id,
                    message: match json::text_field(v, "message"@) {
                        Some(m) => m,
                        None => models::brand() + " Agent SDK bridge failed"@,
                    },
                },
            )
        } else if kind == "usage"@ {
            Some(bridge::usage_told(session_id, v))
        } else {
            None
        },
        None => None,
    }
}

fn sdk_stop_reason(value: &str) -> (r: StopReason)
    ensures
        r == stop_reason_of(value@),
{
    if text::same(value, "cancelled") {
        StopReason::Interrupted
    } else if text::same(value, "error") || text::same(value, "refusal") {
        StopReason::Error
    } else {
        StopReason::EndTurn
    }
}

/// The event that a message of the bridge stands for, if it does.
pub fn bridge_event_to_session_event(session_id: SessionId, value: &Json) -> (r: Option<
    SessionEvent,
>)
    ensures
        match r {
            Some(e) => bridge_event(session_id, value@) == Some(e@),
            None => bridge_event(session_id, value@) is None,
        },
{
    let kind = match value.get_str("type") {
        Some(k) => k,
        None => {
            return None;
        },
    };
    if text::same(kind, "text_delta") {
        match value.get_string("text") {
            Some(t) => if text::is_blank_len(&t) {
                None
            } else {
                Some(SessionEvent::TextDelta { session_id, text: t })
            },
            None => None,
        }
    } else if text::same(kind, "result") {
        let stop_reason = match value.get_str("stop_reason") {
            Some(r) => sdk_stop_reason(r),
            None => StopReason::EndTurn,
        };
        Some(SessionEvent::Result { session_id, stop_reason })
    } else if text::same(kind, "error") {
        let failed = text::cat2(models::brand_name().as_str(), " Agent SDK bridge failed");
        let message = bridge::string_or(value.get_string("message"), failed.as_str());
        Some(SessionEvent::Error { session_id, message })
    } else if text::same(kind, "usage") {
        Some(bridge::usage_event(session_id, value))
    } else {
        None
    }
}

/// The event that a tool's result stands for, if it is the result of a call that was told.
pub open spec fn tool_result_event(
    session_id: SessionId,
    v: JsonView,
    ids: Map<Seq<char>, u128>,
) -> Option<EventView> {
    let output = match json::text_field(v, "output"@) {
        Some(o) => o,
        None => ""@,
    };
    match bridge::id_of(ids, bridge::bridge_id(v)) {
        Some(id) => if json::bool_field(v, "is_error"@) == Some(true) {
            Some(
                EventView::ToolCallError {
                    session_id,
                    tool_call_id: ToolCallId(id),
                    message: output,
                },
            )
        } else {
            Some(
                EventView::ToolCallResult {
                    session_id,
                    tool_call_id: ToolCallId(id),
                    title: None,
                    metadata: JsonView::Null,
                    output,
                    exit_code: None,
                },
            )
        },
        None => None,
    }
}

/// The event that a tool's result stands for, if it is the result of a call that was told;
/// the call is then forgotten.
pub fn bridge_tool_result_to_session_event(
    session_id: SessionId,
    value: &Json,
    tool_ids: &mut CallIds,
) -> (r: Option<SessionEvent>)
    ensures
        json::text_field(value@, "type"@) == Some("tool_result"@) ==> (match r {
            Some(e) => tool_result_event(session_id, value@, old(tool_ids)@) == Some(e@),
            None => tool_result_event(session_id, value@, old(tool_ids)@) is None,
        }) && final(tool_ids)@ == old(tool_ids)@.remove(bridge::bridge_id(value@)),
        json::text_field(value@, "type"@) != Some("tool_result"@) ==> r is None
            && final(tool_ids)@ == old(tool_ids)@,
{
    match value.get_str("type") {
        Some(k) => if !text::same(k, "tool_result") {
            return None;
        },
        None => {
            return None;
        },
    }
    let id = bridge::read_bridge_id(value);
    let output = bridge::string_or(value.get_string("output"), "");
    let tool_call_id = match tool_ids.remove(id.as_str()) {
        Some(x) => ToolCallId(x),
        None => {
            return None;
        },
    };
    let failed = match value.get_bool("is_error") {
        Some(b) => b,
        None => false,
    };
    if failed {
        Some(SessionEvent::ToolCallError { session_id, tool_call_id, message: output })
    } else {
        Some(
            SessionEvent::ToolCallResult {
                session_id,
                tool_call_id,
                title: None,
                metadata: Json::Null,
                output,
                exit_code: None,
            },
        )
    }
}

// ---------------------------------------------------------------------------
// Turns
// ---------------------------------------------------------------------------

/// How far a turn has got.
#[derive(Debug, Clone, Copy, PartialEq, Eq, Structural)]
pub enum ClaudePhase {
    /// The bridge is being started and the request sent.
    Starting,
    /// A message of the bridge, or something else, is awaited.
    Waiting,
    /// The user's decision is being sent.
    SendingDecision,
    /// A tool's result is being sent.
    SendingResult,
    Ended,
}

/// A turn with the bridge.
#[derive(Debug)]
pub struct ClaudeTurn {
    pub session_id: SessionId,
    /// How long the bridge may be silent, in seconds.
    pub idle_secs: u64,
    /// The questions that the bridge waits for, by the ids of the user's answers.
    pub pending: PendingIds,
    /// The tool calls that the bridge waits for.
    pub pending_tools: PendingIds,
    /// The tool calls that the bridge runs by itself.
    pub tool_ids: CallIds,
    /// Whether there may be further decisions.
    pub permissions_open: bool,
    /// Whether there may be further results of tools.
    pub results_open: bool,
    pub phase: ClaudePhase,
}

/// The content of a `ClaudeTurn`.
pub struct ClaudeView {
    pub session_id: SessionId,
    pub idle_secs: u64,
    pub pending: Map<u128, Seq<char>>,
    pub pending_tools: Map<u128, Seq<char>>,
    pub tool_ids: Map<Seq<char>, u128>,
    pub permissions_open: bool,
    pub results_open: bool,
    pub phase: ClaudePhase,
}

impl View for ClaudeTurn {
    type V = ClaudeView;

    open spec fn view(&self) -> ClaudeView {
        ClaudeView {
            session_id: self.session_id,
            idle_secs: self.idle_secs,
            pending: self.pending@,
            pending_tools: self.pending_tools@,
            tool_ids: self.tool_ids@,
            permissions_open: self.permissions_open,
            results_open: self.results_open,
            phase: self.phase,
        }
    }
}

/// What a step leads to.
pub struct ClaudeOutcome {
    pub turn: ClaudeView,
    pub cancel: bool,
    pub events: Seq<EventView>,
    pub action: BridgeActionView,
}

/// Whether a step has led to an outcome.
pub open spec fn came_to(turn: ClaudeView, step: BridgeStep, outcome: ClaudeOutcome) -> bool {
    &&& turn == outcome.turn
    &&& step.cancel == outcome.cancel
    &&& events::event_views(step.events@) == outcome.events
    &&& step.action@ == outcome.action
}

/// The turn goes on waiting.
pub open spec fn waits(turn: ClaudeView, told: Seq<EventView>) -> ClaudeOutcome {
    ClaudeOutcome {
        turn: ClaudeView { phase: ClaudePhase::Waiting, ..turn },
        cancel: false,
        events: told,
        action: BridgeActionView::Wait,
    }
}

/// The turn ends with an event.
pub open spec fn ends(turn: ClaudeView, cancel: bool, event: EventView) -> ClaudeOutcome {
    ClaudeOutcome {
        turn: ClaudeView { phase: ClaudePhase::Ended, ..turn },
        cancel,
        events: seq![event],
        action: BridgeActionView::Finished,
    }
}

/// The turn ends with an error of its own.
pub open spec fn fails(turn: ClaudeView, error: Seq<char>) -> ClaudeOutcome {
    ClaudeOutcome {
        turn: ClaudeView { phase: ClaudePhase::Ended, ..turn },
        cancel: false,
        events: seq![],
        action: BridgeActionView::Fail(error),
    }
}

/// The session is told an error.
pub open spec fn error_event(turn: ClaudeView, message: Seq<char>) -> EventView {
    EventView::Error { session_id: turn.session_id, message }
}

/// The turn begins with a request.
pub open spec fn claude_begun(session_id: SessionId, idle_secs: u64, request: JsonView)
    -> ClaudeOutcome {
    ClaudeOutcome {
        turn: ClaudeView {
            session_id,
            idle_secs,
            pending: Map::empty(),
            pending_tools: Map::empty(),
            tool_ids: Map::empty(),
            permissions_open: true,
            results_open: true,
            phase: ClaudePhase::Starting,
        },
        cancel: false,
        events: seq![EventView::Status { session_id, status: SessionStatus::Starting }],
        action: BridgeActionView::Start(request),
    }
}

/// What is told when a message could not be written in time.
pub open spec fn send_timeout(turn: ClaudeView) -> Seq<char> {
    let secs = text::decimal(turn.idle_secs as nat);
    match turn.phase {
        ClaudePhase::SendingDecision => "timed out after "@ + secs
            + " seconds writing to "@ + models::brand()
            + " Agent SDK bridge: permission_decision"@,
        ClaudePhase::SendingResult => "timed out after "@ + secs
            + " seconds writing to "@ + models::brand() + " Agent SDK bridge: tool_result"@,
        _ => "timed out after "@ + secs
            + " seconds writing initial request to "@ + models::brand() + " Agent SDK bridge"@,
    }
}

/// A message has been sent, or has not.
pub open spec fn claude_sent(turn: ClaudeView, outcome: SendView) -> ClaudeOutcome {
    match outcome {
        SendView::NotStarted(e) => fails(turn, e),
        SendView::Failed(e) => ends(turn, true, error_event(turn, e)),
        SendView::TimedOut => ends(turn, true, error_event(turn, send_timeout(turn))),
        SendView::Sent => if turn.phase == ClaudePhase::SendingResult {
            waits(turn, seq![])
        } else {
            waits(
                turn,
                seq![
                    EventView::Status {
                        session_id: turn.session_id,
                        status: SessionStatus::Streaming,
                    },
                ],
            )
        },
    }
}

/// Why the bridge asks the user.
pub open spec fn told_reason(v: JsonView) -> Seq<char> {
    let told = match json::field(v, "title"@) {
        Some(t) => json::as_text(t),
        None => json::text_field(v, "description"@),
    };
    match told {
        Some(r) => r,
        None => models::brand() + " wants to use "@ + bridge::told_name(v, "tool_name"@),
    }
}

/// A message of the bridge has come. The id is new.
pub open spec fn claude_heard(turn: ClaudeView, v: JsonView, fresh: u128) -> ClaudeOutcome {
    let session_id = turn.session_id;
    let kind = json::text_field(v, "type"@);
    let input_json = json::field_or_null(v, "input"@);
    if kind == Some("permission_request"@) {
        waits(
            ClaudeView { pending: turn.pending.insert(fresh, bridge::bridge_id(v)), ..turn },
            seq![
                EventView::Status { session_id, status: SessionStatus::WaitingForPermission },
                EventView::PermissionRequest {
                    session_id,
                    request_id: PermissionRequestId(fresh),
                    reason: told_reason(v),
                    tool_name: bridge::told_name(v, "tool_name"@),
                    input_json,
                },
            ],
        )
    } else if kind == Some("tool_request"@) {
        waits(
            ClaudeView { pending_tools: turn.pending_tools.insert(fresh, bridge::bridge_id(v)), ..turn },
            seq![
                EventView::ToolCallRequested {
                    session_id,
                    tool_call_id: ToolCallId(fresh),
                    name: bridge::told_name(v, "name"@),
                    input_json,
                },
            ],
        )
    } else if kind == Some("tool_use"@) {
        let name = bridge::told_name(v, "name"@);
        let tool_call_id = ToolCallId(fresh);
        waits(
            ClaudeView { tool_ids: turn.tool_ids.insert(bridge::bridge_id(v), fresh), ..turn },
            seq![
                EventView::ToolInputStart { session_id, tool_call_id, name },
                EventView::ToolInputEnd { session_id, tool_call_id, input_json },
                EventView::ToolCallStart { session_id, tool_call_id, name, input_json },
            ],
        )
    } else if kind == Some("tool_result"@) {
        waits(
            ClaudeView { tool_ids: turn.tool_ids.remove(bridge::bridge_id(v)), ..turn },
            match tool_result_event(session_id, v, turn.tool_ids) {
                Some(e) => seq![e],
                None => seq![],
            },
        )
    } else {
        match bridge_event(session_id, v) {
            Some(e) => if e is Result || e is Error {
                ends(turn, false, e)
            } else {
                waits(turn, seq![e])
            },
            None => waits(turn, seq![]),
        }
    }
}

/// A line of the bridge has come, given how it reads as JSON.
pub open spec fn claude_line(
    turn: ClaudeView,
    read: Result<JsonView, Seq<char>>,
    fresh: u128,
) -> ClaudeOutcome {
    match read {
        Ok(v) => claude_heard(turn, v, fresh),
        Err(e) => fails(turn, e),
    }
}

/// The bridge has ended.
pub open spec fn claude_exited(turn: ClaudeView, diagnostics: Seq<char>) -> ClaudeOutcome {
    ends(
        turn,
        false,
        error_event(
            turn,
            models::brand() + " Agent SDK bridge exited before returning a result"@ + diagnostics,
        ),
    )
}

pub open spec fn decision_text(decision: PermissionDecision) -> Seq<char> {
    match decision {
        PermissionDecision::Allow => "allow"@,
        PermissionDecision::AllowAlways => "allow_always"@,
        PermissionDecision::Deny => "deny"@,
    }
}

/// The message that tells the bridge the user's decision.
pub open spec fn decision_json(id: Seq<char>, decision: PermissionDecision, message: JsonView)
    -> JsonView {
    json::empty_object()
        .with("type"@, JsonView::Text("permission_decision"@))
        .with("id"@, JsonView::Text(id))
        .with("decision"@, JsonView::Text(decision_text(decision)))
        .with("message"@, message)
}

/// The user has decided.
pub open spec fn claude_decided(
    turn: ClaudeView,
    request: PermissionRequestId,
    decision: PermissionDecision,
    message: JsonView,
) -> ClaudeOutcome {
    let after = ClaudeView { pending: turn.pending.remove(request.0), ..turn };
    match bridge::name_of(turn.pending, request.0) {
        Some(id) => ClaudeOutcome {
            turn: ClaudeView { phase: ClaudePhase::SendingDecision, ..after },
            cancel: false,
            events: seq![],
            action: BridgeActionView::Send(decision_json(id, decision, message)),
        },
        None => waits(after, seq![]),
    }
}

/// A tool call has been carried out.
pub open spec fn claude_tool_done(
    turn: ClaudeView,
    call: ToolCallId,
    output: Seq<char>,
    is_error: bool,
) -> ClaudeOutcome {
    let after = ClaudeView { pending_tools: turn.pending_tools.remove(call.0), ..turn };
    match bridge::name_of(turn.pending_tools, call.0) {
        Some(id) => ClaudeOutcome {
            turn: ClaudeView { phase: ClaudePhase::SendingResult, ..after },
            cancel: false,
            events: seq![],
            action: BridgeActionView::Send(bridge::result_json(id, output, is_error)),
        },
        None => waits(after, seq![]),
    }
}

/// The bridge has been silent for too long.
pub open spec fn claude_idle(turn: ClaudeView) -> ClaudeOutcome {
    ends(
        turn,
        true,
        error_event(
            turn,
            models::brand() + " Agent SDK produced no events for "@ + text::decimal(
                turn.idle_secs as nat,
            )
                + " seconds; killed the stale run (pending permissions: "@ + text::decimal(
                turn.pending.len(),
            ) + ", pending tools: "@ + text::decimal(turn.pending_tools.len()) + ")"@,
        ),
    )
}

/// The turn has been cancelled.
pub open spec fn claude_cancelled(turn: ClaudeView) -> ClaudeOutcome {
    ends(
        turn,
        true,
        EventView::Result { session_id: turn.session_id, stop_reason: StopReason::Interrupted },
    )
}

impl ClaudeTurn {
    /// The turn begins with a request.
    pub fn begin(session_id: SessionId, idle_secs: u64, request: Json) -> (r: (
        ClaudeTurn,
        BridgeStep,
    ))
        ensures
            came_to(r.0@, r.1, claude_begun(session_id, idle_secs, request@)),
    {
        let turn = ClaudeTurn {
            session_id,
            idle_secs,
            pending: PendingIds::new(),
            pending_tools: PendingIds::new(),
            tool_ids: CallIds::new(),
            permissions_open: true,
            results_open: true,
            phase: ClaudePhase::Starting,
        };
        let events = bridge::one_event(
            SessionEvent::Status { session_id, status: SessionStatus::Starting },
        );
        (turn, BridgeStep { cancel: false, events, action: BridgeAction::Start(request) })
    }

    fn wait(&mut self, events: Vec<SessionEvent>) -> (step: BridgeStep)
        ensures
            came_to(final(self)@, step, waits(old(self)@, events::event_views(events@))),
    {
        self.phase = ClaudePhase::Waiting;
        BridgeStep { cancel: false, events, action: BridgeAction::Wait }
    }

    fn end(&mut self, cancel: bool, event: SessionEvent) -> (step: BridgeStep)
        ensures
            came_to(final(self)@, step, ends(old(self)@, cancel, event@)),
    {
        self.phase = ClaudePhase::Ended;
        BridgeStep { cancel, events: bridge::one_event(event), action: BridgeAction::Finished }
    }

    fn end_with_error(&mut self, cancel: bool, message: String) -> (step: BridgeStep)
        ensures
            came_to(
                final(self)@,
                step,
                ends(old(self)@, cancel, error_event(old(self)@, message@)),
            ),
    {
        let session_id = self.session_id;
        self.end(cancel, SessionEvent::Error { session_id, message })
    }

    fn fail(&mut self, error: String) -> (step: BridgeStep)
        ensures
            came_to(final(self)@, step, fails(old(self)@, error@)),
    {
        self.phase = ClaudePhase::Ended;
        BridgeStep { cancel: false, events: events::no_events(), action: BridgeAction::Fail(error) }
    }

    /// A message has been sent, or has not.
    pub fn sent(&mut self, outcome: SendOutcome) -> (step: BridgeStep)
        requires
            old(self).phase == ClaudePhase::Starting || old(self).phase
                == ClaudePhase::SendingDecision || old(self).phase == ClaudePhase::SendingResult,
            outcome is NotStarted ==> old(self).phase == ClaudePhase::Starting,
        ensures
            came_to(final(self)@, step, claude_sent(old(self)@, outcome@)),
    {
        match outcome {
            SendOutcome::NotStarted(e) => self.fail(e),
            SendOutcome::Failed(e) => self.end_with_error(true, e),
            SendOutcome::TimedOut => {
                let secs = text::decimal_text(self.idle_secs);
                let (verb, rest) = match self.phase {
                    ClaudePhase::SendingDecision => (
                        " seconds writing to ",
                        " Agent SDK bridge: permission_decision",
                    ),
                    ClaudePhase::SendingResult => (
                        " seconds writing to ",
                        " Agent SDK bridge: tool_result",
                    ),
                    _ => (" seconds writing initial request to ", " Agent SDK bridge"),
                };
                let brand = models::brand_name();
                let message = text::cat5(
                    "timed out after ",
                    secs.as_str(),
                    verb,
                    brand.as_str(),
                    rest,
                );
                self.end_with_error(true, message)
            },
            SendOutcome::Sent => {
                if self.phase == ClaudePhase::SendingResult {
                    self.wait(events::no_events())
                } else {
                    let session_id = self.session_id;
                    let told = bridge::one_event(
                        SessionEvent::Status { session_id, status: SessionStatus::Streaming },
                    );
                    self.wait(told)
                }
            },
        }
    }

    fn heard_permission_request(&mut self, value: &Json, fresh: u128) -> (step: BridgeStep)
        requires
            json::text_field(value@, "type"@) == Some("permission_request"@),
        ensures
            came_to(final(self)@, step, claude_heard(old(self)@, value@, fresh)),
    {
        let session_id = self.session_id;
        let tool_name = bridge::string_or(value.get_string("tool_name"), "tool");
        let told = match value.get("title") {
            Some(t) => match t.as_str() {
                Some(s) => Some(s.to_string()),
                None => None,
            },
            None => value.get_string("description"),
        };
        let reason = match told {
            Some(r) => r,
            None => text::cat3(
                models::brand_name().as_str(),
                " wants to use ",
                tool_name.as_str(),
            ),
        };
        self.pending.insert(fresh, bridge::read_bridge_id(value));
        let mut told = events::no_events();
        events::emit(
            &mut told,
            SessionEvent::Status { session_id, status: SessionStatus::WaitingForPermission },
        );
        events::emit(
            &mut told,
            SessionEvent::PermissionRequest {
                session_id,
                request_id: PermissionRequestId(fresh),
                reason,
                tool_name,
                input_json: value.get_or_null("input"),
            },
        );
        assert(events::event_views(told@) =~= claude_heard(
            old(self)@,
            value@,
            fresh,
        ).events);
        self.wait(told)
    }

    fn heard_tool_use(&mut self, value: &Json, fresh: u128) -> (step: BridgeStep)
        requires
            json::text_field(value@, "type"@) == Some("tool_use"@),
        ensures
            came_to(final(self)@, step, claude_heard(old(self)@, value@, fresh)),
    {
        proof {
            reveal_strlit("tool_use");
            reveal_strlit("permission_request");
            reveal_strlit("tool_request");
            assert("tool_use"@.len() < "tool_request"@.len());
            assert("tool_use"@.len() < "permission_request"@.len());
        }
        let session_id = self.session_id;
        let tool_call_id = ToolCallId(fresh);
        let name = bridge::string_or(value.get_string("name"), "tool");
        let id = bridge::read_bridge_id(value);
        self.tool_ids.insert(id.as_str(), fresh);
        let mut told = events::no_events();
        events::emit(
            &mut told,
            SessionEvent::ToolInputStart { session_id, tool_call_id, name: name.clone() },
        );
        events::emit(
            &mut told,
            SessionEvent::ToolInputEnd {
                session_id,
                tool_call_id,
                input_json: value.get_or_null("input"),
            },
        );
        events::emit(
            &mut told,
            SessionEvent::ToolCallStart {
                session_id,
                tool_call_id,
                name,
                input_json: value.get_or_null("input"),
            },
        );
        assert(events::event_views(told@) =~= claude_heard(
            old(self)@,
            value@,
            fresh,
        ).events);
        self.wait(told)
    }

    /// A message of the bridge has come. The id is new.
    pub fn heard(&mut self, value: &Json, fresh: u128) -> (step: BridgeStep)
        requires
            old(self).phase == ClaudePhase::Waiting,
        ensures
            came_to(final(self)@, step, claude_heard(old(self)@, value@, fresh)),
    {
        let session_id = self.session_id;
        let kind = match value.get_str("type") {
            Some(k) => k,
            None => {
                return self.wait(events::no_events());
            },
        };
        if text::same(kind, "permission_request") {
            self.heard_permission_request(value, fresh)
        } else if text::same(kind, "tool_request") {
            let name = bridge::string_or(value.get_string("name"), "tool");
            self.pending_tools.insert(fresh, bridge::read_bridge_id(value));
            let told = bridge::one_event(
                SessionEvent::ToolCallRequested {
                    session_id,
                    tool_call_id: ToolCallId(fresh),
                    name,
                    input_json: value.get_or_null("input"),
                },
            );
            self.wait(told)
        } else if text::same(kind, "tool_use") {
            self.heard_tool_use(value, fresh)
        } else if text::same(kind, "tool_result") {
            match bridge_tool_result_to_session_event(session_id, value, &mut self.tool_ids) {
                Some(e) => {
                    let told = bridge::one_event(e);
                    self.wait(told)
                },
                None => self.wait(events::no_events()),
            }
        } else {
            match bridge_event_to_session_event(session_id, value) {
                Some(e) => {
                    let last = match &e {
                        SessionEvent::Result { .. } => true,
                        SessionEvent::Error { .. } => true,
                        _ => false,
                    };
                    if last {
                        self.end(false, e)
                    } else {
                        let told = bridge::one_event(e);
                        self.wait(told)
                    }
                },
                None => self.wait(events::no_events()),
            }
        }
    }

    /// A line of the bridge has come. The id is new.
    pub fn read_line(&mut self, line: &str, fresh: u128) -> (step: BridgeStep)
        requires
            old(self).phase == ClaudePhase::Waiting,
        ensures
            came_to(
                final(self)@,
                step,
                claude_line(old(self)@, json::json_parse(line@), fresh),
            ),
    {
        match json::parse(line) {
            Ok(value) => self.heard(&value, fresh),
            Err(e) => self.fail(e),
        }
    }

    /// The bridge's output could not be read.
    pub fn read_failed(&mut self, error: String) -> (step: BridgeStep)
        requires
            old(self).phase == ClaudePhase::Waiting,
        ensures
            came_to(final(self)@, step, fails(old(self)@, error@)),
    {
        self.fail(error)
    }

    /// The bridge has ended.
    pub fn exited(&mut self, diagnostics: &str) -> (step: BridgeStep)
        requires
            old(self).phase == ClaudePhase::Waiting,
        ensures
            came_to(final(self)@, step, claude_exited(old(self)@, diagnostics@)),
    {
        let message = text::cat3(
            models::brand_name().as_str(),
            " Agent SDK bridge exited before returning a result",
            diagnostics,
        );
        self.end_with_error(false, message)
    }

    /// The user has decided, and may have said why.
    pub fn decided(
        &mut self,
        request: PermissionRequestId,
        decision: PermissionDecision,
        message: Json,
    ) -> (step: BridgeStep)
        requires
            old(self).phase == ClaudePhase::Waiting,
        ensures
            came_to(
                final(self)@,
                step,
                claude_decided(old(self)@, request, decision, message@),
            ),
    {
        match self.pending.remove(request.0) {
            Some(id) => {
                let word = match decision {
                    PermissionDecision::Allow => "allow",
                    PermissionDecision::AllowAlways => "allow_always",
                    PermissionDecision::Deny => "deny",
                };
                let value = Json::object()
                    .with("type", Json::text("permission_decision"))
                    .with("id", Json::text(id.as_str()))
                    .with("decision", Json::text(word))
                    .with("message", message);
                self.phase = ClaudePhase::SendingDecision;
                BridgeStep {
                    cancel: false,
                    events: events::no_events(),
                    action: BridgeAction::Send(value),
                }
            },
            None => self.wait(events::no_events()),
        }
    }

    /// A tool call has been carried out.
    pub fn tool_done(&mut self, response: ProviderToolResponse) -> (step: BridgeStep)
        requires
            old(self).phase == ClaudePhase::Waiting,
        ensures
            came_to(
                final(self)@,
                step,
                claude_tool_done(
                    old(self)@,
                    response.tool_call_id,
                    response.output@,
                    response.is_error,
                ),
            ),
    {
        match self.pending_tools.remove(response.tool_call_id.0) {
            Some(id) => {
                let value = bridge::tool_result_json(
                    id.as_str(),
                    response.output.as_str(),
                    response.is_error,
                );
                self.phase = ClaudePhase::SendingResult;
                BridgeStep {
                    cancel: false,
                    events: events::no_events(),
                    action: BridgeAction::Send(value),
                }
            },
            None => self.wait(events::no_events()),
        }
    }

    /// There will be no further decisions.
    pub fn permissions_closed(&mut self) -> (step: BridgeStep)
        requires
            old(self).phase == ClaudePhase::Waiting,
        ensures
            came_to(
                final(self)@,
                step,
                waits(ClaudeView { permissions_open: false, ..old(self)@ }, seq![]),
            ),
    {
        self.permissions_open = false;
        self.wait(events::no_events())
    }

    /// There will be no further results of tools.
    pub fn results_closed(&mut self) -> (step: BridgeStep)
        requires
            old(self).phase == ClaudePhase::Waiting,
        ensures
            came_to(
                final(self)@,
                step,
                waits(ClaudeView { results_open: false, ..old(self)@ }, seq![]),
            ),
    {
        self.results_open = false;
        self.wait(events::no_events())
    }

    /// The bridge has been silent for too long.
    pub fn idle(&mut self) -> (step: BridgeStep)
        requires
            old(self).phase == ClaudePhase::Waiting,
        ensures
            came_to(final(self)@, step, claude_idle(old(self)@)),
    {
        let mut message = text::cat4(
            models::brand_name().as_str(),
            " Agent SDK produced no events for ",
            text::decimal_text(self.idle_secs).as_str(),
            " seconds; killed the stale run (pending permissions: ",
        );
        text::push_decimal(&mut message, self.pending.len() as u64);
        message.push_str(", pending tools: ");
        text::push_decimal(&mut message, self.pending_tools.len() as u64);
        message.push_str(")");
        self.end_with_error(true, message)
    }

    /// The turn has been cancelled.
    pub fn cancelled(&mut self) -> (step: BridgeStep)
        requires
            old(self).phase == ClaudePhase::Waiting,
        ensures
            came_to(final(self)@, step, claude_cancelled(old(self)@)),
    {
        let session_id = self.session_id;
        self.end(true, SessionEvent::Result { session_id, stop_reason: StopReason::Interrupted })
    }
}

// ---------------------------------------------------------------------------
// Laws
// ---------------------------------------------------------------------------

/// A decision reaches the tool call that the bridge has asked about, once: after it the
/// question is no longer open.
pub proof fn decisions_reach_the_call_that_asked(
    turn: ClaudeView,
    v: JsonView,
    fresh: u128,
    decision: PermissionDecision,
    message: JsonView,
)
    requires
        json::text_field(v, "type"@) == Some("permission_request"@),
    ensures
        ({
            let asked = claude_heard(turn, v, fresh).turn;
            let answered = claude_decided(asked, PermissionRequestId(fresh), decision, message);
            &&& answered.action == BridgeActionView::Send(
                decision_json(bridge::bridge_id(v), decision, message),
            )
            &&& claude_decided(
                answered.turn,
                PermissionRequestId(fresh),
                decision,
                message,
            ).action == BridgeActionView::Wait
        }),
{
}

/// A result reaches the tool call that the bridge has asked for, once.
pub proof fn results_reach_the_call_that_asked(
    turn: ClaudeView,
    v: JsonView,
    fresh: u128,
    output: Seq<char>,
    is_error: bool,
)
    requires
        json::text_field(v, "type"@) == Some("tool_request"@),
    ensures
        ({
            let asked = claude_heard(turn, v, fresh).turn;
            let answered = claude_tool_done(asked, ToolCallId(fresh), output, is_error);
            &&& answered.action == BridgeActionView::Send(
                bridge::result_json(bridge::bridge_id(v), output, is_error),
            )
            &&& claude_tool_done(answered.turn, ToolCallId(fresh), output, is_error).action
                == BridgeActionView::Wait
        }),
{
    reveal_strlit("permission_request");
    reveal_strlit("tool_request");
    assert("permission_request"@.len() != "tool_request"@.len());
}

/// Questions that are open stay open, with the names that the bridge gave them, whatever
/// the bridge says under a new id.
pub proof fn open_questions_are_kept(turn: ClaudeView, v: JsonView, fresh: u128, id: u128)
    requires
        id != fresh,
    ensures
        bridge::name_of(claude_heard(turn, v, fresh).turn.pending, id) == bridge::name_of(
            turn.pending,
            id,
        ),
        bridge::name_of(claude_heard(turn, v, fresh).turn.pending_tools, id) == bridge::name_of(
            turn.pending_tools,
            id,
        ),
{
}

/// A turn ends exactly when it has nothing left to do; unless it fails, the last event then
/// tells a result or an error.
pub open spec fn well_ended(o: ClaudeOutcome) -> bool {
    &&& (o.turn.phase == ClaudePhase::Ended) == (o.action is Finished || o.action is Fail)
    &&& o.action is Finished ==> o.events.len() > 0 && (o.events.last() is Result
        || o.events.last() is Error)
    &&& !(o.action is Finished) ==> forall|i: int|
        0 <= i < o.events.len() ==> !(#[trigger] o.events[i] is Result) && !(o.events[i] is Error)
}

/// Each step of a turn either goes on without a result or an error, or ends the turn with
/// one.
pub proof fn a_claude_turn_ends_once(
    turn: ClaudeView,
    outcome: SendView,
    v: JsonView,
    fresh: u128,
    request: PermissionRequestId,
    decision: PermissionDecision,
    message: JsonView,
    call: ToolCallId,
    output: Seq<char>,
    is_error: bool,
)
    ensures
        well_ended(claude_sent(turn, outcome)),
        well_ended(claude_heard(turn, v, fresh)),
        well_ended(claude_decided(turn, request, decision, message)),
        well_ended(claude_tool_done(turn, call, output, is_error)),
        well_ended(claude_exited(turn, output)),
        well_ended(claude_idle(turn)),
        well_ended(claude_cancelled(turn)),
{
}

// ---------------------------------------------------------------------------
// What is said to the bridge, and what it says
// ---------------------------------------------------------------------------

proof fn lemma_member_names()
    ensures
        "type"@.len() == 4 && "type"@[0] == 't',
        "id"@.len() == 2,
        "decision"@.len() == 8 && "decision"@[0] == 'd',
        "message"@.len() == 7,
        "output"@.len() == 6 && "output"@[0] == 'o',
        "is_error"@.len() == 8 && "is_error"@[0] == 'i',
        "prompt"@.len() == 6 && "prompt"@[0] == 'p',
        "cwd"@.len() == 3,
        "model"@.len() == 5,
        "messages"@.len() == 8 && "messages"@[0] == 'm',
        "images"@.len() == 6 && "images"@[0] == 'i',
        "system_prompt"@.len() == 13,
        "approval_policy"@.len() == 15,
        "tool_definitions"@.len() == 16,
{
    reveal_strlit("type");
    reveal_strlit("id");
    reveal_strlit("decision");
    reveal_strlit("message");
    reveal_strlit("output");
    reveal_strlit("is_error");
    reveal_strlit("prompt");
    reveal_strlit("cwd");
    reveal_strlit("model");
    reveal_strlit("messages");
    reveal_strlit("images");
    reveal_strlit("system_prompt");
    reveal_strlit("approval_policy");
    reveal_strlit("tool_definitions");
}

proof fn lemma_message_kinds()
    ensures
        "permission_request"@.len() == 18,
        "tool_request"@.len() == 12,
        "tool_use"@.len() == 8,
        "tool_result"@.len() == 11,
        "text_delta"@.len() == 10,
        "result"@.len() == 6,
        "error"@.len() == 5 && "error"@[0] == 'e',
        "usage"@.len() == 5 && "usage"@[0] == 'u',
{
    reveal_strlit("permission_request");
    reveal_strlit("tool_request");
    reveal_strlit("tool_use");
    reveal_strlit("tool_result");
    reveal_strlit("text_delta");
    reveal_strlit("result");
    reveal_strlit("error");
    reveal_strlit("usage");
}

/// What the user decides on a question of the bridge is sent to it under the name that
/// the bridge has for the question, as one of three words that differ from each other; a
/// word that begins with "allow" is sent exactly when the user did not deny.
pub proof fn decisions_are_sent_as_they_were_made(
    turn: ClaudeView,
    request: PermissionRequestId,
    decision: PermissionDecision,
    message: JsonView,
)
    requires
        turn.pending.dom().contains(request.0),
    ensures
        ({
            let action = claude_decided(turn, request, decision, message).action;
            let told = json::text_field(action->Send_0, "decision"@);
            &&& action is Send
            &&& json::text_field(action->Send_0, "type"@) == Some("permission_decision"@)
            &&& json::text_field(action->Send_0, "id"@) == Some(turn.pending[request.0])
            &&& json::field(action->Send_0, "message"@) == Some(message)
            &&& told is Some
            &&& decision == PermissionDecision::Allow <==> told == Some("allow"@)
            &&& decision == PermissionDecision::AllowAlways <==> told == Some("allow_always"@)
            &&& decision == PermissionDecision::Deny <==> told == Some("deny"@)
            &&& decision != PermissionDecision::Deny <==> "allow"@.is_prefix_of(told->Some_0)
        }),
        "allow"@ != "allow_always"@ && "allow"@ != "deny"@ && "allow_always"@ != "deny"@,
{
    lemma_member_names();
    reveal_strlit("allow");
    reveal_strlit("allow_always");
    reveal_strlit("deny");
    assert("allow"@.len() == 5 && "allow_always"@.len() == 12 && "deny"@.len() == 4);
    assert("allow"@.is_prefix_of("allow_always"@));
}

/// A question that is no longer open, or never was, is not answered: nothing is sent.
pub proof fn nothing_is_sent_for_a_question_that_is_not_open(
    turn: ClaudeView,
    request: PermissionRequestId,
    decision: PermissionDecision,
    message: JsonView,
    call: ToolCallId,
    output: Seq<char>,
    is_error: bool,
)
    ensures
        !turn.pending.dom().contains(request.0) ==> {
            let next = claude_decided(turn, request, decision, message);
            next.action is Wait && next.events.len() == 0 && !next.cancel
        },
        !turn.pending_tools.dom().contains(call.0) ==> {
            let next = claude_tool_done(turn, call, output, is_error);
            next.action is Wait && next.events.len() == 0 && !next.cancel
        },
{
}

/// What came of a tool call is sent under the name that the bridge has for the call, with
/// the output as it is and whether it failed.
pub proof fn results_are_sent_as_they_came(
    turn: ClaudeView,
    call: ToolCallId,
    output: Seq<char>,
    is_error: bool,
)
    requires
        turn.pending_tools.dom().contains(call.0),
    ensures
        ({
            let action = claude_tool_done(turn, call, output, is_error).action;
            &&& action is Send
            &&& json::text_field(action->Send_0, "type"@) == Some("tool_result"@)
            &&& json::text_field(action->Send_0, "id"@) == Some(turn.pending_tools[call.0])
            &&& json::text_field(action->Send_0, "output"@) == Some(output)
            &&& json::bool_field(action->Send_0, "is_error"@) == Some(is_error)
        }),
{
    lemma_member_names();
}

/// A turn starts with a message that holds the prompt, the directory, the messages, the
/// pictures and the system prompt of the request as they are, and the approval policy of
/// the session, or that nothing needs approval where none is told.
pub proof fn a_request_holds_what_was_asked(
    req: RequestView,
    cwd: Seq<char>,
    messages: JsonView,
    images: JsonView,
)
    ensures
        ({
            let v = request_json(req, cwd, messages, images);
            &&& json::text_field(v, "prompt"@) == Some(req.prompt)
            &&& json::text_field(v, "cwd"@) == Some(cwd)
            &&& json::text_field(v, "model"@) == Some(model_of(req.model))
            &&& json::field(v, "messages"@) == Some(messages)
            &&& json::field(v, "images"@) == Some(images)
            &&& json::text_field(v, "system_prompt"@) == req.system_prompt
            &&& req.system_prompt is None ==> json::field(v, "system_prompt"@) == Some(
                JsonView::Null,
            )
            &&& json::text_field(req.metadata, "approval_policy"@) is Some ==> json::text_field(
                v,
                "approval_policy"@,
            ) == json::text_field(req.metadata, "approval_policy"@)
            &&& json::text_field(req.metadata, "approval_policy"@) is None ==> json::text_field(
                v,
                "approval_policy"@,
            ) == Some("never"@)
        }),
{
    lemma_member_names();
}

/// What the bridge says is told: a piece of text as it is, unless it is empty, an error,
/// and an end with its reason. Only an error or an end stops the turn.
pub proof fn what_the_bridge_says_is_told(turn: ClaudeView, v: JsonView, fresh: u128)
    ensures
        json::text_field(v, "type"@) == Some("text_delta"@) ==> {
            let next = claude_heard(turn, v, fresh);
            &&& next.action is Wait
            &&& match json::text_field(v, "text"@) {
                Some(text) if text.len() > 0 => next.events == seq![
                    EventView::TextDelta { session_id: turn.session_id, text },
                ],
                _ => next.events.len() == 0,
            }
        },
        json::text_field(v, "type"@) == Some("result"@) ==> {
            let next = claude_heard(turn, v, fresh);
            let told = json::text_field(v, "stop_reason"@);
            &&& next.action is Finished
            &&& next.events == seq![
                EventView::Result {
                    session_id: turn.session_id,
                    stop_reason: if told == Some("cancelled"@) {
                        StopReason::Interrupted
                    } else if told == Some("error"@) || told == Some("refusal"@) {
                        StopReason::Error
                    } else {
                        StopReason::EndTurn
                    },
                },
            ]
        },
        json::text_field(v, "type"@) == Some("error"@) ==> {
            let next = claude_heard(turn, v, fresh);
            &&& next.action is Finished
            &&& next.events.len() == 1
            &&& next.events[0] matches EventView::Error { session_id, message } && session_id
                == turn.session_id && (json::text_field(v, "message"@) matches Some(m) ==> message
                == m)
        },
        json::text_field(v, "type"@) == Some("usage"@) ==> {
            let next = claude_heard(turn, v, fresh);
            &&& next.action is Wait
            &&& next.events.len() == 1
            &&& next.events[0] matches EventView::Usage {
                session_id,
                input_tokens,
                output_tokens,
                cache_read_tokens,
                ..
            } && session_id == turn.session_id && input_tokens == bridge::count_field(
                v,
                "input_tokens"@,
            ) && output_tokens == bridge::count_field(v, "output_tokens"@) && cache_read_tokens
                == bridge::count_field(v, "cache_read_tokens"@)
        },
{
    lemma_message_kinds();
}

/// A question of the bridge is put to the user with the tool's name and its input, and is
/// then open under the new id; a tool call of the bridge likewise is asked for.
pub proof fn questions_of_the_bridge_are_put(turn: ClaudeView, v: JsonView, fresh: u128)
    ensures
        json::text_field(v, "type"@) == Some("permission_request"@) ==> {
            let next = claude_heard(turn, v, fresh);
            &&& next.action is Wait
            &&& next.turn.pending.dom().contains(fresh)
            &&& json::text_field(v, "id"@) is Some ==> next.turn.pending[fresh]
                == json::text_field(v, "id"@)->Some_0
            &&& next.events.len() == 2
            &&& next.events[0] == (EventView::Status {
                session_id: turn.session_id,
                status: SessionStatus::WaitingForPermission,
            })
            &&& next.events[1] matches EventView::PermissionRequest {
                session_id,
                request_id,
                reason,
                tool_name,
                input_json,
            } && session_id == turn.session_id && request_id == PermissionRequestId(fresh) && (
            json::text_field(v, "tool_name"@) matches Some(n) ==> tool_name == n) && (json::field(
                v,
                "input"@,
            ) matches Some(i) ==> input_json == i) && (json::text_field(v, "title"@) matches Some(
                t,
            ) ==> reason == t)
        },
        json::text_field(v, "type"@) == Some("tool_request"@) ==> {
            let next = claude_heard(turn, v, fresh);
            &&& next.action is Wait
            &&& next.turn.pending_tools.dom().contains(fresh)
            &&& json::text_field(v, "id"@) is Some ==> next.turn.pending_tools[fresh]
                == json::text_field(v, "id"@)->Some_0
            &&& next.events.len() == 1
            &&& next.events[0] matches EventView::ToolCallRequested {
                session_id,
                tool_call_id,
                name,
                input_json,
            } && session_id == turn.session_id && tool_call_id == ToolCallId(fresh) && (
            json::text_field(v, "name"@) matches Some(n) ==> name == n) && (json::field(
                v,
                "input"@,
            ) matches Some(i) ==> input_json == i)
        },
{
    lemma_message_kinds();
}

/// A tool that the bridge runs by itself is told from its start to its result under one
/// id: the result that the bridge names as the call is told as that of the call, as an
/// error exactly where the bridge says so, and once only.
pub proof fn own_tools_of_the_bridge_are_told_to_the_end(
    turn: ClaudeView,
    use_told: JsonView,
    result_told: JsonView,
    id: Seq<char>,
    output: Seq<char>,
    fresh: u128,
    later: u128,
)
    requires
        json::text_field(use_told, "type"@) == Some("tool_use"@),
        json::text_field(use_told, "id"@) == Some(id),
        json::text_field(result_told, "type"@) == Some("tool_result"@),
        json::text_field(result_told, "id"@) == Some(id),
        json::text_field(result_told, "output"@) == Some(output),
    ensures
        ({
            let begun = claude_heard(turn, use_told, fresh);
            let done = claude_heard(begun.turn, result_told, later);
            let again = claude_heard(done.turn, result_told, later);
            &&& begun.events.len() == 3
            &&& begun.events.last() matches EventView::ToolCallStart { tool_call_id, .. }
                && tool_call_id == ToolCallId(fresh)
            &&& done.events.len() == 1
            &&& json::bool_field(result_told, "is_error"@) == Some(true) ==> done.events[0] == (
            EventView::ToolCallError {
                session_id: turn.session_id,
                tool_call_id: ToolCallId(fresh),
                message: output,
            })
            &&& json::bool_field(result_told, "is_error"@) != Some(true) ==> (
            done.events[0] matches EventView::ToolCallResult {
                session_id,
                tool_call_id,
                output: told,
                ..
            } && session_id == turn.session_id && tool_call_id == ToolCallId(fresh) && told
                == output)
            &&& again.events.len() == 0
        }),
{
    lemma_message_kinds();
}

/// A turn that is cancelled, or whose bridge is silent for too long or cannot be written
/// to, cancels the bridge; one whose bridge has ended or says that it is done does not.
pub proof fn the_bridge_is_cancelled_when_the_turn_gives_up(
    turn: ClaudeView,
    error: Seq<char>,
    v: JsonView,
    fresh: u128,
)
    ensures
        claude_cancelled(turn).cancel && claude_cancelled(turn).events == seq![
            EventView::Result {
                session_id: turn.session_id,
                stop_reason: StopReason::Interrupted,
            },
        ],
        claude_idle(turn).cancel && claude_idle(turn).events.last() is Error,
        claude_sent(turn, SendView::TimedOut).cancel,
        claude_sent(turn, SendView::Failed(error)).cancel && claude_sent(
            turn,
            SendView::Failed(error),
        ).events == seq![EventView::Error { session_id: turn.session_id, message: error }],
        claude_sent(turn, SendView::NotStarted(error)).action == BridgeActionView::Fail(error),
        !claude_exited(turn, error).cancel && claude_exited(turn, error).events.last() is Error,
        !claude_heard(turn, v, fresh).cancel,
        !claude_sent(turn, SendView::Sent).cancel && claude_sent(turn, SendView::Sent).action
            is Wait,
{
}

/// A model is asked for by its short name: the full names that are known stand for it, no
/// name at all stands for the middle one, and any other name is asked for as it is.
pub proof fn models_are_asked_for_by_their_short_names(name: Seq<char>, rest: Seq<char>)
    ensures
        text::trimmed(name).len() == 0 ==> model_of(name) == "sonnet"@,
        text::trimmed(name) == models::vendor() + rest ==> {
            &&& rest == "-sonnet-4"@ || rest == "-sonnet-4-20250514"@ || rest == "-sonnet-4.6"@
                ==> model_of(name) == "sonnet"@
            &&& rest == "-fable-5"@ ==> model_of(name) == "fable"@
            &&& rest == "-opus-4"@ || rest == "-opus-4-20250514"@ || rest == "-opus-4.8"@
                ==> model_of(name) == "opus"@
            &&& rest == "-haiku-3.5"@ || rest == "-3-5-haiku"@ || rest == "-3-5-haiku-latest"@
                || rest == "-haiku-4.5"@ ==> model_of(name) == "haiku"@
        },
        text::trimmed(name) == "fable-5"@ ==> model_of(name) == "fable"@,
        text::trimmed(name).len() > 0 && text::trimmed(name) != "fable-5"@
            && !models::vendor().is_prefix_of(text::trimmed(name)) ==> model_of(name) == text::trimmed(name),
{
    reveal_strlit("");
    reveal_strlit("-sonnet-4");
    reveal_strlit("-sonnet-4-20250514");
    reveal_strlit("-sonnet-4.6");
    reveal_strlit("-fable-5");
    reveal_strlit("fable-5");
    reveal_strlit("-opus-4");
    reveal_strlit("-opus-4-20250514");
    reveal_strlit("-opus-4.8");
    reveal_strlit("-haiku-3.5");
    reveal_strlit("-3-5-haiku");
    reveal_strlit("-3-5-haiku-latest");
    reveal_strlit("-haiku-4.5");
    let m = text::trimmed(name);
    let v = models::vendor();
    assert(m == v + rest ==> m.skip(v.len() as int) == rest) by {
        assert((v + rest).skip(v.len() as int) =~= rest);
    }
    assert forall|r: Seq<char>| m == #[trigger] (v + r) implies m.skip(v.len() as int) == r
        && v.is_prefix_of(m) by {
        assert((v + r).skip(v.len() as int) =~= r);
    }
    if m.len() == 0 {
        assert(m =~= ""@);
    }
    assert("-sonnet-4"@.len() == 9 && "-sonnet-4-20250514"@.len() == 18 && "-sonnet-4.6"@.len()
        == 11 && "-fable-5"@.len() == 8 && "-opus-4"@.len() == 7 && "-opus-4-20250514"@.len()
        == 16 && "-opus-4.8"@.len() == 9 && "-haiku-3.5"@.len() == 10 && "-3-5-haiku"@.len() == 10
        && "-3-5-haiku-latest"@.len() == 17 && "-haiku-4.5"@.len() == 10);
    assert(m == v + rest && v.len() == 0 ==> m =~= rest);
    assert("fable-5"@.len() == 7 && "fable-5"@[0] == 'f' && "-opus-4"@[0] == '-');
    assert("-opus-4.8"@[1] == 'o' && "-sonnet-4"@[1] == 's' && "-fable-5"@[1] == 'f'
        && "-haiku-3.5"@[1] == 'h' && "-3-5-haiku"@[1] == '3');
}

/// The bridge is the one that the environment names, or else the program's own script.
pub proof fn the_bridge_is_the_one_that_is_named(line: Seq<char>, dir: Seq<char>)
    ensures
        bridge_command(Some(line), dir) == bridge::command_of(line),
        bridge_command(None, dir) == bridge::script_command(
            dir,
            "js/claude_agent_sdk_bridge.mjs"@,
        ),
{
}

/// A turn begins with its request and with nothing open, and says so.
pub proof fn a_turn_begins_with_its_request(
    session_id: SessionId,
    idle_secs: u64,
    request: JsonView,
)
    ensures
        ({
            let begun = claude_begun(session_id, idle_secs, request);
            &&& begun.action == BridgeActionView::Start(request)
            &&& begun.events == seq![
                EventView::Status { session_id, status: SessionStatus::Starting },
            ]
            &&& !begun.cancel
            &&& begun.turn.session_id == session_id && begun.turn.idle_secs == idle_secs
            &&& begun.turn.pending.dom() =~= Set::empty()
            &&& begun.turn.pending_tools.dom() =~= Set::empty()
            &&& begun.turn.tool_ids.dom() =~= Set::empty()
            &&& begun.turn.permissions_open && begun.turn.results_open
        }),
{
}

/// A line that cannot be read ends the turn with its error.
pub proof fn a_line_that_cannot_be_read_ends_the_turn(
    turn: ClaudeView,
    error: Seq<char>,
    fresh: u128,
)
    ensures
        ({
            let outcome = claude_line(turn, Err(error), fresh);
            &&& outcome.action == BridgeActionView::Fail(error)
            &&& outcome.turn.phase == ClaudePhase::Ended
            &&& outcome.events.len() == 0 && !outcome.cancel
        }),
{
}

/// The bridge tells whether it may be used: only a plain yes is one, and a reason is told
/// with a no.
pub proof fn only_a_plain_yes_is_one(v: JsonView, reason: Seq<char>, ok: bool)
    ensures
        json::text_field(v, "type"@) == Some("auth_check"@) && json::bool_field(v, "ok"@) == Some(
            ok,
        ) ==> (auth_told(v) matches Some(a) && a.ok == ok && a.error == json::text_field(
            v,
            "error"@,
        )),
        json::text_field(v, "type"@) == Some("auth_check"@) && json::bool_field(v, "ok"@) is None
            ==> (auth_told(v) matches Some(a) && !a.ok),
        json::text_field(v, "type"@) == Some("error"@) ==> (auth_told(v) matches Some(a) && !a.ok
            && a.error == json::text_field(v, "message"@)),
        json::text_field(v, "type"@) is None ==> auth_told(v) is None,
        json::text_field(v, "type"@) matches Some(kind) ==> (kind != "auth_check"@ && kind
            != "error"@ ==> auth_told(v) is None),
{
    reveal_strlit("auth_check");
    reveal_strlit("error");
    assert("auth_check"@.len() == 10 && "error"@.len() == 5);
}

} // verus!
