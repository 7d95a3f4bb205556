//! How one tool call is carried out: whether the user is asked, what is told of it, and
//! what the provider gets back. What only the outside can do is asked for step by step.
use vstd::prelude::*;

use crate::json;
use crate::json::{Json, JsonView};
use crate::provider::common::{ProviderToolResponse, ToolResponseView};
use crate::runtime::call;
use crate::runtime::call::{CallView, ExecErrorView, ParsedToolCall, ToolAction, ToolExecError};
use crate::runtime::events;
use crate::runtime::events::{
    DiagnosticFile,
    DiagnosticView,
    EventView,
    PatchFile,
    PatchFileView,
    SessionEvent,
};
use crate::runtime::risk;
use crate::runtime::risk::{PendingView, PermissionService, PermissionsView};
use crate::runtime::session;
use crate::runtime::session::{MessageView, Role, SessionState, SessionView};
use crate::runtime::targets;
use crate::runtime::targets::{CacheView, TargetView, ToolHashCache, ToolTarget};
use crate::runtime::types::{
    ApprovalPolicy,
    PermissionDecision,
    PermissionRequestId,
    RiskFlag,
    SessionId,
    SessionStatus,
    ToolCallId,
};
use crate::text;
use crate::textmap;
use crate::textmap::TextMap;
use crate::tools::error;
use crate::tools::error::ToolErrorView;
use crate::tools::result::{ToolResult, ToolResultView};

verus! {

/// Whether a tool call was carried out.
#[derive(Debug, Clone, Copy, PartialEq, Eq, Structural)]
pub enum LocalToolRunStatus {
    Executed,
    Denied,
}

/// What a user is told who has to decide whether a tool call may run.
#[derive(Debug)]
pub struct ApprovalRequest {
    pub session_id: SessionId,
    pub request_id: PermissionRequestId,
    pub tool_name: String,
    pub input: Json,
    pub risk_flags: Vec<RiskFlag>,
    pub reason: String,
    /// The path by which the call may lead outside the workspace.
    pub outside_path: Option<String>,
}

/// The content of a `ApprovalRequest`.
pub struct ApprovalView {
    pub session_id: SessionId,
    pub request_id: PermissionRequestId,
    pub tool_name: Seq<char>,
    pub input: JsonView,
    pub risk_flags: Seq<RiskFlag>,
    pub reason: Seq<char>,
    pub outside_path: Option<Seq<char>>,
}

impl View for ApprovalRequest {
    type V = ApprovalView;

    open spec fn view(&self) -> ApprovalView {
        ApprovalView {
            session_id: self.session_id,
            request_id: self.request_id,
            tool_name: self.tool_name@,
            input: self.input@,
            risk_flags: self.risk_flags@,
            reason: self.reason@,
            outside_path: text::opt(self.outside_path),
        }
    }
}

/// How far a tool call has got.
#[derive(Debug)]
pub enum LocalPhase {
    Start,
    /// The user has been asked whether the call may run.
    Asked { request_id: PermissionRequestId },
    Running,
    /// The sandbox stopped the call; the user has been asked whether to run it again without.
    AskedRetry { request_id: PermissionRequestId, result: ToolResult },
    Retrying,
    /// The call failed; the user has been asked about it.
    AskedFailure { request_id: PermissionRequestId, message: String },
    /// The call has run; what it did is being noted.
    Completing,
    Ended,
}

/// The content of a `LocalPhase`.
pub enum PhaseView {
    Start,
    Asked { request_id: PermissionRequestId },
    Running,
    AskedRetry { request_id: PermissionRequestId, result: ToolResultView },
    Retrying,
    AskedFailure { request_id: PermissionRequestId, message: Seq<char> },
    Completing,
    Ended,
}

impl View for LocalPhase {
    type V = PhaseView;

    open spec fn view(&self) -> PhaseView {
        match self {
            LocalPhase::Start => PhaseView::Start,
            LocalPhase::Asked { request_id } => PhaseView::Asked { request_id: *request_id },
            LocalPhase::Running => PhaseView::Running,
            LocalPhase::AskedRetry { request_id, result } => PhaseView::AskedRetry { request_id: *request_id, result: result@ },
            LocalPhase::Retrying => PhaseView::Retrying,
            LocalPhase::AskedFailure { request_id, message } => PhaseView::AskedFailure { request_id: *request_id, message: message@ },
            LocalPhase::Completing => PhaseView::Completing,
            LocalPhase::Ended => PhaseView::Ended,
        }
    }
}

/// What has to be done next for a tool call.
#[derive(Debug)]
pub enum LocalAction {
    /// Ask the user.
    Ask { request: ApprovalRequest },
    /// Carry the call out, without the confinement to the workspace where it is unlocked.
    Execute { unlocked: bool },
    /// Note what the call did.
    Complete { result: ToolResult },
    /// End the whole turn with an error.
    Abort { error: ToolExecError },
    /// Hand the provider what came back.
    Done { response: ProviderToolResponse, status: LocalToolRunStatus },
}

/// The content of a `LocalAction`.
pub enum LocalActionView {
    Ask { request: ApprovalView },
    Execute { unlocked: bool },
    Complete { result: ToolResultView },
    Abort { error: ExecErrorView },
    Done { response: ToolResponseView, status: LocalToolRunStatus },
}

impl View for LocalAction {
    type V = LocalActionView;

    open spec fn view(&self) -> LocalActionView {
        match self {
            LocalAction::Ask { request } => LocalActionView::Ask { request: request@ },
            LocalAction::Execute { unlocked } => LocalActionView::Execute { unlocked: *unlocked },
            LocalAction::Complete { result } => LocalActionView::Complete { result: result@ },
            LocalAction::Abort { error } => LocalActionView::Abort { error: error@ },
            LocalAction::Done { response, status } => LocalActionView::Done { response: response@, status: *status },
        }
    }
}

/// A tool call that is being carried out.
#[derive(Debug)]
pub struct LocalRun {
    pub session_id: SessionId,
    pub tool_call_id: ToolCallId,
    pub policy: ApprovalPolicy,
    pub call: ParsedToolCall,
    pub risk_flags: Vec<RiskFlag>,
    /// The flags as they are shown.
    pub flag_names: Vec<String>,
    pub outside_path: Option<String>,
    /// The input as it is shown.
    pub preview: Json,
    /// Whether the call runs without the confinement to the workspace.
    pub unlocked: bool,
    pub phase: LocalPhase,
}

/// The content of a `LocalRun`.
pub struct RunView {
    pub session_id: SessionId,
    pub tool_call_id: ToolCallId,
    pub policy: ApprovalPolicy,
    pub call: CallView,
    pub risk_flags: Seq<RiskFlag>,
    pub flag_names: Seq<Seq<char>>,
    pub outside_path: Option<Seq<char>>,
    pub preview: JsonView,
    pub unlocked: bool,
    pub phase: PhaseView,
}

impl View for LocalRun {
    type V = RunView;

    open spec fn view(&self) -> RunView {
        RunView {
            session_id: self.session_id,
            tool_call_id: self.tool_call_id,
            policy: self.policy,
            call: self.call@,
            risk_flags: self.risk_flags@,
            flag_names: text::views(self.flag_names@),
            outside_path: text::opt(self.outside_path),
            preview: self.preview@,
            unlocked: self.unlocked,
            phase: self.phase@,
        }
    }
}

/// What a step of a tool call leads to.
pub struct LocalOutcome {
    pub run: RunView,
    pub permissions: PermissionsView,
    pub session: SessionView,
    pub events: Seq<EventView>,
    pub action: LocalActionView,
}

/// What becomes of a call that may run.
#[derive(Debug)]
pub enum LocalAttempt {
    /// Carry this out.
    Run { run: LocalRun, action: ToolAction },
    /// The call is refused: this step follows.
    Refused { run: LocalRun, step: LocalStep },
}

/// What has to be told and done after a step.
#[derive(Debug)]
pub struct LocalStep {
    pub events: Vec<SessionEvent>,
    pub action: LocalAction,
}

/// Whether a step has led to an outcome.
pub open spec fn leads_to(
    run: LocalRun,
    permissions: PermissionService,
    state: SessionState,
    step: LocalStep,
    outcome: LocalOutcome,
) -> bool {
    &&& run@ == outcome.run
    &&& permissions@ == outcome.permissions
    &&& state@ == outcome.session
    &&& events::event_views(step.events@) == outcome.events
    &&& step.action@ == outcome.action
}

// ---------------------------------------------------------------------------
// Messages
// ---------------------------------------------------------------------------

/// Why permission is asked.
pub open spec fn reason_text(
    tool: Seq<char>,
    flag_names: Seq<Seq<char>>,
    outside_path: Option<Seq<char>>,
) -> Seq<char> {
    let reason = if flag_names.len() == 0 {
        "approval required for "@ + tool
    } else {
        tool + " flagged: "@ + text::join(flag_names, ", "@)
    };
    match outside_path {
        Some(path) => reason + " (accessing outside workspace: "@ + path + ")"@,
        None => reason,
    }
}

/// Why permission is asked, given how the call's flags are shown.
pub fn risk_reason(tool: &str, flag_names: &Vec<String>, outside_path: &Option<String>) -> (r:
    String)
    ensures
        r@ == reason_text(tool@, text::views(flag_names@), text::opt(*outside_path)),
{
    let mut reason = if flag_names.len() == 0 {
        text::cat2("approval required for ", tool)
    } else {
        let names = text::join_strings(flag_names.as_slice(), ", ");
        text::cat3(tool, " flagged: ", names.as_str())
    };
    match outside_path {
        Some(path) => {
            reason.push_str(" (accessing outside workspace: ");
            reason.push_str(path.as_str());
            reason.push_str(")");
        },
        None => {},
    }
    reason
}

/// What is said of a call that was denied before.
pub open spec fn denied_before_text(tool: Seq<char>) -> Seq<char> {
    "tool call denied for this session: "@ + tool
}

/// What is said of a call that the user has denied, with a note if there is one.
pub open spec fn denied_text(tool: Seq<char>, note: Option<Seq<char>>) -> Seq<char> {
    match note {
        Some(n) if text::trimmed(n).len() > 0 => "tool call denied by user: "@ + tool + " - "@ + n,
        _ => "tool call denied by user: "@ + tool,
    }
}

fn denied_message(tool: &str, note: Option<String>) -> (r: String)
    ensures
        r@ == denied_text(tool@, text::opt(note)),
{
    match note {
        Some(n) => {
            let t = text::trim(n.as_str());
            if text::is_blank_len(&t) {
                text::cat2("tool call denied by user: ", tool)
            } else {
                text::cat4("tool call denied by user: ", tool, " - ", n.as_str())
            }
        },
        None => text::cat2("tool call denied by user: ", tool),
    }
}

pub open spec fn retry_reason(tool: Seq<char>) -> Seq<char> {
    tool
        + " was blocked by the workspace sandbox; approve to retry without the sandbox for this tool call"@
}

/// How long a call has been running.
pub open spec fn progress_text(elapsed_secs: nat) -> Seq<char> {
    "still running for "@ + error::duration_text(elapsed_secs)
}

/// What is told while a call goes on running.
pub fn tool_progress(session_id: SessionId, tool_call_id: ToolCallId, elapsed_secs: u64) -> (r:
    SessionEvent)
    ensures
        r@ == (EventView::ToolCallProgress {
            session_id,
            tool_call_id,
            message: progress_text(elapsed_secs as nat),
        }),
{
    let elapsed = format_elapsed(elapsed_secs);
    SessionEvent::ToolCallProgress {
        session_id,
        tool_call_id,
        message: text::cat2("still running for ", elapsed.as_str()),
    }
}

/// A number of seconds, with the minutes apart from the first minute on.
pub fn format_elapsed(secs: u64) -> (r: String)
    ensures
        r@ == error::duration_text(secs as nat),
{
    error::format_duration(secs)
}

// ---------------------------------------------------------------------------
// The steps
// ---------------------------------------------------------------------------

/// The call ends with an error that is told to all.
pub open spec fn ended_with_error(
    run: RunView,
    permissions: PermissionsView,
    session: SessionView,
    before: Seq<EventView>,
    message: Seq<char>,
    said: Seq<char>,
    status: LocalToolRunStatus,
) -> LocalOutcome {
    LocalOutcome {
        run: RunView { phase: PhaseView::Ended, ..run },
        permissions,
        session: session::said(session, Role::Tool, said),
        events: before.push(
            EventView::ToolCallError {
                session_id: run.session_id,
                tool_call_id: run.tool_call_id,
                message,
            },
        ),
        action: LocalActionView::Done {
            response: ToolResponseView {
                tool_call_id: run.tool_call_id,
                output: message,
                is_error: true,
            },
            status,
        },
    }
}

/// The call starts to run.
pub open spec fn started(
    run: RunView,
    permissions: PermissionsView,
    session: SessionView,
    before: Seq<EventView>,
    unlocked: bool,
) -> LocalOutcome {
    let session_id = run.session_id;
    let tool_call_id = run.tool_call_id;
    LocalOutcome {
        run: RunView { phase: PhaseView::Running, unlocked, ..run },
        permissions,
        session,
        events: before.push(
            EventView::ToolInputStart { session_id, tool_call_id, name: run.call.name },
        ).push(
            EventView::ToolInputEnd { session_id, tool_call_id, input_json: run.preview },
        ).push(
            EventView::ToolCallStart {
                session_id,
                tool_call_id,
                name: run.call.name,
                input_json: run.preview,
            },
        ).push(EventView::Status { session_id, status: SessionStatus::RunningTools }),
        action: LocalActionView::Execute { unlocked },
    }
}

/// What is remembered of a call that waits for an answer.
pub open spec fn waiting(
    run: RunView,
    request_id: PermissionRequestId,
    input: JsonView,
    reason: Seq<char>,
) -> PendingView {
    PendingView {
        request_id,
        tool_name: run.call.name,
        input,
        risk_flags: run.risk_flags,
        reason,
        fingerprint: risk::fingerprint(run.call),
    }
}

pub open spec fn request_event(
    run: RunView,
    request_id: PermissionRequestId,
    input: JsonView,
    reason: Seq<char>,
) -> EventView {
    EventView::PermissionRequest {
        session_id: run.session_id,
        request_id,
        reason,
        tool_name: run.call.name,
        input_json: input,
    }
}

pub open spec fn ask_action(
    run: RunView,
    request_id: PermissionRequestId,
    input: JsonView,
    reason: Seq<char>,
) -> LocalActionView {
    LocalActionView::Ask {
        request: ApprovalView {
            session_id: run.session_id,
            request_id,
            tool_name: run.call.name,
            input,
            risk_flags: run.risk_flags,
            reason,
            outside_path: run.outside_path,
        },
    }
}

/// The user is asked, and the session waits.
pub open spec fn asked(
    run: RunView,
    permissions: PermissionsView,
    session: SessionView,
    request_id: PermissionRequestId,
    reason: Seq<char>,
    phase: PhaseView,
) -> LocalOutcome {
    LocalOutcome {
        run: RunView { phase, ..run },
        permissions: risk::with_pending(
            permissions,
            waiting(run, request_id, run.preview, reason),
        ),
        session,
        events: seq![
            request_event(run, request_id, run.preview, reason),
            EventView::Status {
                session_id: run.session_id,
                status: SessionStatus::WaitingForPermission,
            },
        ],
        action: ask_action(run, request_id, run.preview, reason),
    }
}

/// Whether the user is asked before a call runs.
pub open spec fn asks_first(run: RunView, permissions: PermissionsView) -> bool {
    run.policy != ApprovalPolicy::Never && (run.outside_path is Some || risk::asks(
        permissions,
        run.policy,
        run.risk_flags,
        run.call,
    ))
}

/// The first step: a call that was denied before is refused, one that needs it is asked
/// about, and any other starts to run.
pub open spec fn begun(
    run: RunView,
    permissions: PermissionsView,
    session: SessionView,
    request_id: PermissionRequestId,
) -> LocalOutcome {
    if permissions.denied.contains(risk::fingerprint(run.call)) {
        let message = denied_before_text(run.call.name);
        ended_with_error(
            run,
            permissions,
            session,
            seq![],
            message,
            message,
            LocalToolRunStatus::Denied,
        )
    } else if asks_first(run, permissions) {
        asked(
            run,
            permissions,
            session,
            request_id,
            reason_text(run.call.name, run.flag_names, run.outside_path),
            PhaseView::Asked { request_id },
        )
    } else {
        started(
            run,
            permissions,
            session,
            seq![],
            risk::any_allows(permissions.rules, run.call) && targets::needs_unlocked(
                run.call,
                run.risk_flags,
            ),
        )
    }
}

pub open spec fn resolved_event(
    run: RunView,
    request_id: PermissionRequestId,
    decision: PermissionDecision,
) -> EventView {
    EventView::PermissionResolved { session_id: run.session_id, request_id, decision }
}

/// What a call that failed leads to.
pub open spec fn failed(
    run: RunView,
    permissions: PermissionsView,
    session: SessionView,
    before: Seq<EventView>,
    message: Seq<char>,
) -> LocalOutcome {
    ended_with_error(
        run,
        permissions,
        session,
        before,
        message,
        run.call.name + " error: "@ + message,
        LocalToolRunStatus::Executed,
    )
}

/// What the call's result is handed over with, so that what it did can be noted.
pub open spec fn completing(
    run: RunView,
    permissions: PermissionsView,
    session: SessionView,
    before: Seq<EventView>,
    result: ToolResultView,
) -> LocalOutcome {
    LocalOutcome {
        run: RunView { phase: PhaseView::Completing, ..run },
        permissions,
        session,
        events: before,
        action: LocalActionView::Complete { result },
    }
}

pub open spec fn is_asked(phase: PhaseView) -> bool {
    phase is Asked || phase is AskedRetry || phase is AskedFailure
}

/// The step behind the user's answer.
pub open spec fn decided(
    run: RunView,
    permissions: PermissionsView,
    session: SessionView,
    decision: PermissionDecision,
    note: Option<Seq<char>>,
) -> LocalOutcome {
    match run.phase {
        PhaseView::Asked { request_id } => {
            let after = risk::resolved(permissions, request_id, decision, run.call);
            let told = seq![resolved_event(run, request_id, decision)];
            if decision == PermissionDecision::Deny {
                let message = denied_text(run.call.name, note);
                ended_with_error(
                    run,
                    after,
                    session,
                    told,
                    message,
                    message,
                    LocalToolRunStatus::Denied,
                )
            } else {
                started(
                    run,
                    after,
                    session,
                    told,
                    targets::needs_unlocked(run.call, run.risk_flags),
                )
            }
        },
        PhaseView::AskedRetry { request_id, result } => {
            let after = risk::resolved(permissions, request_id, decision, run.call);
            let told = seq![resolved_event(run, request_id, decision)];
            if decision == PermissionDecision::Deny {
                completing(run, after, session, told, result)
            } else {
                LocalOutcome {
                    run: RunView { phase: PhaseView::Retrying, ..run },
                    permissions: after,
                    session,
                    events: told,
                    action: LocalActionView::Execute { unlocked: true },
                }
            }
        },
        PhaseView::AskedFailure { request_id, message } => failed(
            run,
            risk::resolved(permissions, request_id, decision, run.call),
            session,
            seq![resolved_event(run, request_id, decision)],
            message,
        ),
        _ => arbitrary(),
    }
}

/// What came of carrying a call out.
pub open spec fn outcome_view(r: Result<ToolResult, ToolExecError>) -> Result<
    ToolResultView,
    ExecErrorView,
> {
    match r {
        Ok(result) => Ok(result@),
        Err(e) => Err(e@),
    }
}

/// The step behind the execution of a call, given whether the sandbox seems to have
/// stopped it.
pub open spec fn ran(
    run: RunView,
    permissions: PermissionsView,
    session: SessionView,
    outcome: Result<ToolResultView, ExecErrorView>,
    stopped: bool,
    request_id: PermissionRequestId,
) -> LocalOutcome {
    match (run.phase, outcome) {
        (PhaseView::Retrying, Err(e)) => LocalOutcome {
            run: RunView { phase: PhaseView::Ended, ..run },
            permissions,
            session,
            events: seq![],
            action: LocalActionView::Abort { error: e },
        },
        (PhaseView::Running, Ok(result)) if stopped && !run.unlocked => asked(
            run,
            permissions,
            session,
            request_id,
            retry_reason(run.call.name),
            PhaseView::AskedRetry { request_id, result },
        ),
        (_, Ok(result)) => completing(run, permissions, session, seq![], result),
        (_, Err(e)) => {
            let message = call::exec_error_message(e);
            if run.policy == ApprovalPolicy::OnFailure && !risk::any_allows(
                permissions.rules,
                run.call,
            ) {
                let reason = run.call.name + " failed: "@ + message;
                LocalOutcome {
                    run: RunView { phase: PhaseView::AskedFailure { request_id, message }, ..run },
                    permissions: risk::with_pending(
                        permissions,
                        waiting(run, request_id, run.call.input, reason),
                    ),
                    session,
                    events: seq![request_event(run, request_id, run.call.input, reason)],
                    action: ask_action(run, request_id, run.call.input, message),
                }
            } else {
                failed(run, permissions, session, seq![], message)
            }
        },
    }
}

/// The last step of a call that has run: its result is told with the output as the model
/// gets it, and so are the files that changed.
pub open spec fn completed(
    run: RunView,
    permissions: PermissionsView,
    session: SessionView,
    result: ToolResultView,
    inline_output: Seq<char>,
    files: Seq<PatchFileView>,
    additions: u64,
    deletions: u64,
    reports: Seq<DiagnosticView>,
) -> LocalOutcome {
    let session_id = run.session_id;
    let told = seq![
        EventView::ToolCallResult {
            session_id,
            tool_call_id: run.tool_call_id,
            title: Some(result.title),
            metadata: result.metadata,
            output: inline_output,
            exit_code: result.exit_code,
        },
    ];
    LocalOutcome {
        run: RunView { phase: PhaseView::Ended, ..run },
        permissions,
        session: session::said(
            session,
            Role::Tool,
            run.call.name + " result:\n"@ + inline_output,
        ),
        events: if files.len() == 0 {
            told
        } else {
            told.push(EventView::Patch { session_id, additions, deletions, files }).push(
                EventView::Diagnostics { session_id, reports },
            )
        },
        action: LocalActionView::Done {
            response: ToolResponseView {
                tool_call_id: run.tool_call_id,
                output: inline_output,
                is_error: false,
            },
            status: LocalToolRunStatus::Executed,
        },
    }
}

/// A call, shown without hashes, that is about to be carried out.
pub open spec fn fresh(
    session_id: SessionId,
    tool_call_id: ToolCallId,
    policy: ApprovalPolicy,
    call: CallView,
    risk_flags: Seq<RiskFlag>,
    flag_names: Seq<Seq<char>>,
    targets: Seq<TargetView>,
) -> RunView {
    RunView {
        session_id,
        tool_call_id,
        policy,
        call,
        risk_flags,
        flag_names,
        outside_path: targets::outside_path(call),
        preview: targets::preview_input(call, targets::preview_changes(call, targets)),
        unlocked: false,
        phase: PhaseView::Start,
    }
}

impl LocalRun {
    /// A call, shown without hashes, that is about to be carried out, given its risk flags.
    /// `flag_names` are the flags as they are shown, and `targets` the files that it changes.
    pub fn with_flags(
        session_id: SessionId,
        tool_call_id: ToolCallId,
        policy: ApprovalPolicy,
        call: ParsedToolCall,
        risk_flags: Vec<RiskFlag>,
        flag_names: Vec<String>,
        targets: &Vec<ToolTarget>,
    ) -> (r: LocalRun)
        ensures
            r@ == fresh(
                session_id,
                tool_call_id,
                policy,
                call@,
                risk_flags@,
                text::views(flag_names@),
                targets::target_views(targets@),
            ),
    {
        let outside_path = targets::get_outside_path(&call);
        let preview = targets::permission_preview_input(&call, targets);
        LocalRun {
            session_id,
            tool_call_id,
            policy,
            call,
            risk_flags,
            flag_names,
            outside_path,
            preview,
            unlocked: false,
            phase: LocalPhase::Start,
        }
    }

    /// A call, shown without hashes, that is about to be carried out. `flag_names` are its
    /// risk flags as they are shown, and `targets` the files that it changes.
    pub fn new(
        session_id: SessionId,
        tool_call_id: ToolCallId,
        policy: ApprovalPolicy,
        call: ParsedToolCall,
        flag_names: Vec<String>,
        targets: &Vec<ToolTarget>,
    ) -> (r: LocalRun)
        ensures
            r@ == fresh(
                session_id,
                tool_call_id,
                policy,
                call@,
                risk::call_flags(call@, text::lowercase(risk::call_command(call@))),
                text::views(flag_names@),
                targets::target_views(targets@),
            ),
    {
        let risk_flags = risk::classify(&call);
        Self::with_flags(
            session_id,
            tool_call_id,
            policy,
            call,
            risk_flags,
            flag_names,
            targets,
        )
    }

    fn approval(&self, request_id: PermissionRequestId, input: &Json, reason: &str) -> (r:
        LocalAction)
        ensures
            r@ == ask_action(self@, request_id, input@, reason@),
    {
        LocalAction::Ask {
            request: ApprovalRequest {
                session_id: self.session_id,
                request_id,
                tool_name: self.call.name.clone(),
                input: input.clone(),
                risk_flags: risk::copy_flags(&self.risk_flags),
                reason: reason.to_string(),
                outside_path: self.outside_path.clone(),
            },
        }
    }

    fn request(&self, request_id: PermissionRequestId, input: &Json, reason: &str) -> (r:
        SessionEvent)
        ensures
            r@ == request_event(self@, request_id, input@, reason@),
    {
        SessionEvent::PermissionRequest {
            session_id: self.session_id,
            request_id,
            reason: reason.to_string(),
            tool_name: self.call.name.clone(),
            input_json: input.clone(),
        }
    }

    fn end_with_error(
        self,
        permissions: &PermissionService,
        state: &mut SessionState,
        before: Vec<SessionEvent>,
        message: String,
        said: &str,
        status: LocalToolRunStatus,
    ) -> (r: (LocalRun, LocalStep))
        ensures
            leads_to(
                r.0,
                *permissions,
                *final(state),
                r.1,
                ended_with_error(
                    self@,
                    permissions@,
                    old(state)@,
                    events::event_views(before@),
                    message@,
                    said@,
                    status,
                ),
            ),
    {
        let mut events = before;
        events::emit(
            &mut events,
            SessionEvent::ToolCallError {
                session_id: self.session_id,
                tool_call_id: self.tool_call_id,
                message: message.clone(),
            },
        );
        state.push(Role::Tool, said);
        let response = ProviderToolResponse {
            tool_call_id: self.tool_call_id,
            output: message,
            is_error: true,
        };
        let mut run = self;
        run.phase = LocalPhase::Ended;
        (run, LocalStep { events, action: LocalAction::Done { response, status } })
    }

    fn start(
        self,
        permissions: &PermissionService,
        state: &SessionState,
        before: Vec<SessionEvent>,
        unlocked: bool,
    ) -> (r: (LocalRun, LocalStep))
        ensures
            leads_to(
                r.0,
                *permissions,
                *state,
                r.1,
                started(self@, permissions@, state@, events::event_views(before@), unlocked),
            ),
    {
        let mut events = before;
        let session_id = self.session_id;
        let tool_call_id = self.tool_call_id;
        events::emit(
            &mut events,
            SessionEvent::ToolInputStart {
                session_id,
                tool_call_id,
                name: self.call.name.clone(),
            },
        );
        events::emit(
            &mut events,
            SessionEvent::ToolInputEnd {
                session_id,
                tool_call_id,
                input_json: self.preview.clone(),
            },
        );
        events::emit(
            &mut events,
            SessionEvent::ToolCallStart {
                session_id,
                tool_call_id,
                name: self.call.name.clone(),
                input_json: self.preview.clone(),
            },
        );
        events::emit(
            &mut events,
            SessionEvent::Status { session_id, status: SessionStatus::RunningTools },
        );
        let mut run = self;
        run.unlocked = unlocked;
        run.phase = LocalPhase::Running;
        (run, LocalStep { events, action: LocalAction::Execute { unlocked } })
    }

    fn ask(
        self,
        permissions: &mut PermissionService,
        state: &SessionState,
        request_id: PermissionRequestId,
        reason: &str,
        phase: LocalPhase,
    ) -> (r: (LocalRun, LocalStep))
        ensures
            leads_to(
                r.0,
                *final(permissions),
                *state,
                r.1,
                asked(self@, old(permissions)@, state@, request_id, reason@, phase@),
            ),
    {
        let flags = risk::copy_flags(&self.risk_flags);
        let _pending = permissions.begin_request(
            request_id,
            &self.call,
            self.preview.clone(),
            flags,
            reason.to_string(),
        );
        let action = self.approval(request_id, &self.preview, reason);
        let mut events = events::no_events();
        events::emit(&mut events, self.request(request_id, &self.preview, reason));
        events::emit(
            &mut events,
            SessionEvent::Status {
                session_id: self.session_id,
                status: SessionStatus::WaitingForPermission,
            },
        );
        let ghost expected = seq![
            request_event(self@, request_id, self@.preview, reason@),
            EventView::Status {
                session_id: self@.session_id,
                status: SessionStatus::WaitingForPermission,
            },
        ];
        assert(events::event_views(events@) =~= expected);
        let mut run = self;
        run.phase = phase;
        (run, LocalStep { events, action })
    }

    /// The first step. The id is for the question to the user, where one is asked.
    pub fn begin(
        self,
        permissions: &mut PermissionService,
        state: &mut SessionState,
        request_id: PermissionRequestId,
    ) -> (r: (LocalRun, LocalStep))
        ensures
            leads_to(
                r.0,
                *final(permissions),
                *final(state),
                r.1,
                begun(self@, old(permissions)@, old(state)@, request_id),
            ),
    {
        if permissions.is_denied_for_session(&self.call) {
            let message = text::cat2(
                "tool call denied for this session: ",
                self.call.name.as_str(),
            );
            let said = message.clone();
            return self.end_with_error(
                permissions,
                state,
                events::no_events(),
                message,
                said.as_str(),
                LocalToolRunStatus::Denied,
            );
        }
        if self.policy != ApprovalPolicy::Never && (self.outside_path.is_some()
            || permissions.should_request(self.policy, &self.risk_flags, &self.call)) {
            let reason = risk_reason(
                self.call.name.as_str(),
                &self.flag_names,
                &self.outside_path,
            );
            return self.ask(
                permissions,
                state,
                request_id,
                reason.as_str(),
                LocalPhase::Asked { request_id },
            );
        }
        let unlocked = permissions.is_allowed(&self.call)
            && targets::execution_needs_unlocked_access(&self.call, &self.risk_flags);
        self.start(permissions, state, events::no_events(), unlocked)
    }

    /// The step behind the user's answer, which may come with a note.
    pub fn decide(
        self,
        permissions: &mut PermissionService,
        state: &mut SessionState,
        decision: PermissionDecision,
        note: Option<String>,
    ) -> (r: (LocalRun, LocalStep))
        requires
            is_asked(self@.phase),
        ensures
            leads_to(
                r.0,
                *final(permissions),
                *final(state),
                r.1,
                decided(self@, old(permissions)@, old(state)@, decision, text::opt(note)),
            ),
    {
        let ghost first = self@;
        let request_id = match &self.phase {
            LocalPhase::Asked { request_id } => *request_id,
            LocalPhase::AskedRetry { request_id, .. } => *request_id,
            LocalPhase::AskedFailure { request_id, .. } => *request_id,
            _ => PermissionRequestId(0),
        };
        permissions.resolve(request_id, decision, &self.call);
        let mut told = events::no_events();
        events::emit(
            &mut told,
            SessionEvent::PermissionResolved {
                session_id: self.session_id,
                request_id,
                decision,
            },
        );
        assert(events::event_views(told@) =~= seq![resolved_event(first, request_id, decision)]);
        let mut run = self;
        let mut phase = LocalPhase::Ended;
        std::mem::swap(&mut run.phase, &mut phase);
        assert(run@ == RunView { phase: PhaseView::Ended, ..first });
        match phase {
            LocalPhase::Asked { request_id: _ } => {
                if decision == PermissionDecision::Deny {
                    let message = denied_message(run.call.name.as_str(), note);
                    let said = message.clone();
                    run.end_with_error(
                        permissions,
                        state,
                        told,
                        message,
                        said.as_str(),
                        LocalToolRunStatus::Denied,
                    )
                } else {
                    let unlocked = targets::execution_needs_unlocked_access(
                        &run.call,
                        &run.risk_flags,
                    );
                    run.start(permissions, state, told, unlocked)
                }
            },
            LocalPhase::AskedRetry { request_id: _, result } => {
                if decision == PermissionDecision::Deny {
                    run.phase = LocalPhase::Completing;
                    (run, LocalStep { events: told, action: LocalAction::Complete { result } })
                } else {
                    run.phase = LocalPhase::Retrying;
                    (
                        run,
                        LocalStep { events: told, action: LocalAction::Execute { unlocked: true } },
                    )
                }
            },
            LocalPhase::AskedFailure { request_id: _, message } => {
                let said = text::cat3(run.call.name.as_str(), " error: ", message.as_str());
                run.end_with_error(
                    permissions,
                    state,
                    told,
                    message,
                    said.as_str(),
                    LocalToolRunStatus::Executed,
                )
            },
            _ => {
                let message = String::new();
                run.end_with_error(permissions, state, told, message, "", LocalToolRunStatus::Executed)
            },
        }
    }

    /// The step before the execution of the call, given what is known of files, and their
    /// keys by their paths: a call that is refused leads on as one that has failed, and
    /// nothing is carried out. The id is for the question to the user, where one is asked.
    pub fn attempt(
        self,
        permissions: &mut PermissionService,
        state: &mut SessionState,
        hashes: &ToolHashCache,
        keys: &TextMap,
        request_id: PermissionRequestId,
    ) -> (r: LocalAttempt)
        requires
            self@.phase is Running || self@.phase is Retrying,
        ensures
            match (r, targets::attempted(self@.call, keys@, hashes@)) {
                (LocalAttempt::Run { run, action }, Ok(asked)) => {
                    &&& run@ == self@
                    &&& action@ == asked
                    &&& *final(permissions) == *old(permissions)
                    &&& *final(state) == *old(state)
                },
                (LocalAttempt::Refused { run, step }, Err(e)) => leads_to(
                    run,
                    *final(permissions),
                    *final(state),
                    step,
                    ran(self@, old(permissions)@, old(state)@, Err(e), false, request_id),
                ),
                _ => false,
            },
    {
        match hashes.attempt(&self.call, keys) {
            Ok(action) => LocalAttempt::Run { run: self, action },
            Err(e) => {
                let (run, step) = self.finish_execution(
                    permissions,
                    state,
                    Err(e),
                    false,
                    request_id,
                );
                LocalAttempt::Refused { run, step }
            },
        }
    }

    /// The step behind the execution of the call, given whether the sandbox seems to have
    /// stopped it. The id is for the question to the user, where one is asked.
    pub fn finish_execution(
        self,
        permissions: &mut PermissionService,
        state: &mut SessionState,
        outcome: Result<ToolResult, ToolExecError>,
        stopped: bool,
        request_id: PermissionRequestId,
    ) -> (r: (LocalRun, LocalStep))
        requires
            self@.phase is Running || self@.phase is Retrying,
        ensures
            leads_to(
                r.0,
                *final(permissions),
                *final(state),
                r.1,
                ran(
                    self@,
                    old(permissions)@,
                    old(state)@,
                    outcome_view(outcome),
                    stopped,
                    request_id,
                ),
            ),
    {
        let retrying = match &self.phase {
            LocalPhase::Retrying => true,
            _ => false,
        };
        match outcome {
            Ok(result) => {
                if !retrying && stopped && !self.unlocked {
                    let reason = text::cat2(
                        self.call.name.as_str(),
                        " was blocked by the workspace sandbox; approve to retry without the sandbox for this tool call",
                    );
                    return self.ask(
                        permissions,
                        state,
                        request_id,
                        reason.as_str(),
                        LocalPhase::AskedRetry { request_id, result },
                    );
                }
                let mut run = self;
                run.phase = LocalPhase::Completing;
                (
                    run,
                    LocalStep {
                        events: events::no_events(),
                        action: LocalAction::Complete { result },
                    },
                )
            },
            Err(e) => {
                if retrying {
                    let mut run = self;
                    run.phase = LocalPhase::Ended;
                    return (
                        run,
                        LocalStep {
                            events: events::no_events(),
                            action: LocalAction::Abort { error: e },
                        },
                    );
                }
                let message = e.message();
                if self.policy == ApprovalPolicy::OnFailure && !permissions.is_allowed(&self.call) {
                    let reason = text::cat3(
                        self.call.name.as_str(),
                        " failed: ",
                        message.as_str(),
                    );
                    let flags = risk::copy_flags(&self.risk_flags);
                    let _pending = permissions.begin_request(
                        request_id,
                        &self.call,
                        self.call.input.clone(),
                        flags,
                        reason.clone(),
                    );
                    let mut told = events::no_events();
                    events::emit(
                        &mut told,
                        self.request(request_id, &self.call.input, reason.as_str()),
                    );
                    assert(events::event_views(told@) =~= seq![
                        request_event(self@, request_id, self@.call.input, reason@),
                    ]);
                    let action = self.approval(request_id, &self.call.input, message.as_str());
                    let mut run = self;
                    run.phase = LocalPhase::AskedFailure { request_id, message };
                    return (run, LocalStep { events: told, action });
                }
                let said = text::cat3(self.call.name.as_str(), " error: ", message.as_str());
                self.end_with_error(
                    permissions,
                    state,
                    events::no_events(),
                    message,
                    said.as_str(),
                    LocalToolRunStatus::Executed,
                )
            },
        }
    }

    /// The last step of the call: its result is told, with the output as the model gets
    /// it, and so are the files that changed.
    pub fn complete(
        self,
        permissions: &PermissionService,
        state: &mut SessionState,
        result: ToolResult,
        inline_output: String,
        files: Vec<PatchFile>,
        additions: u64,
        deletions: u64,
        reports: Vec<DiagnosticFile>,
    ) -> (r: (LocalRun, LocalStep))
        requires
            self@.phase is Completing,
        ensures
            leads_to(
                r.0,
                *permissions,
                *final(state),
                r.1,
                completed(
                    self@,
                    permissions@,
                    old(state)@,
                    result@,
                    inline_output@,
                    events::patch_file_views(files@),
                    additions,
                    deletions,
                    events::diagnostic_views(reports@),
                ),
            ),
    {
        let session_id = self.session_id;
        let said = text::cat3(self.call.name.as_str(), " result:\n", inline_output.as_str());
        state.push(Role::Tool, said.as_str());
        let mut told = events::no_events();
        events::emit(
            &mut told,
            SessionEvent::ToolCallResult {
                session_id,
                tool_call_id: self.tool_call_id,
                title: Some(result.title),
                metadata: result.metadata,
                output: inline_output.clone(),
                exit_code: result.exit_code,
            },
        );
        let ghost first = seq![
            EventView::ToolCallResult {
                session_id,
                tool_call_id: self@.tool_call_id,
                title: Some(result@.title),
                metadata: result@.metadata,
                output: inline_output@,
                exit_code: result@.exit_code,
            },
        ];
        assert(events::event_views(told@) =~= first);
        if files.len() > 0 {
            events::emit(
                &mut told,
                SessionEvent::Patch { session_id, additions, deletions, files },
            );
            events::emit(&mut told, SessionEvent::Diagnostics { session_id, reports });
        }
        let response = ProviderToolResponse {
            tool_call_id: self.tool_call_id,
            output: inline_output,
            is_error: false,
        };
        let mut run = self;
        run.phase = LocalPhase::Ended;
        (
            run,
            LocalStep {
                events: told,
                action: LocalAction::Done { response, status: LocalToolRunStatus::Executed },
            },
        )
    }
}

// ---------------------------------------------------------------------------
// What every tool call keeps to
// ---------------------------------------------------------------------------

/// A call runs only if it was not denied before and nobody has to be asked, or if the
/// user, who was asked, did not deny it.
pub proof fn only_permitted_calls_run(
    run: RunView,
    permissions: PermissionsView,
    session: SessionView,
    request_id: PermissionRequestId,
    decision: PermissionDecision,
    note: Option<Seq<char>>,
)
    ensures
        begun(run, permissions, session, request_id).action is Execute
            ==> !permissions.denied.contains(risk::fingerprint(run.call)) && !asks_first(
            run,
            permissions,
        ),
        is_asked(run.phase) && decided(run, permissions, session, decision, note).action is Execute
            ==> decision != PermissionDecision::Deny,
{
}

/// A call runs without the confinement to the workspace only if a rule allows it or the
/// user has approved it.
pub proof fn unlocked_calls_are_approved(
    run: RunView,
    permissions: PermissionsView,
    session: SessionView,
    request_id: PermissionRequestId,
    decision: PermissionDecision,
    note: Option<Seq<char>>,
)
    ensures
        begun(run, permissions, session, request_id).action == (LocalActionView::Execute {
            unlocked: true,
        }) ==> risk::any_allows(permissions.rules, run.call),
        is_asked(run.phase) && decided(run, permissions, session, decision, note).action == (
        LocalActionView::Execute { unlocked: true }) ==> decision == PermissionDecision::Allow
            || decision == PermissionDecision::AllowAlways,
{
}

/// A call that the user has denied is refused when it comes again, without asking.
pub proof fn a_denied_call_is_refused_again(
    run: RunView,
    permissions: PermissionsView,
    session: SessionView,
    request_id: PermissionRequestId,
    note: Option<Seq<char>>,
    again: RunView,
    later_id: PermissionRequestId,
)
    requires
        again.call == run.call,
        begun(run, permissions, session, request_id).action is Ask,
    ensures
        ({
            let asked = begun(run, permissions, session, request_id);
            let denied = decided(
                asked.run,
                asked.permissions,
                asked.session,
                PermissionDecision::Deny,
                note,
            );
            let refused = begun(again, denied.permissions, denied.session, later_id);
            &&& denied.action matches LocalActionView::Done { status, .. } && status
                == LocalToolRunStatus::Denied
            &&& refused.action matches LocalActionView::Done { status, .. } && status
                == LocalToolRunStatus::Denied
        }),
{
}

/// A call that is done has told one message to the transcript and answers the call that
/// was made; until then the transcript stays as it is.
pub proof fn a_call_is_answered_once(
    run: RunView,
    permissions: PermissionsView,
    session: SessionView,
    request_id: PermissionRequestId,
    decision: PermissionDecision,
    note: Option<Seq<char>>,
    outcome: Result<ToolResultView, ExecErrorView>,
    stopped: bool,
)
    ensures
        answered(run, session, begun(run, permissions, session, request_id)),
        is_asked(run.phase) ==> answered(
            run,
            session,
            decided(run, permissions, session, decision, note),
        ),
        answered(
            run,
            session,
            ran(run, permissions, session, outcome, stopped, request_id),
        ),
{
}

/// Whether an outcome either answers the call, with one more message in the transcript,
/// or leaves the transcript as it is.
pub open spec fn answered(run: RunView, session: SessionView, outcome: LocalOutcome) -> bool {
    match outcome.action {
        LocalActionView::Done { response, .. } => {
            &&& response.tool_call_id == run.tool_call_id
            &&& exists|m: MessageView|
                m.role == Role::Tool && outcome.session.transcript
                    == #[trigger] session.transcript.push(m)
            &&& outcome.run.phase is Ended
        },
        _ => outcome.session == session,
    }
}

/// What an error of a file that must be read first says.
proof fn lemma_fresh_read_message(path: Seq<char>)
    ensures
        ({
            let e = ExecErrorView::Runtime(ToolErrorView::FreshReadRequired { path });
            let message = call::exec_error_message(e);
            text::contains(message, "requires a fresh read_file"@) && text::contains(message, path)
        }),
{
    let e = ExecErrorView::Runtime(ToolErrorView::FreshReadRequired { path });
    let message = call::exec_error_message(e);
    let start = "line-aware patch of "@;
    let rest = " requires a fresh read_file: the file was written since it was last read"@;
    let phrase = "requires a fresh read_file"@;
    reveal_strlit("line-aware patch of ");
    reveal_strlit(" requires a fresh read_file: the file was written since it was last read");
    reveal_strlit("requires a fresh read_file");
    assert(message =~= start + path + rest);
    let i = start.len() as int;
    assert(message.subrange(i, i + path.len()) =~= path);
    assert(text::occurs_at(message, path, i));
    let j = i + path.len() + 1;
    assert(rest.subrange(1, phrase.len() + 1int) =~= phrase);
    assert(message.subrange(j, j + phrase.len()) =~= rest.subrange(1, phrase.len() + 1int));
    assert(text::occurs_at(message, phrase, j));
}

/// A patch of the lines of a file that was written since it was last read is refused, and
/// not carried out: the model is told that the file must be read first, and which. Only
/// where failures are asked about, the user is asked before, and whatever the answer is,
/// the call ends in the same way.
pub proof fn a_line_patch_of_a_written_file_is_refused(
    run: RunView,
    permissions: PermissionsView,
    session: SessionView,
    cache: CacheView,
    keys: Map<Seq<char>, Seq<char>>,
    key: Seq<char>,
    metadata: Option<JsonView>,
    i: int,
    request_id: PermissionRequestId,
    decision: PermissionDecision,
    note: Option<Seq<char>>,
)
    requires
        run.phase is Running,
        0 <= i < targets::line_patched(run.call).len(),
        textmap::lookup(keys, targets::line_patched(run.call)[i]) == Some(key),
    ensures
        ({
            let written = targets::refreshed(cache, key, metadata);
            let needed = targets::read_needed(run.call, keys, written);
            let attempt = targets::attempted(run.call, keys, written);
            let refused = ran(run, permissions, session, Err(attempt->Err_0), false, request_id);
            let end = if refused.action is Ask {
                decided(refused.run, refused.permissions, refused.session, decision, note)
            } else {
                refused
            };
            &&& needed is Some
            &&& attempt is Err
            &&& refused.action is Ask || refused.action is Done
            &&& refused.action is Ask ==> run.policy == ApprovalPolicy::OnFailure
            &&& end.action matches LocalActionView::Done { response, .. } && response.is_error
                && text::contains(response.output, "requires a fresh read_file"@)
                && text::contains(response.output, needed->0)
            &&& end.events.last() matches EventView::ToolCallError { message, .. } && message
                == end.action->response.output
        }),
{
    let written = targets::refreshed(cache, key, metadata);
    targets::a_line_patch_needs_a_fresh_read(cache, run.call, keys, key, metadata, i);
    let path = targets::read_needed(run.call, keys, written)->0;
    lemma_fresh_read_message(path);
}

/// Once the file has been read, a patch of its lines is carried out as any other call is.
pub proof fn a_line_patch_of_a_file_that_was_read_runs(
    call: CallView,
    cache: CacheView,
    keys: Map<Seq<char>, Seq<char>>,
    key: Seq<char>,
    metadata: JsonView,
)
    requires
        json::text_field(metadata, "path"@) == Some(key),
        forall|i: int|
            0 <= i < targets::line_patched(call).len() ==> textmap::lookup(
                keys,
                #[trigger] targets::line_patched(call)[i],
            ) == Some(key),
    ensures
        ({
            let read = targets::read_recorded(cache, metadata);
            targets::attempted(call, keys, read) == call::tool_action(
                targets::guarded_call(call, keys, read),
            )
        }),
{
    targets::a_fresh_read_allows_a_line_patch(cache, call, keys, key, metadata);
}

// ---------------------------------------------------------------------------
// How a call goes on
// ---------------------------------------------------------------------------

/// How a call begins. One that was denied before is answered with an error. Otherwise the
/// user is asked first where the call may lead outside the workspace or the policy says so,
/// unless they never want to be asked, and any other call runs at once.
pub proof fn how_a_call_begins(
    run: RunView,
    permissions: PermissionsView,
    session: SessionView,
    request_id: PermissionRequestId,
)
    ensures
        permissions.denied.contains(risk::fingerprint(run.call)) ==> {
            let next = begun(run, permissions, session, request_id);
            &&& next.action == (LocalActionView::Done {
                response: ToolResponseView {
                    tool_call_id: run.tool_call_id,
                    output: "tool call denied for this session: "@ + run.call.name,
                    is_error: true,
                },
                status: LocalToolRunStatus::Denied,
            })
            &&& next.permissions == permissions
        },
        !permissions.denied.contains(risk::fingerprint(run.call)) ==> {
            let next = begun(run, permissions, session, request_id);
            let asking = run.policy != ApprovalPolicy::Never && (run.outside_path is Some
                || risk::asks(permissions, run.policy, run.risk_flags, run.call));
            &&& next.session == session
            &&& asking <==> next.action is Ask
            &&& !asking <==> next.action is Execute
            &&& asking ==> next.run.phase == (PhaseView::Asked { request_id })
            &&& !asking ==> next.permissions == permissions && next.run.phase is Running
        },
{
}

/// What a question tells: the tool, the input as it is shown, the flags and the reason. It
/// is then open under its id, and the session waits.
pub proof fn what_a_question_tells(
    run: RunView,
    permissions: PermissionsView,
    session: SessionView,
    request_id: PermissionRequestId,
)
    requires
        begun(run, permissions, session, request_id).action is Ask,
    ensures
        ({
            let next = begun(run, permissions, session, request_id);
            let request = next.action->request;
            let flags = if run.flag_names.len() == 0 {
                "approval required for "@ + run.call.name
            } else {
                run.call.name + " flagged: "@ + text::join(run.flag_names, ", "@)
            };
            &&& request.session_id == run.session_id
            &&& request.request_id == request_id
            &&& request.tool_name == run.call.name
            &&& request.input == run.preview
            &&& request.risk_flags == run.risk_flags
            &&& request.outside_path == run.outside_path
            &&& run.outside_path is None ==> request.reason == flags
            &&& run.outside_path matches Some(path) ==> request.reason == flags
                + " (accessing outside workspace: "@ + path + ")"@
            &&& next.permissions.pending.dom().contains(request_id)
            &&& next.permissions.pending[request_id].fingerprint == risk::fingerprint(run.call)
            &&& next.permissions.rules == permissions.rules
            &&& next.permissions.denied == permissions.denied
            &&& next.events.len() == 2
            &&& next.events[0] == (EventView::PermissionRequest {
                session_id: run.session_id,
                request_id,
                reason: request.reason,
                tool_name: run.call.name,
                input_json: run.preview,
            })
            &&& next.events[1] == (EventView::Status {
                session_id: run.session_id,
                status: SessionStatus::WaitingForPermission,
            })
        }),
{
}

/// A call that starts to run is told from its name to its start, and the session says that
/// tools are running.
pub proof fn a_running_call_is_told(
    run: RunView,
    permissions: PermissionsView,
    session: SessionView,
    request_id: PermissionRequestId,
)
    requires
        begun(run, permissions, session, request_id).action is Execute,
    ensures
        begun(run, permissions, session, request_id).events == seq![
            EventView::ToolInputStart {
                session_id: run.session_id,
                tool_call_id: run.tool_call_id,
                name: run.call.name,
            },
            EventView::ToolInputEnd {
                session_id: run.session_id,
                tool_call_id: run.tool_call_id,
                input_json: run.preview,
            },
            EventView::ToolCallStart {
                session_id: run.session_id,
                tool_call_id: run.tool_call_id,
                name: run.call.name,
                input_json: run.preview,
            },
            EventView::Status {
                session_id: run.session_id,
                status: SessionStatus::RunningTools,
            },
        ],
{
}

/// What an answer leads to. The answer is told first. A call that is allowed, once or
/// always, runs; one that is denied is answered with an error that says so, with the user's
/// note where there is one. A call that the sandbox stopped runs again without it, or ends
/// with what it gave; one that failed ends with its error whatever the answer is.
pub proof fn what_an_answer_leads_to(
    run: RunView,
    permissions: PermissionsView,
    session: SessionView,
    decision: PermissionDecision,
    note: Option<Seq<char>>,
)
    requires
        is_asked(run.phase),
    ensures
        ({
            let next = decided(run, permissions, session, decision, note);
            let request_id = match run.phase {
                PhaseView::Asked { request_id } => request_id,
                PhaseView::AskedRetry { request_id, .. } => request_id,
                PhaseView::AskedFailure { request_id, .. } => request_id,
                _ => arbitrary(),
            };
            &&& next.events.len() > 0
            &&& next.events[0] == (EventView::PermissionResolved {
                session_id: run.session_id,
                request_id,
                decision,
            })
            &&& next.permissions == risk::resolved(permissions, request_id, decision, run.call)
            &&& run.phase is Asked && decision != PermissionDecision::Deny ==> next.action == (
            LocalActionView::Execute {
                unlocked: targets::needs_unlocked(run.call, run.risk_flags),
            }) && next.run.phase is Running
            &&& run.phase is Asked && decision == PermissionDecision::Deny ==> (
            next.action matches LocalActionView::Done { response, status } && status
                == LocalToolRunStatus::Denied && response.is_error && response.tool_call_id
                == run.tool_call_id && response.output == (match note {
                Some(n) if text::trimmed(n).len() > 0 => "tool call denied by user: "@
                    + run.call.name + " - "@ + n,
                _ => "tool call denied by user: "@ + run.call.name,
            }))
            &&& run.phase matches PhaseView::AskedRetry { result, .. } ==> (if decision
                == PermissionDecision::Deny {
                next.action == (LocalActionView::Complete { result })
            } else {
                next.action == (LocalActionView::Execute { unlocked: true }) && next.run.phase
                    is Retrying
            })
            &&& run.phase matches PhaseView::AskedFailure { message, .. } ==> (
            next.action matches LocalActionView::Done { response, status } && status
                == LocalToolRunStatus::Executed && response.is_error && response.output == message)
        }),
{
}

/// What the execution of a call leads to. A result is noted, unless the sandbox seems to
/// have stopped the call and it has not run without it: then the user is asked. An error is
/// told and answered, unless failures are asked about and no rule allows the call; when a
/// call that was tried again fails, the turn ends.
pub proof fn what_a_result_leads_to(
    run: RunView,
    permissions: PermissionsView,
    session: SessionView,
    result: ToolResultView,
    e: ExecErrorView,
    stopped: bool,
    request_id: PermissionRequestId,
)
    requires
        run.phase is Running || run.phase is Retrying,
    ensures
        ({
            let next = ran(run, permissions, session, Ok(result), stopped, request_id);
            if run.phase is Running && stopped && !run.unlocked {
                &&& next.action is Ask
                &&& next.run.phase == (PhaseView::AskedRetry { request_id, result })
                &&& next.action->request.reason == run.call.name
                    + " was blocked by the workspace sandbox; approve to retry without the sandbox for this tool call"@
            } else {
                next.action == (LocalActionView::Complete { result }) && next.run.phase
                    is Completing && next.events.len() == 0
            }
        }),
        ({
            let next = ran(run, permissions, session, Err(e), stopped, request_id);
            let message = call::exec_error_message(e);
            if run.phase is Retrying {
                next.action == (LocalActionView::Abort { error: e })
            } else if run.policy == ApprovalPolicy::OnFailure && !risk::any_allows(
                permissions.rules,
                run.call,
            ) {
                &&& next.action is Ask
                &&& next.action->request.reason == message
                &&& next.run.phase == (PhaseView::AskedFailure { request_id, message })
                &&& next.permissions.pending.dom().contains(request_id)
            } else {
                &&& next.action == (LocalActionView::Done {
                    response: ToolResponseView {
                        tool_call_id: run.tool_call_id,
                        output: message,
                        is_error: true,
                    },
                    status: LocalToolRunStatus::Executed,
                })
                &&& next.events == seq![
                    EventView::ToolCallError {
                        session_id: run.session_id,
                        tool_call_id: run.tool_call_id,
                        message,
                    },
                ]
                &&& next.session.transcript == session.transcript.push(
                    MessageView {
                        role: Role::Tool,
                        content: run.call.name + " error: "@ + message,
                    },
                )
            }
        }),
{
}

/// What is told of a call that has run: its result with the output as the model gets it,
/// in the events, in the transcript and in the answer, and then the files that changed,
/// where there are any.
pub proof fn what_is_told_of_a_result(
    run: RunView,
    permissions: PermissionsView,
    session: SessionView,
    result: ToolResultView,
    output: Seq<char>,
    files: Seq<PatchFileView>,
    additions: u64,
    deletions: u64,
    reports: Seq<DiagnosticView>,
)
    ensures
        ({
            let end = completed(
                run,
                permissions,
                session,
                result,
                output,
                files,
                additions,
                deletions,
                reports,
            );
            &&& end.action == (LocalActionView::Done {
                response: ToolResponseView {
                    tool_call_id: run.tool_call_id,
                    output,
                    is_error: false,
                },
                status: LocalToolRunStatus::Executed,
            })
            &&& end.session.transcript == session.transcript.push(
                MessageView {
                    role: Role::Tool,
                    content: run.call.name + " result:\n"@ + output,
                },
            )
            &&& end.events[0] == (EventView::ToolCallResult {
                session_id: run.session_id,
                tool_call_id: run.tool_call_id,
                title: Some(result.title),
                metadata: result.metadata,
                output,
                exit_code: result.exit_code,
            })
            &&& files.len() == 0 ==> end.events.len() == 1
            &&& files.len() > 0 ==> end.events.len() == 3 && end.events[1] == (EventView::Patch {
                session_id: run.session_id,
                additions,
                deletions,
                files,
            }) && end.events[2] == (EventView::Diagnostics {
                session_id: run.session_id,
                reports,
            })
            &&& end.permissions == permissions
        }),
{
}

/// What is told of a command that still runs is how long it has run.
pub proof fn a_long_call_tells_its_time(elapsed_secs: nat)
    ensures
        progress_text(elapsed_secs) == "still running for "@ + error::duration_text(elapsed_secs),
{
}

/// A call that has not begun is locked, and holds what it was made with.
pub proof fn a_call_begins_locked(
    session_id: SessionId,
    tool_call_id: ToolCallId,
    policy: ApprovalPolicy,
    call: CallView,
    risk_flags: Seq<RiskFlag>,
    flag_names: Seq<Seq<char>>,
    targets: Seq<TargetView>,
)
    ensures
        ({
            let run = fresh(
                session_id,
                tool_call_id,
                policy,
                call,
                risk_flags,
                flag_names,
                targets,
            );
            &&& !run.unlocked && run.phase is Start
            &&& run.session_id == session_id && run.tool_call_id == tool_call_id
            &&& run.policy == policy && run.call == call
            &&& run.risk_flags == risk_flags && run.flag_names == flag_names
            &&& run.outside_path == targets::outside_path(call)
        }),
{
}

} // verus!
