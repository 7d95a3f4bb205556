//! How a turn goes with the provider that speaks the chat completions API.
use vstd::prelude::*;

use crate::json;
use crate::json::{Json, JsonView};
use crate::provider::bridge;
use crate::provider::common::ToolResponseView;
use crate::provider::compaction;
use crate::provider::compaction::Compaction;
use crate::provider::copilot;
use crate::provider::copilot::{
    AssistantView, ChatOutcome, ParsedChatEvent, PendingAssistantMessage, PendingToolCall, SlotView,
};
use crate::provider::copilot_request;
use crate::provider::http;
use crate::provider::http::{
    ChunkOutcome, ChunkView, HttpAction, HttpActionView, HttpStep, ResponseOutcome, ResponseView,
    ToolOutcome, ToolOutcomeView,
};
use crate::provider::sse;
use crate::provider::sse::{ProgressView, StreamProgress, TypeKeys};
use crate::runtime::events;
use crate::runtime::events::{EventView, SessionEvent};
use crate::runtime::prompt::TurnRequest;
use crate::runtime::types::{SessionId, SessionStatus, StopReason};
use crate::text;

verus! {

/// How far a turn has got.
#[derive(Debug, Clone, Copy, PartialEq, Eq, Structural)]
pub enum CopilotPhase {
    /// A request is being sent.
    Requesting,
    /// The next piece of the response is awaited.
    Reading,
    /// Events of the response have to be parsed.
    Framing,
    /// The response has ended, and its last event has to be parsed.
    LastFrame,
    /// The results of tools are awaited.
    Awaiting,
    Ended,
}

/// How many tokens a conversation should take at most, and how many it may take.
#[derive(Debug, Clone, Copy, PartialEq, Eq, Structural)]
pub struct ContextLimits {
    pub soft: usize,
    pub hard: usize,
}

/// A turn with the provider.
#[derive(Debug)]
pub struct CopilotTurn {
    pub session_id: SessionId,
    /// How long the provider may be silent, in seconds.
    pub idle_secs: u64,
    pub limits: ContextLimits,
    /// The conversation.
    pub messages: Vec<Json>,
    /// How often a response that breaks off may be asked for again.
    pub retries: u64,
    pub progress: StreamProgress,
    pub buffer: String,
    /// The events that have to be parsed.
    pub frames: Vec<String>,
    /// The reply, as far as it has come.
    pub assistant: PendingAssistantMessage,
    pub calls: Vec<PendingToolCall>,
    /// How many of the calls have their results.
    pub answered: usize,
    pub phase: CopilotPhase,
}

/// The content of a `CopilotTurn`.
pub struct CopilotView {
    pub session_id: SessionId,
    pub idle_secs: u64,
    pub limits: ContextLimits,
    pub messages: Seq<JsonView>,
    pub retries: u64,
    pub progress: ProgressView,
    pub buffer: Seq<char>,
    pub frames: Seq<Seq<char>>,
    pub assistant: AssistantView,
    pub calls: Seq<SlotView>,
    pub answered: nat,
    pub phase: CopilotPhase,
}

impl View for CopilotTurn {
    type V = CopilotView;

    open spec fn view(&self) -> CopilotView {
        CopilotView {
            session_id: self.session_id,
            idle_secs: self.idle_secs,
            limits: self.limits,
            messages: json::array_view(self.messages@),
            retries: self.retries,
            progress: self.progress@,
            buffer: self.buffer@,
            frames: text::views(self.frames@),
            assistant: self.assistant@,
            calls: copilot::slot_views(self.calls@),
            answered: self.answered as nat,
            phase: self.phase,
        }
    }
}

/// What a step leads to.
pub struct CopilotOutcome {
    pub turn: CopilotView,
    pub events: Seq<EventView>,
    pub action: HttpActionView,
}

/// Whether a step has led to an outcome.
pub open spec fn came_to(turn: CopilotView, step: HttpStep, outcome: CopilotOutcome) -> bool {
    &&& turn == outcome.turn
    &&& events::event_views(step.events@) == outcome.events
    &&& step.action@ == outcome.action
}

/// The turn goes on.
pub open spec fn goes_on(
    turn: CopilotView,
    phase: CopilotPhase,
    told: Seq<EventView>,
    action: HttpActionView,
) -> CopilotOutcome {
    CopilotOutcome { turn: CopilotView { phase, ..turn }, events: told, action }
}

/// The turn ends.
pub open spec fn ends(turn: CopilotView, told: Seq<EventView>) -> CopilotOutcome {
    goes_on(turn, CopilotPhase::Ended, told, HttpActionView::Finished)
}

pub open spec fn error_event(turn: CopilotView, message: Seq<char>) -> EventView {
    EventView::Error { session_id: turn.session_id, message }
}

/// The turn has been cancelled.
pub open spec fn interrupted(turn: CopilotView) -> CopilotOutcome {
    ends(
        turn,
        seq![
            EventView::Result {
                session_id: turn.session_id,
                stop_reason: StopReason::Interrupted,
            },
        ],
    )
}

/// The conversation is compacted, where it has to be, and sent.
pub open spec fn attempt(turn: CopilotView, told: Seq<EventView>) -> CopilotOutcome {
    match compaction::compaction(turn.messages, turn.limits.soft, turn.limits.hard) {
        Compaction::Unchanged => goes_on(
            turn,
            CopilotPhase::Requesting,
            told,
            HttpActionView::Request,
        ),
        Compaction::Compacted { messages, original, tokens } => goes_on(
            CopilotView { messages, ..turn },
            CopilotPhase::Requesting,
            told.push(
                EventView::ContextPrepared {
                    session_id: turn.session_id,
                    token_count: tokens as u64,
                    original_token_count: original as u64,
                    compacted: true,
                    summary: Some("Copilot tool-loop history compacted locally"@),
                },
            ),
            HttpActionView::Request,
        ),
        Compaction::TooLong { tokens } => ends(
            turn,
            told.push(
                error_event(
                    turn,
                    "Inductor refused to send an estimated "@ + text::decimal(tokens as nat)
                        + "-token Copilot input because the hard ceiling is "@ + text::decimal(
                        turn.limits.hard as nat,
                    ) + " tokens"@,
                ),
            ),
        ),
    }
}

/// The turn begins with a conversation.
pub open spec fn copilot_begun(
    session_id: SessionId,
    idle_secs: u64,
    limits: ContextLimits,
    messages: Seq<JsonView>,
) -> CopilotOutcome {
    attempt(
        CopilotView {
            session_id,
            idle_secs,
            limits,
            messages,
            retries: 1,
            progress: sse::unread(seq![], None),
            buffer: seq![],
            frames: seq![],
            assistant: copilot::silent(0),
            calls: seq![],
            answered: 0,
            phase: CopilotPhase::Requesting,
        },
        seq![EventView::Status { session_id, status: SessionStatus::Starting }],
    )
}

/// A request has been answered, or has not. The calls of the reply get the id and those
/// that follow.
pub open spec fn copilot_answered(turn: CopilotView, outcome: ResponseView, first_id: u128)
    -> CopilotOutcome {
    match outcome {
        ResponseView::Cancelled => interrupted(turn),
        ResponseView::Idle => ends(
            turn,
            seq![
                error_event(
                    turn,
                    "Copilot provider produced no response for "@ + text::decimal(
                        turn.idle_secs as nat,
                    ) + " seconds; stopped the stale run"@,
                ),
            ],
        ),
        ResponseView::Failed { error } => goes_on(
            turn,
            CopilotPhase::Ended,
            seq![],
            HttpActionView::Fail { error },
        ),
        ResponseView::Refused { status, body } => ends(
            turn,
            seq![
                error_event(
                    turn,
                    "copilot provider request failed with HTTP "@ + status + ": "@
                        + copilot_request::redacted(body),
                ),
            ],
        ),
        ResponseView::Opened { status, content_type } => goes_on(
            CopilotView {
                progress: sse::unread(status, content_type),
                buffer: seq![],
                frames: seq![],
                assistant: copilot::silent(first_id),
                calls: seq![],
                answered: 0,
                ..turn
            },
            CopilotPhase::Reading,
            seq![
                EventView::Status {
                    session_id: turn.session_id,
                    status: SessionStatus::Streaming,
                },
            ],
            HttpActionView::NextChunk,
        ),
    }
}

/// A piece of the response has come, given the text that it holds.
pub open spec fn text_came(turn: CopilotView, bytes: nat, added: Seq<char>) -> CopilotOutcome {
    let all = turn.buffer + added;
    let after = CopilotView {
        progress: ProgressView {
            bytes_read: (turn.progress.bytes_read + bytes) as u64,
            ..turn.progress
        },
        buffer: sse::unframed(all),
        frames: sse::frames(all),
        ..turn
    };
    if sse::frames(all).len() == 0 {
        goes_on(after, CopilotPhase::Reading, seq![], HttpActionView::NextChunk)
    } else {
        goes_on(after, CopilotPhase::Framing, seq![], HttpActionView::NextFrame)
    }
}

/// The response is complete: calls that can be carried out are told, and the turn ends
/// unless there are any.
pub open spec fn response_done(turn: CopilotView, told: Seq<EventView>) -> CopilotOutcome {
    let assistant = copilot::all_marked(turn.assistant);
    let events = told + copilot::requests(turn.session_id, turn.assistant.tool_calls);
    let calls = copilot::requested(assistant.tool_calls);
    let after = CopilotView { assistant, calls, answered: 0, ..turn };
    if calls.len() == 0 {
        ends(
            after,
            events.push(
                EventView::Result {
                    session_id: turn.session_id,
                    stop_reason: StopReason::EndTurn,
                },
            ),
        )
    } else {
        goes_on(
            CopilotView {
                messages: turn.messages.push(copilot::chat_message(assistant)),
                ..after
            },
            CopilotPhase::Awaiting,
            events,
            HttpActionView::AwaitTool,
        )
    }
}

/// What came of waiting for the next piece of the response.
pub open spec fn copilot_read(turn: CopilotView, outcome: ChunkView) -> CopilotOutcome {
    match outcome {
        ChunkView::Cancelled => interrupted(turn),
        ChunkView::Idle => ends(
            turn,
            seq![
                error_event(
                    turn,
                    "Copilot provider stream produced no events for "@ + text::decimal(
                        turn.idle_secs as nat,
                    ) + " seconds; stopped the stale run"@,
                ),
            ],
        ),
        ChunkView::Failed { error } => if !turn.progress.visible && turn.retries > 0 {
            attempt(CopilotView { retries: (turn.retries - 1) as u64, ..turn }, seq![])
        } else {
            goes_on(
                turn,
                CopilotPhase::Ended,
                seq![],
                HttpActionView::Fail {
                    error: sse::decode_error("Copilot"@, error, turn.progress),
                },
            )
        },
        ChunkView::Bytes { bytes } => text_came(turn, bytes.len(), text::lossy_text(bytes)),
        ChunkView::Ended => if text::trimmed(turn.buffer).len() == 0 {
            response_done(turn, seq![])
        } else {
            goes_on(
                CopilotView { frames: seq![turn.buffer], buffer: seq![], ..turn },
                CopilotPhase::LastFrame,
                seq![],
                HttpActionView::NextFrame,
            )
        },
    }
}

/// The first event that has to be parsed has been, given the type that it tells. Where the
/// provider says that it is done, what has come with that is dropped.
pub open spec fn frame_parsed(turn: CopilotView, parsed: ChatOutcome, kind: Option<Seq<char>>)
    -> CopilotOutcome {
    let after = CopilotView {
        frames: turn.frames.skip(1),
        assistant: parsed.assistant,
        ..turn
    };
    if turn.phase == CopilotPhase::LastFrame {
        response_done(after, parsed.events)
    } else {
        let counted = CopilotView {
            frames: if parsed.done {
                seq![]
            } else {
                after.frames
            },
            progress: ProgressView {
                events_parsed: (turn.progress.events_parsed + 1) as u64,
                last_event_type: kind,
                visible: turn.progress.visible || sse::any_visible(parsed.events),
                ..turn.progress
            },
            ..after
        };
        if counted.frames.len() == 0 {
            goes_on(counted, CopilotPhase::Reading, parsed.events, HttpActionView::NextChunk)
        } else {
            goes_on(counted, CopilotPhase::Framing, parsed.events, HttpActionView::NextFrame)
        }
    }
}

/// The first event that has to be parsed is.
pub open spec fn copilot_framed(turn: CopilotView) -> CopilotOutcome {
    frame_parsed(
        turn,
        copilot::chat_parsed(turn.session_id, turn.assistant, turn.frames[0]),
        sse::first_type(text::lines(turn.frames[0]), TypeKeys::ObjectOrType),
    )
}

/// A tool's result has come, or will not.
pub open spec fn copilot_tool(turn: CopilotView, outcome: ToolOutcomeView) -> CopilotOutcome {
    let call = turn.calls[turn.answered as int];
    match outcome {
        ToolOutcomeView::Cancelled => interrupted(turn),
        ToolOutcomeView::Lost => ends(
            turn,
            seq![
                error_event(turn, "copilot provider lost local tool result for "@ + call.name),
                EventView::Result { session_id: turn.session_id, stop_reason: StopReason::Error },
            ],
        ),
        ToolOutcomeView::Done { response } => if response.tool_call_id != call.tool_call_id {
            goes_on(turn, CopilotPhase::Awaiting, seq![], HttpActionView::AwaitTool)
        } else {
            let after = CopilotView {
                messages: turn.messages.push(
                    copilot::result_message(call.provider_id, response),
                ),
                answered: turn.answered + 1,
                ..turn
            };
            if after.answered < turn.calls.len() {
                goes_on(after, CopilotPhase::Awaiting, seq![], HttpActionView::AwaitTool)
            } else {
                attempt(CopilotView { retries: 1, ..after }, seq![])
            }
        },
    }
}

impl CopilotTurn {
    /// What holds of a turn at every time.
    pub open spec fn valid(self) -> bool {
        &&& self.phase == CopilotPhase::Framing || self.phase == CopilotPhase::LastFrame
            ==> self.frames@.len() > 0
        &&& self.phase == CopilotPhase::Awaiting ==> self.answered < self.calls@.len()
    }

    fn attempt(&mut self, told: Vec<SessionEvent>) -> (step: HttpStep)
        ensures
            final(self).valid(),
            came_to(final(self)@, step, attempt(old(self)@, events::event_views(told@))),
    {
        let session_id = self.session_id;
        let mut told = told;
        match compaction::compact_copilot_messages(
            &mut self.messages,
            self.limits.soft,
            self.limits.hard,
        ) {
            Ok(Some((original, tokens))) => {
                events::emit(
                    &mut told,
                    SessionEvent::ContextPrepared {
                        session_id,
                        token_count: tokens as u64,
                        original_token_count: original as u64,
                        compacted: true,
                        summary: Some("Copilot tool-loop history compacted locally".to_string()),
                    },
                );
                self.phase = CopilotPhase::Requesting;
                HttpStep { events: told, action: HttpAction::Request }
            },
            Ok(None) => {
                self.phase = CopilotPhase::Requesting;
                HttpStep { events: told, action: HttpAction::Request }
            },
            Err(tokens) => {
                let message = text::cat5(
                    "Inductor refused to send an estimated ",
                    text::decimal_text(tokens as u64).as_str(),
                    "-token Copilot input because the hard ceiling is ",
                    text::decimal_text(self.limits.hard as u64).as_str(),
                    " tokens",
                );
                events::emit(&mut told, SessionEvent::Error { session_id, message });
                self.phase = CopilotPhase::Ended;
                HttpStep { events: told, action: HttpAction::Finished }
            },
        }
    }

    /// The turn begins with a conversation.
    pub fn begin(
        session_id: SessionId,
        idle_secs: u64,
        limits: ContextLimits,
        messages: Vec<Json>,
    ) -> (r: (CopilotTurn, HttpStep))
        ensures
            r.0.valid(),
            came_to(
                r.0@,
                r.1,
                copilot_begun(session_id, idle_secs, limits, json::array_view(messages@)),
            ),
    {
        let mut turn = CopilotTurn {
            session_id,
            idle_secs,
            limits,
            messages,
            retries: 1,
            progress: StreamProgress::new(String::new(), None),
            buffer: String::new(),
            frames: Vec::new(),
            assistant: PendingAssistantMessage::new(0),
            calls: Vec::new(),
            answered: 0,
            phase: CopilotPhase::Requesting,
        };
        assert(turn@.frames =~= seq![]);
        assert(turn@.calls =~= seq![]);
        assert(turn@.progress.status =~= seq![]);
        assert(turn@.buffer =~= seq![]);
        let told = bridge::one_event(
            SessionEvent::Status { session_id, status: SessionStatus::Starting },
        );
        let step = turn.attempt(told);
        (turn, step)
    }

    /// The request that has to be sent.
    pub fn body(&self, req: &TurnRequest) -> (r: Json)
        ensures
            r@ == copilot_request::body_json(
                req@,
                self@.messages,
                copilot_request::zero_json(),
            ),
    {
        copilot_request::chat_body_with_messages(req, json::copy_items(&self.messages))
    }

    fn end_with_error(&mut self, message: String) -> (step: HttpStep)
        ensures
            final(self).valid(),
            came_to(
                final(self)@,
                step,
                ends(old(self)@, seq![error_event(old(self)@, message@)]),
            ),
    {
        let session_id = self.session_id;
        self.phase = CopilotPhase::Ended;
        HttpStep {
            events: bridge::one_event(SessionEvent::Error { session_id, message }),
            action: HttpAction::Finished,
        }
    }

    fn interrupt(&mut self) -> (step: HttpStep)
        ensures
            final(self).valid(),
            came_to(final(self)@, step, interrupted(old(self)@)),
    {
        let session_id = self.session_id;
        self.phase = CopilotPhase::Ended;
        HttpStep {
            events: bridge::one_event(
                SessionEvent::Result { session_id, stop_reason: StopReason::Interrupted },
            ),
            action: HttpAction::Finished,
        }
    }

    /// A request has been answered, or has not. The calls of the reply get the id and those
    /// that follow.
    pub fn answered(&mut self, outcome: ResponseOutcome, first_id: u128) -> (step: HttpStep)
        requires
            old(self).valid(),
            old(self).phase == CopilotPhase::Requesting,
        ensures
            final(self).valid(),
            came_to(final(self)@, step, copilot_answered(old(self)@, outcome@, first_id)),
    {
        match outcome {
            ResponseOutcome::Cancelled => self.interrupt(),
            ResponseOutcome::Idle => {
                let message = text::cat3(
                    "Copilot provider produced no response for ",
                    text::decimal_text(self.idle_secs).as_str(),
                    " seconds; stopped the stale run",
                );
                self.end_with_error(message)
            },
            ResponseOutcome::Failed { error } => {
                self.phase = CopilotPhase::Ended;
                http::step_of(HttpAction::Fail { error })
            },
            ResponseOutcome::Refused { status, body } => {
                let message = text::cat4(
                    "copilot provider request failed with HTTP ",
                    status.as_str(),
                    ": ",
                    copilot_request::redact_error_body(body.as_str()).as_str(),
                );
                self.end_with_error(message)
            },
            ResponseOutcome::Opened { status, content_type } => {
                let session_id = self.session_id;
                self.progress = StreamProgress::new(status, content_type);
                self.buffer = String::new();
                self.frames = Vec::new();
                self.assistant = PendingAssistantMessage::new(first_id);
                self.calls = Vec::new();
                self.answered = 0;
                self.phase = CopilotPhase::Reading;
                assert(self@.frames =~= seq![]);
                assert(self@.calls =~= seq![]);
                assert(self@.buffer =~= seq![]);
                HttpStep {
                    events: bridge::one_event(
                        SessionEvent::Status { session_id, status: SessionStatus::Streaming },
                    ),
                    action: HttpAction::NextChunk,
                }
            },
        }
    }

    /// A piece of the response has come, given the text that it holds.
    pub fn text_came(&mut self, bytes: usize, added: &str) -> (step: HttpStep)
        requires
            old(self).valid(),
            old(self).phase == CopilotPhase::Reading,
            old(self).progress.bytes_read + bytes <= u64::MAX,
        ensures
            final(self).valid(),
            came_to(final(self)@, step, text_came(old(self)@, bytes as nat, added@)),
    {
        self.progress.bytes_read = self.progress.bytes_read + bytes as u64;
        self.buffer.push_str(added);
        self.frames = sse::drain_sse_events(&mut self.buffer);
        if self.frames.len() == 0 {
            http::step_of(HttpAction::NextChunk)
        } else {
            self.phase = CopilotPhase::Framing;
            http::step_of(HttpAction::NextFrame)
        }
    }

    fn response_done(&mut self, told: Vec<SessionEvent>) -> (step: HttpStep)
        ensures
            final(self).valid(),
            came_to(
                final(self)@,
                step,
                response_done(old(self)@, events::event_views(told@)),
            ),
    {
        let session_id = self.session_id;
        let mut told = told;
        let ready = self.assistant.emit_ready_tool_requests(session_id);
        copilot::append_events(&mut told, ready);
        self.calls = self.assistant.requested_tool_calls();
        self.answered = 0;
        assert(self@.calls.len() == self.calls@.len());
        if self.calls.len() == 0 {
            self.phase = CopilotPhase::Ended;
            events::emit(
                &mut told,
                SessionEvent::Result { session_id, stop_reason: StopReason::EndTurn },
            );
            return HttpStep { events: told, action: HttpAction::Finished };
        }
        let message = self.assistant.to_chat_message();
        json::push_item(&mut self.messages, message);
        self.phase = CopilotPhase::Awaiting;
        HttpStep { events: told, action: HttpAction::AwaitTool }
    }

    /// What came of waiting for the next piece of the response.
    pub fn read(&mut self, outcome: ChunkOutcome) -> (step: HttpStep)
        requires
            old(self).valid(),
            old(self).phase == CopilotPhase::Reading,
            outcome matches ChunkOutcome::Bytes { bytes } ==> old(self).progress.bytes_read
                + bytes@.len() <= u64::MAX,
        ensures
            final(self).valid(),
            came_to(final(self)@, step, copilot_read(old(self)@, outcome@)),
    {
        match outcome {
            ChunkOutcome::Cancelled => self.interrupt(),
            ChunkOutcome::Idle => {
                let message = text::cat3(
                    "Copilot provider stream produced no events for ",
                    text::decimal_text(self.idle_secs).as_str(),
                    " seconds; stopped the stale run",
                );
                self.end_with_error(message)
            },
            ChunkOutcome::Failed { error } => {
                if !self.progress.visible && self.retries > 0 {
                    self.retries = self.retries - 1;
                    self.attempt(events::no_events())
                } else {
                    let error = sse::format_stream_decode_error(
                        "Copilot",
                        &error,
                        &self.progress,
                    );
                    self.phase = CopilotPhase::Ended;
                    http::step_of(HttpAction::Fail { error })
                }
            },
            ChunkOutcome::Bytes { bytes } => {
                let added = text::lossy_of(bytes.as_slice());
                self.text_came(bytes.len(), added.as_str())
            },
            ChunkOutcome::Ended => {
                let last = sse::drain_sse_events_at_eof(&mut self.buffer);
                assert(text::views(last@).len() == last@.len());
                if last.len() == 0 {
                    self.response_done(events::no_events())
                } else {
                    self.frames = last;
                    self.phase = CopilotPhase::LastFrame;
                    http::step_of(HttpAction::NextFrame)
                }
            },
        }
    }

    /// The first event that has to be parsed has been: this is the reply with what the event
    /// adds to it, what the event says, and the type that it tells.
    pub fn frame_given(
        &mut self,
        assistant: PendingAssistantMessage,
        parsed: ParsedChatEvent,
        kind: Option<String>,
    ) -> (step: HttpStep)
        requires
            old(self).valid(),
            old(self).phase == CopilotPhase::Framing || old(self).phase == CopilotPhase::LastFrame,
            old(self).progress.events_parsed < u64::MAX,
        ensures
            final(self).valid(),
            came_to(
                final(self)@,
                step,
                frame_parsed(
                    old(self)@,
                    ChatOutcome {
                        assistant: assistant@,
                        events: events::event_views(parsed.events@),
                        done: parsed.done,
                    },
                    text::opt(kind),
                ),
            ),
    {
        let visible = sse::are_visible(&parsed.events);
        let ghost before = self.frames@;
        let _done = self.frames.remove(0);
        assert(text::views(self.frames@) =~= text::views(before).skip(1));
        self.assistant = assistant;
        if self.phase == CopilotPhase::LastFrame {
            return self.response_done(parsed.events);
        }
        if parsed.done {
            self.frames = Vec::new();
            assert(text::views(self.frames@) =~= seq![]);
        }
        self.progress.events_parsed = self.progress.events_parsed + 1;
        self.progress.last_event_type = kind;
        self.progress.visible = self.progress.visible || visible;
        if self.frames.len() == 0 {
            self.phase = CopilotPhase::Reading;
            HttpStep { events: parsed.events, action: HttpAction::NextChunk }
        } else {
            self.phase = CopilotPhase::Framing;
            HttpStep { events: parsed.events, action: HttpAction::NextFrame }
        }
    }

    /// The first event that has to be parsed is.
    pub fn frame(&mut self) -> (step: HttpStep)
        requires
            old(self).valid(),
            old(self).phase == CopilotPhase::Framing || old(self).phase == CopilotPhase::LastFrame,
            old(self).progress.events_parsed < u64::MAX,
        ensures
            final(self).valid(),
            came_to(final(self)@, step, copilot_framed(old(self)@)),
    {
        let raw = self.frames[0].clone();
        let kind = sse::sse_event_type(raw.as_str(), TypeKeys::ObjectOrType);
        let mut assistant = PendingAssistantMessage::new(0);
        std::mem::swap(&mut assistant, &mut self.assistant);
        let parsed = copilot::parse_chat_stream_event(
            self.session_id,
            raw.as_str(),
            &mut assistant,
        );
        self.frame_given(assistant, parsed, kind)
    }

    /// A tool's result has come, or will not.
    pub fn tool(&mut self, outcome: ToolOutcome) -> (step: HttpStep)
        requires
            old(self).valid(),
            old(self).phase == CopilotPhase::Awaiting,
        ensures
            final(self).valid(),
            came_to(final(self)@, step, copilot_tool(old(self)@, outcome@)),
    {
        let session_id = self.session_id;
        assert(self@.calls[self.answered as int] == self.calls@[self.answered as int]@);
        match outcome {
            ToolOutcome::Cancelled => self.interrupt(),
            ToolOutcome::Lost => {
                let message = text::cat2(
                    "copilot provider lost local tool result for ",
                    self.calls[self.answered].name.as_str(),
                );
                let mut told = bridge::one_event(SessionEvent::Error { session_id, message });
                events::emit(
                    &mut told,
                    SessionEvent::Result { session_id, stop_reason: StopReason::Error },
                );
                assert(events::event_views(told@) =~= copilot_tool(old(self)@, outcome@).events);
                self.phase = CopilotPhase::Ended;
                HttpStep { events: told, action: HttpAction::Finished }
            },
            ToolOutcome::Done { response } => {
                if response.tool_call_id != self.calls[self.answered].tool_call_id {
                    return http::step_of(HttpAction::AwaitTool);
                }
                let total: usize = self.calls.len();
                let message = copilot::tool_result_message(&self.calls[self.answered], &response);
                json::push_item(&mut self.messages, message);
                self.answered = self.answered + 1;
                if self.answered < total {
                    http::step_of(HttpAction::AwaitTool)
                } else {
                    self.retries = 1;
                    self.attempt(events::no_events())
                }
            },
        }
    }
}

// ---------------------------------------------------------------------------
// Laws
// ---------------------------------------------------------------------------

/// A conversation is only sent where it takes no more tokens than it may.
pub proof fn only_conversations_that_fit_are_sent(turn: CopilotView, told: Seq<EventView>)
    requires
        turn.limits.soft <= turn.limits.hard,
    ensures
        attempt(turn, told).action is Request ==> compaction::estimate(
            attempt(turn, told).turn.messages,
        ) <= turn.limits.hard,
        !(attempt(turn, told).action is Request) ==> attempt(turn, told).turn.phase
            == CopilotPhase::Ended && attempt(turn, told).turn.messages == turn.messages,
{
    compaction::what_is_sent_stays_below_the_ceiling(
        turn.messages,
        turn.limits.soft,
        turn.limits.hard,
    );
}

/// A response that breaks off after the user has seen something of it is never asked for
/// again, nor one that has been asked for again already.
pub proof fn only_unseen_replies_are_retried(turn: CopilotView, outcome: ChunkView)
    ensures
        copilot_read(turn, outcome).action is Request ==> !turn.progress.visible && turn.retries
            > 0 && copilot_read(turn, outcome).turn.retries < turn.retries,
{
}

/// The result of a call is noted under the name of that call, and only when its id fits;
/// with the last result the conversation is sent again.
pub proof fn results_answer_their_calls(turn: CopilotView, response: ToolResponseView)
    requires
        turn.answered < turn.calls.len(),
    ensures
        ({
            let call = turn.calls[turn.answered as int];
            let outcome = copilot_tool(turn, ToolOutcomeView::Done { response });
            let noted = CopilotView {
                messages: turn.messages.push(
                    copilot::result_message(call.provider_id, response),
                ),
                answered: turn.answered + 1,
                ..turn
            };
            if response.tool_call_id != call.tool_call_id {
                outcome.turn.messages == turn.messages && outcome.turn.answered == turn.answered
            } else if turn.answered + 1 < turn.calls.len() {
                outcome.turn.messages == noted.messages && outcome.turn.answered == noted.answered
            } else {
                outcome == attempt(CopilotView { retries: 1, ..noted }, seq![])
            }
        }),
{
}

/// What an event tells is told at once, and the reply is what it has become; the frames that
/// are left are read next, but none behind the mark that ends the stream.
pub proof fn what_an_event_tells_is_kept(
    turn: CopilotView,
    parsed: ChatOutcome,
    kind: Option<Seq<char>>,
)
    requires
        turn.phase == CopilotPhase::Framing,
        turn.frames.len() > 0,
    ensures
        ({
            let next = frame_parsed(turn, parsed, kind);
            &&& next.events == parsed.events
            &&& next.turn.assistant == parsed.assistant
            &&& next.turn.messages == turn.messages
            &&& parsed.done ==> next.turn.frames.len() == 0
            &&& !parsed.done ==> next.turn.frames == turn.frames.skip(1)
            &&& next.turn.frames.len() == 0 <==> next.action is NextChunk
            &&& next.turn.frames.len() > 0 <==> next.action is NextFrame
            &&& next.turn.progress.events_parsed == (turn.progress.events_parsed + 1) as u64
            &&& turn.progress.visible ==> next.turn.progress.visible
        }),
{
}

/// A reply without calls ends the turn. One with calls is kept in the conversation behind
/// all else, and its first call is awaited.
pub proof fn a_reply_ends_or_is_answered(turn: CopilotView)
    requires
        text::trimmed(turn.buffer).len() == 0,
    ensures
        ({
            let next = copilot_read(turn, ChunkView::Ended);
            let reply = copilot::all_marked(turn.assistant);
            let calls = copilot::requested(reply.tool_calls);
            &&& calls.len() == 0 ==> next.action is Finished && next.events.last() == (
            EventView::Result {
                session_id: turn.session_id,
                stop_reason: StopReason::EndTurn,
            }) && next.turn.messages == turn.messages
            &&& calls.len() > 0 ==> next.action is AwaitTool && next.turn.messages
                == turn.messages.push(copilot::chat_message(reply)) && next.turn.calls == calls
                && next.turn.answered == 0 && next.events == copilot::requests(
                turn.session_id,
                turn.assistant.tool_calls,
            )
        }),
{
    assert(Seq::<EventView>::empty() + copilot::requests(
        turn.session_id,
        turn.assistant.tool_calls,
    ) =~= copilot::requests(turn.session_id, turn.assistant.tool_calls));
}

/// Results are kept in the conversation in the order of the calls, each under its call; the
/// one that comes last, and only that, has the conversation sent again.
pub proof fn a_result_is_kept_under_its_call(turn: CopilotView, response: ToolResponseView)
    requires
        turn.answered + 1 < turn.calls.len(),
        response.tool_call_id == turn.calls[turn.answered as int].tool_call_id,
    ensures
        ({
            let next = copilot_tool(turn, ToolOutcomeView::Done { response });
            let kept = next.turn.messages;
            &&& next.action is AwaitTool
            &&& kept.len() == turn.messages.len() + 1
            &&& kept.drop_last() == turn.messages
            &&& json::text_field(kept.last(), "tool_call_id"@) == Some(
                turn.calls[turn.answered as int].provider_id,
            )
            &&& !response.is_error ==> json::text_field(kept.last(), "content"@) == Some(
                response.output,
            )
            &&& next.turn.answered == turn.answered + 1
        }),
{
    let call = turn.calls[turn.answered as int];
    copilot::a_result_goes_back_under_its_call(call.provider_id, response);
    let kept = copilot_tool(turn, ToolOutcomeView::Done { response }).turn.messages;
    assert(kept.drop_last() =~= turn.messages);
}

/// How a turn breaks off while a response is awaited: when it is cancelled, with a result
/// that says so; when the provider is silent or refuses, with an error.
pub proof fn how_a_request_breaks_off(
    turn: CopilotView,
    error: Seq<char>,
    status: Seq<char>,
    first_id: u128,
)
    ensures
        copilot_answered(turn, ResponseView::Cancelled, first_id).events == seq![
            EventView::Result {
                session_id: turn.session_id,
                stop_reason: StopReason::Interrupted,
            },
        ],
        copilot_answered(turn, ResponseView::Cancelled, first_id).action is Finished,
        copilot_answered(turn, ResponseView::Idle, first_id).action is Finished && copilot_answered(
            turn,
            ResponseView::Idle,
            first_id,
        ).events.last() is Error,
        copilot_answered(turn, ResponseView::Failed { error }, first_id).action == (
        HttpActionView::Fail { error }),
        copilot_answered(turn, ResponseView::Refused { status, body: error }, first_id).events
            == seq![
            EventView::Error {
                session_id: turn.session_id,
                message: "copilot provider request failed with HTTP "@ + status + ": "@
                    + copilot_request::redacted(error),
            },
        ],
{
}

/// How a turn breaks off while a response is read.
pub proof fn how_a_response_breaks_off(turn: CopilotView)
    ensures
        copilot_read(turn, ChunkView::Cancelled) == ends(
            turn,
            seq![
                EventView::Result {
                    session_id: turn.session_id,
                    stop_reason: StopReason::Interrupted,
                },
            ],
        ),
        copilot_read(turn, ChunkView::Idle).action is Finished,
        copilot_read(turn, ChunkView::Idle).events.last() is Error,
{
}

/// How a turn breaks off while a tool's result is awaited: a lost result is told as an
/// error, and the turn ends with one.
pub proof fn how_a_tool_breaks_off(turn: CopilotView)
    ensures
        copilot_tool(turn, ToolOutcomeView::Cancelled).action is Finished,
        copilot_tool(turn, ToolOutcomeView::Cancelled).events.last() == (EventView::Result {
            session_id: turn.session_id,
            stop_reason: StopReason::Interrupted,
        }),
        copilot_tool(turn, ToolOutcomeView::Lost).action is Finished,
        copilot_tool(turn, ToolOutcomeView::Lost).events.last() == (EventView::Result {
            session_id: turn.session_id,
            stop_reason: StopReason::Error,
        }),
{
}

/// A turn begins by saying so and by asking with the messages as they are, where these need
/// not be shortened.
pub proof fn a_turn_begins_with_its_messages(
    session_id: SessionId,
    idle_secs: u64,
    limits: ContextLimits,
    messages: Seq<JsonView>,
)
    requires
        compaction::compaction(messages, limits.soft, limits.hard) is Unchanged,
    ensures
        ({
            let begun = copilot_begun(session_id, idle_secs, limits, messages);
            &&& begun.action == HttpActionView::Request
            &&& begun.events == seq![
                EventView::Status { session_id, status: SessionStatus::Starting },
            ]
            &&& begun.turn.messages == messages
            &&& begun.turn.session_id == session_id && begun.turn.idle_secs == idle_secs
            &&& begun.turn.retries == 1
            &&& begun.turn.calls.len() == 0 && begun.turn.frames.len() == 0
                && begun.turn.buffer.len() == 0
        }),
{
}

} // verus!
