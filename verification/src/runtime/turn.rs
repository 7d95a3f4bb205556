//! How a turn goes: the provider is asked, its reply is told, and tool calls in it are
//! carried out, round after round, until the reply holds none. What only the outside can
//! do is asked for step by step.
use vstd::prelude::*;

use crate::json;
use crate::json::{Json, JsonView};
use crate::provider::common::{ProviderToolResponse, ToolResponseView};
use crate::runtime::call;
use crate::runtime::call::{CallView, ParseErrorView, ParsedToolCall, ToolCallParseError};
use crate::runtime::events;
use crate::runtime::events::{AnswerView, EventView, QuestionAnswer, SessionEvent};
use crate::runtime::local::LocalToolRunStatus;
use crate::runtime::prompt;
use crate::runtime::prompt::{ImageAttachment, ImageView, MultimodalPrompt, MultimodalView};
use crate::runtime::session;
use crate::runtime::session::{Role, SessionState, SessionView};
use crate::runtime::types::{SessionId, SessionStatus, StopReason, ToolCallId};
use crate::text;

verus! {

/// How far a turn has got.
#[derive(Debug)]
pub enum TurnPhase {
    /// The request to the provider is being prepared and sent.
    Preparing,
    /// The provider's events are being read.
    Streaming,
    /// The provider waits for the user's answers to questions.
    AskingNative { tool_call_id: ToolCallId },
    /// The provider waits for a tool call.
    RunningNative { tool_call_id: ToolCallId },
    /// The reply was a call for the user's answers to questions.
    AskingEnvelope { tool_call_id: ToolCallId },
    /// The reply was a tool call.
    RunningEnvelope { tool_call_id: ToolCallId },
    Ended,
}

/// The content of a `TurnPhase`.
pub enum TurnPhaseView {
    Preparing,
    Streaming,
    AskingNative { tool_call_id: ToolCallId },
    RunningNative { tool_call_id: ToolCallId },
    AskingEnvelope { tool_call_id: ToolCallId },
    RunningEnvelope { tool_call_id: ToolCallId },
    Ended,
}

impl View for TurnPhase {
    type V = TurnPhaseView;

    open spec fn view(&self) -> TurnPhaseView {
        match self {
            TurnPhase::Preparing => TurnPhaseView::Preparing,
            TurnPhase::Streaming => TurnPhaseView::Streaming,
            TurnPhase::AskingNative { tool_call_id } => TurnPhaseView::AskingNative { tool_call_id: *tool_call_id },
            TurnPhase::RunningNative { tool_call_id } => TurnPhaseView::RunningNative { tool_call_id: *tool_call_id },
            TurnPhase::AskingEnvelope { tool_call_id } => TurnPhaseView::AskingEnvelope { tool_call_id: *tool_call_id },
            TurnPhase::RunningEnvelope { tool_call_id } => TurnPhaseView::RunningEnvelope { tool_call_id: *tool_call_id },
            TurnPhase::Ended => TurnPhaseView::Ended,
        }
    }
}

/// What has to be done next in a turn.
#[derive(Debug)]
pub enum TurnAction {
    /// Prepare the request of this round, with these pictures, and send it.
    StartProvider { images: Vec<ImageAttachment> },
    /// Wait for the provider's next event.
    NextEvent,
    /// Ask the user the questions of a tool call.
    AskQuestions { tool_call_id: ToolCallId, input: Json },
    /// Carry a tool call out.
    RunTool { tool_call_id: ToolCallId, call: ParsedToolCall },
    /// Nothing: the turn has ended.
    Finished,
}

/// The content of a `TurnAction`.
pub enum TurnActionView {
    StartProvider { images: Seq<ImageView> },
    NextEvent,
    AskQuestions { tool_call_id: ToolCallId, input: JsonView },
    RunTool { tool_call_id: ToolCallId, call: CallView },
    Finished,
}

impl View for TurnAction {
    type V = TurnActionView;

    open spec fn view(&self) -> TurnActionView {
        match self {
            TurnAction::StartProvider { images } => TurnActionView::StartProvider {
                images: prompt::image_views(images@),
            },
            TurnAction::NextEvent => TurnActionView::NextEvent,
            TurnAction::AskQuestions { tool_call_id, input } => TurnActionView::AskQuestions { tool_call_id: *tool_call_id, input: input@ },
            TurnAction::RunTool { tool_call_id, call } => TurnActionView::RunTool { tool_call_id: *tool_call_id, call: call@ },
            TurnAction::Finished => TurnActionView::Finished,
        }
    }
}

/// A turn: the rounds in which a provider answers a prompt and calls tools.
#[derive(Debug)]
pub struct Turn {
    pub session_id: SessionId,
    pub round: u64,
    /// What the provider has written in this round.
    pub assistant_text: String,
    pub text_started: bool,
    pub text_ended: bool,
    pub phase: TurnPhase,
}

/// The content of a `Turn`.
pub struct TurnView {
    pub session_id: SessionId,
    pub round: u64,
    pub assistant_text: Seq<char>,
    pub text_started: bool,
    pub text_ended: bool,
    pub phase: TurnPhaseView,
}

impl View for Turn {
    type V = TurnView;

    open spec fn view(&self) -> TurnView {
        TurnView {
            session_id: self.session_id,
            round: self.round,
            assistant_text: self.assistant_text@,
            text_started: self.text_started,
            text_ended: self.text_ended,
            phase: self.phase@,
        }
    }
}

/// What has to be told and done after a step: events for those who watch, a tool's answer
/// for the provider where there is one, and the next action.
#[derive(Debug)]
pub struct TurnStep {
    pub events: Vec<SessionEvent>,
    pub response: Option<ProviderToolResponse>,
    pub action: TurnAction,
}

/// What a step of a turn leads to.
pub struct TurnOutcome {
    pub turn: TurnView,
    pub session: SessionView,
    pub events: Seq<EventView>,
    pub response: Option<ToolResponseView>,
    pub action: TurnActionView,
}

pub open spec fn response_view(r: Option<ProviderToolResponse>) -> Option<ToolResponseView> {
    match r {
        Some(x) => Some(x@),
        None => None,
    }
}

/// Whether a step has led to an outcome.
pub open spec fn turns_to(
    turn: Turn,
    state: SessionState,
    step: TurnStep,
    outcome: TurnOutcome,
) -> bool {
    &&& turn@ == outcome.turn
    &&& state@ == outcome.session
    &&& events::event_views(step.events@) == outcome.events
    &&& response_view(step.response) == outcome.response
    &&& step.action@ == outcome.action
}

/// The number under which a round is told.
pub open spec fn step_index(round: u64) -> u32 {
    (round % 0x1_0000_0000) as u32
}

/// The id of a round's text.
pub open spec fn text_id(round: u64) -> Seq<char> {
    "round-"@ + text::decimal(round as nat) + "-text-0"@
}

// ---------------------------------------------------------------------------
// The steps
// ---------------------------------------------------------------------------

/// The turn ends, with the round in which it was.
pub open spec fn finished(
    turn: TurnView,
    session: SessionView,
    before: Seq<EventView>,
    reason: StopReason,
) -> TurnOutcome {
    TurnOutcome {
        turn: TurnView { phase: TurnPhaseView::Ended, ..turn },
        session,
        events: before.push(
            EventView::StepFinish {
                session_id: turn.session_id,
                index: step_index(turn.round),
                stop_reason: reason,
            },
        ).push(EventView::Result { session_id: turn.session_id, stop_reason: reason }),
        response: None,
        action: TurnActionView::Finished,
    }
}

/// The turn ends with an error.
pub open spec fn broken(
    turn: TurnView,
    session: SessionView,
    before: Seq<EventView>,
    message: Seq<char>,
) -> TurnOutcome {
    finished(
        turn,
        session,
        before.push(EventView::Error { session_id: turn.session_id, message }),
        StopReason::Error,
    )
}

/// A round starts, unless the turn has been cancelled.
pub open spec fn at_top(
    turn: TurnView,
    session: SessionView,
    before: Seq<EventView>,
    images: Seq<ImageView>,
    cancelled: bool,
) -> TurnOutcome {
    if cancelled {
        TurnOutcome {
            turn: TurnView { phase: TurnPhaseView::Ended, ..turn },
            session,
            events: before.push(
                EventView::Result {
                    session_id: turn.session_id,
                    stop_reason: StopReason::Interrupted,
                },
            ),
            response: None,
            action: TurnActionView::Finished,
        }
    } else {
        TurnOutcome {
            turn: TurnView { phase: TurnPhaseView::Preparing, ..turn },
            session,
            events: before.push(
                EventView::Status {
                    session_id: turn.session_id,
                    status: SessionStatus::Streaming,
                },
            ).push(
                EventView::StepStart {
                    session_id: turn.session_id,
                    index: step_index(turn.round),
                },
            ),
            response: None,
            action: TurnActionView::StartProvider { images },
        }
    }
}

/// The next round starts.
pub open spec fn next_round(
    turn: TurnView,
    session: SessionView,
    before: Seq<EventView>,
    cancelled: bool,
) -> TurnOutcome {
    at_top(
        TurnView { round: (turn.round + 1) as u64, ..turn },
        session,
        before,
        seq![],
        cancelled,
    )
}

/// The round is over, and the next one starts.
pub open spec fn round_over(
    turn: TurnView,
    session: SessionView,
    before: Seq<EventView>,
    cancelled: bool,
) -> TurnOutcome {
    next_round(
        turn,
        session,
        before.push(
            EventView::StepFinish {
                session_id: turn.session_id,
                index: step_index(turn.round),
                stop_reason: StopReason::EndTurn,
            },
        ),
        cancelled,
    )
}

/// The turn starts with the user's prompt, whose pictures go with the first round.
pub open spec fn begun(session: SessionView, prompt: MultimodalView, cancelled: bool)
    -> TurnOutcome {
    let session_id = session.session_id;
    at_top(
        TurnView {
            session_id,
            round: 0,
            assistant_text: seq![],
            text_started: false,
            text_ended: false,
            phase: TurnPhaseView::Preparing,
        },
        session::said(session, Role::User, prompt.text),
        seq![EventView::Status { session_id, status: SessionStatus::Starting }],
        prompt.images,
        cancelled,
    )
}

/// Goes on reading the provider's events.
pub open spec fn reading(
    turn: TurnView,
    session: SessionView,
    told: Seq<EventView>,
    response: Option<ToolResponseView>,
) -> TurnOutcome {
    TurnOutcome {
        turn: TurnView { phase: TurnPhaseView::Streaming, ..turn },
        session,
        events: told,
        response,
        action: TurnActionView::NextEvent,
    }
}

/// What came of sending a request to the provider: nothing, or an error.
pub open spec fn provider_started(
    turn: TurnView,
    session: SessionView,
    error: Option<Seq<char>>,
) -> TurnOutcome {
    match error {
        Some(e) => broken(turn, session, seq![], "provider failed to start turn: "@ + e),
        None => reading(
            TurnView {
                assistant_text: seq![],
                text_started: false,
                text_ended: false,
                ..turn
            },
            session,
            seq![],
            None,
        ),
    }
}

/// The end of the text, where it has begun and not ended.
pub open spec fn text_closed(turn: TurnView) -> Seq<EventView> {
    if turn.text_started && !turn.text_ended {
        seq![
            EventView::TextEnd {
                session_id: turn.session_id,
                text_id: text_id(turn.round),
                text: turn.assistant_text,
            },
        ]
    } else {
        seq![]
    }
}

/// The turn was cancelled while the provider's events were read.
pub open spec fn interrupted(turn: TurnView, session: SessionView) -> TurnOutcome {
    finished(turn, session, text_closed(turn), StopReason::Interrupted)
}

/// The provider's events ended without a result: with an error, or without.
pub open spec fn cut_off(
    turn: TurnView,
    session: SessionView,
    error: Option<Seq<char>>,
) -> TurnOutcome {
    broken(
        turn,
        session,
        text_closed(turn),
        match error {
            Some(e) => "provider stream failed: "@ + e,
            None => "provider stream ended without a terminal result"@,
        },
    )
}

/// The JSON in which a call is noted.
pub open spec fn call_json(call: CallView) -> JsonView {
    json::empty_object().with("name"@, JsonView::Text(call.name)).with("input"@, call.input)
}

/// The step behind a tool call that the provider waits for; `noted` is how the call is
/// noted.
pub open spec fn tool_requested(
    turn: TurnView,
    session: SessionView,
    tool_call_id: ToolCallId,
    call: CallView,
    cancelled: bool,
    noted: Seq<char>,
) -> TurnOutcome {
    if call.name == "ask_questions"@ {
        TurnOutcome {
            turn: TurnView { phase: TurnPhaseView::AskingNative { tool_call_id }, ..turn },
            session,
            events: seq![],
            response: None,
            action: TurnActionView::AskQuestions { tool_call_id, input: call.input },
        }
    } else {
        let after = session::said(session, Role::Assistant, "tool call requested: "@ + noted);
        if cancelled {
            finished(turn, after, seq![], StopReason::Interrupted)
        } else {
            TurnOutcome {
                turn: TurnView { phase: TurnPhaseView::RunningNative { tool_call_id }, ..turn },
                session: after,
                events: seq![],
                response: None,
                action: TurnActionView::RunTool { tool_call_id, call },
            }
        }
    }
}

/// The step behind the end of the provider's reply, given the tool call that it holds.
pub open spec fn reply_ended(
    turn: TurnView,
    session: SessionView,
    reason: StopReason,
    cancelled: bool,
    fresh_id: ToolCallId,
    found: Option<Result<CallView, ParseErrorView>>,
) -> TurnOutcome {
    let told = text_closed(turn);
    let after = session::said(session, Role::Assistant, turn.assistant_text);
    if reason == StopReason::Interrupted {
        finished(turn, session, told, StopReason::Interrupted)
    } else {
        match found {
            None => finished(turn, after, told, StopReason::EndTurn),
            Some(Err(e)) => {
                let message = call::parse_error_message(e);
                round_over(
                    turn,
                    session::said(after, Role::Tool, "tool call error: "@ + message),
                    told.push(
                        EventView::ToolCallError {
                            session_id: turn.session_id,
                            tool_call_id: fresh_id,
                            message,
                        },
                    ),
                    cancelled,
                )
            },
            Some(Ok(found_call)) => if cancelled {
                finished(turn, after, told, StopReason::Interrupted)
            } else if found_call.name == "ask_questions"@ {
                TurnOutcome {
                    turn: TurnView {
                        phase: TurnPhaseView::AskingEnvelope { tool_call_id: fresh_id },
                        ..turn
                    },
                    session: after,
                    events: told,
                    response: None,
                    action: TurnActionView::AskQuestions {
                        tool_call_id: fresh_id,
                        input: found_call.input,
                    },
                }
            } else {
                TurnOutcome {
                    turn: TurnView {
                        phase: TurnPhaseView::RunningEnvelope { tool_call_id: fresh_id },
                        ..turn
                    },
                    session: after,
                    events: told,
                    response: None,
                    action: TurnActionView::RunTool {
                        tool_call_id: fresh_id,
                        call: found_call,
                    },
                }
            },
        }
    }
}

/// The step behind an event of the provider. `found` is the tool call in the reply so
/// far, and `noted` how a call that the provider waits for is noted.
pub open spec fn heard(
    turn: TurnView,
    session: SessionView,
    event: EventView,
    cancelled: bool,
    fresh_id: ToolCallId,
    found: Option<Result<CallView, ParseErrorView>>,
    noted: Seq<char>,
) -> TurnOutcome {
    let session_id = turn.session_id;
    match event {
        EventView::TextDelta { text, .. } => {
            let delta = EventView::TextDelta { session_id, text };
            reading(
                TurnView {
                    assistant_text: turn.assistant_text + text,
                    text_started: true,
                    ..turn
                },
                session,
                if turn.text_started {
                    seq![delta]
                } else {
                    seq![
                        EventView::TextStart { session_id, text_id: text_id(turn.round) },
                        delta,
                    ]
                },
                None,
            )
        },
        EventView::TextStart { .. } => reading(
            TurnView { text_started: true, ..turn },
            session,
            seq![event],
            None,
        ),
        EventView::TextEnd { .. } => reading(
            TurnView { text_ended: true, ..turn },
            session,
            seq![event],
            None,
        ),
        EventView::ToolCallRequested { tool_call_id, name, input_json, .. } => tool_requested(
            turn,
            session,
            tool_call_id,
            CallView { name, input: input_json },
            cancelled,
            noted,
        ),
        EventView::Result { stop_reason, .. } => reply_ended(
            turn,
            session,
            stop_reason,
            cancelled,
            fresh_id,
            found,
        ),
        EventView::Error { message, .. } => broken(turn, session, seq![], message),
        _ => reading(turn, session, seq![event], None),
    }
}

/// The step behind an event of the provider: the reply so far is searched for a tool call.
pub open spec fn listened(
    turn: TurnView,
    session: SessionView,
    event: EventView,
    cancelled: bool,
    fresh_id: ToolCallId,
) -> TurnOutcome {
    heard(
        turn,
        session,
        event,
        cancelled,
        fresh_id,
        call::tool_call(turn.assistant_text),
        noted_call(event),
    )
}

/// The step behind the user's answers to questions.
pub open spec fn questions_answered(
    turn: TurnView,
    session: SessionView,
    answers: Seq<AnswerView>,
    output: Seq<char>,
    cancelled: bool,
) -> TurnOutcome {
    let session_id = turn.session_id;
    match turn.phase {
        TurnPhaseView::AskingNative { tool_call_id } => reading(
            turn,
            session,
            seq![EventView::QuestionsAnswered { session_id, tool_call_id, answers }],
            Some(ToolResponseView { tool_call_id, output, is_error: false }),
        ),
        TurnPhaseView::AskingEnvelope { tool_call_id } => next_round(
            turn,
            session::said(session, Role::Tool, output),
            seq![EventView::QuestionsAnswered { session_id, tool_call_id, answers }],
            cancelled,
        ),
        _ => arbitrary(),
    }
}

/// The step behind a tool call that has been carried out or denied.
pub open spec fn tool_ran(
    turn: TurnView,
    session: SessionView,
    response: ToolResponseView,
    status: LocalToolRunStatus,
    cancelled: bool,
) -> TurnOutcome {
    match turn.phase {
        TurnPhaseView::RunningNative { .. } => if cancelled {
            TurnOutcome {
                response: Some(response),
                ..finished(turn, session, seq![], StopReason::Interrupted)
            }
        } else {
            reading(turn, session, seq![], Some(response))
        },
        TurnPhaseView::RunningEnvelope { .. } => if status == LocalToolRunStatus::Denied {
            round_over(turn, session, seq![], cancelled)
        } else if cancelled {
            finished(turn, session, seq![], StopReason::Interrupted)
        } else {
            round_over(turn, session, seq![], cancelled)
        },
        _ => arbitrary(),
    }
}

// ---------------------------------------------------------------------------
// Carrying the steps out
// ---------------------------------------------------------------------------

fn id_of_text(round: u64) -> (r: String)
    ensures
        r@ == text_id(round),
{
    text::cat3("round-", text::decimal_text(round).as_str(), "-text-0")
}

impl Turn {
    fn finish(self, state: &SessionState, before: Vec<SessionEvent>, reason: StopReason) -> (r: (
        Turn,
        TurnStep,
    ))
        ensures
            turns_to(
                r.0,
                *state,
                r.1,
                finished(self@, state@, events::event_views(before@), reason),
            ),
    {
        let mut events = before;
        let session_id = self.session_id;
        events::emit(
            &mut events,
            SessionEvent::StepFinish {
                session_id,
                index: (self.round % 0x1_0000_0000) as u32,
                stop_reason: reason,
            },
        );
        events::emit(&mut events, SessionEvent::Result { session_id, stop_reason: reason });
        let mut turn = self;
        turn.phase = TurnPhase::Ended;
        (turn, TurnStep { events, response: None, action: TurnAction::Finished })
    }

    fn break_off(self, state: &SessionState, before: Vec<SessionEvent>, message: String) -> (r: (
        Turn,
        TurnStep,
    ))
        ensures
            turns_to(
                r.0,
                *state,
                r.1,
                broken(self@, state@, events::event_views(before@), message@),
            ),
    {
        let mut events = before;
        events::emit(&mut events, SessionEvent::Error { session_id: self.session_id, message });
        self.finish(state, events, StopReason::Error)
    }

    fn top(
        self,
        state: &SessionState,
        before: Vec<SessionEvent>,
        images: Vec<ImageAttachment>,
        cancelled: bool,
    ) -> (r: (Turn, TurnStep))
        ensures
            turns_to(
                r.0,
                *state,
                r.1,
                at_top(
                    self@,
                    state@,
                    events::event_views(before@),
                    prompt::image_views(images@),
                    cancelled,
                ),
            ),
    {
        let mut events = before;
        let session_id = self.session_id;
        let mut turn = self;
        if cancelled {
            events::emit(
                &mut events,
                SessionEvent::Result { session_id, stop_reason: StopReason::Interrupted },
            );
            turn.phase = TurnPhase::Ended;
            return (turn, TurnStep { events, response: None, action: TurnAction::Finished });
        }
        events::emit(
            &mut events,
            SessionEvent::Status { session_id, status: SessionStatus::Streaming },
        );
        events::emit(
            &mut events,
            SessionEvent::StepStart { session_id, index: (turn.round % 0x1_0000_0000) as u32 },
        );
        turn.phase = TurnPhase::Preparing;
        (turn, TurnStep { events, response: None, action: TurnAction::StartProvider { images } })
    }

    fn end_round(self, state: &SessionState, before: Vec<SessionEvent>, cancelled: bool) -> (r: (
        Turn,
        TurnStep,
    ))
        requires
            self@.round < u64::MAX,
        ensures
            turns_to(
                r.0,
                *state,
                r.1,
                round_over(self@, state@, events::event_views(before@), cancelled),
            ),
    {
        let mut events = before;
        events::emit(
            &mut events,
            SessionEvent::StepFinish {
                session_id: self.session_id,
                index: (self.round % 0x1_0000_0000) as u32,
                stop_reason: StopReason::EndTurn,
            },
        );
        let mut turn = self;
        turn.round = turn.round + 1;
        turn.top(state, events, prompt::no_images(), cancelled)
    }

    fn read_on(
        self,
        state: &SessionState,
        events: Vec<SessionEvent>,
        response: Option<ProviderToolResponse>,
    ) -> (r: (Turn, TurnStep))
        ensures
            turns_to(
                r.0,
                *state,
                r.1,
                reading(self@, state@, events::event_views(events@), response_view(response)),
            ),
    {
        let mut turn = self;
        turn.phase = TurnPhase::Streaming;
        (turn, TurnStep { events, response, action: TurnAction::NextEvent })
    }

    fn close_text(&self) -> (events: Vec<SessionEvent>)
        ensures
            events::event_views(events@) == text_closed(self@),
    {
        let mut events = events::no_events();
        if self.text_started && !self.text_ended {
            events::emit(
                &mut events,
                SessionEvent::TextEnd {
                    session_id: self.session_id,
                    text_id: id_of_text(self.round),
                    text: self.assistant_text.clone(),
                },
            );
        }
        assert(events::event_views(events@) =~= text_closed(self@));
        events
    }

    /// Starts a turn with the user's prompt, given what it holds.
    pub fn begin_with(state: &mut SessionState, prompt: MultimodalPrompt, cancelled: bool) -> (r: (
        Turn,
        TurnStep,
    ))
        ensures
            turns_to(r.0, *final(state), r.1, begun(old(state)@, prompt@, cancelled)),
    {
        let session_id = state.session_id;
        state.push(Role::User, prompt.text.as_str());
        let mut events = events::no_events();
        events::emit(
            &mut events,
            SessionEvent::Status { session_id, status: SessionStatus::Starting },
        );
        assert(events::event_views(events@) =~= seq![
            EventView::Status { session_id, status: SessionStatus::Starting },
        ]);
        let turn = Turn {
            session_id,
            round: 0,
            assistant_text: String::new(),
            text_started: false,
            text_ended: false,
            phase: TurnPhase::Preparing,
        };
        turn.top(state, events, prompt.images, cancelled)
    }

    /// Starts a turn with the user's prompt.
    pub fn begin(state: &mut SessionState, user_prompt: &str, cancelled: bool) -> (r: (
        Turn,
        TurnStep,
    ))
        ensures
            turns_to(
                r.0,
                *final(state),
                r.1,
                begun(old(state)@, prompt::user_prompt(user_prompt@), cancelled),
            ),
    {
        Self::begin_with(state, prompt::parse_multimodal_prompt(user_prompt), cancelled)
    }

    /// Takes what came of sending the request: nothing, or an error.
    pub fn provider_start(self, state: &SessionState, error: Option<String>) -> (r: (
        Turn,
        TurnStep,
    ))
        ensures
            turns_to(
                r.0,
                *state,
                r.1,
                provider_started(self@, state@, text::opt(error)),
            ),
    {
        match error {
            Some(e) => {
                let message = text::cat2("provider failed to start turn: ", e.as_str());
                self.break_off(state, events::no_events(), message)
            },
            None => {
                let mut turn = self;
                turn.assistant_text = String::new();
                turn.text_started = false;
                turn.text_ended = false;
                turn.read_on(state, events::no_events(), None)
            },
        }
    }

    /// The turn was cancelled while the provider's events were read.
    pub fn interrupt(self, state: &SessionState) -> (r: (Turn, TurnStep))
        ensures
            turns_to(r.0, *state, r.1, interrupted(self@, state@)),
    {
        let events = self.close_text();
        self.finish(state, events, StopReason::Interrupted)
    }

    /// The provider's events ended without a result: with an error, or without.
    pub fn stream_end(self, state: &SessionState, error: Option<String>) -> (r: (Turn, TurnStep))
        ensures
            turns_to(r.0, *state, r.1, cut_off(self@, state@, text::opt(error))),
    {
        let events = self.close_text();
        let message = match error {
            Some(e) => text::cat2("provider stream failed: ", e.as_str()),
            None => "provider stream ended without a terminal result".to_string(),
        };
        self.break_off(state, events, message)
    }

    fn request_tool(
        self,
        state: &mut SessionState,
        tool_call_id: ToolCallId,
        call: ParsedToolCall,
        cancelled: bool,
        noted: &str,
    ) -> (r: (Turn, TurnStep))
        ensures
            turns_to(
                r.0,
                *final(state),
                r.1,
                tool_requested(self@, old(state)@, tool_call_id, call@, cancelled, noted@),
            ),
    {
        let mut turn = self;
        if text::same(call.name.as_str(), "ask_questions") {
            turn.phase = TurnPhase::AskingNative { tool_call_id };
            let step = TurnStep {
                events: events::no_events(),
                response: None,
                action: TurnAction::AskQuestions { tool_call_id, input: call.input },
            };
            return (turn, step);
        }
        state.push(Role::Assistant, text::cat2("tool call requested: ", noted).as_str());
        if cancelled {
            return turn.finish(state, events::no_events(), StopReason::Interrupted);
        }
        turn.phase = TurnPhase::RunningNative { tool_call_id };
        (
            turn,
            TurnStep {
                events: events::no_events(),
                response: None,
                action: TurnAction::RunTool { tool_call_id, call },
            },
        )
    }

    fn end_reply(
        self,
        state: &mut SessionState,
        reason: StopReason,
        cancelled: bool,
        fresh_id: ToolCallId,
        found: Option<Result<ParsedToolCall, ToolCallParseError>>,
    ) -> (r: (Turn, TurnStep))
        requires
            self@.round < u64::MAX,
        ensures
            turns_to(
                r.0,
                *final(state),
                r.1,
                reply_ended(
                    self@,
                    old(state)@,
                    reason,
                    cancelled,
                    fresh_id,
                    call::found_call(found),
                ),
            ),
    {
        let mut events = self.close_text();
        if reason == StopReason::Interrupted {
            return self.finish(state, events, StopReason::Interrupted);
        }
        state.push(Role::Assistant, self.assistant_text.as_str());
        let mut turn = self;
        match found {
            None => turn.finish(state, events, StopReason::EndTurn),
            Some(Err(e)) => {
                let message = e.message();
                state.push(
                    Role::Tool,
                    text::cat2("tool call error: ", message.as_str()).as_str(),
                );
                events::emit(
                    &mut events,
                    SessionEvent::ToolCallError {
                        session_id: turn.session_id,
                        tool_call_id: fresh_id,
                        message,
                    },
                );
                turn.end_round(state, events, cancelled)
            },
            Some(Ok(call)) => {
                if cancelled {
                    return turn.finish(state, events, StopReason::Interrupted);
                }
                if text::same(call.name.as_str(), "ask_questions") {
                    turn.phase = TurnPhase::AskingEnvelope { tool_call_id: fresh_id };
                    let action = TurnAction::AskQuestions {
                        tool_call_id: fresh_id,
                        input: call.input,
                    };
                    return (turn, TurnStep { events, response: None, action });
                }
                turn.phase = TurnPhase::RunningEnvelope { tool_call_id: fresh_id };
                let action = TurnAction::RunTool { tool_call_id: fresh_id, call };
                (turn, TurnStep { events, response: None, action })
            },
        }
    }

    /// Takes an event of the provider, given the tool call in the reply so far and how a
    /// call that the provider waits for is noted. The id is for a tool call in the reply.
    pub fn hear_given(
        self,
        state: &mut SessionState,
        event: SessionEvent,
        cancelled: bool,
        fresh_id: ToolCallId,
        found: Option<Result<ParsedToolCall, ToolCallParseError>>,
        noted: &str,
    ) -> (r: (Turn, TurnStep))
        requires
            self@.round < u64::MAX,
        ensures
            turns_to(
                r.0,
                *final(state),
                r.1,
                heard(
                    self@,
                    old(state)@,
                    event@,
                    cancelled,
                    fresh_id,
                    call::found_call(found),
                    noted@,
                ),
            ),
    {
        let mut events = events::no_events();
        let mut turn = self;
        let ghost shown = event@;
        match event {
            SessionEvent::TextDelta { session_id: _, text: delta } => {
                let session_id = turn.session_id;
                let ghost first = seq![
                    EventView::TextStart { session_id, text_id: text_id(turn@.round) },
                    EventView::TextDelta { session_id, text: delta@ },
                ];
                if !turn.text_started {
                    turn.text_started = true;
                    events::emit(
                        &mut events,
                        SessionEvent::TextStart { session_id, text_id: id_of_text(turn.round) },
                    );
                }
                turn.assistant_text.push_str(delta.as_str());
                events::emit(&mut events, SessionEvent::TextDelta { session_id, text: delta });
                assert(events::event_views(events@) =~= first || events::event_views(events@)
                    =~= seq![first[1]]);
                turn.read_on(state, events, None)
            },
            SessionEvent::TextStart { session_id, text_id } => {
                turn.text_started = true;
                events::emit(&mut events, SessionEvent::TextStart { session_id, text_id });
                assert(events::event_views(events@) =~= seq![shown]);
                turn.read_on(state, events, None)
            },
            SessionEvent::TextEnd { session_id, text_id, text } => {
                turn.text_ended = true;
                events::emit(&mut events, SessionEvent::TextEnd { session_id, text_id, text });
                assert(events::event_views(events@) =~= seq![shown]);
                turn.read_on(state, events, None)
            },
            SessionEvent::ToolCallRequested { session_id: _, tool_call_id, name, input_json } => {
                let call = ParsedToolCall { name, input: input_json };
                turn.request_tool(state, tool_call_id, call, cancelled, noted)
            },
            SessionEvent::Result { session_id: _, stop_reason } => turn.end_reply(
                state,
                stop_reason,
                cancelled,
                fresh_id,
                found,
            ),
            SessionEvent::Error { session_id: _, message } => turn.break_off(
                state,
                events,
                message,
            ),
            other => {
                events::emit(&mut events, other);
                assert(events::event_views(events@) =~= seq![shown]);
                turn.read_on(state, events, None)
            },
        }
    }

    /// Takes an event of the provider. The id is for a tool call in the reply.
    pub fn hear(
        self,
        state: &mut SessionState,
        event: SessionEvent,
        cancelled: bool,
        fresh_id: ToolCallId,
    ) -> (r: (Turn, TurnStep))
        requires
            self@.round < u64::MAX,
        ensures
            turns_to(
                r.0,
                *final(state),
                r.1,
                listened(self@, old(state)@, event@, cancelled, fresh_id),
            ),
    {
        let found = call::parse_tool_call(self.assistant_text.as_str());
        let noted = match &event {
            SessionEvent::ToolCallRequested { name, input_json, .. } => Json::object()
                .with("name", Json::text(name.as_str()))
                .with("input", input_json.clone())
                .to_text(),
            _ => String::new(),
        };
        assert(noted_call(event@) =~= noted@);
        self.hear_given(state, event, cancelled, fresh_id, found, noted.as_str())
    }

    /// Takes the user's answers to questions, and how they are told to the model.
    pub fn questions_answer(
        self,
        state: &mut SessionState,
        answers: Vec<QuestionAnswer>,
        output: String,
        cancelled: bool,
    ) -> (r: (Turn, TurnStep))
        requires
            self@.phase is AskingNative || self@.phase is AskingEnvelope,
            self@.round < u64::MAX,
        ensures
            turns_to(
                r.0,
                *final(state),
                r.1,
                questions_answered(
                    self@,
                    old(state)@,
                    events::answer_views(answers@),
                    output@,
                    cancelled,
                ),
            ),
    {
        let session_id = self.session_id;
        let (native, tool_call_id) = match &self.phase {
            TurnPhase::AskingNative { tool_call_id } => (true, *tool_call_id),
            TurnPhase::AskingEnvelope { tool_call_id } => (false, *tool_call_id),
            _ => (false, ToolCallId(0)),
        };
        let mut events = events::no_events();
        let ghost told = EventView::QuestionsAnswered {
            session_id,
            tool_call_id,
            answers: events::answer_views(answers@),
        };
        events::emit(
            &mut events,
            SessionEvent::QuestionsAnswered { session_id, tool_call_id, answers },
        );
        assert(events::event_views(events@) =~= seq![told]);
        if native {
            let response = ProviderToolResponse { tool_call_id, output, is_error: false };
            return self.read_on(state, events, Some(response));
        }
        state.push(Role::Tool, output.as_str());
        let mut turn = self;
        turn.round = turn.round + 1;
        turn.top(state, events, prompt::no_images(), cancelled)
    }

    /// Takes what came of a tool call.
    pub fn tool_run(
        self,
        state: &SessionState,
        response: ProviderToolResponse,
        status: LocalToolRunStatus,
        cancelled: bool,
    ) -> (r: (Turn, TurnStep))
        requires
            self@.phase is RunningNative || self@.phase is RunningEnvelope,
            self@.round < u64::MAX,
        ensures
            turns_to(
                r.0,
                *state,
                r.1,
                tool_ran(self@, state@, response@, status, cancelled),
            ),
    {
        let native = match &self.phase {
            TurnPhase::RunningNative { .. } => true,
            _ => false,
        };
        if native {
            if cancelled {
                let (turn, step) = self.finish(
                    state,
                    events::no_events(),
                    StopReason::Interrupted,
                );
                return (
                    turn,
                    TurnStep {
                        events: step.events,
                        response: Some(response),
                        action: step.action,
                    },
                );
            }
            return self.read_on(state, events::no_events(), Some(response));
        }
        if status != LocalToolRunStatus::Denied && cancelled {
            return self.finish(state, events::no_events(), StopReason::Interrupted);
        }
        self.end_round(state, events::no_events(), cancelled)
    }
}

/// How a call that the provider waits for is noted.
pub open spec fn noted_call(event: EventView) -> Seq<char> {
    match event {
        EventView::ToolCallRequested { name, input_json, .. } => json::json_text(
            call_json(CallView { name, input: input_json }),
        ),
        _ => seq![],
    }
}

// ---------------------------------------------------------------------------
// What every turn keeps to
// ---------------------------------------------------------------------------

/// How many of the events are results of the turn.
pub open spec fn results(events: Seq<EventView>) -> nat
    decreases events.len(),
{
    if events.len() == 0 {
        0
    } else {
        results(events.drop_last()) + (if events.last() is Result {
            1nat
        } else {
            0nat
        })
    }
}

/// Whether an outcome tells the turn's result exactly if it ends the turn, as the last
/// event.
pub open spec fn ends_with_result(outcome: TurnOutcome) -> bool {
    if outcome.action is Finished {
        &&& outcome.turn.phase is Ended
        &&& results(outcome.events) == 1
        &&& outcome.events.len() > 0
        &&& outcome.events.last() is Result
    } else {
        results(outcome.events) == 0
    }
}

proof fn lemma_results_push(events: Seq<EventView>, e: EventView)
    ensures
        results(events.push(e)) == results(events) + (if e is Result {
            1nat
        } else {
            0nat
        }),
{
    assert(events.push(e).drop_last() =~= events);
}

proof fn lemma_results_short(a: EventView, b: EventView)
    ensures
        results(seq![a]) == (if a is Result {
            1nat
        } else {
            0nat
        }),
        results(seq![a, b]) == results(seq![a]) + (if b is Result {
            1nat
        } else {
            0nat
        }),
{
    assert(seq![a] =~= Seq::empty().push(a));
    assert(seq![a, b] =~= seq![a].push(b));
    lemma_results_push(Seq::empty(), a);
    lemma_results_push(seq![a], b);
}

proof fn lemma_finished(
    turn: TurnView,
    session: SessionView,
    before: Seq<EventView>,
    reason: StopReason,
)
    requires
        results(before) == 0,
    ensures
        ends_with_result(finished(turn, session, before, reason)),
{
    let e = EventView::StepFinish {
        session_id: turn.session_id,
        index: step_index(turn.round),
        stop_reason: reason,
    };
    lemma_results_push(before, e);
    lemma_results_push(
        before.push(e),
        EventView::Result { session_id: turn.session_id, stop_reason: reason },
    );
}

proof fn lemma_broken(
    turn: TurnView,
    session: SessionView,
    before: Seq<EventView>,
    message: Seq<char>,
)
    requires
        results(before) == 0,
    ensures
        ends_with_result(broken(turn, session, before, message)),
{
    let e = EventView::Error { session_id: turn.session_id, message };
    lemma_results_push(before, e);
    lemma_finished(turn, session, before.push(e), StopReason::Error);
}

proof fn lemma_top(
    turn: TurnView,
    session: SessionView,
    before: Seq<EventView>,
    images: Seq<ImageView>,
    cancelled: bool,
)
    requires
        results(before) == 0,
    ensures
        ends_with_result(at_top(turn, session, before, images, cancelled)),
{
    if cancelled {
        lemma_results_push(
            before,
            EventView::Result {
                session_id: turn.session_id,
                stop_reason: StopReason::Interrupted,
            },
        );
    } else {
        let e = EventView::Status {
            session_id: turn.session_id,
            status: SessionStatus::Streaming,
        };
        lemma_results_push(before, e);
        lemma_results_push(
            before.push(e),
            EventView::StepStart { session_id: turn.session_id, index: step_index(turn.round) },
        );
    }
}

proof fn lemma_round_over(
    turn: TurnView,
    session: SessionView,
    before: Seq<EventView>,
    cancelled: bool,
)
    requires
        results(before) == 0,
    ensures
        ends_with_result(round_over(turn, session, before, cancelled)),
{
    let e = EventView::StepFinish {
        session_id: turn.session_id,
        index: step_index(turn.round),
        stop_reason: StopReason::EndTurn,
    };
    lemma_results_push(before, e);
    lemma_top(
        TurnView { round: (turn.round + 1) as u64, ..turn },
        session,
        before.push(e),
        seq![],
        cancelled,
    );
}

proof fn lemma_text_closed(turn: TurnView)
    ensures
        results(text_closed(turn)) == 0,
{
    let e = EventView::TextEnd {
        session_id: turn.session_id,
        text_id: text_id(turn.round),
        text: turn.assistant_text,
    };
    lemma_results_short(e, e);
}

/// A turn tells exactly one result, with its last event: every step that ends it tells
/// one, and no other step does, whatever the provider, the user and the tools do.
pub proof fn a_turn_has_one_result(
    turn: TurnView,
    session: SessionView,
    prompt: MultimodalView,
    error: Option<Seq<char>>,
    event: EventView,
    cancelled: bool,
    fresh_id: ToolCallId,
    found: Option<Result<CallView, ParseErrorView>>,
    noted: Seq<char>,
    answers: Seq<AnswerView>,
    output: Seq<char>,
    response: ToolResponseView,
    status: LocalToolRunStatus,
)
    ensures
        ends_with_result(begun(session, prompt, cancelled)),
        ends_with_result(provider_started(turn, session, error)),
        ends_with_result(interrupted(turn, session)),
        ends_with_result(cut_off(turn, session, error)),
        ends_with_result(heard(turn, session, event, cancelled, fresh_id, found, noted)),
        turn.phase is AskingNative || turn.phase is AskingEnvelope ==> ends_with_result(
            questions_answered(turn, session, answers, output, cancelled),
        ),
        turn.phase is RunningNative || turn.phase is RunningEnvelope ==> ends_with_result(
            tool_ran(turn, session, response, status, cancelled),
        ),
{
    let session_id = turn.session_id;
    let starting = EventView::Status {
        session_id: session.session_id,
        status: SessionStatus::Starting,
    };
    lemma_results_short(starting, starting);
    lemma_top(
        TurnView {
            session_id: session.session_id,
            round: 0,
            assistant_text: seq![],
            text_started: false,
            text_ended: false,
            phase: TurnPhaseView::Preparing,
        },
        session::said(session, Role::User, prompt.text),
        seq![starting],
        prompt.images,
        cancelled,
    );
    if let Some(e) = error {
        lemma_broken(turn, session, seq![], "provider failed to start turn: "@ + e);
    }
    lemma_text_closed(turn);
    lemma_finished(turn, session, text_closed(turn), StopReason::Interrupted);
    lemma_broken(
        turn,
        session,
        text_closed(turn),
        match error {
            Some(e) => "provider stream failed: "@ + e,
            None => "provider stream ended without a terminal result"@,
        },
    );
    lemma_heard(turn, session, event, cancelled, fresh_id, found, noted);
    match turn.phase {
        TurnPhaseView::AskingNative { tool_call_id } => {
            let e = EventView::QuestionsAnswered { session_id, tool_call_id, answers };
            lemma_results_short(e, e);
        },
        TurnPhaseView::AskingEnvelope { tool_call_id } => {
            let e = EventView::QuestionsAnswered { session_id, tool_call_id, answers };
            lemma_results_short(e, e);
            lemma_top(
                TurnView { round: (turn.round + 1) as u64, ..turn },
                session::said(session, Role::Tool, output),
                seq![e],
                seq![],
                cancelled,
            );
        },
        _ => {
            lemma_finished(turn, session, seq![], StopReason::Interrupted);
            lemma_round_over(turn, session, seq![], cancelled);
        },
    }
}

proof fn lemma_heard(
    turn: TurnView,
    session: SessionView,
    event: EventView,
    cancelled: bool,
    fresh_id: ToolCallId,
    found: Option<Result<CallView, ParseErrorView>>,
    noted: Seq<char>,
)
    ensures
        ends_with_result(heard(turn, session, event, cancelled, fresh_id, found, noted)),
{
    let session_id = turn.session_id;
    lemma_results_short(event, event);
    match event {
        EventView::TextDelta { text, .. } => {
            let delta = EventView::TextDelta { session_id, text };
            lemma_results_short(delta, delta);
            lemma_results_short(
                EventView::TextStart { session_id, text_id: text_id(turn.round) },
                delta,
            );
        },
        EventView::ToolCallRequested { .. } => {
            lemma_finished(
                turn,
                session::said(session, Role::Assistant, "tool call requested: "@ + noted),
                seq![],
                StopReason::Interrupted,
            );
        },
        EventView::Result { .. } => {
            lemma_text_closed(turn);
            let told = text_closed(turn);
            let after = session::said(session, Role::Assistant, turn.assistant_text);
            lemma_finished(turn, session, told, StopReason::Interrupted);
            lemma_finished(turn, after, told, StopReason::EndTurn);
            lemma_finished(turn, after, told, StopReason::Interrupted);
            if let Some(Err(e)) = found {
                let message = call::parse_error_message(e);
                let told_error = EventView::ToolCallError {
                    session_id,
                    tool_call_id: fresh_id,
                    message,
                };
                lemma_results_push(told, told_error);
                lemma_round_over(
                    turn,
                    session::said(after, Role::Tool, "tool call error: "@ + message),
                    told.push(told_error),
                    cancelled,
                );
            }
        },
        EventView::Error { message, .. } => {
            lemma_broken(turn, session, seq![], message);
        },
        _ => {},
    }
}

/// A transcript only grows: whatever is heard, what has been said stays as it was.
pub proof fn transcripts_only_grow(
    turn: TurnView,
    session: SessionView,
    event: EventView,
    cancelled: bool,
    fresh_id: ToolCallId,
    found: Option<Result<CallView, ParseErrorView>>,
    noted: Seq<char>,
)
    ensures
        session.transcript.is_prefix_of(
            heard(turn, session, event, cancelled, fresh_id, found, noted).session.transcript,
        ),
{
}

/// A reply that holds no tool call ends the turn, and so does no other reply that was not
/// cut short or cancelled.
pub proof fn a_turn_ends_with_a_plain_reply(
    turn: TurnView,
    session: SessionView,
    session_id: SessionId,
    reason: StopReason,
    fresh_id: ToolCallId,
    found: Option<Result<CallView, ParseErrorView>>,
    noted: Seq<char>,
)
    requires
        reason != StopReason::Interrupted,
    ensures
        ({
            let outcome = heard(
                turn,
                session,
                EventView::Result { session_id, stop_reason: reason },
                false,
                fresh_id,
                found,
                noted,
            );
            (outcome.action is Finished) == (found is None)
        }),
{
}

/// The pictures of a prompt go with the first request and with no later one.
pub proof fn pictures_are_sent_once(
    turn: TurnView,
    session: SessionView,
    prompt: MultimodalView,
    event: EventView,
    cancelled: bool,
    fresh_id: ToolCallId,
    found: Option<Result<CallView, ParseErrorView>>,
    noted: Seq<char>,
    answers: Seq<AnswerView>,
    output: Seq<char>,
    response: ToolResponseView,
    status: LocalToolRunStatus,
)
    ensures
        begun(session, prompt, false).action == (TurnActionView::StartProvider {
            images: prompt.images,
        }),
        heard(turn, session, event, cancelled, fresh_id, found, noted).action matches TurnActionView::StartProvider {
            images,
        } ==> images.len() == 0,
        turn.phase is AskingNative || turn.phase is AskingEnvelope ==> (questions_answered(
            turn,
            session,
            answers,
            output,
            cancelled,
        ).action matches TurnActionView::StartProvider { images } ==> images.len() == 0),
        turn.phase is RunningNative || turn.phase is RunningEnvelope ==> (tool_ran(
            turn,
            session,
            response,
            status,
            cancelled,
        ).action matches TurnActionView::StartProvider { images } ==> images.len() == 0),
{
}

/// A tool call that was denied does not end the turn by itself: the next round starts.
pub proof fn a_denied_call_goes_on(
    turn: TurnView,
    session: SessionView,
    response: ToolResponseView,
)
    requires
        turn.phase is RunningEnvelope,
        turn.round < u64::MAX,
    ensures
        ({
            let outcome = tool_ran(turn, session, response, LocalToolRunStatus::Denied, false);
            outcome.action is StartProvider && outcome.turn.round == turn.round + 1
        }),
{
}

// ---------------------------------------------------------------------------
// What a round gathers
// ---------------------------------------------------------------------------

/// What comes in while the provider's reply is read.
pub enum RoundInput {
    /// An event of the provider.
    Event { event: EventView, cancelled: bool, fresh_id: ToolCallId },
    /// The user's answers to questions.
    Answers { answers: Seq<AnswerView>, output: Seq<char>, cancelled: bool },
    /// What came of a tool call.
    Ran { response: ToolResponseView, status: LocalToolRunStatus, cancelled: bool },
}

/// The step behind what comes in.
pub open spec fn taken(turn: TurnView, session: SessionView, input: RoundInput) -> TurnOutcome {
    match input {
        RoundInput::Event { event, cancelled, fresh_id } => listened(
            turn,
            session,
            event,
            cancelled,
            fresh_id,
        ),
        RoundInput::Answers { answers, output, cancelled } => questions_answered(
            turn,
            session,
            answers,
            output,
            cancelled,
        ),
        RoundInput::Ran { response, status, cancelled } => tool_ran(
            turn,
            session,
            response,
            status,
            cancelled,
        ),
    }
}

/// Where a round has got behind what came in, from the start of the provider's reply on.
pub open spec fn reached(turn: TurnView, session: SessionView, inputs: Seq<RoundInput>)
    -> TurnOutcome
    decreases inputs.len(),
{
    if inputs.len() == 0 {
        provider_started(turn, session, None)
    } else {
        let before = reached(turn, session, inputs.drop_last());
        taken(before.turn, before.session, inputs.last())
    }
}

/// Whether a step waits for what comes in.
pub open spec fn fits(phase: TurnPhaseView, input: RoundInput) -> bool {
    match input {
        RoundInput::Event { .. } => phase is Streaming,
        RoundInput::Answers { .. } => phase is AskingNative,
        RoundInput::Ran { .. } => phase is RunningNative,
    }
}

/// Whether the provider's reply goes on behind what came in.
pub open spec fn goes_on(turn: TurnView, session: SessionView, inputs: Seq<RoundInput>) -> bool
    decreases inputs.len(),
{
    if inputs.len() == 0 {
        true
    } else {
        let phase = reached(turn, session, inputs).turn.phase;
        &&& goes_on(turn, session, inputs.drop_last())
        &&& fits(reached(turn, session, inputs.drop_last()).turn.phase, inputs.last())
        &&& phase is Streaming || phase is AskingNative || phase is RunningNative
    }
}

/// The pieces of text that the provider has sent, in order.
pub open spec fn pieces_heard(inputs: Seq<RoundInput>) -> Seq<Seq<char>>
    decreases inputs.len(),
{
    if inputs.len() == 0 {
        seq![]
    } else {
        match inputs.last() {
            RoundInput::Event { event: EventView::TextDelta { text, .. }, .. } => pieces_heard(
                inputs.drop_last(),
            ).push(text),
            _ => pieces_heard(inputs.drop_last()),
        }
    }
}

/// Whether the provider has said by itself that its text has ended.
pub open spec fn end_heard(inputs: Seq<RoundInput>) -> bool {
    exists|i: int|
        0 <= i < inputs.len() && (#[trigger] inputs[i] matches RoundInput::Event { event, .. }
            && event is TextEnd)
}

/// While a reply is read, its text is all the pieces that the provider has sent in this
/// round, one behind the other, whatever else came in between and whatever an earlier
/// round has left.
pub proof fn a_reply_is_all_of_its_pieces(
    turn: TurnView,
    session: SessionView,
    inputs: Seq<RoundInput>,
)
    requires
        goes_on(turn, session, inputs),
    ensures
        ({
            let now = reached(turn, session, inputs).turn;
            &&& now.assistant_text == text::concat(pieces_heard(inputs))
            &&& now.session_id == turn.session_id
            &&& now.round == turn.round
            &&& pieces_heard(inputs).len() > 0 ==> now.text_started
            &&& now.text_ended == end_heard(inputs)
        }),
    decreases inputs.len(),
{
    if inputs.len() > 0 {
        let before = inputs.drop_last();
        a_reply_is_all_of_its_pieces(turn, session, before);
        let pieces = pieces_heard(inputs);
        if let RoundInput::Event { event: EventView::TextDelta { text, .. }, .. } = inputs.last() {
            assert(pieces.drop_last() =~= pieces_heard(before));
        }
        if end_heard(before) {
            let i = choose|i: int|
                0 <= i < before.len() && (#[trigger] before[i] matches RoundInput::Event {
                    event,
                    ..
                } && event is TextEnd);
            assert(inputs[i] == before[i]);
        }
        if end_heard(inputs) && !end_heard(before) {
            let i = choose|i: int|
                0 <= i < inputs.len() && (#[trigger] inputs[i] matches RoundInput::Event {
                    event,
                    ..
                } && event is TextEnd);
            if i < before.len() {
                assert(before[i] == inputs[i]);
            }
        }
        if inputs.last() matches RoundInput::Event { event, .. } && event is TextEnd {
            assert(inputs[inputs.len() - 1] == inputs.last());
        }
    }
}

/// When a reply ends that was not cut short, all of its pieces together are the message
/// of the assistant, are told as the text that has ended, and are searched for a tool
/// call. What is found decides how the turn goes on: nothing ends it, a call is carried
/// out, and what cannot be read is told and answered with a further round.
pub proof fn a_whole_reply_decides_how_the_turn_goes_on(
    turn: TurnView,
    session: SessionView,
    inputs: Seq<RoundInput>,
    session_id: SessionId,
    reason: StopReason,
    cancelled: bool,
    fresh_id: ToolCallId,
)
    requires
        goes_on(turn, session, inputs),
        reached(turn, session, inputs).turn.phase is Streaming,
        reason != StopReason::Interrupted,
    ensures
        ({
            let said = text::concat(pieces_heard(inputs));
            let now = reached(turn, session, inputs);
            let event = EventView::Result { session_id, stop_reason: reason };
            let end = listened(now.turn, now.session, event, cancelled, fresh_id);
            let message = session::MessageView { role: Role::Assistant, content: said };
            let kept = now.session.transcript.push(message);
            &&& kept.is_prefix_of(end.session.transcript)
            &&& pieces_heard(inputs).len() > 0 && !end_heard(inputs) ==> end.events.len() > 0
                && end.events[0] == (EventView::TextEnd {
                session_id: turn.session_id,
                text_id: text_id(turn.round),
                text: said,
            })
            &&& match call::tool_call(said) {
                None => {
                    &&& end.action is Finished
                    &&& end.session.transcript == kept
                    &&& end.events.last() == (EventView::Result {
                        session_id: turn.session_id,
                        stop_reason: StopReason::EndTurn,
                    })
                },
                Some(Err(e)) => {
                    &&& end.session.transcript == kept.push(
                        session::MessageView {
                            role: Role::Tool,
                            content: "tool call error: "@ + call::parse_error_message(e),
                        },
                    )
                    &&& end.events.contains(
                        EventView::ToolCallError {
                            session_id: turn.session_id,
                            tool_call_id: fresh_id,
                            message: call::parse_error_message(e),
                        },
                    )
                    &&& !cancelled ==> end.action is StartProvider
                    &&& cancelled ==> end.action is Finished
                },
                Some(Ok(asked)) => {
                    &&& end.session.transcript == kept
                    &&& cancelled ==> end.action is Finished
                    &&& !cancelled && asked.name == "ask_questions"@ ==> end.action == (
                    TurnActionView::AskQuestions { tool_call_id: fresh_id, input: asked.input })
                    &&& !cancelled && asked.name != "ask_questions"@ ==> end.action == (
                    TurnActionView::RunTool { tool_call_id: fresh_id, call: asked })
                },
            }
        }),
{
    a_reply_is_all_of_its_pieces(turn, session, inputs);
    let now = reached(turn, session, inputs);
    let event = EventView::Result { session_id, stop_reason: reason };
    let end = listened(now.turn, now.session, event, cancelled, fresh_id);
    let said = now.turn.assistant_text;
    if let Some(Err(e)) = call::tool_call(said) {
        let told = EventView::ToolCallError {
            session_id: turn.session_id,
            tool_call_id: fresh_id,
            message: call::parse_error_message(e),
        };
        assert(end.events[text_closed(now.turn).len() as int] == told);
    }
}

/// A reply that is cut short leaves the transcript as it is and ends the turn, and so does
/// an error, which is told.
pub proof fn a_broken_reply_is_not_kept(
    turn: TurnView,
    session: SessionView,
    session_id: SessionId,
    message: Seq<char>,
    cancelled: bool,
    fresh_id: ToolCallId,
)
    ensures
        ({
            let cut = EventView::Result { session_id, stop_reason: StopReason::Interrupted };
            let end = listened(turn, session, cut, cancelled, fresh_id);
            &&& end.action is Finished
            &&& end.session == session
            &&& end.events.last() == (EventView::Result {
                session_id: turn.session_id,
                stop_reason: StopReason::Interrupted,
            })
        }),
        ({
            let wrong = EventView::Error { session_id, message };
            let end = listened(turn, session, wrong, cancelled, fresh_id);
            &&& end.action is Finished
            &&& end.session == session
            &&& end.events.contains(EventView::Error { session_id: turn.session_id, message })
            &&& end.events.last() == (EventView::Result {
                session_id: turn.session_id,
                stop_reason: StopReason::Error,
            })
        }),
{
    let wrong = EventView::Error { session_id, message };
    let end = listened(turn, session, wrong, cancelled, fresh_id);
    assert(end.events[0] == (EventView::Error { session_id: turn.session_id, message }));
}

/// Every piece of text is told as it comes, and a start is told before the first one.
pub proof fn pieces_are_told_as_they_come(
    turn: TurnView,
    session: SessionView,
    session_id: SessionId,
    piece: Seq<char>,
    cancelled: bool,
    fresh_id: ToolCallId,
)
    ensures
        ({
            let event = EventView::TextDelta { session_id, text: piece };
            let next = listened(turn, session, event, cancelled, fresh_id);
            &&& next.action is NextEvent
            &&& next.session == session
            &&& next.events.last() == (EventView::TextDelta {
                session_id: turn.session_id,
                text: piece,
            })
            &&& next.events.len() == (if turn.text_started {
                1int
            } else {
                2int
            })
            &&& !turn.text_started ==> next.events[0] == (EventView::TextStart {
                session_id: turn.session_id,
                text_id: text_id(turn.round),
            })
            &&& next.turn.text_started
        }),
{
}

/// A call that the provider waits for is carried out under the provider's own id, and its
/// answer goes back to the provider, after which the reply goes on; it stands in the
/// transcript before it runs. A call in the reply itself starts a further round when it
/// has run.
pub proof fn calls_are_answered_where_they_were_made(
    turn: TurnView,
    session: SessionView,
    session_id: SessionId,
    tool_call_id: ToolCallId,
    name: Seq<char>,
    input: JsonView,
    fresh_id: ToolCallId,
    response: ToolResponseView,
    status: LocalToolRunStatus,
)
    requires
        turn.round < u64::MAX,
        name != "ask_questions"@,
    ensures
        ({
            let event = EventView::ToolCallRequested {
                session_id,
                tool_call_id,
                name,
                input_json: input,
            };
            let asked = listened(turn, session, event, false, fresh_id);
            let done = tool_ran(asked.turn, asked.session, response, status, false);
            &&& asked.action == (TurnActionView::RunTool {
                tool_call_id,
                call: CallView { name, input },
            })
            &&& asked.session.transcript.len() == session.transcript.len() + 1
            &&& asked.session.transcript.drop_last() == session.transcript
            &&& asked.session.transcript.last().role == Role::Assistant
            &&& done.response == Some(response)
            &&& done.action is NextEvent
            &&& done.turn.assistant_text == turn.assistant_text
            &&& done.turn.round == turn.round
            &&& done.session == asked.session
        }),
        turn.phase is RunningEnvelope ==> ({
            let done = tool_ran(turn, session, response, status, false);
            &&& done.action is StartProvider
            &&& done.turn.round == turn.round + 1
            &&& done.session == session
            &&& done.response is None
        }),
{
    let event = EventView::ToolCallRequested { session_id, tool_call_id, name, input_json: input };
    let asked = listened(turn, session, event, false, fresh_id);
    assert(asked.session.transcript.drop_last() =~= session.transcript);
}

/// A turn starts with the user's prompt as the next message, in the first round.
pub proof fn a_turn_starts_with_the_prompt(session: SessionView, prompt: MultimodalView)
    ensures
        ({
            let start = begun(session, prompt, false);
            &&& start.session.transcript == session.transcript.push(
                session::MessageView { role: Role::User, content: prompt.text },
            )
            &&& start.turn.round == 0
            &&& start.action == (TurnActionView::StartProvider { images: prompt.images })
            &&& begun(session, prompt, true).action is Finished
        }),
{
}

} // verus!
