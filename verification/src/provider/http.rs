//! What is asked of those who speak HTTP with a provider, and what they answer.
use vstd::prelude::*;

use crate::provider::common::{ProviderToolResponse, ToolResponseView};
use crate::provider::sse::{ErrorChain, ErrorChainView};
use crate::runtime::events;
use crate::runtime::events::{EventView, SessionEvent};
use crate::text;

verus! {

/// What has to be done next in a turn.
#[derive(Debug)]
pub enum HttpAction {
    /// Send the request.
    Request,
    /// Wait for the next piece of the response.
    NextChunk,
    /// Have the next event of the response parsed.
    NextFrame,
    /// Wait for the result of a tool.
    AwaitTool,
    /// Nothing: the turn has ended with an error.
    Fail { error: String },
    /// Nothing: the turn has ended.
    Finished,
}

/// The content of a `HttpAction`.
pub enum HttpActionView {
    Request,
    NextChunk,
    NextFrame,
    AwaitTool,
    Fail { error: Seq<char> },
    Finished,
}

impl View for HttpAction {
    type V = HttpActionView;

    open spec fn view(&self) -> HttpActionView {
        match self {
            HttpAction::Request => HttpActionView::Request,
            HttpAction::NextChunk => HttpActionView::NextChunk,
            HttpAction::NextFrame => HttpActionView::NextFrame,
            HttpAction::AwaitTool => HttpActionView::AwaitTool,
            HttpAction::Fail { error } => HttpActionView::Fail { error: error@ },
            HttpAction::Finished => HttpActionView::Finished,
        }
    }
}

/// What has to be told and done after a step.
#[derive(Debug)]
pub struct HttpStep {
    pub events: Vec<SessionEvent>,
    pub action: HttpAction,
}

/// A step without events.
pub fn step_of(action: HttpAction) -> (r: HttpStep)
    ensures
        events::event_views(r.events@) == Seq::<EventView>::empty(),
        r.action == action,
{
    HttpStep { events: events::no_events(), action }
}

/// What came of a request.
#[derive(Debug)]
pub enum ResponseOutcome {
    Cancelled,
    /// There was no response for too long.
    Idle,
    /// The request could not be sent.
    Failed { error: String },
    /// The response's status is not one of success.
    Refused { status: String, body: String },
    /// The response can be read.
    Opened { status: String, content_type: Option<String> },
}

/// The content of a `ResponseOutcome`.
pub enum ResponseView {
    Cancelled,
    Idle,
    Failed { error: Seq<char> },
    Refused { status: Seq<char>, body: Seq<char> },
    Opened { status: Seq<char>, content_type: Option<Seq<char>> },
}

impl View for ResponseOutcome {
    type V = ResponseView;

    open spec fn view(&self) -> ResponseView {
        match self {
            ResponseOutcome::Cancelled => ResponseView::Cancelled,
            ResponseOutcome::Idle => ResponseView::Idle,
            ResponseOutcome::Failed { error } => ResponseView::Failed { error: error@ },
            ResponseOutcome::Refused { status, body } => ResponseView::Refused { status: status@, body: body@ },
            ResponseOutcome::Opened { status, content_type } => ResponseView::Opened { status: status@, content_type: text::opt(*content_type) },
        }
    }
}

/// What came of waiting for the next piece of a response.
#[derive(Debug)]
pub enum ChunkOutcome {
    Cancelled,
    /// Nothing came for too long.
    Idle,
    Bytes { bytes: Vec<u8> },
    Failed { error: ErrorChain },
    Ended,
}

/// The content of a `ChunkOutcome`.
pub enum ChunkView {
    Cancelled,
    Idle,
    Bytes { bytes: Seq<u8> },
    Failed { error: ErrorChainView },
    Ended,
}

impl View for ChunkOutcome {
    type V = ChunkView;

    open spec fn view(&self) -> ChunkView {
        match self {
            ChunkOutcome::Cancelled => ChunkView::Cancelled,
            ChunkOutcome::Idle => ChunkView::Idle,
            ChunkOutcome::Bytes { bytes } => ChunkView::Bytes { bytes: bytes@ },
            ChunkOutcome::Failed { error } => ChunkView::Failed { error: error@ },
            ChunkOutcome::Ended => ChunkView::Ended,
        }
    }
}

/// What came of waiting for a tool's result.
#[derive(Debug)]
pub enum ToolOutcome {
    Cancelled,
    /// There will be no further results.
    Lost,
    Done { response: ProviderToolResponse },
}

/// The content of a `ToolOutcome`.
pub enum ToolOutcomeView {
    Cancelled,
    Lost,
    Done { response: ToolResponseView },
}

impl View for ToolOutcome {
    type V = ToolOutcomeView;

    open spec fn view(&self) -> ToolOutcomeView {
        match self {
            ToolOutcome::Cancelled => ToolOutcomeView::Cancelled,
            ToolOutcome::Lost => ToolOutcomeView::Lost,
            ToolOutcome::Done { response } => ToolOutcomeView::Done { response: response@ },
        }
    }
}

} // verus!
