//! The provider that speaks the chat completions API: what its events mean.
use vstd::prelude::*;

use crate::json;
use crate::json::{Json, JsonView};
use crate::provider::bridge;
use crate::provider::codex;
use crate::provider::common::{ProviderToolResponse, ToolResponseView};
use crate::provider::sse;
use crate::runtime::events;
use crate::runtime::events::{EventView, SessionEvent};
use crate::runtime::types::{SessionId, ToolCallId};
use crate::text;

verus! {

// ---------------------------------------------------------------------------
// The reply
// ---------------------------------------------------------------------------

/// A call of a tool, as far as it has come.
#[derive(Debug)]
pub struct PendingToolCall {
    pub tool_call_id: ToolCallId,
    /// The name under which the provider knows the call.
    pub provider_id: String,
    pub name: String,
    pub arguments: String,
    /// Whether the session has been told of the call.
    pub requested: bool,
}

/// The content of a `PendingToolCall`.
pub struct SlotView {
    pub tool_call_id: ToolCallId,
    pub provider_id: Seq<char>,
    pub name: Seq<char>,
    pub arguments: Seq<char>,
    pub requested: bool,
}

impl View for PendingToolCall {
    type V = SlotView;

    open spec fn view(&self) -> SlotView {
        SlotView {
            tool_call_id: self.tool_call_id,
            provider_id: self.provider_id@,
            name: self.name@,
            arguments: self.arguments@,
            requested: self.requested,
        }
    }
}

impl Clone for PendingToolCall {
    fn clone(&self) -> (r: PendingToolCall)
        ensures
            r@ == self@,
    {
        PendingToolCall {
            tool_call_id: self.tool_call_id,
            provider_id: self.provider_id.clone(),
            name: self.name.clone(),
            arguments: self.arguments.clone(),
            requested: self.requested,
        }
    }
}

pub open spec fn slot_views(calls: Seq<PendingToolCall>) -> Seq<SlotView> {
    calls.map_values(|c: PendingToolCall| c@)
}

/// A reply of the model, as far as it has come.
#[derive(Debug)]
pub struct PendingAssistantMessage {
    pub content: String,
    pub tool_calls: Vec<PendingToolCall>,
    /// The id of the first call; the others follow it.
    pub first_id: u128,
}

/// The content of a `PendingAssistantMessage`.
pub struct AssistantView {
    pub content: Seq<char>,
    pub tool_calls: Seq<SlotView>,
    pub first_id: u128,
}

impl View for PendingAssistantMessage {
    type V = AssistantView;

    open spec fn view(&self) -> AssistantView {
        AssistantView {
            content: self.content@,
            tool_calls: slot_views(self.tool_calls@),
            first_id: self.first_id,
        }
    }
}

/// A reply of which nothing has come.
pub open spec fn silent(first_id: u128) -> AssistantView {
    AssistantView { content: seq![], tool_calls: seq![], first_id }
}

/// The id of the call at an index.
pub open spec fn slot_id(first_id: u128, index: int) -> u128 {
    if first_id + index > u128::MAX {
        (first_id + index - u128::MAX - 1) as u128
    } else {
        (first_id + index) as u128
    }
}

/// A call of which nothing has come.
pub open spec fn blank_slot(first_id: u128, index: int) -> SlotView {
    SlotView {
        tool_call_id: ToolCallId(slot_id(first_id, index)),
        provider_id: seq![],
        name: seq![],
        arguments: seq![],
        requested: false,
    }
}

/// The calls, with blank ones up to a number.
pub open spec fn with_slots(m: AssistantView, count: int) -> Seq<SlotView> {
    if count <= m.tool_calls.len() {
        m.tool_calls
    } else {
        Seq::new(
            count as nat,
            |i: int|
                if i < m.tool_calls.len() {
                    m.tool_calls[i]
                } else {
                    blank_slot(m.first_id, i)
                },
        )
    }
}

/// The index that a piece of a call is for.
pub open spec fn call_index(call: JsonView) -> int {
    match json::unsigned_field(call, "index"@) {
        Some(n) => (n as u64) as usize as int,
        None => 0,
    }
}

pub open spec fn added(s: Seq<char>, more: Option<Seq<char>>) -> Seq<char> {
    match more {
        Some(t) => s + t,
        None => s,
    }
}

/// The call with a piece of it.
pub open spec fn slot_heard(slot: SlotView, call: JsonView) -> SlotView {
    SlotView {
        provider_id: match json::text_field(call, "id"@) {
            Some(id) => if id.len() > 0 {
                id
            } else {
                slot.provider_id
            },
            None => slot.provider_id,
        },
        name: added(slot.name, json::inner_text(call, "function"@, "name"@)),
        arguments: added(slot.arguments, json::inner_text(call, "function"@, "arguments"@)),
        ..slot
    }
}

/// The reply with a piece of a call.
pub open spec fn call_heard(m: AssistantView, call: JsonView) -> AssistantView {
    let i = call_index(call);
    let slots = with_slots(m, i + 1);
    AssistantView { tool_calls: slots.update(i, slot_heard(slots[i], call)), ..m }
}

pub open spec fn calls_heard(m: AssistantView, calls: Seq<JsonView>) -> AssistantView
    decreases calls.len(),
{
    if calls.len() == 0 {
        m
    } else {
        call_heard(calls_heard(m, calls.drop_last()), calls.last())
    }
}

/// Whether a call can be carried out.
pub open spec fn is_ready(slot: SlotView) -> bool {
    text::trimmed(slot.provider_id).len() > 0 && text::trimmed(slot.name).len() > 0
}

/// The arguments of a call, given how their text reads as JSON.
pub open spec fn slot_input(read: Result<JsonView, Seq<char>>) -> JsonView {
    match read {
        Ok(v) => v,
        Err(_) => json::empty_object(),
    }
}

/// How a call is told to the session, given its arguments.
pub open spec fn request_event(session_id: SessionId, slot: SlotView, input: JsonView)
    -> EventView {
    EventView::ToolCallRequested {
        session_id,
        tool_call_id: slot.tool_call_id,
        name: slot.name,
        input_json: input,
    }
}

/// How the calls are told that can be carried out and have not been told.
pub open spec fn requests(session_id: SessionId, slots: Seq<SlotView>) -> Seq<EventView>
    decreases slots.len(),
{
    if slots.len() == 0 {
        seq![]
    } else {
        let before = requests(session_id, slots.drop_last());
        let slot = slots.last();
        if !slot.requested && is_ready(slot) {
            before.push(
                request_event(session_id, slot, slot_input(json::json_parse(slot.arguments))),
            )
        } else {
            before
        }
    }
}

/// The call, marked as told if it can be carried out.
pub open spec fn marked(slot: SlotView) -> SlotView {
    SlotView { requested: slot.requested || is_ready(slot), ..slot }
}

/// The reply, with the calls marked as told that can be carried out.
pub open spec fn all_marked(m: AssistantView) -> AssistantView {
    AssistantView { tool_calls: m.tool_calls.map_values(|s: SlotView| marked(s)), ..m }
}

/// The calls that have been told and can be carried out.
pub open spec fn requested(slots: Seq<SlotView>) -> Seq<SlotView>
    decreases slots.len(),
{
    if slots.len() == 0 {
        seq![]
    } else {
        let before = requested(slots.drop_last());
        if slots.last().requested && is_ready(slots.last()) {
            before.push(slots.last())
        } else {
            before
        }
    }
}

/// A call in a request.
pub open spec fn call_json(slot: SlotView) -> JsonView {
    json::empty_object()
        .with("id"@, JsonView::Text(slot.provider_id))
        .with("type"@, JsonView::Text("function"@))
        .with(
            "function"@,
            json::empty_object().with("name"@, JsonView::Text(slot.name)).with(
                "arguments"@,
                JsonView::Text(
                    if text::trimmed(slot.arguments).len() == 0 {
                        "{}"@
                    } else {
                        slot.arguments
                    },
                ),
            ),
        )
}

/// The reply as a message of a request.
pub open spec fn chat_message(m: AssistantView) -> JsonView {
    json::empty_object()
        .with("role"@, JsonView::Text("assistant"@))
        .with(
            "content"@,
            if m.content.len() == 0 {
                JsonView::Null
            } else {
                JsonView::Text(m.content)
            },
        )
        .with(
            "tool_calls"@,
            JsonView::Array(requested(m.tool_calls).map_values(|s: SlotView| call_json(s))),
        )
}

/// A tool's result as a message of a request.
pub open spec fn result_message(provider_id: Seq<char>, response: ToolResponseView) -> JsonView {
    json::empty_object()
        .with("role"@, JsonView::Text("tool"@))
        .with("tool_call_id"@, JsonView::Text(provider_id))
        .with("content"@, JsonView::Text(codex::result_text(response)))
}

impl PendingToolCall {
    /// Whether the call can be carried out.
    pub fn is_ready(&self) -> (r: bool)
        ensures
            r == is_ready(self@),
    {
        let id = text::trim(self.provider_id.as_str());
        let name = text::trim(self.name.as_str());
        !text::is_blank_len(&id) && !text::is_blank_len(&name)
    }
}

impl PendingAssistantMessage {
    /// A reply of which nothing has come. The calls in it get the id and those that follow.
    pub fn new(first_id: u128) -> (r: PendingAssistantMessage)
        ensures
            r@ == silent(first_id),
    {
        let r = PendingAssistantMessage {
            content: String::new(),
            tool_calls: Vec::new(),
            first_id,
        };
        assert(r@.tool_calls =~= seq![]);
        assert(r@.content =~= seq![]);
        r
    }

    fn grow(&mut self, index: usize)
        ensures
            final(self)@ == (AssistantView {
                tool_calls: with_slots(old(self)@, index + 1),
                ..old(self)@
            }),
            final(self).tool_calls@.len() > index,
    {
        let ghost first = old(self)@;
        let ghost out = with_slots(first, index + 1);
        assert(self@.tool_calls =~= out.take(self.tool_calls@.len() as int));
        while self.tool_calls.len() <= index
            invariant
                first == old(self)@,
                out == with_slots(first, index + 1),
                first.tool_calls.len() <= self.tool_calls@.len() <= out.len(),
                out.len() == if index + 1 <= first.tool_calls.len() {
                    first.tool_calls.len() as int
                } else {
                    index + 1
                },
                self@.tool_calls == out.take(self.tool_calls@.len() as int),
                self.first_id == first.first_id,
                self.content@ == first.content,
            decreases index + 1 - self.tool_calls@.len(),
        {
            let n: usize = self.tool_calls.len();
            let ghost before = self@.tool_calls;
            self.tool_calls.push(
                PendingToolCall {
                    tool_call_id: ToolCallId(self.first_id.wrapping_add(n as u128)),
                    provider_id: String::new(),
                    name: String::new(),
                    arguments: String::new(),
                    requested: false,
                },
            );
            let ghost slot = self.tool_calls@.last()@;
            assert(slot.provider_id =~= seq![]);
            assert(slot.name =~= seq![]);
            assert(slot.arguments =~= seq![]);
            assert(slot == blank_slot(first.first_id, n as int));
            assert(self@.tool_calls =~= before.push(slot));
            assert(out.take(n + 1) =~= out.take(n as int).push(out[n as int]));
        }
        assert(out.take(self.tool_calls@.len() as int) =~= out);
    }

    /// A piece of a call has come.
    pub fn hear_call(&mut self, call: &Json)
        ensures
            final(self)@ == call_heard(old(self)@, call@),
    {
        let index: usize = match call.get_u64("index") {
            Some(n) => n as usize,
            None => 0,
        };
        assert(index == call_index(call@));
        self.grow(index);
        let ghost slots = self@.tool_calls;
        let mut slot = self.tool_calls[index].clone();
        match call.get_string("id") {
            Some(id) => {
                if !text::is_blank_len(&id) {
                    slot.provider_id = id;
                }
            },
            None => {},
        }
        match call.get_inner_str("function", "name") {
            Some(n) => {
                slot.name.push_str(n);
            },
            None => {},
        }
        match call.get_inner_str("function", "arguments") {
            Some(a) => {
                slot.arguments.push_str(a);
            },
            None => {},
        }
        let ghost heard = slot@;
        assert(heard == slot_heard(slots[index as int], call@));
        self.tool_calls.set(index, slot);
        assert(self@.tool_calls =~= slots.update(index as int, heard));
    }

    fn hear_calls(&mut self, calls: &Vec<Json>)
        ensures
            final(self)@ == calls_heard(old(self)@, json::array_view(calls@)),
    {
        let ghost first = old(self)@;
        let ghost all = json::array_view(calls@);
        proof {
            json::lemma_array_view(calls@);
        }
        let mut i: usize = 0;
        while i < calls.len()
            invariant
                i <= calls@.len(),
                first == old(self)@,
                all == json::array_view(calls@),
                all.len() == calls@.len(),
                forall|k: int| 0 <= k < calls@.len() ==> #[trigger] all[k] == calls@[k]@,
                self@ == calls_heard(first, all.take(i as int)),
            decreases calls@.len() - i,
        {
            assert(all.take(i + 1).drop_last() =~= all.take(i as int));
            assert(all.take(i + 1).last() == calls@[i as int]@);
            self.hear_call(&calls[i]);
            i += 1;
        }
        assert(all.take(i as int) =~= all);
    }

    /// Tells of the calls that can be carried out and have not been told.
    pub fn emit_ready_tool_requests(&mut self, session_id: SessionId) -> (told: Vec<SessionEvent>)
        ensures
            events::event_views(told@) == requests(session_id, old(self)@.tool_calls),
            final(self)@ == all_marked(old(self)@),
    {
        let ghost first = old(self)@;
        let ghost slots = first.tool_calls;
        let mut told = events::no_events();
        let mut i: usize = 0;
        let total: usize = self.tool_calls.len();
        assert(slots.take(0) =~= seq![]);
        while i < total
            invariant
                i <= total,
                total == self.tool_calls@.len(),
                total == slots.len(),
                first == old(self)@,
                slots == first.tool_calls,
                self.first_id == first.first_id,
                self.content@ == first.content,
                forall|k: int| 0 <= k < i ==> (#[trigger] self.tool_calls@[k])@ == marked(slots[k]),
                forall|k: int| i <= k < total ==> (#[trigger] self.tool_calls@[k])@ == slots[k],
                events::event_views(told@) == requests(session_id, slots.take(i as int)),
            decreases total - i,
        {
            assert(slots.take(i + 1).drop_last() =~= slots.take(i as int));
            assert(slots.take(i + 1).last() == slots[i as int]);
            assert(self.tool_calls@[i as int]@ == slots[i as int]);
            if !self.tool_calls[i].requested && self.tool_calls[i].is_ready() {
                let mut slot = self.tool_calls[i].clone();
                let input_json = match json::parse(slot.arguments.as_str()) {
                    Ok(v) => v,
                    Err(_) => Json::object(),
                };
                events::emit(
                    &mut told,
                    SessionEvent::ToolCallRequested {
                        session_id,
                        tool_call_id: slot.tool_call_id,
                        name: slot.name.clone(),
                        input_json,
                    },
                );
                slot.requested = true;
                self.tool_calls.set(i, slot);
            }
            i += 1;
        }
        assert(slots.take(i as int) =~= slots);
        assert(self@.tool_calls =~= slots.map_values(|s: SlotView| marked(s)));
        told
    }

    /// The calls that have been told and can be carried out.
    pub fn requested_tool_calls(&self) -> (r: Vec<PendingToolCall>)
        ensures
            slot_views(r@) == requested(self@.tool_calls),
    {
        let ghost slots = self@.tool_calls;
        let mut r: Vec<PendingToolCall> = Vec::new();
        let mut i: usize = 0;
        assert(slot_views(r@) =~= requested(slots.take(0)));
        while i < self.tool_calls.len()
            invariant
                i <= self.tool_calls@.len(),
                slots == self@.tool_calls,
                slot_views(r@) == requested(slots.take(i as int)),
            decreases self.tool_calls@.len() - i,
        {
            assert(slots.take(i + 1).drop_last() =~= slots.take(i as int));
            assert(slots.take(i + 1).last() == self.tool_calls@[i as int]@);
            if self.tool_calls[i].requested && self.tool_calls[i].is_ready() {
                let ghost before = slot_views(r@);
                r.push(self.tool_calls[i].clone());
                assert(slot_views(r@) =~= before.push(slots[i as int]));
            }
            i += 1;
        }
        assert(slots.take(i as int) =~= slots);
        r
    }

    /// The reply as a message of a request.
    pub fn to_chat_message(&self) -> (r: Json)
        ensures
            r@ == chat_message(self@),
    {
        let calls = self.requested_tool_calls();
        let ghost slots = slot_views(calls@);
        let ghost told = slots.map_values(|s: SlotView| call_json(s));
        let mut items = json::no_items();
        let mut i: usize = 0;
        assert(told.take(0) =~= seq![]);
        while i < calls.len()
            invariant
                i <= calls@.len(),
                slots == slot_views(calls@),
                told == slots.map_values(|s: SlotView| call_json(s)),
                json::array_view(items@) == told.take(i as int),
            decreases calls@.len() - i,
        {
            let call = &calls[i];
            assert(slots[i as int] == call@);
            let blank = text::trim(call.arguments.as_str());
            let arguments = if text::is_blank_len(&blank) {
                "{}"
            } else {
                call.arguments.as_str()
            };
            json::push_item(
                &mut items,
                Json::object()
                    .with("id", Json::text(call.provider_id.as_str()))
                    .with("type", Json::text("function"))
                    .with(
                        "function",
                        Json::object().with("name", Json::text(call.name.as_str())).with(
                            "arguments",
                            Json::text(arguments),
                        ),
                    ),
            );
            assert(told.take(i + 1) =~= told.take(i as int).push(told[i as int]));
            i += 1;
        }
        assert(told.take(i as int) =~= told);
        let content = if text::is_blank_len(&self.content) {
            Json::Null
        } else {
            Json::text(self.content.as_str())
        };
        Json::object()
            .with("role", Json::text("assistant"))
            .with("content", content)
            .with("tool_calls", Json::Array(items))
    }
}

/// A tool's result as a message of a request.
pub fn tool_result_message(pending: &PendingToolCall, response: &ProviderToolResponse) -> (r: Json)
    ensures
        r@ == result_message(pending@.provider_id, response@),
{
    let content = codex::tool_result_text(response);
    Json::object()
        .with("role", Json::text("tool"))
        .with("tool_call_id", Json::text(pending.provider_id.as_str()))
        .with("content", Json::text(content.as_str()))
}

// ---------------------------------------------------------------------------
// Events of the provider
// ---------------------------------------------------------------------------

/// What an event of the provider says.
#[derive(Debug)]
pub struct ParsedChatEvent {
    pub events: Vec<SessionEvent>,
    /// Whether the provider says that it is done.
    pub done: bool,
}

/// What an event leads to: the reply with what the event adds to it, what is told, and
/// whether the provider is done.
pub struct ChatOutcome {
    pub assistant: AssistantView,
    pub events: Seq<EventView>,
    pub done: bool,
}

/// The tokens that an event tells, if it does.
pub open spec fn usage_told(session_id: SessionId, v: JsonView) -> Option<EventView> {
    match json::field(v, "usage"@) {
        Some(u) => Some(
            EventView::Usage {
                session_id,
                input_tokens: match bridge::count_field(u, "prompt_tokens"@) {
                    Some(n) => Some(n),
                    None => bridge::count_field(u, "input_tokens"@),
                },
                output_tokens: match bridge::count_field(u, "completion_tokens"@) {
                    Some(n) => Some(n),
                    None => bridge::count_field(u, "output_tokens"@),
                },
                cache_read_tokens: None,
                total_cost_usd: None,
            },
        ),
        None => None,
    }
}

/// A piece of the reply has come.
pub open spec fn delta_heard(session_id: SessionId, m: AssistantView, delta: JsonView)
    -> ChatOutcome {
    let content = json::text_field(delta, "content"@);
    let spoken = AssistantView { content: added(m.content, content), ..m };
    ChatOutcome {
        assistant: match json::items_field(delta, "tool_calls"@) {
            Some(calls) => calls_heard(spoken, calls),
            None => spoken,
        },
        events: match content {
            Some(t) => seq![EventView::TextDelta { session_id, text: t }],
            None => seq![],
        },
        done: false,
    }
}

/// A choice of the provider has come: a piece of the reply, and maybe that tools have to
/// be called.
pub open spec fn choice_heard(session_id: SessionId, m: AssistantView, choice: JsonView)
    -> ChatOutcome {
    let heard = match json::field(choice, "delta"@) {
        Some(delta) => delta_heard(session_id, m, delta),
        None => ChatOutcome { assistant: m, events: seq![], done: false },
    };
    if json::text_field(choice, "finish_reason"@) == Some("tool_calls"@) {
        ChatOutcome {
            assistant: all_marked(heard.assistant),
            events: heard.events + requests(session_id, heard.assistant.tool_calls),
            done: false,
        }
    } else {
        heard
    }
}

pub open spec fn choices_heard(
    session_id: SessionId,
    m: AssistantView,
    first: Seq<EventView>,
    choices: Seq<JsonView>,
) -> ChatOutcome
    decreases choices.len(),
{
    if choices.len() == 0 {
        ChatOutcome { assistant: m, events: first, done: false }
    } else {
        let before = choices_heard(session_id, m, first, choices.drop_last());
        let heard = choice_heard(session_id, before.assistant, choices.last());
        ChatOutcome {
            assistant: heard.assistant,
            events: before.events + heard.events,
            done: false,
        }
    }
}

/// What an event's JSON says.
pub open spec fn chat_said(session_id: SessionId, m: AssistantView, v: JsonView) -> ChatOutcome {
    match json::inner_text(v, "error"@, "message"@) {
        Some(e) => ChatOutcome {
            assistant: m,
            events: seq![EventView::Error { session_id, message: e }],
            done: false,
        },
        None => choices_heard(
            session_id,
            m,
            match usage_told(session_id, v) {
                Some(u) => seq![u],
                None => seq![],
            },
            match json::items_field(v, "choices"@) {
                Some(choices) => choices,
                None => seq![],
            },
        ),
    }
}

/// What an event says.
pub open spec fn chat_parsed(session_id: SessionId, m: AssistantView, raw: Seq<char>)
    -> ChatOutcome {
    let data = sse::event_data(raw);
    if data.len() == 0 {
        ChatOutcome { assistant: m, events: seq![], done: false }
    } else if data == "[DONE]"@ {
        ChatOutcome { assistant: m, events: seq![], done: true }
    } else {
        match json::json_parse(data) {
            Ok(v) => chat_said(session_id, m, v),
            Err(_) => ChatOutcome { assistant: m, events: seq![], done: false },
        }
    }
}

fn usage_event(session_id: SessionId, value: &Json) -> (r: Option<SessionEvent>)
    ensures
        match r {
            Some(e) => usage_told(session_id, value@) == Some(e@),
            None => usage_told(session_id, value@) is None,
        },
{
    match value.get("usage") {
        Some(u) => {
            let input_tokens = match u.get_u64("prompt_tokens") {
                Some(n) => Some(n),
                None => u.get_u64("input_tokens"),
            };
            let output_tokens = match u.get_u64("completion_tokens") {
                Some(n) => Some(n),
                None => u.get_u64("output_tokens"),
            };
            Some(
                SessionEvent::Usage {
                    session_id,
                    input_tokens,
                    output_tokens,
                    cache_read_tokens: None,
                    total_cost_usd: None,
                },
            )
        },
        None => None,
    }
}

/// Appends events.
pub fn append_events(told: &mut Vec<SessionEvent>, more: Vec<SessionEvent>)
    ensures
        events::event_views(final(told)@) == events::event_views(old(told)@)
            + events::event_views(more@),
{
    let ghost first = events::event_views(told@);
    let ghost added = events::event_views(more@);
    let mut more = more;
    told.append(&mut more);
    assert(events::event_views(told@) =~= first + added);
}

fn hear_choice(
    session_id: SessionId,
    choice: &Json,
    assistant: &mut PendingAssistantMessage,
) -> (told: Vec<SessionEvent>)
    ensures
        final(assistant)@ == choice_heard(session_id, old(assistant)@, choice@).assistant,
        events::event_views(told@) == choice_heard(session_id, old(assistant)@, choice@).events,
{
    let mut told = events::no_events();
    match choice.get("delta") {
        Some(delta) => {
            match delta.get_str("content") {
                Some(content) => {
                    assistant.content.push_str(content);
                    told = bridge::one_event(
                        SessionEvent::TextDelta { session_id, text: content.to_string() },
                    );
                },
                None => {},
            }
            match delta.get_array("tool_calls") {
                Some(calls) => {
                    assistant.hear_calls(calls);
                },
                None => {},
            }
        },
        None => {},
    }
    let finished = match choice.get_str("finish_reason") {
        Some(r) => text::same(r, "tool_calls"),
        None => false,
    };
    if finished {
        let ready = assistant.emit_ready_tool_requests(session_id);
        append_events(&mut told, ready);
    }
    told
}

/// What an event's JSON says.
pub fn parse_chat_value(
    session_id: SessionId,
    value: &Json,
    assistant: &mut PendingAssistantMessage,
) -> (r: ParsedChatEvent)
    ensures
        ({
            let o = chat_said(session_id, old(assistant)@, value@);
            &&& final(assistant)@ == o.assistant
            &&& events::event_views(r.events@) == o.events
            &&& r.done == o.done
        }),
{
    match value.get_inner_str("error", "message") {
        Some(e) => {
            return ParsedChatEvent {
                events: bridge::one_event(
                    SessionEvent::Error { session_id, message: e.to_string() },
                ),
                done: false,
            };
        },
        None => {},
    }
    let mut told = match usage_event(session_id, value) {
        Some(u) => bridge::one_event(u),
        None => events::no_events(),
    };
    let ghost m = old(assistant)@;
    let ghost first = events::event_views(told@);
    match value.get_array("choices") {
        Some(choices) => {
            let ghost all = json::array_view(choices@);
            proof {
                json::lemma_array_view(choices@);
            }
            let mut i: usize = 0;
            while i < choices.len()
                invariant
                    i <= choices@.len(),
                    m == old(assistant)@,
                    all == json::array_view(choices@),
                    all.len() == choices@.len(),
                    forall|k: int| 0 <= k < choices@.len() ==> #[trigger] all[k] == choices@[k]@,
                    assistant@ == choices_heard(
                        session_id,
                        m,
                        first,
                        all.take(i as int),
                    ).assistant,
                    events::event_views(told@) == choices_heard(
                        session_id,
                        m,
                        first,
                        all.take(i as int),
                    ).events,
                decreases choices@.len() - i,
            {
                assert(all.take(i + 1).drop_last() =~= all.take(i as int));
                assert(all.take(i + 1).last() == choices@[i as int]@);
                let more = hear_choice(session_id, &choices[i], assistant);
                append_events(&mut told, more);
                i += 1;
            }
            assert(all.take(i as int) =~= all);
        },
        None => {},
    }
    ParsedChatEvent { events: told, done: false }
}

/// What an event says; the reply gets what the event adds to it.
pub fn parse_chat_stream_event(
    session_id: SessionId,
    raw: &str,
    assistant: &mut PendingAssistantMessage,
) -> (r: ParsedChatEvent)
    ensures
        ({
            let o = chat_parsed(session_id, old(assistant)@, raw@);
            &&& final(assistant)@ == o.assistant
            &&& events::event_views(r.events@) == o.events
            &&& r.done == o.done
        }),
{
    let data = sse::data_of_event(raw);
    if text::is_blank_len(&data) {
        return ParsedChatEvent { events: events::no_events(), done: false };
    }
    if text::same(data.as_str(), "[DONE]") {
        return ParsedChatEvent { events: events::no_events(), done: true };
    }
    match json::parse(data.as_str()) {
        Ok(value) => parse_chat_value(session_id, &value, assistant),
        Err(_) => ParsedChatEvent { events: events::no_events(), done: false },
    }
}

// ---------------------------------------------------------------------------
// Laws
// ---------------------------------------------------------------------------

/// Each call is told once: when all calls that are ready have been told, telling them again
/// tells nothing and changes nothing.
pub proof fn calls_are_told_once(session_id: SessionId, m: AssistantView)
    ensures
        requests(session_id, all_marked(m).tool_calls) == Seq::<EventView>::empty(),
        all_marked(all_marked(m)) == all_marked(m),
{
    lemma_told(session_id, m.tool_calls);
    assert(all_marked(all_marked(m)).tool_calls =~= all_marked(m).tool_calls);
}

proof fn lemma_told(session_id: SessionId, slots: Seq<SlotView>)
    ensures
        requests(session_id, slots.map_values(|s: SlotView| marked(s))) == Seq::<
            EventView,
        >::empty(),
    decreases slots.len(),
{
    let done = slots.map_values(|s: SlotView| marked(s));
    if slots.len() > 0 {
        lemma_told(session_id, slots.drop_last());
        assert(done.drop_last() =~= slots.drop_last().map_values(|s: SlotView| marked(s)));
        assert(done.last() == marked(slots.last()));
    }
}

/// The ids of the calls of a reply are distinct.
pub proof fn call_ids_are_distinct(first_id: u128, i: int, j: int)
    requires
        0 <= i < j <= usize::MAX,
    ensures
        slot_id(first_id, i) != slot_id(first_id, j),
{
}

/// Pieces of other calls leave a call as it is, and a piece of a call is added to what has
/// come of it.
pub proof fn pieces_add_up(m: AssistantView, call: JsonView, i: int)
    requires
        0 <= i < m.tool_calls.len(),
    ensures
        i < call_heard(m, call).tool_calls.len(),
        call_heard(m, call).tool_calls[i] == if i == call_index(call) {
            slot_heard(m.tool_calls[i], call)
        } else {
            m.tool_calls[i]
        },
{
}

/// The message that goes back to the provider holds only calls that have been told and can
/// be carried out.
pub proof fn only_told_calls_are_sent_back(slots: Seq<SlotView>, i: int)
    requires
        0 <= i < requested(slots).len(),
    ensures
        requested(slots)[i].requested && is_ready(requested(slots)[i]),
    decreases slots.len(),
{
    if slots.len() > 0 && i < requested(slots.drop_last()).len() {
        only_told_calls_are_sent_back(slots.drop_last(), i);
    }
}

// ---------------------------------------------------------------------------
// What a stream adds up to
// ---------------------------------------------------------------------------

/// The reply behind pieces of a stream.
pub open spec fn deltas_heard(session_id: SessionId, m: AssistantView, deltas: Seq<JsonView>)
    -> AssistantView
    decreases deltas.len(),
{
    if deltas.len() == 0 {
        m
    } else {
        delta_heard(
            session_id,
            deltas_heard(session_id, m, deltas.drop_last()),
            deltas.last(),
        ).assistant
    }
}

proof fn lemma_calls_keep_content(m: AssistantView, calls: Seq<JsonView>)
    ensures
        calls_heard(m, calls).content == m.content,
        calls_heard(m, calls).first_id == m.first_id,
    decreases calls.len(),
{
    if calls.len() > 0 {
        lemma_calls_keep_content(m, calls.drop_last());
    }
}

/// The text of a reply is all of its pieces, in order, and every piece is told as it comes.
pub proof fn a_streamed_reply_is_all_of_its_pieces(
    session_id: SessionId,
    m: AssistantView,
    deltas: Seq<JsonView>,
    texts: Seq<Seq<char>>,
)
    requires
        texts.len() == deltas.len(),
        forall|i: int|
            0 <= i < deltas.len() ==> match json::text_field(#[trigger] deltas[i], "content"@) {
                Some(t) => t == texts[i],
                None => texts[i].len() == 0,
            },
    ensures
        deltas_heard(session_id, m, deltas).content == m.content + text::concat(texts),
        deltas.len() > 0 ==> (json::text_field(deltas.last(), "content"@) matches Some(text)
            ==> delta_heard(
            session_id,
            deltas_heard(session_id, m, deltas.drop_last()),
            deltas.last(),
        ).events == seq![EventView::TextDelta { session_id, text }]),
    decreases deltas.len(),
{
    if deltas.len() > 0 {
        let front = deltas.drop_last();
        assert forall|i: int| 0 <= i < front.len() implies match json::text_field(
            #[trigger] front[i],
            "content"@,
        ) {
            Some(t) => t == texts.drop_last()[i],
            None => texts.drop_last()[i].len() == 0,
        } by {
            assert(front[i] == deltas[i]);
        }
        a_streamed_reply_is_all_of_its_pieces(session_id, m, front, texts.drop_last());
        let before = deltas_heard(session_id, m, front);
        let delta = deltas[deltas.len() - 1];
        let spoken = AssistantView {
            content: added(before.content, json::text_field(delta, "content"@)),
            ..before
        };
        if let Some(calls) = json::items_field(delta, "tool_calls"@) {
            lemma_calls_keep_content(spoken, calls);
        }
        assert(m.content + text::concat(texts.drop_last()) + texts.last() =~= m.content
            + text::concat(texts));
        if json::text_field(delta, "content"@) is None {
            assert(texts.last() =~= seq![]);
            assert(before.content + texts.last() =~= before.content);
        }
    } else {
        assert(texts =~= seq![]);
        assert(m.content + text::concat(texts) =~= m.content);
    }
}

/// A piece of a call adds its part of the name and of the arguments to those that came
/// before, and gives the provider's own name for the call where it tells one.
pub proof fn a_piece_of_a_call_is_added(slot: SlotView, call: JsonView)
    ensures
        ({
            let after = slot_heard(slot, call);
            &&& after.tool_call_id == slot.tool_call_id
            &&& after.requested == slot.requested
            &&& json::inner_text(call, "function"@, "name"@) matches Some(n) ==> after.name
                == slot.name + n
            &&& json::inner_text(call, "function"@, "name"@) is None ==> after.name == slot.name
            &&& json::inner_text(call, "function"@, "arguments"@) matches Some(a)
                ==> after.arguments == slot.arguments + a
            &&& json::inner_text(call, "function"@, "arguments"@) is None ==> after.arguments
                == slot.arguments
            &&& json::text_field(call, "id"@) matches Some(id) ==> (id.len() > 0
                ==> after.provider_id == id)
            &&& json::text_field(call, "id"@) is None ==> after.provider_id == slot.provider_id
        }),
{
}

/// When the provider says that it is done with its calls, each that has not been told is
/// asked for with its name and its arguments, read as JSON, in order; an unfinished one is
/// not.
pub proof fn finished_calls_are_asked_for(
    session_id: SessionId,
    slots: Seq<SlotView>,
    slot: SlotView,
)
    ensures
        ({
            let before = requests(session_id, slots);
            let after = requests(session_id, slots.push(slot));
            let ready = text::trimmed(slot.provider_id).len() > 0 && text::trimmed(slot.name).len()
                > 0;
            &&& !slot.requested && ready ==> after.len() == before.len() + 1 && after.drop_last()
                == before && (after.last() matches EventView::ToolCallRequested {
                session_id: s,
                tool_call_id,
                name,
                input_json,
            } && s == session_id && tool_call_id == slot.tool_call_id && name == slot.name && (
            json::json_parse(slot.arguments) matches Ok(v) ==> input_json == v) && (
            json::json_parse(slot.arguments) is Err ==> input_json == JsonView::Object(
                Map::empty(),
            )))
            &&& slot.requested || !ready ==> after == before
        }),
{
    assert(slots.push(slot).drop_last() =~= slots);
    let before = requests(session_id, slots);
    let after = requests(session_id, slots.push(slot));
    if !slot.requested && is_ready(slot) {
        assert(after.drop_last() =~= before);
    }
}

/// What the provider says is over is over: the calls are asked for exactly where a choice
/// ends for the sake of its calls, and the stream ends with its own mark only.
pub proof fn calls_are_asked_for_when_they_are_complete(
    session_id: SessionId,
    m: AssistantView,
    choice: JsonView,
    raw: Seq<char>,
)
    ensures
        json::field(choice, "delta"@) is None ==> ({
            let heard = choice_heard(session_id, m, choice);
            if json::text_field(choice, "finish_reason"@) == Some("tool_calls"@) {
                heard.events == requests(session_id, m.tool_calls) && heard.assistant
                    == all_marked(m)
            } else {
                heard.events.len() == 0 && heard.assistant == m
            }
        }),
        chat_parsed(session_id, m, raw).done <==> sse::event_data(raw) == "[DONE]"@,
        sse::event_data(raw) == "[DONE]"@ ==> chat_parsed(session_id, m, raw).assistant == m,
{
    reveal_strlit("[DONE]");
    if let Ok(v) = json::json_parse(sse::event_data(raw)) {
        lemma_never_done(session_id, m, v);
    }
    assert(Seq::<EventView>::empty() + requests(session_id, m.tool_calls) =~= requests(
        session_id,
        m.tool_calls,
    ));
}

proof fn lemma_never_done(session_id: SessionId, m: AssistantView, v: JsonView)
    ensures
        !chat_said(session_id, m, v).done,
{
}

/// The reply goes back to the provider as it came: the text, nothing where there is none,
/// and the calls, each with the provider's own name for it, its name and its arguments.
pub proof fn a_reply_goes_back_as_it_came(m: AssistantView, i: int)
    ensures
        ({
            let v = chat_message(m);
            let calls = json::items_field(v, "tool_calls"@)->0;
            let told = requested(m.tool_calls);
            &&& json::text_field(v, "role"@) == Some("assistant"@)
            &&& m.content.len() > 0 ==> json::text_field(v, "content"@) == Some(m.content)
            &&& m.content.len() == 0 ==> json::field(v, "content"@) == Some(JsonView::Null)
            &&& json::items_field(v, "tool_calls"@) is Some
            &&& calls.len() == told.len()
            &&& 0 <= i < told.len() ==> {
                &&& json::text_field(calls[i], "id"@) == Some(told[i].provider_id)
                &&& json::text_field(calls[i], "type"@) == Some("function"@)
                &&& json::inner_text(calls[i], "function"@, "name"@) == Some(told[i].name)
                &&& text::trimmed(told[i].arguments).len() > 0 ==> json::inner_text(
                    calls[i],
                    "function"@,
                    "arguments"@,
                ) == Some(told[i].arguments)
                &&& text::trimmed(told[i].arguments).len() == 0 ==> json::inner_text(
                    calls[i],
                    "function"@,
                    "arguments"@,
                ) == Some("{}"@)
            }
        }),
{
    lemma_message_names();
}

proof fn lemma_message_names()
    ensures
        "role"@.len() == 4 && "role"@[0] == 'r',
        "content"@.len() == 7,
        "tool_calls"@.len() == 10,
        "tool_call_id"@.len() == 12,
        "id"@.len() == 2,
        "type"@.len() == 4 && "type"@[0] == 't',
        "function"@.len() == 8,
        "name"@.len() == 4 && "name"@[0] == 'n',
        "arguments"@.len() == 9,
{
    reveal_strlit("role");
    reveal_strlit("content");
    reveal_strlit("tool_calls");
    reveal_strlit("tool_call_id");
    reveal_strlit("id");
    reveal_strlit("type");
    reveal_strlit("function");
    reveal_strlit("name");
    reveal_strlit("arguments");
}

/// A result goes back under the provider's own name for its call, behind a word where it is
/// an error.
pub proof fn a_result_goes_back_under_its_call(
    provider_id: Seq<char>,
    response: ToolResponseView,
)
    ensures
        ({
            let v = result_message(provider_id, response);
            &&& json::text_field(v, "role"@) == Some("tool"@)
            &&& json::text_field(v, "tool_call_id"@) == Some(provider_id)
            &&& response.is_error ==> json::text_field(v, "content"@) == Some(
                "error: "@ + response.output,
            )
            &&& !response.is_error ==> json::text_field(v, "content"@) == Some(response.output)
        }),
{
    lemma_message_names();
}

} // verus!
