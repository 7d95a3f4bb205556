//! Server-sent events: how a stream of text is cut into events, and what an event's lines
//! hold.
use vstd::prelude::*;
use vstd::slice::slice_subrange;

use crate::json;
use crate::json::{Json, JsonView};
use crate::runtime::events;
use crate::runtime::events::{EventView, SessionEvent};
use crate::text;
use crate::text_laws;
use crate::text::CharClass;

verus! {

// ---------------------------------------------------------------------------
// Events
// ---------------------------------------------------------------------------

/// The events that a text holds whole, each before an empty line.
pub open spec fn frames(s: Seq<char>) -> Seq<Seq<char>>
    decreases s.len(),
{
    match text::find(s, "\n\n"@) {
        Some(i) => if 0 <= i && i + 2 <= s.len() {
            seq![s.take(i)] + frames(s.skip(i + 2))
        } else {
            seq![]
        },
        None => seq![],
    }
}

/// What stands behind the last event that a text holds whole.
pub open spec fn unframed(s: Seq<char>) -> Seq<char>
    decreases s.len(),
{
    match text::find(s, "\n\n"@) {
        Some(i) => if 0 <= i && i + 2 <= s.len() {
            unframed(s.skip(i + 2))
        } else {
            s
        },
        None => s,
    }
}

/// Takes the events out of the buffer that it holds whole.
pub fn drain_sse_events(buffer: &mut String) -> (events: Vec<String>)
    ensures
        text::views(events@) == frames(old(buffer)@),
        final(buffer)@ == unframed(old(buffer)@),
{
    let cs = text::chars_of(buffer.as_str());
    let ps = text::chars_of("\n\n");
    proof {
        reveal_strlit("\n\n");
    }
    let ghost sep = "\n\n"@;
    let total: usize = cs.len();
    let mut events: Vec<String> = Vec::new();
    let mut at: usize = 0;
    assert(cs@.skip(0) =~= cs@);
    assert(text::views(events@) =~= seq![]);
    assert(frames(cs@) =~= text::views(events@) + frames(cs@.skip(0)));
    loop
        invariant_except_break
            at <= cs@.len(),
            frames(cs@) == text::views(events@) + frames(cs@.skip(at as int)),
            unframed(cs@) == unframed(cs@.skip(at as int)),
        invariant
            sep == "\n\n"@,
            sep.len() == 2,
            total == cs@.len(),
            ps@ == sep,
            cs@ == old(buffer)@,
        ensures
            at <= cs@.len(),
            frames(cs@) == text::views(events@),
            unframed(cs@) == cs@.skip(at as int),
        decreases cs@.len() - at,
    {
        let ghost rest = cs@.skip(at as int);
        proof {
            text::lemma_find_skip(cs@, sep, at as int, at as int);
            text::lemma_find_from(rest, sep, 0);
        }
        match text::find_chars(cs.as_slice(), ps.as_slice(), at) {
            Some(i) => {
                let event = text::string_of(slice_subrange(cs.as_slice(), at, i));
                let ghost before = text::views(events@);
                let ghost added = event@;
                events.push(event);
                proof {
                    assert(rest.take(i - at) =~= added);
                    assert(rest.skip(i - at + 2) =~= cs@.skip(i + 2));
                    assert(text::views(events@) =~= before.push(added));
                    assert(frames(cs@) =~= text::views(events@) + frames(cs@.skip(i + 2)));
                }
                at = i + 2;
            },
            None => {
                assert(frames(cs@) =~= text::views(events@));
                break;
            },
        }
    }
    let tail = text::string_of(slice_subrange(cs.as_slice(), at, cs.len()));
    assert(tail@ =~= cs@.skip(at as int));
    *buffer = tail;
    events
}

/// The events that are left when the stream has ended: what the buffer holds, unless that
/// is blank.
pub open spec fn last_frames(s: Seq<char>) -> Seq<Seq<char>> {
    if text::trimmed(s).len() == 0 {
        seq![]
    } else {
        seq![s]
    }
}

/// Takes the last event out of the buffer when the stream has ended.
pub fn drain_sse_events_at_eof(buffer: &mut String) -> (events: Vec<String>)
    ensures
        text::views(events@) == last_frames(old(buffer)@),
        final(buffer)@ == if text::trimmed(old(buffer)@).len() == 0 {
            old(buffer)@
        } else {
            seq![]
        },
{
    let mut events: Vec<String> = Vec::new();
    assert(text::views(events@) =~= seq![]);
    let trimmed = text::trim(buffer.as_str());
    if text::is_blank_len(&trimmed) {
        return events;
    }
    let mut event = String::new();
    std::mem::swap(&mut event, buffer);
    let ghost added = event@;
    events.push(event);
    assert(text::views(events@) =~= seq![added]);
    events
}

/// Nothing is lost: the events with an empty line behind each, and what is left, make the
/// text; and what is left holds no further event.
pub proof fn frames_lose_nothing(s: Seq<char>)
    ensures
        text::concat(frames(s).map_values(|f: Seq<char>| f + "\n\n"@)) + unframed(s) == s,
        !text::contains(unframed(s), "\n\n"@),
    decreases s.len(),
{
    reveal_strlit("\n\n");
    let sep = "\n\n"@;
    let ended = |f: Seq<char>| f + sep;
    text::lemma_find_from(s, sep, 0);
    text::lemma_contains_find(s, sep);
    match text::find(s, sep) {
        Some(i) => {
            let rest = s.skip(i + 2);
            frames_lose_nothing(rest);
            lemma_concat_first(s.take(i) + sep, frames(rest).map_values(ended));
            assert(frames(s).map_values(ended) =~= seq![s.take(i) + sep] + frames(rest).map_values(
                ended,
            ));
            assert(s.subrange(i, i + 2) =~= sep);
            assert(s =~= s.take(i) + sep + rest);
            assert(text::concat(frames(s).map_values(ended)) + unframed(s) =~= s.take(i) + sep + (
            text::concat(frames(rest).map_values(ended)) + unframed(rest)));
        },
        None => {
            assert(frames(s).map_values(ended) =~= seq![]);
            assert(text::concat(frames(s).map_values(ended)) + unframed(s) =~= s);
        },
    }
}

/// It does not matter where a stream is cut: the events of two pieces are those of the
/// first, and then those of what it leaves over together with the second.
pub proof fn pieces_give_the_events_of_the_whole(a: Seq<char>, b: Seq<char>)
    ensures
        frames(a + b) == frames(a) + frames(unframed(a) + b),
        unframed(a + b) == unframed(unframed(a) + b),
    decreases a.len(),
{
    reveal_strlit("\n\n");
    let sep = "\n\n"@;
    let whole = a + b;
    text::lemma_find_from(a, sep, 0);
    match text::find(a, sep) {
        Some(i) => {
            let rest = a.skip(i + 2);
            text::lemma_find_from(whole, sep, 0);
            assert(whole.subrange(i, i + 2) =~= a.subrange(i, i + 2));
            assert(text::occurs_at(whole, sep, i));
            assert(text::find(whole, sep) == Some(i)) by {
                let j = text::find(whole, sep)->0;
                if j < i {
                    assert(whole.subrange(j, j + 2) =~= a.subrange(j, j + 2));
                    assert(text::occurs_at(a, sep, j));
                }
            }
            assert(whole.take(i) =~= a.take(i));
            assert(whole.skip(i + 2) =~= rest + b);
            pieces_give_the_events_of_the_whole(rest, b);
            assert(frames(whole) =~= frames(a) + frames(unframed(a) + b));
        },
        None => {
            assert(frames(whole) =~= frames(a) + frames(whole));
        },
    }
}

/// The events that come out when the pieces of a stream are put into an empty buffer one
/// after the other, and the buffer is drained behind each; and what is left in it.
pub open spec fn drained(pieces: Seq<Seq<char>>) -> (Seq<Seq<char>>, Seq<char>)
    decreases pieces.len(),
{
    if pieces.len() == 0 {
        (seq![], seq![])
    } else {
        let (events, rest) = drained(pieces.drop_last());
        let buffer = rest + pieces.last();
        (events + frames(buffer), unframed(buffer))
    }
}

/// However a stream comes in pieces, the same events come out, and the same is left.
pub proof fn a_stream_may_come_in_any_pieces(pieces: Seq<Seq<char>>)
    ensures
        drained(pieces) == (frames(text::concat(pieces)), unframed(text::concat(pieces))),
    decreases pieces.len(),
{
    if pieces.len() == 0 {
        reveal_strlit("\n\n");
        text::lemma_find_from(seq![], "\n\n"@, 0);
        assert(text::concat(pieces) =~= seq![]);
    } else {
        a_stream_may_come_in_any_pieces(pieces.drop_last());
        pieces_give_the_events_of_the_whole(text::concat(pieces.drop_last()), pieces.last());
    }
}

proof fn lemma_concat_first(first: Seq<char>, rest: Seq<Seq<char>>)
    ensures
        text::concat(seq![first] + rest) == first + text::concat(rest),
    decreases rest.len(),
{
    let all = seq![first] + rest;
    if rest.len() == 0 {
        assert(all.drop_last() =~= seq![]);
        assert(all.last() == first);
        assert(text::concat(all.drop_last()) =~= seq![]);
        assert(text::concat(rest) =~= seq![]);
        assert(text::concat(all) =~= first + text::concat(rest));
    } else {
        assert(all.drop_last() =~= seq![first] + rest.drop_last());
        assert(all.last() == rest.last());
        lemma_concat_first(first, rest.drop_last());
        assert(text::concat(all) == text::concat(all.drop_last()) + rest.last());
        assert(text::concat(all) =~= first + text::concat(rest));
    }
}

// ---------------------------------------------------------------------------
// Lines
// ---------------------------------------------------------------------------

/// What stands behind `name` in a line that begins with it.
pub open spec fn line_value(line: Seq<char>, name: Seq<char>) -> Option<Seq<char>> {
    let l = text::trim_end(line, CharClass::Just('\r'));
    if text::starts_with(l, name) {
        Some(text::trimmed(l.skip(name.len() as int)))
    } else {
        None
    }
}

/// The values of the lines that begin with `name`.
pub open spec fn line_values(lines: Seq<Seq<char>>, name: Seq<char>) -> Seq<Seq<char>>
    decreases lines.len(),
{
    if lines.len() == 0 {
        seq![]
    } else {
        let before = line_values(lines.drop_last(), name);
        match line_value(lines.last(), name) {
            Some(v) => before.push(v),
            None => before,
        }
    }
}

/// The data of an event.
pub open spec fn event_data(raw: Seq<char>) -> Seq<char> {
    text::join(line_values(text::lines(raw), "data:"@), "\n"@)
}

/// The name of an event: the last one that it gives.
pub open spec fn event_name(raw: Seq<char>) -> Option<Seq<char>> {
    let names = line_values(text::lines(raw), "event:"@);
    if names.len() == 0 {
        None
    } else {
        Some(names.last())
    }
}

fn value_of_line(line: &str, name: &str) -> (r: Option<String>)
    ensures
        text::opt(r) == line_value(line@, name@),
{
    let l = text::trim_end_class(line, CharClass::Just('\r'));
    match text::strip_prefix(l.as_str(), name) {
        Some(v) => Some(text::trim(v.as_str())),
        None => None,
    }
}

fn values_of_lines(raw: &str, name: &str) -> (out: Vec<String>)
    ensures
        text::views(out@) == line_values(text::lines(raw@), name@),
{
    let lines = text::lines_of(raw);
    let ghost all = text::views(lines@);
    let mut out: Vec<String> = Vec::new();
    let mut i: usize = 0;
    assert(text::views(out@) =~= line_values(all.take(0), name@));
    while i < lines.len()
        invariant
            i <= lines@.len(),
            all == text::views(lines@),
            text::views(out@) == line_values(all.take(i as int), name@),
        decreases lines@.len() - i,
    {
        assert(all.take(i + 1).drop_last() =~= all.take(i as int));
        assert(all.take(i + 1).last() == lines@[i as int]@);
        match value_of_line(lines[i].as_str(), name) {
            Some(v) => {
                let ghost before = text::views(out@);
                let ghost added = v@;
                out.push(v);
                assert(text::views(out@) =~= before.push(added));
            },
            None => {},
        }
        i += 1;
    }
    assert(all.take(i as int) =~= all);
    out
}

/// The data of an event.
pub fn data_of_event(raw: &str) -> (r: String)
    ensures
        r@ == event_data(raw@),
{
    let values = values_of_lines(raw, "data:");
    text::join_strings(values.as_slice(), "\n")
}

/// The name of an event.
pub fn name_of_event(raw: &str) -> (r: Option<String>)
    ensures
        text::opt(r) == event_name(raw@),
{
    let names = values_of_lines(raw, "event:");
    if names.len() == 0 {
        None
    } else {
        Some(names[names.len() - 1].clone())
    }
}

/// Where the type of an event stands.
#[derive(Debug, Clone, Copy, PartialEq, Eq, Structural)]
pub enum TypeKeys {
    /// In `type`.
    Type,
    /// In `object`, or, where there is none, in `type`.
    ObjectOrType,
}

/// The type that an event's JSON tells.
pub open spec fn told_type(v: JsonView, keys: TypeKeys) -> Option<Seq<char>> {
    match keys {
        TypeKeys::Type => json::text_field(v, "type"@),
        TypeKeys::ObjectOrType => match json::field(v, "object"@) {
            Some(o) => json::as_text(o),
            None => json::text_field(v, "type"@),
        },
    }
}

/// The type that a line of an event tells.
pub open spec fn line_type(line: Seq<char>, keys: TypeKeys) -> Option<Seq<char>> {
    if text::starts_with(line, "data:"@) {
        let data = text::trimmed(line.skip("data:"@.len() as int));
        if data == "[DONE]"@ {
            Some(data)
        } else {
            match json::json_parse(data) {
                Ok(v) => told_type(v, keys),
                Err(_) => None,
            }
        }
    } else {
        None
    }
}

/// The first type that a line tells.
pub open spec fn first_type(lines: Seq<Seq<char>>, keys: TypeKeys) -> Option<Seq<char>>
    decreases lines.len(),
{
    if lines.len() == 0 {
        None
    } else {
        match first_type(lines.drop_last(), keys) {
            Some(t) => Some(t),
            None => line_type(lines.last(), keys),
        }
    }
}

/// The type that an event's JSON tells.
pub fn type_of_value(v: &Json, keys: TypeKeys) -> (r: Option<String>)
    ensures
        text::opt(r) == told_type(v@, keys),
{
    match keys {
        TypeKeys::Type => v.get_string("type"),
        TypeKeys::ObjectOrType => match v.get("object") {
            Some(o) => match o.as_str() {
                Some(s) => Some(s.to_string()),
                None => None,
            },
            None => v.get_string("type"),
        },
    }
}

fn type_of_line(line: &str, keys: TypeKeys) -> (r: Option<String>)
    ensures
        text::opt(r) == line_type(line@, keys),
{
    let data = match text::strip_prefix(line, "data:") {
        Some(d) => text::trim(d.as_str()),
        None => {
            return None;
        },
    };
    if text::same(data.as_str(), "[DONE]") {
        return Some(data);
    }
    match json::parse(data.as_str()) {
        Ok(v) => type_of_value(&v, keys),
        Err(_) => None,
    }
}

/// The type that an event tells.
pub fn sse_event_type(raw: &str, keys: TypeKeys) -> (r: Option<String>)
    ensures
        text::opt(r) == first_type(text::lines(raw@), keys),
{
    let lines = text::lines_of(raw);
    let ghost all = text::views(lines@);
    let mut i: usize = 0;
    while i < lines.len()
        invariant
            i <= lines@.len(),
            all == text::views(lines@),
            all == text::lines(raw@),
            first_type(all.take(i as int), keys) is None,
        decreases lines@.len() - i,
    {
        assert(all.take(i + 1).drop_last() =~= all.take(i as int));
        assert(all.take(i + 1).last() == lines@[i as int]@);
        match type_of_line(lines[i].as_str(), keys) {
            Some(t) => {
                proof {
                    lemma_first_type(all, i + 1, keys);
                }
                return Some(t);
            },
            None => {},
        }
        i += 1;
    }
    assert(all.take(i as int) =~= all);
    None
}

proof fn lemma_first_type(lines: Seq<Seq<char>>, n: int, keys: TypeKeys)
    requires
        0 <= n <= lines.len(),
        first_type(lines.take(n), keys) is Some,
    ensures
        first_type(lines, keys) == first_type(lines.take(n), keys),
    decreases lines.len() - n,
{
    if n == lines.len() {
        assert(lines.take(n) =~= lines);
    } else {
        assert(lines.take(n + 1).drop_last() =~= lines.take(n));
        lemma_first_type(lines, n + 1, keys);
    }
}

// ---------------------------------------------------------------------------
// Failures
// ---------------------------------------------------------------------------

/// Whether the user has seen something of the reply when the event has been told.
pub open spec fn is_visible(event: EventView) -> bool {
    event is TextStart || event is TextDelta || event is TextEnd || event is ToolCallRequested
        || event is ToolInputStart || event is ToolInputEnd || event is ToolCallStart
        || event is ToolCallResult || event is ToolCallError || event is Patch
        || event is Diagnostics
}

pub fn provider_event_is_visible(event: &SessionEvent) -> (r: bool)
    ensures
        r == is_visible(event@),
{
    match event {
        SessionEvent::TextStart { .. } => true,
        SessionEvent::TextDelta { .. } => true,
        SessionEvent::TextEnd { .. } => true,
        SessionEvent::ToolCallRequested { .. } => true,
        SessionEvent::ToolInputStart { .. } => true,
        SessionEvent::ToolInputEnd { .. } => true,
        SessionEvent::ToolCallStart { .. } => true,
        SessionEvent::ToolCallResult { .. } => true,
        SessionEvent::ToolCallError { .. } => true,
        SessionEvent::Patch { .. } => true,
        SessionEvent::Diagnostics { .. } => true,
        _ => false,
    }
}

/// Whether any of the events is visible.
pub open spec fn any_visible(events: Seq<EventView>) -> bool {
    exists|i: int| 0 <= i < events.len() && is_visible(#[trigger] events[i])
}

/// Whether any of the events is visible.
pub fn are_visible(list: &Vec<SessionEvent>) -> (r: bool)
    ensures
        r == any_visible(events::event_views(list@)),
{
    let ghost all = events::event_views(list@);
    let mut i: usize = 0;
    while i < list.len()
        invariant
            i <= list@.len(),
            all == events::event_views(list@),
            forall|k: int| 0 <= k < i ==> !is_visible(#[trigger] all[k]),
        decreases list@.len() - i,
    {
        if provider_event_is_visible(&list[i]) {
            assert(is_visible(all[i as int]));
            return true;
        }
        assert(!is_visible(all[i as int]));
        i += 1;
    }
    false
}

/// An error as it is told: its text and those of its causes, in order.
#[derive(Debug)]
pub struct ErrorChain {
    pub message: String,
    pub causes: Vec<String>,
}

/// The content of an `ErrorChain`.
pub struct ErrorChainView {
    pub message: Seq<char>,
    pub causes: Seq<Seq<char>>,
}

impl View for ErrorChain {
    type V = ErrorChainView;

    open spec fn view(&self) -> ErrorChainView {
        ErrorChainView { message: self.message@, causes: text::views(self.causes@) }
    }
}

/// The error's text and those of its causes, with arrows between them.
pub open spec fn source_chain(e: ErrorChainView) -> Seq<char> {
    text::join(seq![e.message] + e.causes, " -> "@)
}

/// The error's text and those of its causes, with arrows between them.
pub fn error_source_chain(error: &ErrorChain) -> (r: String)
    ensures
        r@ == source_chain(error@),
{
    let mut parts: Vec<String> = Vec::new();
    parts.push(error.message.clone());
    let ghost all = seq![error@.message] + error@.causes;
    assert(text::views(parts@) =~= all.take(1));
    let mut i: usize = 0;
    while i < error.causes.len()
        invariant
            i <= error.causes@.len(),
            all == seq![error@.message] + error@.causes,
            text::views(parts@) == all.take(i + 1),
        decreases error.causes@.len() - i,
    {
        let ghost before = text::views(parts@);
        parts.push(error.causes[i].clone());
        assert(text::views(parts@) =~= before.push(all[i + 1]));
        assert(all.take(i + 2) =~= all.take(i + 1).push(all[i + 1]));
        i += 1;
    }
    assert(all.take(i + 1) =~= all);
    text::join_strings(parts.as_slice(), " -> ")
}

/// What has been read of a response.
#[derive(Debug)]
pub struct StreamProgress {
    /// The response's status.
    pub status: String,
    pub content_type: Option<String>,
    pub bytes_read: u64,
    pub events_parsed: u64,
    pub last_event_type: Option<String>,
    /// Whether the user has seen something of the reply.
    pub visible: bool,
}

/// The content of a `StreamProgress`.
pub struct ProgressView {
    pub status: Seq<char>,
    pub content_type: Option<Seq<char>>,
    pub bytes_read: u64,
    pub events_parsed: u64,
    pub last_event_type: Option<Seq<char>>,
    pub visible: bool,
}

impl View for StreamProgress {
    type V = ProgressView;

    open spec fn view(&self) -> ProgressView {
        ProgressView {
            status: self.status@,
            content_type: text::opt(self.content_type),
            bytes_read: self.bytes_read,
            events_parsed: self.events_parsed,
            last_event_type: text::opt(self.last_event_type),
            visible: self.visible,
        }
    }
}

/// Nothing has been read of a response with this status.
pub open spec fn unread(status: Seq<char>, content_type: Option<Seq<char>>) -> ProgressView {
    ProgressView {
        status,
        content_type,
        bytes_read: 0,
        events_parsed: 0,
        last_event_type: None,
        visible: false,
    }
}

impl StreamProgress {
    pub fn new(status: String, content_type: Option<String>) -> (r: StreamProgress)
        ensures
            r@ == unread(status@, text::opt(content_type)),
    {
        StreamProgress {
            status,
            content_type,
            bytes_read: 0,
            events_parsed: 0,
            last_event_type: None,
            visible: false,
        }
    }
}

pub open spec fn or_else(s: Option<Seq<char>>, other: Seq<char>) -> Seq<char> {
    match s {
        Some(t) => t,
        None => other,
    }
}

pub open spec fn bool_text(b: bool) -> Seq<char> {
    if b {
        "true"@
    } else {
        "false"@
    }
}

/// What is told when a stream breaks off.
pub open spec fn decode_error(
    provider: Seq<char>,
    error: ErrorChainView,
    progress: ProgressView,
) -> Seq<char> {
    let phase = if progress.visible {
        "stream dropped after partial assistant output; resume to continue"@
    } else {
        "stream failed before visible output; safe retry already attempted"@
    };
    provider + " provider "@ + phase + ": "@ + error.message + "; http_status="@ + progress.status
        + "; content_type="@ + or_else(progress.content_type, "<unknown>"@) + "; bytes_read="@
        + text::decimal(progress.bytes_read as nat) + "; events_parsed="@ + text::decimal(
        progress.events_parsed as nat,
    ) + "; last_event_type="@ + or_else(progress.last_event_type, "<none>"@)
        + "; visible_output_emitted="@ + bool_text(progress.visible) + "; source_chain="@
        + source_chain(error)
}

fn str_or<'a>(s: &'a Option<String>, other: &'a str) -> (r: &'a str)
    ensures
        r@ == or_else(text::opt(*s), other@),
{
    match s {
        Some(t) => t.as_str(),
        None => other,
    }
}

/// What is told when a stream breaks off.
pub fn format_stream_decode_error(provider: &str, error: &ErrorChain, progress: &StreamProgress)
    -> (r: String)
    ensures
        r@ == decode_error(provider@, error@, progress@),
{
    let phase = if progress.visible {
        "stream dropped after partial assistant output; resume to continue"
    } else {
        "stream failed before visible output; safe retry already attempted"
    };
    let mut r = text::cat5(provider, " provider ", phase, ": ", error.message.as_str());
    r.push_str("; http_status=");
    r.push_str(progress.status.as_str());
    r.push_str("; content_type=");
    r.push_str(str_or(&progress.content_type, "<unknown>"));
    r.push_str("; bytes_read=");
    text::push_decimal(&mut r, progress.bytes_read);
    r.push_str("; events_parsed=");
    text::push_decimal(&mut r, progress.events_parsed);
    r.push_str("; last_event_type=");
    r.push_str(str_or(&progress.last_event_type, "<none>"));
    r.push_str("; visible_output_emitted=");
    r.push_str(
        if progress.visible {
            "true"
        } else {
            "false"
        },
    );
    r.push_str("; source_chain=");
    let chain = error_source_chain(error);
    r.push_str(chain.as_str());
    r
}

/// How many characters of a response's body are told in an error.
pub const MAX_ERROR_BODY_CHARS: usize = 2000;

/// The first characters of a text.
pub open spec fn first_chars(s: Seq<char>, limit: nat) -> Seq<char> {
    if s.len() <= limit {
        s
    } else {
        s.take(limit as int)
    }
}

/// The first characters of a text.
pub fn take_chars(s: &str, limit: usize) -> (r: String)
    ensures
        r@ == first_chars(s@, limit as nat),
{
    let cs = text::chars_of(s);
    if cs.len() <= limit {
        s.to_string()
    } else {
        let r = text::string_of(slice_subrange(cs.as_slice(), 0, limit));
        assert(r@ =~= s@.take(limit as int));
        r
    }
}

/// The beginning of a response's body, with a mark behind the word that a secret follows.
pub open spec fn redacted(body: Seq<char>) -> Seq<char> {
    text::replace(
        first_chars(body, MAX_ERROR_BODY_CHARS as nat),
        "Bearer "@,
        "Bearer <redacted>"@,
    )
}

/// The beginning of a response's body, as it is told in an error.
pub fn redact_error_body(body: &str) -> (r: String)
    ensures
        r@ == redacted(body@),
{
    proof {
        reveal_strlit("Bearer ");
    }
    let head = take_chars(body, MAX_ERROR_BODY_CHARS);
    text::replace_text(head.as_str(), "Bearer ", "Bearer <redacted>")
}

// ---------------------------------------------------------------------------
// What an event holds
// ---------------------------------------------------------------------------

/// An event ends at the first empty line, and the next one begins behind it; what no empty
/// line has ended yet is kept.
pub proof fn an_event_ends_at_an_empty_line(event: Seq<char>, rest: Seq<char>)
    requires
        forall|i: int|
            0 <= i < event.len() ==> !#[trigger] text::occurs_at(
                event + "\n\n"@ + rest,
                "\n\n"@,
                i,
            ),
    ensures
        frames(event + "\n\n"@ + rest) == seq![event] + frames(rest),
        unframed(event + "\n\n"@ + rest) == unframed(rest),
        !text::contains(rest, "\n\n"@) ==> frames(rest) == Seq::<Seq<char>>::empty() && unframed(
            rest,
        ) == rest,
{
    reveal_strlit("\n\n");
    let s = event + "\n\n"@ + rest;
    text_laws::the_first_match_is_replaced(event, "\n\n"@, rest, seq![]);
    assert(s.take(event.len() as int) =~= event);
    assert(s.skip(event.len() + 2int) =~= rest);
    text::lemma_contains_find(rest, "\n\n"@);
}

/// A line gives its value to the field that it begins with, without the white space round
/// it, and to no other.
pub proof fn a_line_gives_its_value(
    lines: Seq<Seq<char>>,
    name: Seq<char>,
    l: Seq<char>,
    value: Seq<char>,
    r: Seq<char>,
)
    requires
        text_laws::blank(l),
        text_laws::blank(r),
        text_laws::tight(value),
        text::one_line(name + (l + value + r)),
    ensures
        line_values(lines.push(name + (l + value + r)), name) == line_values(lines, name).push(
            value,
        ),
        forall|other: Seq<char>|
            !other.is_prefix_of(name + (l + value + r)) ==> #[trigger] line_values(
                lines.push(name + (l + value + r)),
                other,
            ) == line_values(lines, other),
{
    let line = name + (l + value + r);
    let all = lines.push(line);
    assert(all.drop_last() =~= lines);
    assert(text::trim_end(line, CharClass::Just('\r')) == line) by {
        if line.len() > 0 {
            assert(line[line.len() - 1] != '\r');
        }
    }
    assert(line.subrange(0, name.len() as int) =~= name);
    assert(line.skip(name.len() as int) =~= l + value + r);
    text_laws::trimming_takes_the_white_space_at_the_ends(l, value, r);
    assert forall|other: Seq<char>| !other.is_prefix_of(line) implies #[trigger] line_values(
        all,
        other,
    ) == line_values(lines, other) by {
        if text::starts_with(line, other) {
            assert forall|i: int| 0 <= i < other.len() implies other[i] == line[i] by {
                assert(line.subrange(0, other.len() as int)[i] == line[i]);
            }
        }
    }
}

/// The data of an event are those of its data lines, one under the other, and its name is
/// the last that it is given.
pub proof fn an_event_holds_its_lines(lines: Seq<Seq<char>>)
    requires
        forall|i: int| 0 <= i < lines.len() ==> text::one_line(#[trigger] lines[i]),
    ensures
        ({
            let raw = text::concat(text_laws::with_ends(lines, seq!['\n']));
            let names = line_values(lines, "event:"@);
            &&& event_data(raw) == text::join(line_values(lines, "data:"@), "\n"@)
            &&& names.len() == 0 ==> event_name(raw) is None
            &&& names.len() > 0 ==> event_name(raw) == Some(names[names.len() - 1])
        }),
{
    text_laws::lines_come_apart(lines, seq!['\n'], seq![]);
}

/// The user has seen something of a reply when text or a tool call has been told, and not
/// when the state, the tokens or an error has.
pub proof fn text_and_calls_are_seen(event: EventView)
    ensures
        event is TextDelta || event is TextStart || event is TextEnd || event is ToolCallRequested
            || event is ToolCallStart || event is ToolCallResult || event is ToolCallError
            || event is ToolInputStart || event is ToolInputEnd || event is Patch
            || event is Diagnostics <==> any_visible(seq![event]),
        event is Status || event is Usage || event is Error || event is Result ==> !any_visible(
            seq![event],
        ),
{
    let one = seq![event];
    assert(one[0] == event);
}

/// What is shown of a refusal is at most its first two thousand characters, and no bearer
/// token begins where one was written.
pub proof fn tokens_are_not_shown(before: Seq<char>, rest: Seq<char>)
    requires
        (before + "Bearer "@ + rest).len() <= 2000,
        forall|i: int|
            0 <= i < before.len() ==> !#[trigger] text::occurs_at(
                before + "Bearer "@ + rest,
                "Bearer "@,
                i,
            ),
    ensures
        redacted(before + "Bearer "@ + rest) == before + "Bearer <redacted>"@ + redacted(rest),
        rest.len() > 2000 ==> redacted(rest) == redacted(rest.take(2000)),
{
    reveal_strlit("Bearer ");
    text_laws::the_first_match_is_replaced(before, "Bearer "@, rest, "Bearer <redacted>"@);
}

/// What kind of event a stream tells of is found in the first line that tells it, and lines
/// that hold no data tell nothing.
pub proof fn the_first_line_tells_the_kind(
    a: Seq<Seq<char>>,
    line: Seq<char>,
    data: Seq<char>,
    keys: TypeKeys,
)
    ensures
        first_type(a, keys) is Some ==> first_type(a.push(line), keys) == first_type(a, keys),
        first_type(a, keys) is None ==> first_type(a.push(line), keys) == line_type(line, keys),
        first_type(seq![], keys) is None,
        !text::starts_with(line, "data:"@) ==> line_type(line, keys) is None,
        text::trimmed(data) == "[DONE]"@ ==> line_type("data:"@ + data, keys) == Some("[DONE]"@),
        text::trimmed(data) != "[DONE]"@ && json::json_parse(text::trimmed(data)) is Err
            ==> line_type("data:"@ + data, keys) is None,
        text::trimmed(data) != "[DONE]"@ ==> (json::json_parse(text::trimmed(data)) matches Ok(v)
            ==> line_type("data:"@ + data, keys) == told_type(v, keys)),
{
    assert(a.push(line).drop_last() =~= a);
    let whole = "data:"@ + data;
    assert(whole.skip("data:"@.len() as int) =~= data);
    assert(whole.take("data:"@.len() as int) =~= "data:"@);
    assert("data:"@.is_prefix_of(whole));
}

/// The kind stands under the name of the type, or, where a stream tells the object, under
/// that.
pub proof fn where_the_kind_stands(v: JsonView, kind: Seq<char>)
    ensures
        json::field(v, "type"@) == Some(JsonView::Text(kind)) ==> told_type(v, TypeKeys::Type)
            == Some(kind),
        json::field(v, "type"@) is None ==> told_type(v, TypeKeys::Type) is None,
        json::field(v, "object"@) == Some(JsonView::Text(kind)) ==> told_type(
            v,
            TypeKeys::ObjectOrType,
        ) == Some(kind),
        json::field(v, "object"@) is None ==> told_type(v, TypeKeys::ObjectOrType) == told_type(
            v,
            TypeKeys::Type,
        ),
{
}

/// What is left when a stream ends is one more event, unless it is blank.
pub proof fn what_is_left_is_an_event(s: Seq<char>)
    ensures
        text::trimmed(s).len() == 0 ==> last_frames(s).len() == 0,
        text::trimmed(s).len() > 0 ==> last_frames(s) == seq![s],
{
}

} // verus!
