//! How a conversation that has grown too long is compacted before it is sent.
use vstd::prelude::*;

use crate::json;
use crate::json::{Json, JsonView};
use crate::provider::copilot_request;
use crate::provider::sse;
use crate::text;

verus! {

/// How many of the first messages a summary previews.
pub const FIRST_MESSAGES: usize = 4;

/// How many of the last messages a summary previews.
pub const RECENT_MESSAGES: usize = 32;

/// How many characters of a message a summary previews.
pub const PREVIEW_CHARS: usize = 1000;

/// How many messages stay where no tool was called.
pub const KEPT_MESSAGES: usize = 4;

/// The tokens that are reserved for a picture.
pub const IMAGE_TOKENS: usize = 1024;

// ---------------------------------------------------------------------------
// Estimates
// ---------------------------------------------------------------------------

/// The number of tokens as it is counted: no more than the machine can count.
pub open spec fn counted(n: nat) -> usize {
    if n <= usize::MAX {
        n as usize
    } else {
        usize::MAX
    }
}

pub open spec fn larger(a: nat, b: nat) -> nat {
    if a >= b {
        a
    } else {
        b
    }
}

/// How many tokens a text takes, roughly: one for four characters, but at least one for
/// each word.
pub open spec fn text_tokens(s: Seq<char>) -> nat {
    larger(larger(((s.len() + 3) / 4) as nat, text::words(s).len()), 1)
}

/// How many tokens a text takes, roughly.
pub fn approximate_text_tokens(s: &str) -> (n: usize)
    ensures
        n == text_tokens(s@),
        n > 0,
{
    let cs = text::chars_of(s);
    let count: usize = cs.len();
    let quarter: usize = if count % 4 == 0 {
        count / 4
    } else {
        count / 4 + 1
    };
    let ws = text::split_whitespace(s);
    assert(text::views(ws@).len() == ws@.len());
    let words: usize = ws.len();
    let mut n: usize = quarter;
    if words > n {
        n = words;
    }
    if n < 1 {
        n = 1;
    }
    n
}

pub open spec fn optional_tokens(s: Option<Seq<char>>) -> nat {
    match s {
        Some(t) => text_tokens(t),
        None => 0,
    }
}

/// How many tokens a part of a message takes.
pub open spec fn part_tokens(part: JsonView) -> nat {
    if json::text_field(part, "type"@) == Some("image_url"@) {
        IMAGE_TOKENS as nat
    } else {
        optional_tokens(json::text_field(part, "text"@))
    }
}

pub open spec fn parts_tokens(parts: Seq<JsonView>) -> nat
    decreases parts.len(),
{
    if parts.len() == 0 {
        0
    } else {
        parts_tokens(parts.drop_last()) + part_tokens(parts.last())
    }
}

/// How many tokens a call of a tool takes.
pub open spec fn call_tokens(call: JsonView) -> nat {
    optional_tokens(json::inner_text(call, "function"@, "name"@)) + optional_tokens(
        json::inner_text(call, "function"@, "arguments"@),
    )
}

pub open spec fn calls_tokens(calls: Seq<JsonView>) -> nat
    decreases calls.len(),
{
    if calls.len() == 0 {
        0
    } else {
        calls_tokens(calls.drop_last()) + call_tokens(calls.last())
    }
}

/// How many tokens a message takes.
pub open spec fn message_tokens(m: JsonView) -> nat {
    let content = match json::field(m, "content"@) {
        Some(JsonView::Text(t)) => text_tokens(t),
        Some(JsonView::Array(parts)) => parts_tokens(parts),
        _ => 0,
    };
    let calls = match json::items_field(m, "tool_calls"@) {
        Some(items) => calls_tokens(items),
        None => 0,
    };
    larger(optional_tokens(json::text_field(m, "role"@)) + content + calls, 1)
}

pub open spec fn sum_tokens(messages: Seq<JsonView>) -> nat
    decreases messages.len(),
{
    if messages.len() == 0 {
        0
    } else {
        sum_tokens(messages.drop_last()) + message_tokens(messages.last())
    }
}

/// How many tokens messages take.
pub open spec fn estimate(messages: Seq<JsonView>) -> usize {
    counted(larger(sum_tokens(messages), 1))
}

fn count_more(n: usize, more: usize) -> (r: usize)
    ensures
        forall|a: nat, b: nat|
            n == counted(a) && more == counted(b) ==> r == #[trigger] counted(a + b),
{
    n.saturating_add(more)
}

fn str_tokens(s: Option<&str>) -> (n: usize)
    ensures
        n == counted(
            optional_tokens(
                match s {
                    Some(t) => Some(t@),
                    None => None,
                },
            ),
        ),
{
    match s {
        Some(t) => approximate_text_tokens(t),
        None => 0,
    }
}

fn count_part(part: &Json) -> (n: usize)
    ensures
        n == counted(part_tokens(part@)),
{
    let is_image = match part.get_str("type") {
        Some(t) => text::same(t, "image_url"),
        None => false,
    };
    if is_image {
        IMAGE_TOKENS
    } else {
        str_tokens(part.get_str("text"))
    }
}

fn count_parts(parts: &Vec<Json>) -> (n: usize)
    ensures
        n == counted(parts_tokens(json::array_view(parts@))),
{
    let ghost all = json::array_view(parts@);
    proof {
        json::lemma_array_view(parts@);
    }
    let mut n: usize = 0;
    let mut i: usize = 0;
    while i < parts.len()
        invariant
            i <= parts@.len(),
            all == json::array_view(parts@),
            all.len() == parts@.len(),
            forall|k: int| 0 <= k < parts@.len() ==> #[trigger] all[k] == parts@[k]@,
            n == counted(parts_tokens(all.take(i as int))),
        decreases parts@.len() - i,
    {
        assert(all.take(i + 1).drop_last() =~= all.take(i as int));
        assert(all.take(i + 1).last() == parts@[i as int]@);
        let more: usize = count_part(&parts[i]);
        n = count_more(n, more);
        i += 1;
    }
    assert(all.take(i as int) =~= all);
    n
}

fn count_call(call: &Json) -> (n: usize)
    ensures
        n == counted(call_tokens(call@)),
{
    let name: usize = str_tokens(call.get_inner_str("function", "name"));
    let arguments: usize = str_tokens(call.get_inner_str("function", "arguments"));
    count_more(name, arguments)
}

fn count_calls(calls: &Vec<Json>) -> (n: usize)
    ensures
        n == counted(calls_tokens(json::array_view(calls@))),
{
    let ghost all = json::array_view(calls@);
    proof {
        json::lemma_array_view(calls@);
    }
    let mut n: usize = 0;
    let mut i: usize = 0;
    while i < calls.len()
        invariant
            i <= calls@.len(),
            all == json::array_view(calls@),
            all.len() == calls@.len(),
            forall|k: int| 0 <= k < calls@.len() ==> #[trigger] all[k] == calls@[k]@,
            n == counted(calls_tokens(all.take(i as int))),
        decreases calls@.len() - i,
    {
        assert(all.take(i + 1).drop_last() =~= all.take(i as int));
        assert(all.take(i + 1).last() == calls@[i as int]@);
        let more: usize = count_call(&calls[i]);
        n = count_more(n, more);
        i += 1;
    }
    assert(all.take(i as int) =~= all);
    n
}

/// How many tokens a message takes.
pub fn copilot_message_token_estimate(message: &Json) -> (n: usize)
    ensures
        n == counted(message_tokens(message@)),
{
    let role: usize = str_tokens(message.get_str("role"));
    let content: usize = match message.get("content") {
        Some(Json::Text(t)) => approximate_text_tokens(t.as_str()),
        Some(Json::Array(parts)) => count_parts(parts),
        _ => 0,
    };
    let calls: usize = match message.get_array("tool_calls") {
        Some(items) => count_calls(items),
        None => 0,
    };
    let n: usize = count_more(count_more(role, content), calls);
    if n < 1 {
        1
    } else {
        n
    }
}

/// How many tokens messages take.
pub fn copilot_messages_token_estimate(messages: &Vec<Json>) -> (n: usize)
    ensures
        n == estimate(json::array_view(messages@)),
{
    let ghost all = json::array_view(messages@);
    proof {
        json::lemma_array_view(messages@);
    }
    let mut n: usize = 0;
    let mut i: usize = 0;
    while i < messages.len()
        invariant
            i <= messages@.len(),
            all == json::array_view(messages@),
            all.len() == messages@.len(),
            forall|k: int| 0 <= k < messages@.len() ==> #[trigger] all[k] == messages@[k]@,
            n == counted(sum_tokens(all.take(i as int))),
        decreases messages@.len() - i,
    {
        assert(all.take(i + 1).drop_last() =~= all.take(i as int));
        assert(all.take(i + 1).last() == messages@[i as int]@);
        let more: usize = copilot_message_token_estimate(&messages[i]);
        n = count_more(n, more);
        i += 1;
    }
    assert(all.take(i as int) =~= all);
    if n < 1 {
        1
    } else {
        n
    }
}

// ---------------------------------------------------------------------------
// Previews
// ---------------------------------------------------------------------------

/// The first characters of a text, with an ellipsis where something is left out.
pub open spec fn shortened(s: Seq<char>, limit: nat) -> Seq<char> {
    if s.len() <= limit {
        s
    } else {
        s.take(limit as int).push('\u{2026}')
    }
}

/// The first characters of a text, with an ellipsis where something is left out.
pub fn truncate_chars(s: &str, limit: usize) -> (r: String)
    ensures
        r@ == shortened(s@, limit as nat),
{
    let cs = text::chars_of(s);
    let mut r = sse::take_chars(s, limit);
    if cs.len() > limit {
        r.push('\u{2026}');
    }
    r
}

/// What a part of a message shows, if it does.
pub open spec fn part_shown(part: JsonView) -> Option<Seq<char>> {
    match json::text_field(part, "text"@) {
        Some(t) => Some(t),
        None => if json::text_field(part, "type"@) == Some("image_url"@) {
            Some("[image]"@)
        } else {
            None
        },
    }
}

pub open spec fn parts_shown(parts: Seq<JsonView>) -> Seq<Seq<char>>
    decreases parts.len(),
{
    if parts.len() == 0 {
        seq![]
    } else {
        let before = parts_shown(parts.drop_last());
        match part_shown(parts.last()) {
            Some(t) => before.push(t),
            None => before,
        }
    }
}

/// What a call of a tool shows.
pub open spec fn call_shown(call: JsonView) -> Seq<char> {
    "called "@ + (match json::inner_text(call, "function"@, "name"@) {
        Some(n) => n,
        None => "tool"@,
    }) + " with "@ + (match json::inner_text(call, "function"@, "arguments"@) {
        Some(a) => a,
        None => "{}"@,
    })
}

/// What a message shows, piece by piece.
pub open spec fn pieces_shown(m: JsonView) -> Seq<Seq<char>> {
    let content = match json::field(m, "content"@) {
        Some(JsonView::Text(t)) => seq![t],
        Some(JsonView::Array(parts)) => parts_shown(parts),
        _ => seq![],
    };
    let calls = match json::items_field(m, "tool_calls"@) {
        Some(items) => items.map_values(|c: JsonView| call_shown(c)),
        None => seq![],
    };
    content + calls
}

/// What a message shows in a summary.
pub open spec fn preview(m: JsonView, limit: nat) -> Seq<char> {
    shortened(text::join(text::words(text::join(pieces_shown(m), " "@)), " "@), limit)
}

fn show_parts(parts: &Vec<Json>) -> (out: Vec<String>)
    ensures
        text::views(out@) == parts_shown(json::array_view(parts@)),
{
    let ghost all = json::array_view(parts@);
    proof {
        json::lemma_array_view(parts@);
    }
    let mut out: Vec<String> = Vec::new();
    let mut i: usize = 0;
    assert(text::views(out@) =~= parts_shown(all.take(0)));
    while i < parts.len()
        invariant
            i <= parts@.len(),
            all == json::array_view(parts@),
            all.len() == parts@.len(),
            forall|k: int| 0 <= k < parts@.len() ==> #[trigger] all[k] == parts@[k]@,
            text::views(out@) == parts_shown(all.take(i as int)),
        decreases parts@.len() - i,
    {
        assert(all.take(i + 1).drop_last() =~= all.take(i as int));
        assert(all.take(i + 1).last() == parts@[i as int]@);
        let part = &parts[i];
        let shown = match part.get_string("text") {
            Some(t) => Some(t),
            None => match part.get_str("type") {
                Some(k) => if text::same(k, "image_url") {
                    Some("[image]".to_string())
                } else {
                    None
                },
                None => None,
            },
        };
        match shown {
            Some(t) => {
                let ghost before = text::views(out@);
                let ghost added = t@;
                out.push(t);
                assert(text::views(out@) =~= before.push(added));
            },
            None => {},
        }
        i += 1;
    }
    assert(all.take(i as int) =~= all);
    out
}

fn show_calls(out: &mut Vec<String>, calls: &Vec<Json>)
    ensures
        text::views(final(out)@) == text::views(old(out)@) + json::array_view(
            calls@,
        ).map_values(|c: JsonView| call_shown(c)),
{
    let ghost first = text::views(out@);
    let ghost all = json::array_view(calls@);
    let ghost told = all.map_values(|c: JsonView| call_shown(c));
    proof {
        json::lemma_array_view(calls@);
    }
    let mut i: usize = 0;
    assert(first + told.take(0) =~= first);
    while i < calls.len()
        invariant
            i <= calls@.len(),
            all == json::array_view(calls@),
            all.len() == calls@.len(),
            forall|k: int| 0 <= k < calls@.len() ==> #[trigger] all[k] == calls@[k]@,
            told == all.map_values(|c: JsonView| call_shown(c)),
            text::views(out@) == first + told.take(i as int),
        decreases calls@.len() - i,
    {
        let call = &calls[i];
        let name = match call.get_inner_str("function", "name") {
            Some(n) => n,
            None => "tool",
        };
        let arguments = match call.get_inner_str("function", "arguments") {
            Some(a) => a,
            None => "{}",
        };
        let shown = text::cat4("called ", name, " with ", arguments);
        assert(shown@ == told[i as int]);
        let ghost before = text::views(out@);
        out.push(shown);
        assert(text::views(out@) =~= before.push(told[i as int]));
        assert(first + told.take(i + 1) =~= (first + told.take(i as int)).push(told[i as int]));
        i += 1;
    }
    assert(told.take(i as int) =~= told);
}

/// What a message shows in a summary.
pub fn copilot_message_preview(message: &Json, limit: usize) -> (r: String)
    ensures
        r@ == preview(message@, limit as nat),
{
    let mut parts = match message.get("content") {
        Some(Json::Text(t)) => {
            let list = text::list1(t.as_str());
            assert(text::views(list@) =~= seq![t@]);
            list
        },
        Some(Json::Array(items)) => show_parts(items),
        _ => {
            let list: Vec<String> = Vec::new();
            assert(text::views(list@) =~= seq![]);
            list
        },
    };
    let ghost content = text::views(parts@);
    match message.get_array("tool_calls") {
        Some(calls) => {
            show_calls(&mut parts, calls);
        },
        None => {
            assert(content + Seq::<Seq<char>>::empty() =~= content);
        },
    }
    assert(text::views(parts@) == pieces_shown(message@));
    let joined = text::join_strings(parts.as_slice(), " ");
    let ws = text::split_whitespace(joined.as_str());
    let plain = text::join_strings(ws.as_slice(), " ");
    truncate_chars(plain.as_str(), limit)
}

// ---------------------------------------------------------------------------
// Summaries
// ---------------------------------------------------------------------------

/// The line of a summary about a message.
pub open spec fn summary_line(m: JsonView) -> Seq<char> {
    "\n- "@ + (match json::text_field(m, "role"@) {
        Some(r) => r,
        None => "message"@,
    }) + ": "@ + preview(m, PREVIEW_CHARS as nat)
}

/// The lines of a summary about messages.
pub open spec fn summary_lines(messages: Seq<JsonView>) -> Seq<char>
    decreases messages.len(),
{
    if messages.len() == 0 {
        seq![]
    } else {
        summary_lines(messages.drop_last()) + summary_line(messages.last())
    }
}

/// How many of the first messages a summary previews.
pub open spec fn first_count(n: nat) -> int {
    if n <= FIRST_MESSAGES {
        n as int
    } else {
        FIRST_MESSAGES as int
    }
}

/// Where the last messages begin that a summary previews.
pub open spec fn recent_start(n: nat) -> int {
    if n <= RECENT_MESSAGES + first_count(n) {
        first_count(n)
    } else {
        n - RECENT_MESSAGES
    }
}

/// What a summary says of messages, given the most tokens that are sent.
pub open spec fn summary_text(messages: Seq<JsonView>, hard: nat) -> Seq<char> {
    let n = messages.len();
    "[Inductor compacted "@ + text::decimal(n)
        + " earlier Copilot message(s) to stay below the "@ + text::decimal(hard)
        + "-token input ceiling.]"@ + summary_lines(messages.take(first_count(n)))
        + summary_lines(messages.skip(recent_start(n))) + (if n > FIRST_MESSAGES
        + RECENT_MESSAGES {
        "\n- ... "@ + text::decimal((n - FIRST_MESSAGES - RECENT_MESSAGES) as nat)
            + " middle message(s) omitted"@
    } else {
        seq![]
    }) + "\nContinue from this handoff without repeating completed tool calls."@
}

/// The message that stands for messages that are left out.
pub open spec fn summary(messages: Seq<JsonView>, hard: nat) -> JsonView {
    copilot_request::plain_message("user"@, summary_text(messages, hard))
}

fn push_lines(content: &mut String, messages: &Vec<Json>, from: usize, to: usize)
    requires
        from <= to <= messages@.len(),
    ensures
        final(content)@ == old(content)@ + summary_lines(
            json::array_view(messages@).subrange(from as int, to as int),
        ),
{
    let ghost all = json::array_view(messages@);
    let ghost first = content@;
    proof {
        json::lemma_array_view(messages@);
    }
    let mut i: usize = from;
    assert(first + summary_lines(all.subrange(from as int, from as int)) =~= first);
    while i < to
        invariant
            from <= i <= to <= messages@.len(),
            all == json::array_view(messages@),
            all.len() == messages@.len(),
            forall|k: int| 0 <= k < messages@.len() ==> #[trigger] all[k] == messages@[k]@,
            content@ == first + summary_lines(all.subrange(from as int, i as int)),
        decreases to - i,
    {
        let ghost seen = all.subrange(from as int, i + 1);
        assert(seen.drop_last() =~= all.subrange(from as int, i as int));
        assert(seen.last() == messages@[i as int]@);
        let ghost before = content@;
        let message = &messages[i];
        let role = match message.get_str("role") {
            Some(r) => r,
            None => "message",
        };
        content.push_str("\n- ");
        content.push_str(role);
        content.push_str(": ");
        let shown = copilot_message_preview(message, PREVIEW_CHARS);
        content.push_str(shown.as_str());
        assert(content@ =~= before + summary_line(message@));
        assert(content@ =~= first + summary_lines(seen));
        i += 1;
    }
}

/// The message that stands for the messages from one index up to another, given the most
/// tokens that are sent.
pub fn copilot_compaction_summary(messages: &Vec<Json>, from: usize, to: usize, hard: usize) -> (r:
    Json)
    requires
        from <= to <= messages@.len(),
    ensures
        r@ == summary(
            json::array_view(messages@).subrange(from as int, to as int),
            hard as nat,
        ),
{
    let ghost all = json::array_view(messages@);
    let ghost part = all.subrange(from as int, to as int);
    proof {
        json::lemma_array_view(messages@);
    }
    let n: usize = to - from;
    let first: usize = if n <= FIRST_MESSAGES {
        n
    } else {
        FIRST_MESSAGES
    };
    let recent: usize = if n - first <= RECENT_MESSAGES {
        first
    } else {
        n - RECENT_MESSAGES
    };
    assert(first == first_count(n as nat));
    assert(recent == recent_start(n as nat));
    let mut content = text::cat5(
        "[Inductor compacted ",
        text::decimal_text(n as u64).as_str(),
        " earlier Copilot message(s) to stay below the ",
        text::decimal_text(hard as u64).as_str(),
        "-token input ceiling.]",
    );
    push_lines(&mut content, messages, from, from + first);
    assert(all.subrange(from as int, from + first) =~= part.take(first as int));
    push_lines(&mut content, messages, from + recent, to);
    assert(all.subrange(from + recent, to as int) =~= part.skip(recent as int));
    if n > FIRST_MESSAGES + RECENT_MESSAGES {
        content.push_str("\n- ... ");
        text::push_decimal(&mut content, (n - FIRST_MESSAGES - RECENT_MESSAGES) as u64);
        content.push_str(" middle message(s) omitted");
    }
    content.push_str("\nContinue from this handoff without repeating completed tool calls.");
    assert(content@ =~= summary_text(part, hard as nat));
    copilot_request::message_of("user", content.as_str())
}

// ---------------------------------------------------------------------------
// Compaction
// ---------------------------------------------------------------------------

/// Whether a message is one in which the model has called tools.
pub open spec fn has_calls(m: JsonView) -> bool {
    json::text_field(m, "role"@) == Some("assistant"@) && (match json::items_field(
        m,
        "tool_calls"@,
    ) {
        Some(items) => items.len() > 0,
        None => false,
    })
}

/// Whether a message is one in which the model has called tools.
pub fn copilot_message_has_tool_calls(message: &Json) -> (r: bool)
    ensures
        r == has_calls(message@),
{
    let is_assistant = match message.get_str("role") {
        Some(r) => text::same(r, "assistant"),
        None => false,
    };
    if !is_assistant {
        return false;
    }
    match message.get_array("tool_calls") {
        Some(items) => {
            proof {
                json::lemma_array_view(items@);
            }
            items.len() > 0
        },
        None => false,
    }
}

/// Where the messages begin that stay: with the last in which the model has called tools,
/// or else with the last few.
pub open spec fn keep_start(messages: Seq<JsonView>) -> int {
    if exists|i: int| 0 <= i < messages.len() && has_calls(#[trigger] messages[i]) {
        last_calls(messages)
    } else if messages.len() <= KEPT_MESSAGES {
        0
    } else {
        messages.len() - KEPT_MESSAGES
    }
}

/// The index of the last message in which the model has called tools; `-1` where there is
/// none.
pub open spec fn last_calls(messages: Seq<JsonView>) -> int
    decreases messages.len(),
{
    if messages.len() == 0 {
        -1
    } else if has_calls(messages.last()) {
        messages.len() - 1
    } else {
        last_calls(messages.drop_last())
    }
}

/// How many messages of the system a conversation begins with: one or none.
pub open spec fn system_count(messages: Seq<JsonView>) -> int {
    if messages.len() > 0 && json::text_field(messages[0], "role"@) == Some("system"@) {
        1
    } else {
        0
    }
}

/// The conversation with a summary in place of what comes before the messages that stay.
pub open spec fn partly_compacted(messages: Seq<JsonView>, hard: nat) -> Seq<JsonView> {
    let s = system_count(messages);
    let talk = messages.skip(s);
    let keep = keep_start(talk);
    messages.take(s) + (if keep > 0 {
        seq![summary(talk.take(keep), hard)]
    } else {
        seq![]
    }) + talk.skip(keep)
}

/// The conversation with a summary in place of all of it.
pub open spec fn fully_compacted(messages: Seq<JsonView>, hard: nat) -> Seq<JsonView> {
    let s = system_count(messages);
    messages.take(s).push(summary(messages.skip(s), hard))
}

/// What compaction leads to.
pub enum Compaction {
    /// The conversation is short enough, or there is nothing to compact.
    Unchanged,
    /// The conversation has been compacted.
    Compacted { messages: Seq<JsonView>, original: usize, tokens: usize },
    /// The conversation is too long to be sent.
    TooLong { tokens: usize },
}

/// What compaction leads to, given how many tokens a conversation should take at most, and
/// how many it may take.
pub open spec fn compaction(messages: Seq<JsonView>, soft: usize, hard: usize) -> Compaction {
    let original = estimate(messages);
    let partly = partly_compacted(messages, hard as nat);
    let result = if estimate(partly) > soft {
        fully_compacted(messages, hard as nat)
    } else {
        partly
    };
    if original <= soft {
        Compaction::Unchanged
    } else if messages.len() == system_count(messages) {
        if original <= hard {
            Compaction::Unchanged
        } else {
            Compaction::TooLong { tokens: original }
        }
    } else if estimate(result) > hard {
        Compaction::TooLong { tokens: estimate(result) }
    } else {
        Compaction::Compacted { messages: result, original, tokens: estimate(result) }
    }
}

fn find_keep_start(messages: &Vec<Json>, from: usize) -> (r: usize)
    requires
        from <= messages@.len(),
    ensures
        r == keep_start(json::array_view(messages@).skip(from as int)),
        from + r <= messages@.len(),
{
    let ghost all = json::array_view(messages@);
    let ghost talk = all.skip(from as int);
    proof {
        json::lemma_array_view(messages@);
    }
    let total: usize = messages.len();
    let n: usize = total - from;
    let mut i: usize = n;
    assert(talk.take(n as int) =~= talk);
    while i > 0
        invariant
            i <= n,
            total == messages@.len(),
            n == total - from,
            from <= total,
            all == json::array_view(messages@),
            all.len() == messages@.len(),
            forall|k: int| 0 <= k < messages@.len() ==> #[trigger] all[k] == messages@[k]@,
            talk == all.skip(from as int),
            last_calls(talk) == last_calls(talk.take(i as int)),
            forall|k: int| i <= k < n ==> !has_calls(#[trigger] talk[k]),
        decreases i,
    {
        let ghost seen = talk.take(i as int);
        assert(seen.drop_last() =~= talk.take(i - 1));
        assert(seen.last() == talk[i - 1]);
        i -= 1;
        assert(talk[i as int] == messages@[from + i]@);
        if copilot_message_has_tool_calls(&messages[from + i]) {
            assert(has_calls(talk[i as int]));
            return i;
        }
    }
    if n <= KEPT_MESSAGES {
        0
    } else {
        n - KEPT_MESSAGES
    }
}

fn push_range(out: &mut Vec<Json>, messages: &Vec<Json>, from: usize, to: usize)
    requires
        from <= to <= messages@.len(),
    ensures
        json::array_view(final(out)@) == json::array_view(old(out)@) + json::array_view(
            messages@,
        ).subrange(from as int, to as int),
{
    let ghost all = json::array_view(messages@);
    let ghost first = json::array_view(out@);
    proof {
        json::lemma_array_view(messages@);
    }
    let mut i: usize = from;
    assert(first + all.subrange(from as int, from as int) =~= first);
    while i < to
        invariant
            from <= i <= to <= messages@.len(),
            all == json::array_view(messages@),
            all.len() == messages@.len(),
            forall|k: int| 0 <= k < messages@.len() ==> #[trigger] all[k] == messages@[k]@,
            json::array_view(out@) == first + all.subrange(from as int, i as int),
        decreases to - i,
    {
        json::push_item(out, messages[i].clone());
        assert(first + all.subrange(from as int, i + 1) =~= (first + all.subrange(
            from as int,
            i as int,
        )).push(all[i as int]));
        i += 1;
    }
}

fn compact_partly(messages: &Vec<Json>, system: usize, hard: usize) -> (r: Vec<Json>)
    requires
        system == system_count(json::array_view(messages@)),
        system <= messages@.len(),
    ensures
        json::array_view(r@) == partly_compacted(json::array_view(messages@), hard as nat),
{
    let ghost all = json::array_view(messages@);
    proof {
        json::lemma_array_view(messages@);
    }
    let total: usize = messages.len();
    let keep: usize = find_keep_start(messages, system);
    let ghost talk = all.skip(system as int);
    let mut r = json::no_items();
    push_range(&mut r, messages, 0, system);
    assert(json::array_view(r@) =~= all.take(system as int));
    if keep > 0 {
        let handoff = copilot_compaction_summary(messages, system, system + keep, hard);
        assert(all.subrange(system as int, system + keep) =~= talk.take(keep as int));
        json::push_item(&mut r, handoff);
        assert(json::array_view(r@) =~= all.take(system as int) + seq![
            summary(talk.take(keep as int), hard as nat),
        ]);
    } else {
        assert(json::array_view(r@) =~= all.take(system as int) + Seq::<JsonView>::empty());
    }
    push_range(&mut r, messages, system + keep, total);
    assert(all.subrange(system + keep, all.len() as int) =~= talk.skip(keep as int));
    r
}

/// Compacts a conversation that takes more tokens than it should, and tells how many it
/// took before and takes now; nothing where it stays as it is. The error is the number of
/// tokens of a conversation that is too long to be sent, which stays as it is.
pub fn compact_copilot_messages(messages: &mut Vec<Json>, soft: usize, hard: usize) -> (r: Result<
    Option<(usize, usize)>,
    usize,
>)
    ensures
        match compaction(json::array_view(old(messages)@), soft, hard) {
            Compaction::Unchanged => r == Ok::<Option<(usize, usize)>, usize>(None)
                && final(messages)@ == old(messages)@,
            Compaction::Compacted { messages: result, original, tokens } => r == Ok::<
                Option<(usize, usize)>,
                usize,
            >(Some((original, tokens))) && json::array_view(final(messages)@) == result,
            Compaction::TooLong { tokens } => r == Err::<Option<(usize, usize)>, usize>(tokens)
                && final(messages)@ == old(messages)@,
        },
{
    let ghost all = json::array_view(messages@);
    proof {
        json::lemma_array_view(messages@);
    }
    let original: usize = copilot_messages_token_estimate(messages);
    if original <= soft {
        return Ok(None);
    }
    let is_system = if messages.len() > 0 {
        match messages[0].get_str("role") {
            Some(r) => text::same(r, "system"),
            None => false,
        }
    } else {
        false
    };
    let system: usize = if is_system {
        1
    } else {
        0
    };
    assert(messages@.len() > 0 ==> all[0] == messages@[0]@);
    assert(system == system_count(all));
    if messages.len() == system {
        return if original <= hard {
            Ok(None)
        } else {
            Err(original)
        };
    }
    let mut result = compact_partly(messages, system, hard);
    if copilot_messages_token_estimate(&result) > soft {
        let handoff = copilot_compaction_summary(messages, system, messages.len(), hard);
        assert(all.subrange(system as int, all.len() as int) =~= all.skip(system as int));
        result = json::no_items();
        push_range(&mut result, messages, 0, system);
        assert(json::array_view(result@) =~= all.take(system as int));
        json::push_item(&mut result, handoff);
    }
    let tokens: usize = copilot_messages_token_estimate(&result);
    if tokens > hard {
        return Err(tokens);
    }
    *messages = result;
    Ok(Some((original, tokens)))
}

// ---------------------------------------------------------------------------
// Laws
// ---------------------------------------------------------------------------

/// What is sent never takes more tokens than it may.
pub proof fn what_is_sent_stays_below_the_ceiling(
    messages: Seq<JsonView>,
    soft: usize,
    hard: usize,
)
    requires
        soft <= hard,
    ensures
        match compaction(messages, soft, hard) {
            Compaction::Unchanged => estimate(messages) <= hard,
            Compaction::Compacted { messages: result, tokens, .. } => estimate(result) == tokens
                && tokens <= hard,
            Compaction::TooLong { tokens } => tokens > hard,
        },
{
}

proof fn lemma_last_calls(messages: Seq<JsonView>)
    ensures
        -1 <= last_calls(messages) < messages.len(),
        last_calls(messages) >= 0 ==> has_calls(messages[last_calls(messages)]),
        forall|i: int| last_calls(messages) < i < messages.len() ==> !has_calls(#[trigger] messages[i]),
    decreases messages.len(),
{
    if messages.len() > 0 && !has_calls(messages.last()) {
        let shorter = messages.drop_last();
        lemma_last_calls(shorter);
        assert forall|i: int| last_calls(messages) < i < messages.len() implies !has_calls(
            #[trigger] messages[i],
        ) by {
            if i < shorter.len() {
                assert(messages[i] == shorter[i]);
            }
        }
    }
}

/// Where the messages that stay fit, they stay as they are, at the end: the last one in
/// which the model has called tools and all that follow it, or else the last few. The
/// message of the system stays first.
pub proof fn the_last_exchange_is_kept_where_it_fits(
    messages: Seq<JsonView>,
    soft: usize,
    hard: usize,
)
    requires
        compaction(messages, soft, hard) is Compacted,
        estimate(partly_compacted(messages, hard as nat)) <= soft,
    ensures
        ({
            let result = compaction(messages, soft, hard)->Compacted_messages;
            let s = system_count(messages);
            let talk = messages.skip(s);
            let keep = keep_start(talk);
            &&& 0 <= keep <= talk.len()
            &&& talk.skip(keep).is_suffix_of(result)
            &&& messages.take(s).is_prefix_of(result)
            &&& forall|i: int| keep < i < talk.len() ==> !has_calls(#[trigger] talk[i])
        }),
{
    let s = system_count(messages);
    let talk = messages.skip(s);
    let keep = keep_start(talk);
    lemma_last_calls(talk);
    if exists|i: int| 0 <= i < talk.len() && has_calls(#[trigger] talk[i]) {
        let i = choose|i: int| 0 <= i < talk.len() && has_calls(#[trigger] talk[i]);
        assert(last_calls(talk) >= i);
    }
    let result = partly_compacted(messages, hard as nat);
    assert(talk.skip(keep) =~= result.skip(result.len() - talk.skip(keep).len()));
    assert(messages.take(s) =~= result.take(s));
}

/// Whether a message is one in which the assistant calls tools.
pub open spec fn calls_tools(m: JsonView) -> bool {
    json::text_field(m, "role"@) == Some("assistant"@) && (json::items_field(
        m,
        "tool_calls"@,
    ) matches Some(items) && items.len() > 0)
}

/// A conversation that is short enough is sent as it is. One that is compacted keeps the
/// message of the system first and, where that fits, ends with the last message in which
/// tools were called and all behind it, or else with the last four; all before that is one
/// message from the user that sums it up. Where it does not fit, only the summary of all is
/// sent.
pub proof fn what_a_compacted_conversation_keeps(
    first: Seq<JsonView>,
    old: Seq<JsonView>,
    kept: Seq<JsonView>,
    soft: usize,
    hard: usize,
)
    requires
        first.len() <= 1,
        first.len() == 1 ==> json::text_field(first[0], "role"@) == Some("system"@),
        first.len() == 0 ==> json::text_field((old + kept)[0], "role"@) != Some("system"@),
        old.len() > 0,
        kept.len() > 0,
        (calls_tools(kept[0]) && forall|i: int|
            0 < i < kept.len() ==> !calls_tools(#[trigger] kept[i])) || (kept.len() == 4
            && forall|i: int|
            0 <= i < (old + kept).len() ==> !calls_tools(#[trigger] (old + kept)[i])),
    ensures
        ({
            let messages = first + old + kept;
            let short = first.push(summary(old, hard as nat)) + kept;
            let shortest = first.push(summary(old + kept, hard as nat));
            let sent = if estimate(short) <= soft {
                short
            } else {
                shortest
            };
            match compaction(messages, soft, hard) {
                Compaction::Unchanged => estimate(messages) <= soft,
                Compaction::Compacted { messages: result, original, tokens } => estimate(messages)
                    > soft && original == estimate(messages) && result == sent && tokens
                    == estimate(sent) && tokens <= hard,
                Compaction::TooLong { tokens } => estimate(messages) > soft && tokens == estimate(
                    sent,
                ) && tokens > hard,
            }
        }),
{
    let messages = first + old + kept;
    let talk = old + kept;
    let s = first.len() as int;
    let n = old.len() as int;
    assert(messages[s] == talk[0]);
    assert(system_count(messages) == s) by {
        if s == 1 {
            assert(messages[0] == first[0]);
        } else {
            assert(messages[0] == talk[0]);
        }
    }
    assert(messages.skip(s) =~= talk);
    assert(messages.take(s) =~= first);
    lemma_last_calls(talk);
    assert forall|i: int| 0 <= i < talk.len() implies (has_calls(#[trigger] talk[i])
        <==> calls_tools(talk[i])) by {}
    if calls_tools(kept[0]) && forall|i: int| 0 < i < kept.len() ==> !calls_tools(
        #[trigger] kept[i],
    ) {
        assert(talk[n] == kept[0]);
        assert(has_calls(talk[n]));
        let last = last_calls(talk);
        if last > n {
            assert(talk[last] == kept[last - n]);
        }
        assert(keep_start(talk) == n);
    } else {
        assert(forall|i: int| 0 <= i < talk.len() ==> !has_calls(#[trigger] talk[i]));
        assert(keep_start(talk) == n);
    }
    assert(talk.take(n) =~= old);
    assert(talk.skip(n) =~= kept);
    let partly = partly_compacted(messages, hard as nat);
    assert(partly =~= first.push(summary(old, hard as nat)) + kept);
    assert(fully_compacted(messages, hard as nat) =~= first.push(summary(talk, hard as nat)));
}

/// A summary is a message of the user. It counts the messages that it stands for and shows
/// the first four and the last thirty-two of them, each on a line with its role and as much
/// of it as fits in a thousand characters; it says how many it leaves out between them.
pub proof fn a_summary_shows_the_ends_of_what_it_stands_for(
    messages: Seq<JsonView>,
    hard: nat,
)
    ensures
        ({
            let v = summary(messages, hard);
            let n = messages.len();
            &&& json::text_field(v, "role"@) == Some("user"@)
            &&& n > 36 ==> json::text_field(v, "content"@) == Some(
                "[Inductor compacted "@ + text::decimal(n)
                    + " earlier Copilot message(s) to stay below the "@ + text::decimal(hard)
                    + "-token input ceiling.]"@ + summary_lines(messages.take(4)) + summary_lines(
                    messages.skip(n - 32),
                ) + ("\n- ... "@ + text::decimal((n - 36) as nat)
                    + " middle message(s) omitted"@)
                    + "\nContinue from this handoff without repeating completed tool calls."@,
            )
            &&& 4 <= n <= 36 ==> json::text_field(v, "content"@) == Some(
                "[Inductor compacted "@ + text::decimal(n)
                    + " earlier Copilot message(s) to stay below the "@ + text::decimal(hard)
                    + "-token input ceiling.]"@ + (summary_lines(messages.take(4)) + summary_lines(
                    messages.skip(4),
                )) + "\nContinue from this handoff without repeating completed tool calls."@,
            )
        }),
        forall|m: JsonView|
            #![trigger summary_lines(messages.push(m))]
            summary_lines(messages.push(m)) == summary_lines(messages) + ("\n- "@ + (
            match json::text_field(m, "role"@) {
                Some(r) => r,
                None => "message"@,
            }) + ": "@ + preview(m, 1000)),
{
    reveal_strlit("role");
    reveal_strlit("content");
    assert("role"@.len() != "content"@.len());
    let n = messages.len();
    if 4 <= n <= 36 {
        let head = "[Inductor compacted "@ + text::decimal(n)
            + " earlier Copilot message(s) to stay below the "@ + text::decimal(hard)
            + "-token input ceiling.]"@;
        let a = summary_lines(messages.take(4));
        let b = summary_lines(messages.skip(4));
        let tail = "\nContinue from this handoff without repeating completed tool calls."@;
        assert(recent_start(n) == 4);
        assert(head + a + b + Seq::<char>::empty() + tail =~= head + (a + b) + tail);
    }
    assert forall|m: JsonView| #[trigger] summary_lines(messages.push(m)) == summary_lines(messages)
        + ("\n- "@ + (match json::text_field(m, "role"@) {
        Some(r) => r,
        None => "message"@,
    }) + ": "@ + preview(m, 1000)) by {
        assert(messages.push(m).drop_last() =~= messages);
    }
}

/// The tokens of a conversation are those of its messages together; a text takes one for
/// every four characters begun, but no fewer than it has words, and a picture one thousand
/// and twenty-four.
pub proof fn tokens_add_up(
    a: Seq<JsonView>,
    b: Seq<JsonView>,
    m: JsonView,
    role: Seq<char>,
    content: Seq<char>,
    part: JsonView,
)
    ensures
        sum_tokens(a + b) == sum_tokens(a) + sum_tokens(b),
        4 * text_tokens(content) >= content.len(),
        text_tokens(content) >= text::words(content).len(),
        text_tokens(content) >= 1,
        text_tokens(content) == 1 || text_tokens(content) == text::words(content).len() || 4 * (
        text_tokens(content) - 1) < content.len(),
        json::text_field(m, "role"@) == Some(role) && json::field(m, "content"@) == Some(
            JsonView::Text(content),
        ) && json::items_field(m, "tool_calls"@) is None ==> message_tokens(m) == text_tokens(role)
            + text_tokens(content),
        json::text_field(part, "type"@) == Some("image_url"@) ==> part_tokens(part) == 1024,
        json::text_field(part, "type"@) == Some("text"@) && json::text_field(part, "text"@) == Some(
            content,
        ) ==> part_tokens(part) == text_tokens(content),
    decreases b.len(),
{
    reveal_strlit("image_url");
    reveal_strlit("text");
    assert("image_url"@.len() != "text"@.len());
    if b.len() == 0 {
        assert(a + b =~= a);
    } else {
        tokens_add_up(a, b.drop_last(), m, role, content, part);
        assert((a + b).drop_last() =~= a + b.drop_last());
        assert((a + b).last() == b.last());
    }
}

/// What is shown of a message is cut to the limit, with a mark where it was cut.
pub proof fn previews_keep_to_their_limit(s: Seq<char>, limit: nat)
    ensures
        s.len() <= limit ==> shortened(s, limit) == s,
        s.len() > limit ==> shortened(s, limit).len() == limit + 1 && shortened(s, limit).drop_last()
            == s.take(limit as int) && shortened(s, limit).last() == '\u{2026}',
{
    if s.len() > limit {
        assert(shortened(s, limit).drop_last() =~= s.take(limit as int));
    }
}

} // verus!
