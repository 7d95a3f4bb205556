//! Bridges: programs that a provider runs and that speak to it in lines of JSON.
use vstd::prelude::*;
use vstd::slice::slice_subrange;
use std::collections::HashMap;

use crate::json;
use crate::json::{Json, JsonView};
use crate::runtime::events;
use crate::runtime::events::{EventView, SessionEvent};
use crate::runtime::types::SessionId;
use crate::text;
use crate::tools::names;
use crate::tools::names::{ToolDefinition, ToolName};
use crate::tools::paths;

verus! {

/// How many bytes of what a bridge writes to its standard error are kept.
pub const MAX_BRIDGE_STDERR: usize = 4096;

/// How long a bridge may take to stop when it is cancelled, in seconds.
pub const CANCEL_GRACE_SECS: u64 = 2;

// ---------------------------------------------------------------------------
// Commands
// ---------------------------------------------------------------------------

/// How a bridge is started.
#[derive(Debug)]
pub struct BridgeCommand {
    pub command: String,
    pub args: Vec<String>,
}

/// The content of a `BridgeCommand`.
pub struct CommandView {
    pub command: Seq<char>,
    pub args: Seq<Seq<char>>,
}

impl View for BridgeCommand {
    type V = CommandView;

    open spec fn view(&self) -> CommandView {
        CommandView { command: self.command@, args: text::views(self.args@) }
    }
}

/// The command in a line: its first word, and the others as arguments; `node` where there
/// is no word.
pub open spec fn command_of(line: Seq<char>) -> CommandView {
    let ws = text::words(line);
    if ws.len() == 0 {
        CommandView { command: "node"@, args: seq![] }
    } else {
        CommandView { command: ws[0], args: ws.skip(1) }
    }
}

/// The command that runs a script of the installation.
pub open spec fn script_command(dir: Seq<char>, script: Seq<char>) -> CommandView {
    CommandView { command: "node"@, args: seq![paths::joined(dir, script)] }
}

/// The command in a line.
pub fn parse_command_line(value: &str) -> (r: BridgeCommand)
    ensures
        r@ == command_of(value@),
{
    let parts = text::split_whitespace(value);
    let ghost ws = text::views(parts@);
    if parts.len() == 0 {
        let args: Vec<String> = Vec::new();
        assert(text::views(args@) =~= seq![]);
        return BridgeCommand { command: "node".to_string(), args };
    }
    let mut args: Vec<String> = Vec::new();
    let mut i: usize = 1;
    assert(text::views(args@) =~= ws.subrange(1, 1));
    while i < parts.len()
        invariant
            1 <= i <= parts@.len(),
            ws == text::views(parts@),
            text::views(args@) == ws.subrange(1, i as int),
        decreases parts@.len() - i,
    {
        let ghost before = text::views(args@);
        args.push(parts[i].clone());
        assert(text::views(args@) =~= before.push(ws[i as int]));
        assert(ws.subrange(1, i + 1) =~= ws.subrange(1, i as int).push(ws[i as int]));
        i += 1;
    }
    assert(ws.subrange(1, i as int) =~= ws.skip(1));
    BridgeCommand { command: parts[0].clone(), args }
}

/// The command that runs a script of the installation.
pub fn command_for_script(dir: &str, script: &str) -> (r: BridgeCommand)
    ensures
        r@ == script_command(dir@, script@),
{
    let args = text::list1(paths::join_path(dir, script).as_str());
    assert(text::views(args@) =~= seq![paths::joined(dir@, script@)]);
    BridgeCommand { command: "node".to_string(), args }
}

// ---------------------------------------------------------------------------
// Diagnostics
// ---------------------------------------------------------------------------

/// How a bridge has ended.
#[derive(Debug, Clone, Copy, PartialEq, Eq, Structural)]
pub enum BridgeExit {
    Code(i32),
    Signal,
    Running,
}

pub open spec fn exit_text(exit: BridgeExit) -> Seq<char> {
    match exit {
        BridgeExit::Code(code) => "exit code "@ + text::signed_decimal(code as int),
        BridgeExit::Signal => "terminated by signal"@,
        BridgeExit::Running => "still running"@,
    }
}

/// What is told of why a bridge has stopped.
pub open spec fn diagnostics(exit: BridgeExit, stderr: Seq<char>) -> Seq<char> {
    let told = text::trimmed(stderr);
    if told.len() == 0 {
        " ("@ + exit_text(exit) + ")"@
    } else {
        " ("@ + exit_text(exit) + "): "@ + told
    }
}

/// What is told of why a bridge has stopped: how it ended, and what it wrote to its
/// standard error.
pub fn exit_diagnostics(exit: BridgeExit, stderr: &str) -> (r: String)
    ensures
        r@ == diagnostics(exit, stderr@),
{
    let status = match exit {
        BridgeExit::Code(code) => text::cat2("exit code ", text::signed_text(code as i64).as_str()),
        BridgeExit::Signal => "terminated by signal".to_string(),
        BridgeExit::Running => "still running".to_string(),
    };
    let told = text::trim(stderr);
    if text::is_blank_len(&told) {
        text::cat3(" (", status.as_str(), ")")
    } else {
        text::cat4(" (", status.as_str(), "): ", told.as_str())
    }
}

/// Whether the last bytes of a text that are kept begin with a character.
pub open spec fn tail_is_text(s: Seq<char>) -> bool {
    text::byte_len(s) > MAX_BRIDGE_STDERR ==> text::byte_len(
        text::capped(s, (text::byte_len(s) - MAX_BRIDGE_STDERR) as nat),
    ) == text::byte_len(s) - MAX_BRIDGE_STDERR
}

/// The last bytes of a text.
pub open spec fn recent(s: Seq<char>) -> Seq<char> {
    if text::byte_len(s) > MAX_BRIDGE_STDERR {
        s.skip(text::cap_len(s, (text::byte_len(s) - MAX_BRIDGE_STDERR) as nat))
    } else {
        s
    }
}

/// What is kept of what a bridge wrote to its standard error: the last bytes.
pub fn recent_stderr(s: &str) -> (r: String)
    requires
        tail_is_text(s@),
    ensures
        r@ == recent(s@),
{
    let n: usize = text::byte_len_of(s);
    if n <= MAX_BRIDGE_STDERR {
        return s.to_string();
    }
    let (head, _) = text::cap_bytes(s, n - MAX_BRIDGE_STDERR);
    let cs = text::chars_of(s);
    let hs = text::chars_of(head.as_str());
    proof {
        text::lemma_cap_len_bound(s@, (n - MAX_BRIDGE_STDERR) as nat);
    }
    let r = text::string_of(slice_subrange(cs.as_slice(), hs.len(), cs.len()));
    assert(r@ =~= recent(s@));
    r
}

// ---------------------------------------------------------------------------
// Messages
// ---------------------------------------------------------------------------

/// A tool as it is told to a bridge.
pub open spec fn definition_json(name: ToolName) -> JsonView {
    json::empty_object()
        .with("name"@, JsonView::Text(names::tool_name(name)))
        .with("description"@, JsonView::Text(names::tool_description(name)))
        .with("input_schema"@, names::tool_schema(name))
        .with("read_only"@, JsonView::Bool(names::tool_reads_only(name)))
}

/// The tools among those given whose names are allowed.
pub open spec fn allowed_tools(tools: Seq<ToolName>, allowed: Seq<Seq<char>>) -> Seq<ToolName>
    decreases tools.len(),
{
    if tools.len() == 0 {
        seq![]
    } else {
        let before = allowed_tools(tools.drop_last(), allowed);
        if allowed.contains(names::tool_name(tools.last())) {
            before.push(tools.last())
        } else {
            before
        }
    }
}

/// The tools whose names are allowed, as they are told to a bridge.
pub open spec fn definitions_json(allowed: Seq<Seq<char>>) -> JsonView {
    JsonView::Array(
        allowed_tools(names::all_tools(), allowed).map_values(|t: ToolName| definition_json(t)),
    )
}

/// The definitions of the tools whose names are allowed.
pub fn allowed_definitions(allowed: &Vec<String>) -> (defs: Vec<ToolDefinition>)
    ensures
        ({
            let tools = allowed_tools(names::all_tools(), text::views(allowed@));
            &&& defs@.len() == tools.len()
            &&& forall|i: int| 0 <= i < defs@.len() ==> (#[trigger] defs@[i]).defines(tools[i])
        }),
{
    let mut all = names::tool_definitions();
    let ghost tools = names::all_tools();
    let ghost names = text::views(allowed@);
    let mut defs: Vec<ToolDefinition> = Vec::new();
    let total: usize = all.len();
    let mut i: usize = 0;
    assert(tools.take(0) =~= seq![]);
    assert(tools.skip(0) =~= tools);
    while i < total
        invariant
            i <= total,
            total == tools.len(),
            names == text::views(allowed@),
            all@.len() == total - i,
            forall|k: int| 0 <= k < all@.len() ==> (#[trigger] all@[k]).defines(tools[k + i]),
            defs@.len() == allowed_tools(tools.take(i as int), names).len(),
            forall|k: int|
                0 <= k < defs@.len() ==> (#[trigger] defs@[k]).defines(
                    allowed_tools(tools.take(i as int), names)[k],
                ),
        decreases total - i,
    {
        assert(tools.take(i + 1).drop_last() =~= tools.take(i as int));
        assert(tools.take(i + 1).last() == tools[i as int]);
        let ghost before = all@;
        let definition = all.remove(0);
        assert(before[0].defines(tools[0 + i]));
        assert forall|k: int| 0 <= k < all@.len() implies (#[trigger] all@[k]).defines(
            tools[k + (i + 1)],
        ) by {
            assert(all@[k] == before[k + 1]);
            assert(before[k + 1].defines(tools[k + 1 + i]));
        }
        if text::contains_name(allowed, definition.name.as_str()) {
            defs.push(definition);
        }
        i += 1;
    }
    assert(tools.take(i as int) =~= tools);
    defs
}

/// The tools whose names are allowed, as they are told to a bridge.
pub fn tool_definitions_json(allowed: &Vec<String>) -> (r: Json)
    ensures
        r@ == definitions_json(text::views(allowed@)),
{
    let defs = allowed_definitions(allowed);
    let ghost tools = allowed_tools(names::all_tools(), text::views(allowed@));
    let ghost told = tools.map_values(|t: ToolName| definition_json(t));
    let mut items = json::no_items();
    let mut i: usize = 0;
    assert(told.take(0) =~= seq![]);
    while i < defs.len()
        invariant
            i <= defs@.len(),
            defs@.len() == tools.len(),
            forall|k: int| 0 <= k < defs@.len() ==> (#[trigger] defs@[k]).defines(tools[k]),
            told == tools.map_values(|t: ToolName| definition_json(t)),
            json::array_view(items@) == told.take(i as int),
        decreases defs@.len() - i,
    {
        let definition = &defs[i];
        assert(definition.defines(tools[i as int]));
        json::push_item(
            &mut items,
            Json::object()
                .with("name", Json::text(definition.name.as_str()))
                .with("description", Json::text(definition.description))
                .with("input_schema", definition.input_schema.clone())
                .with("read_only", Json::Bool(definition.read_only)),
        );
        assert(told.take(i + 1) =~= told.take(i as int).push(told[i as int]));
        i += 1;
    }
    assert(told.take(i as int) =~= told);
    Json::Array(items)
}

/// A natural number as a member holds it.
pub open spec fn count_field(v: JsonView, name: Seq<char>) -> Option<u64> {
    match json::unsigned_field(v, name) {
        Some(n) => Some(n as u64),
        None => None,
    }
}

/// The tokens that a message of the bridge tells.
pub open spec fn usage_told(session_id: SessionId, v: JsonView) -> EventView {
    EventView::Usage {
        session_id,
        input_tokens: count_field(v, "input_tokens"@),
        output_tokens: count_field(v, "output_tokens"@),
        cache_read_tokens: count_field(v, "cache_read_tokens"@),
        total_cost_usd: json::number_field(v, "total_cost_usd"@),
    }
}

/// The text, or another one where there is none.
pub fn string_or(s: Option<String>, other: &str) -> (r: String)
    ensures
        r@ == match text::opt(s) {
            Some(t) => t,
            None => other@,
        },
{
    match s {
        Some(t) => t,
        None => other.to_string(),
    }
}

/// The tokens that a message of a bridge tells.
pub fn usage_event(session_id: SessionId, value: &Json) -> (r: SessionEvent)
    ensures
        r@ == usage_told(session_id, value@),
{
    SessionEvent::Usage {
        session_id,
        input_tokens: value.get_u64("input_tokens"),
        output_tokens: value.get_u64("output_tokens"),
        cache_read_tokens: value.get_u64("cache_read_tokens"),
        total_cost_usd: value.get_number("total_cost_usd"),
    }
}

/// The name under which the bridge knows what a message is about.
pub open spec fn bridge_id(v: JsonView) -> Seq<char> {
    match json::text_field(v, "id"@) {
        Some(id) => id,
        None => seq![],
    }
}

/// The name under which the bridge knows what a message is about.
pub fn read_bridge_id(value: &Json) -> (r: String)
    ensures
        r@ == bridge_id(value@),
{
    match value.get_string("id") {
        Some(id) => id,
        None => String::new(),
    }
}

/// The name of a tool in a message.
pub open spec fn told_name(v: JsonView, key: Seq<char>) -> Seq<char> {
    match json::text_field(v, key) {
        Some(n) => n,
        None => "tool"@,
    }
}

/// The message that tells a bridge a tool's result.
pub open spec fn result_json(id: Seq<char>, output: Seq<char>, is_error: bool) -> JsonView {
    json::empty_object()
        .with("type"@, JsonView::Text("tool_result"@))
        .with("id"@, JsonView::Text(id))
        .with("output"@, JsonView::Text(output))
        .with("is_error"@, JsonView::Bool(is_error))
}

/// A list of one event.
pub fn one_event(event: SessionEvent) -> (r: Vec<SessionEvent>)
    ensures
        events::event_views(r@) == seq![event@],
{
    let mut r = events::no_events();
    let ghost added = event@;
    events::emit(&mut r, event);
    assert(events::event_views(r@) =~= seq![added]);
    r
}

/// The message that tells a bridge a tool's result.
pub fn tool_result_json(id: &str, output: &str, is_error: bool) -> (r: Json)
    ensures
        r@ == result_json(id@, output@, is_error),
{
    Json::object()
        .with("type", Json::text("tool_result"))
        .with("id", Json::text(id))
        .with("output", Json::text(output))
        .with("is_error", Json::Bool(is_error))
}

// ---------------------------------------------------------------------------
// Steps
// ---------------------------------------------------------------------------

/// What has to be done next with a bridge.
#[derive(Debug)]
pub enum BridgeAction {
    /// Start it, and send it a message.
    Start(Json),
    /// Send it a message.
    Send(Json),
    /// Wait for its next line, or for what else may happen.
    Wait,
    /// Nothing: the turn has ended with an error.
    Fail(String),
    /// Nothing: the turn has ended.
    Finished,
}

/// The content of a `BridgeAction`.
pub enum BridgeActionView {
    Start(JsonView),
    Send(JsonView),
    Wait,
    Fail(Seq<char>),
    Finished,
}

impl View for BridgeAction {
    type V = BridgeActionView;

    open spec fn view(&self) -> BridgeActionView {
        match self {
            BridgeAction::Start(value) => BridgeActionView::Start(value@),
            BridgeAction::Send(value) => BridgeActionView::Send(value@),
            BridgeAction::Wait => BridgeActionView::Wait,
            BridgeAction::Fail(error) => BridgeActionView::Fail(error@),
            BridgeAction::Finished => BridgeActionView::Finished,
        }
    }
}

/// What has to be done after a step of a turn: the bridge is cancelled first, where that
/// is said, then the events are told, then comes the action.
#[derive(Debug)]
pub struct BridgeStep {
    pub cancel: bool,
    pub events: Vec<SessionEvent>,
    pub action: BridgeAction,
}

/// What came of sending a message to a bridge.
#[derive(Debug)]
pub enum SendOutcome {
    Sent,
    NotStarted(String),
    Failed(String),
    TimedOut,
}

/// The content of a `SendOutcome`.
pub enum SendView {
    Sent,
    NotStarted(Seq<char>),
    Failed(Seq<char>),
    TimedOut,
}

impl View for SendOutcome {
    type V = SendView;

    open spec fn view(&self) -> SendView {
        match self {
            SendOutcome::Sent => SendView::Sent,
            SendOutcome::NotStarted(error) => SendView::NotStarted(error@),
            SendOutcome::Failed(error) => SendView::Failed(error@),
            SendOutcome::TimedOut => SendView::TimedOut,
        }
    }
}

// ---------------------------------------------------------------------------
// Pending calls
// ---------------------------------------------------------------------------

/// The names under which a bridge knows what it waits for, by the ids under which it was
/// told.
#[derive(Debug)]
pub struct PendingIds {
    entries: HashMap<u128, String>,
}

impl View for PendingIds {
    type V = Map<u128, Seq<char>>;

    closed spec fn view(&self) -> Map<u128, Seq<char>> {
        self.entries@.map_values(|s: String| s@)
    }
}

/// The value of an id, if it has one.
pub open spec fn name_of(m: Map<u128, Seq<char>>, id: u128) -> Option<Seq<char>> {
    if m.dom().contains(id) {
        Some(m[id])
    } else {
        None
    }
}

impl PendingIds {
    pub fn new() -> (r: PendingIds)
        ensures
            r@ == Map::<u128, Seq<char>>::empty(),
    {
        broadcast use vstd::std_specs::hash::group_hash_axioms;

        let r = PendingIds { entries: HashMap::new() };
        assert(r@ =~= Map::<u128, Seq<char>>::empty());
        r
    }

    /// Notes the name that belongs to an id.
    pub fn insert(&mut self, id: u128, name: String)
        ensures
            final(self)@ == old(self)@.insert(id, name@),
    {
        broadcast use vstd::std_specs::hash::group_hash_axioms;

        self.entries.insert(id, name);
        assert(self@ =~= old(self)@.insert(id, name@));
    }

    /// Takes the name out that belongs to an id.
    pub fn remove(&mut self, id: u128) -> (r: Option<String>)
        ensures
            text::opt(r) == name_of(old(self)@, id),
            final(self)@ == old(self)@.remove(id),
    {
        broadcast use vstd::std_specs::hash::group_hash_axioms;

        let r = self.entries.remove(&id);
        assert(self@ =~= old(self)@.remove(id));
        r
    }

    /// How many names there are.
    pub fn len(&self) -> (n: usize)
        ensures
            n == self@.len(),
    {
        broadcast use vstd::std_specs::hash::group_hash_axioms;

        assert(self@.dom() =~= self.entries@.dom());
        self.entries.len()
    }
}

/// The ids under which tool calls were told, by the names under which a bridge knows them.
#[derive(Debug)]
pub struct CallIds {
    entries: Vec<(String, u128)>,
}

closed spec fn entry_map(entries: Seq<(String, u128)>) -> Map<Seq<char>, u128>
    decreases entries.len(),
{
    if entries.len() == 0 {
        Map::empty()
    } else {
        entry_map(entries.drop_last()).insert(entries.last().0@, entries.last().1)
    }
}

impl View for CallIds {
    type V = Map<Seq<char>, u128>;

    closed spec fn view(&self) -> Map<Seq<char>, u128> {
        entry_map(self.entries@)
    }
}

/// The id of a name, if it has one.
pub open spec fn id_of(m: Map<Seq<char>, u128>, name: Seq<char>) -> Option<u128> {
    if m.dom().contains(name) {
        Some(m[name])
    } else {
        None
    }
}

impl CallIds {
    pub fn new() -> (r: CallIds)
        ensures
            r@ == Map::<Seq<char>, u128>::empty(),
    {
        CallIds { entries: Vec::new() }
    }

    /// Notes the id that belongs to a name.
    pub fn insert(&mut self, name: &str, id: u128)
        ensures
            final(self)@ == old(self)@.insert(name@, id),
    {
        let ghost before = self.entries@;
        self.entries.push((name.to_string(), id));
        assert(self.entries@.drop_last() =~= before);
    }

    /// Takes the id out that belongs to a name.
    pub fn remove(&mut self, name: &str) -> (r: Option<u128>)
        ensures
            r == id_of(old(self)@, name@),
            final(self)@ == old(self)@.remove(name@),
    {
        let ghost all = self.entries@;
        let mut kept: Vec<(String, u128)> = Vec::new();
        let mut found: Option<u128> = None;
        let mut i: usize = 0;
        assert(all.take(0) =~= seq![]);
        assert(entry_map(kept@) =~= entry_map(all.take(0)).remove(name@));
        while i < self.entries.len()
            invariant
                i <= all.len(),
                all == self.entries@,
                all == old(self).entries@,
                found == id_of(entry_map(all.take(i as int)), name@),
                entry_map(kept@) == entry_map(all.take(i as int)).remove(name@),
            decreases all.len() - i,
        {
            assert(all.take(i + 1).drop_last() =~= all.take(i as int));
            assert(all.take(i + 1).last() == all[i as int]);
            if text::same(self.entries[i].0.as_str(), name) {
                found = Some(self.entries[i].1);
            } else {
                let ghost before = kept@;
                kept.push((self.entries[i].0.clone(), self.entries[i].1));
                assert(kept@.drop_last() =~= before);
            }
            i += 1;
            assert(entry_map(kept@) =~= entry_map(all.take(i as int)).remove(name@));
        }
        assert(all.take(i as int) =~= all);
        self.entries = kept;
        found
    }

    /// Whether there is no name.
    pub fn is_empty(&self) -> (r: bool)
        ensures
            r == (self@ =~= Map::<Seq<char>, u128>::empty()),
    {
        proof {
            if self.entries@.len() > 0 {
                let e = self.entries@.last();
                assert(self@.dom().contains(e.0@));
            }
        }
        self.entries.len() == 0
    }
}

// ---------------------------------------------------------------------------
// What a bridge is told
// ---------------------------------------------------------------------------

proof fn lemma_allowed(tools: Seq<ToolName>, allowed: Seq<Seq<char>>, t: ToolName)
    ensures
        allowed_tools(tools, allowed).contains(t) <==> tools.contains(t) && allowed.contains(
            names::tool_name(t),
        ),
    decreases tools.len(),
{
    if tools.len() > 0 {
        let front = tools.drop_last();
        let before = allowed_tools(front, allowed);
        let all = allowed_tools(tools, allowed);
        lemma_allowed(front, allowed, t);
        if before.contains(t) {
            let i = choose|i: int| 0 <= i < before.len() && before[i] == t;
            assert(all[i] == t);
        }
        if tools.contains(t) {
            let i = choose|i: int| 0 <= i < tools.len() && tools[i] == t;
            if i < front.len() {
                assert(front[i] == t);
            } else if allowed.contains(names::tool_name(t)) {
                assert(all[before.len() as int] == t);
            }
        }
        if all.contains(t) {
            let i = choose|i: int| 0 <= i < all.len() && all[i] == t;
            if i < before.len() {
                assert(before[i] == t);
                let k = choose|k: int| 0 <= k < front.len() && front[k] == t;
                assert(tools[k] == t);
            } else {
                assert(tools[tools.len() - 1] == t);
            }
        }
    }
}

/// A tool is offered exactly when its name is allowed, with its name, its description, its
/// schema and whether it only reads.
pub proof fn allowed_tools_are_offered(allowed: Seq<Seq<char>>, t: ToolName)
    ensures
        allowed_tools(names::all_tools(), allowed).contains(t) <==> names::all_tools().contains(t)
            && allowed.contains(names::tool_name(t)),
        ({
            let v = definition_json(t);
            &&& json::text_field(v, "name"@) == Some(names::tool_name(t))
            &&& json::text_field(v, "description"@) == Some(names::tool_description(t))
            &&& json::field(v, "input_schema"@) == Some(names::tool_schema(t))
            &&& json::bool_field(v, "read_only"@) == Some(names::tool_reads_only(t))
        }),
{
    lemma_allowed(names::all_tools(), allowed, t);
    reveal_strlit("name");
    reveal_strlit("description");
    reveal_strlit("input_schema");
    reveal_strlit("read_only");
    assert("name"@.len() == 4 && "description"@.len() == 11 && "input_schema"@.len() == 12
        && "read_only"@.len() == 9);
}

/// A line names a command and its arguments by its words; without a word it is `node`.
pub proof fn a_line_is_a_command_and_its_arguments(
    command: Seq<char>,
    c: char,
    rest: Seq<char>,
)
    requires
        command.len() > 0,
        text::free_of(command, text::CharClass::Space),
        text::is_space(c),
    ensures
        command_of(command.push(c) + rest) == (CommandView {
            command,
            args: text::words(rest),
        }),
        command_of(seq![]) == (CommandView { command: "node"@, args: seq![] }),
{
    text::words_come_apart(command, c, rest);
    text::a_text_without_spaces_is_one_word(command);
    text::a_text_without_spaces_is_one_word(seq![]);
    let ws = text::words(command.push(c) + rest);
    assert(ws =~= seq![command] + text::words(rest));
    assert(ws.skip(1) =~= text::words(rest));
}

/// Why a bridge has stopped is told by how it ended and, where it wrote any, by its errors.
pub proof fn an_end_is_told_with_its_errors(exit: BridgeExit, code: i32, stderr: Seq<char>)
    ensures
        diagnostics(BridgeExit::Code(code), seq![]) == " (exit code "@ + text::signed_decimal(
            code as int,
        ) + ")"@,
        diagnostics(BridgeExit::Signal, seq![]) == " (terminated by signal)"@,
        text::trimmed(stderr).len() > 0 ==> text::trimmed(stderr).is_suffix_of(
            diagnostics(exit, stderr),
        ),
{
    reveal_strlit(" (");
    reveal_strlit(")");
    reveal_strlit("exit code ");
    reveal_strlit(" (exit code ");
    reveal_strlit("terminated by signal");
    reveal_strlit(" (terminated by signal)");
    let none = Seq::<char>::empty();
    assert(text::trimmed(none).len() == 0);
    assert(" ("@ + ("exit code "@ + text::signed_decimal(code as int)) + ")"@ =~= " (exit code "@
        + text::signed_decimal(code as int) + ")"@);
    assert(" ("@ + "terminated by signal"@ + ")"@ =~= " (terminated by signal)"@);
}

/// What is kept of the errors of a bridge is the end of them, and all of them where they
/// take no more than four thousand and ninety-six bytes.
pub proof fn the_last_errors_are_kept(s: Seq<char>)
    ensures
        recent(s).is_suffix_of(s),
        text::byte_len(s) <= 4096 ==> recent(s) == s,
{
    if text::byte_len(s) > MAX_BRIDGE_STDERR {
        let n = text::cap_len(s, (text::byte_len(s) - MAX_BRIDGE_STDERR) as nat);
        text::lemma_cap_len_bound(s, (text::byte_len(s) - MAX_BRIDGE_STDERR) as nat);
        assert(s.skip(n) =~= recent(s));
    }
}

/// A script of the program's own is run by the runtime from its directory.
pub proof fn scripts_are_run_from_their_directory(dir: Seq<char>, script: Seq<char>)
    ensures
        script_command(dir, script).command == "node"@,
        script_command(dir, script).args == seq![paths::joined(dir, script)],
{
}

} // verus!
