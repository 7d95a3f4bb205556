//! Shell commands: what a run of one gives back, and the commands that go on in the
//! background after a checkpoint.
use vstd::prelude::*;

use crate::json;
use crate::json::{Json, JsonView};
use crate::text;
use crate::tools::error;
use crate::tools::error::{ToolError, ToolErrorView};
use crate::tools::names;
use crate::tools::names::ToolName;
use crate::tools::result;
use crate::tools::result::{ToolResult, ToolResultView};

verus! {

// ---------------------------------------------------------------------------
// Background commands
// ---------------------------------------------------------------------------

/// How far a background command has got.
#[derive(Debug, Clone, Copy, PartialEq, Eq, Structural)]
pub enum BackgroundCommandStatus {
    Running,
    Completed { exit_code: Option<i32> },
    Killed { exit_code: Option<i32> },
}

/// A command that went on after a checkpoint.
#[derive(Debug)]
pub struct BackgroundCommand {
    pub id: String,
    pub command: String,
    pub status: BackgroundCommandStatus,
}

/// The content of a `BackgroundCommand`.
pub struct BackgroundView {
    pub id: Seq<char>,
    pub command: Seq<char>,
    pub status: BackgroundCommandStatus,
}

impl View for BackgroundCommand {
    type V = BackgroundView;

    open spec fn view(&self) -> BackgroundView {
        BackgroundView { id: self.id@, command: self.command@, status: self.status }
    }
}

impl BackgroundCommand {
    pub fn copy(&self) -> (r: BackgroundCommand)
        ensures
            r@ == self@,
    {
        BackgroundCommand {
            id: self.id.clone(),
            command: self.command.clone(),
            status: self.status,
        }
    }
}

/// The background commands by their ids, and the number of the next id.
#[derive(Debug)]
pub struct CommandRegistry {
    commands: Vec<BackgroundCommand>,
    counter: u64,
}

/// The content of a `CommandRegistry`.
pub struct RegistryView {
    pub commands: Map<Seq<char>, BackgroundView>,
    pub counter: u64,
}

pub closed spec fn command_map(commands: Seq<BackgroundCommand>) -> Map<Seq<char>, BackgroundView>
    decreases commands.len(),
{
    if commands.len() == 0 {
        Map::empty()
    } else {
        command_map(commands.drop_last()).insert(commands.last().id@, commands.last()@)
    }
}

impl View for CommandRegistry {
    type V = RegistryView;

    closed spec fn view(&self) -> RegistryView {
        RegistryView { commands: command_map(self.commands@), counter: self.counter }
    }
}

/// The id of the background command with the given number.
pub open spec fn command_id(n: nat) -> Seq<char> {
    "bash-"@ + text::decimal(n)
}

/// The number behind `n`; behind the greatest one they start anew.
pub open spec fn next_number(n: u64) -> u64 {
    if n == u64::MAX {
        0
    } else {
        (n + 1) as u64
    }
}

/// The registry after the command has been entered as running, under the next id.
pub open spec fn entered(registry: RegistryView, command: Seq<char>) -> RegistryView {
    let id = command_id(registry.counter as nat);
    RegistryView {
        commands: registry.commands.insert(
            id,
            BackgroundView { id, command, status: BackgroundCommandStatus::Running },
        ),
        counter: next_number(registry.counter),
    }
}

/// The registry without the command of the given id.
pub open spec fn removed(registry: RegistryView, id: Seq<char>) -> RegistryView {
    RegistryView { commands: registry.commands.remove(id), ..registry }
}

/// The registry with another status of the command of the given id, if it is there.
pub open spec fn with_status(
    registry: RegistryView,
    id: Seq<char>,
    status: BackgroundCommandStatus,
) -> RegistryView {
    if registry.commands.dom().contains(id) {
        RegistryView {
            commands: registry.commands.insert(
                id,
                BackgroundView { status, ..registry.commands[id] },
            ),
            ..registry
        }
    } else {
        registry
    }
}

proof fn lemma_map_of(commands: Seq<BackgroundCommand>, i: int)
    requires
        0 <= i < commands.len(),
        forall|j: int| i < j < commands.len() ==> (#[trigger] commands[j]).id@ != commands[i].id@,
    ensures
        command_map(commands).dom().contains(commands[i].id@),
        command_map(commands)[commands[i].id@] == commands[i]@,
    decreases commands.len(),
{
    if i < commands.len() - 1 {
        assert(commands[commands.len() - 1].id@ != commands[i].id@);
        lemma_map_of(commands.drop_last(), i);
    }
}

proof fn lemma_not_in_map(commands: Seq<BackgroundCommand>, id: Seq<char>)
    requires
        forall|j: int| 0 <= j < commands.len() ==> (#[trigger] commands[j]).id@ != id,
    ensures
        !command_map(commands).dom().contains(id),
    decreases commands.len(),
{
    if commands.len() > 0 {
        assert(commands[commands.len() - 1].id@ != id);
        lemma_not_in_map(commands.drop_last(), id);
    }
}

impl CommandRegistry {
    /// The registry without commands.
    pub fn new() -> (r: CommandRegistry)
        ensures
            r@ == (RegistryView { commands: Map::empty(), counter: 1 }),
    {
        CommandRegistry { commands: Vec::new(), counter: 1 }
    }

    /// The command of the given id.
    pub fn background_command(&self, id: &str) -> (r: Result<BackgroundCommand, ToolError>)
        ensures
            match r {
                Ok(c) => self@.commands.dom().contains(id@) && c@ == self@.commands[id@],
                Err(e) => !self@.commands.dom().contains(id@) && e@
                    == (ToolErrorView::UnknownBackgroundCommand { command_id: id@ }),
            },
    {
        let mut i: usize = self.commands.len();
        while i > 0
            invariant
                i <= self.commands@.len(),
                forall|j: int|
                    i <= j < self.commands@.len() ==> (#[trigger] self.commands@[j]).id@ != id@,
            decreases i,
        {
            i -= 1;
            if text::same(self.commands[i].id.as_str(), id) {
                proof {
                    lemma_map_of(self.commands@, i as int);
                }
                return Ok(self.commands[i].copy());
            }
        }
        proof {
            lemma_not_in_map(self.commands@, id@);
        }
        Err(ToolError::UnknownBackgroundCommand { command_id: id.to_string() })
    }

    fn next_background_command_id(&mut self) -> (r: String)
        ensures
            r@ == command_id(old(self)@.counter as nat),
            final(self)@ == (RegistryView {
                counter: next_number(old(self)@.counter),
                ..old(self)@
            }),
    {
        let n: u64 = self.counter;
        self.counter = n.wrapping_add(1);
        text::cat2("bash-", text::decimal_text(n).as_str())
    }

    fn store_background_command(&mut self, command: BackgroundCommand)
        ensures
            final(self)@ == (RegistryView {
                commands: old(self)@.commands.insert(command@.id, command@),
                ..old(self)@
            }),
    {
        let ghost before = self.commands@;
        self.commands.push(command);
        assert(self.commands@.drop_last() =~= before);
    }

    /// Enters a command as running, and returns its id.
    pub fn enter(&mut self, command: &str) -> (id: String)
        ensures
            id@ == command_id(old(self)@.counter as nat),
            final(self)@ == entered(old(self)@, command@),
    {
        let id = self.next_background_command_id();
        self.store_background_command(
            BackgroundCommand {
                id: id.clone(),
                command: command.to_string(),
                status: BackgroundCommandStatus::Running,
            },
        );
        id
    }

    /// Takes the command of the given id out.
    pub fn remove_background_command(&mut self, id: &str)
        ensures
            final(self)@ == removed(old(self)@, id@),
    {
        let ghost before = self.commands@;
        let mut kept: Vec<BackgroundCommand> = Vec::new();
        let mut i: usize = 0;
        assert(before.take(0) =~= seq![]);
        assert(command_map(kept@) =~= command_map(before.take(0)).remove(id@));
        while i < self.commands.len()
            invariant
                i <= before.len(),
                self.commands@ == before,
                self.counter == old(self).counter,
                before == old(self).commands@,
                command_map(kept@) == command_map(before.take(i as int)).remove(id@),
            decreases before.len() - i,
        {
            assert(before.take(i + 1).drop_last() =~= before.take(i as int));
            if !text::same(self.commands[i].id.as_str(), id) {
                let ghost kept_before = kept@;
                kept.push(self.commands[i].copy());
                assert(kept@.drop_last() =~= kept_before);
            }
            i += 1;
            assert(command_map(kept@) =~= command_map(before.take(i as int)).remove(id@));
        }
        assert(before.take(i as int) =~= before);
        self.commands = kept;
    }

    /// Notes how far the command of the given id has got.
    pub fn set_status(&mut self, id: &str, status: BackgroundCommandStatus)
        ensures
            final(self)@ == with_status(old(self)@, id@, status),
    {
        let ghost before = self.commands@;
        let mut i: usize = self.commands.len();
        while i > 0
            invariant
                i <= self.commands@.len(),
                self.commands@ == before,
                *self == *old(self),
                forall|j: int|
                    i <= j < self.commands@.len() ==> (#[trigger] self.commands@[j]).id@ != id@,
            decreases i,
        {
            i -= 1;
            if text::same(self.commands[i].id.as_str(), id) {
                let command = BackgroundCommand {
                    id: id.to_string(),
                    command: self.commands[i].command.clone(),
                    status,
                };
                proof {
                    lemma_map_of(before, i as int);
                    lemma_replaced(before, i as int, command);
                }
                self.commands.set(i, command);
                return;
            }
        }
        proof {
            lemma_not_in_map(before, id@);
        }
    }
}

proof fn lemma_ids(commands: Seq<BackgroundCommand>, id: Seq<char>)
    ensures
        command_map(commands).dom().contains(id) ==> command_map(commands)[id].id == id,
    decreases commands.len(),
{
    if commands.len() > 0 {
        lemma_ids(commands.drop_last(), id);
    }
}

proof fn lemma_replaced(commands: Seq<BackgroundCommand>, i: int, command: BackgroundCommand)
    requires
        0 <= i < commands.len(),
        command.id@ == commands[i].id@,
        forall|j: int| i < j < commands.len() ==> (#[trigger] commands[j]).id@ != command.id@,
    ensures
        command_map(commands.update(i, command)) == command_map(commands).insert(
            command.id@,
            command@,
        ),
    decreases commands.len(),
{
    let after = commands.update(i, command);
    let last = commands.len() - 1;
    if i == last {
        assert(after.drop_last() =~= commands.drop_last());
    } else {
        lemma_replaced(commands.drop_last(), i, command);
        assert(after.drop_last() =~= commands.drop_last().update(i, command));
        assert(commands[last].id@ != command.id@);
    }
    assert(command_map(after) =~= command_map(commands).insert(command.id@, command@));
}

// ---------------------------------------------------------------------------
// Fresh ids
// ---------------------------------------------------------------------------

/// Whether every id in the registry was given out before the next one.
pub open spec fn ids_given_out(registry: RegistryView) -> bool {
    forall|id: Seq<char>| #[trigger]
        registry.commands.dom().contains(id) ==> exists|n: nat|
            n < registry.counter && id == #[trigger] command_id(n)
}

proof fn lemma_decimal_injective(a: nat, b: nat)
    requires
        text::decimal(a) == text::decimal(b),
    ensures
        a == b,
    decreases a,
{
    let x = text::decimal(a);
    let y = text::decimal(b);
    lemma_decimal_nonempty(a / 10);
    lemma_decimal_nonempty(b / 10);
    assert(x.last() == y.last());
    if a >= 10 {
        assert(x == text::decimal(a / 10).push(text::digit_char(a % 10)));
        assert(x.last() == text::digit_char(a % 10));
    } else {
        assert(x == seq![text::digit_char(a)]);
    }
    if b >= 10 {
        assert(y == text::decimal(b / 10).push(text::digit_char(b % 10)));
        assert(y.last() == text::digit_char(b % 10));
    } else {
        assert(y == seq![text::digit_char(b)]);
    }
    if a >= 10 && b >= 10 {
        assert(x.drop_last() =~= text::decimal(a / 10));
        assert(y.drop_last() =~= text::decimal(b / 10));
        lemma_decimal_injective(a / 10, b / 10);
        assert(text::digit_char(a % 10) == text::digit_char(b % 10));
        assert(a % 10 == b % 10);
    } else if a < 10 && b < 10 {
        assert(x[0] == text::digit_char(a));
        assert(y[0] == text::digit_char(b));
    } else {
        assert(x.len() == y.len());
    }
}

proof fn lemma_decimal_nonempty(n: nat)
    ensures
        text::decimal(n).len() > 0,
{
}

/// No two numbers give the same id.
pub proof fn command_ids_are_distinct(a: nat, b: nat)
    requires
        command_id(a) == command_id(b),
    ensures
        a == b,
{
    let prefix = "bash-"@;
    assert(text::decimal(a) =~= command_id(a).skip(prefix.len() as int));
    assert(text::decimal(b) =~= command_id(b).skip(prefix.len() as int));
    lemma_decimal_injective(a, b);
}

/// As long as the numbers last, a command is entered under an id that no other command
/// has, and every id in the registry stays one that was given out.
pub proof fn entered_ids_are_fresh(registry: RegistryView, command: Seq<char>)
    requires
        ids_given_out(registry),
        registry.counter < u64::MAX,
    ensures
        !registry.commands.dom().contains(command_id(registry.counter as nat)),
        ids_given_out(entered(registry, command)),
{
    let id = command_id(registry.counter as nat);
    if registry.commands.dom().contains(id) {
        let n = choose|n: nat| n < registry.counter && id == #[trigger] command_id(n);
        command_ids_are_distinct(n, registry.counter as nat);
    }
    let after = entered(registry, command);
    assert forall|x: Seq<char>| #[trigger] after.commands.dom().contains(x) implies exists|n: nat|
        n < after.counter && x == #[trigger] command_id(n) by {
        if x == id {
            assert(x == command_id(registry.counter as nat));
        } else {
            assert(registry.commands.dom().contains(x));
            let n = choose|n: nat| n < registry.counter && x == #[trigger] command_id(n);
            assert(x == command_id(n));
        }
    }
}

/// A new registry has given out no id, and taking commands out or noting their status
/// keeps every id one that was given out.
pub proof fn given_out_ids_are_kept(
    registry: RegistryView,
    id: Seq<char>,
    status: BackgroundCommandStatus,
)
    requires
        ids_given_out(registry),
    ensures
        ids_given_out(RegistryView { commands: Map::empty(), counter: 1 }),
        ids_given_out(removed(registry, id)),
        ids_given_out(with_status(registry, id, status)),
{
    let a = removed(registry, id);
    assert forall|x: Seq<char>| #[trigger] a.commands.dom().contains(x) implies exists|n: nat|
        n < a.counter && x == #[trigger] command_id(n) by {
        assert(registry.commands.dom().contains(x));
    }
    let b = with_status(registry, id, status);
    assert forall|x: Seq<char>| #[trigger] b.commands.dom().contains(x) implies exists|n: nat|
        n < b.counter && x == #[trigger] command_id(n) by {
        assert(registry.commands.dom().contains(x));
    }
}

// ---------------------------------------------------------------------------
// Running a command
// ---------------------------------------------------------------------------

/// What a command has written, first to its standard output and then to its standard
/// error.
pub open spec fn combined(stdout: Seq<char>, stderr: Seq<char>) -> Seq<char> {
    stdout + stderr
}

/// What a command has written, read leniently as UTF-8.
pub fn combined_output(stdout: &[u8], stderr: &[u8]) -> (r: String)
    ensures
        r@ == combined(text::lossy_text(stdout@), text::lossy_text(stderr@)),
{
    let out = text::lossy_of(stdout);
    let err = text::lossy_of(stderr);
    text::cat2(out.as_str(), err.as_str())
}

/// The result of a command that ran to its end and wrote the given output. The output is
/// cut before the result is made, so that the result never says that it was.
pub open spec fn bash_result(
    command: Seq<char>,
    output: Seq<char>,
    exit_code: Option<i32>,
    limit: nat,
) -> ToolResultView {
    ToolResultView {
        name: ToolName::Bash,
        title: names::tool_title(ToolName::Bash),
        metadata: json::empty_object().with("command"@, JsonView::Text(command)),
        output: text::capped(output, limit),
        exit_code,
        truncated: false,
    }
}

/// The result of a command that ran to its end and wrote the given output.
pub fn bash(command: &str, output: String, exit_code: Option<i32>, limit: usize) -> (r: ToolResult)
    ensures
        r@ == bash_result(command@, output@, exit_code, limit as nat),
{
    let ghost whole = output@;
    let capped = result::cap_output(output, limit);
    proof {
        result::capping_keeps_the_longest_prefix(whole, limit as nat);
        result::capping_keeps_the_longest_prefix(text::capped(whole, limit as nat), limit as nat);
    }
    ToolResult {
        name: ToolName::Bash,
        title: ToolName::Bash.title().to_string(),
        metadata: Json::object().with("command", Json::text(command)),
        output: capped.text,
        exit_code,
        truncated: false,
    }.with_output_cap(limit)
}

/// How the wait for a command ended.
#[derive(Debug)]
pub enum BashOutcome {
    /// The program could not be started, or not be waited for.
    Failed { source: String },
    Completed { exit_code: Option<i32> },
    Cancelled,
    /// The checkpoint came first.
    Checkpoint,
}

/// The content of a `BashOutcome`.
pub enum BashOutcomeView {
    Failed { source: Seq<char> },
    Completed { exit_code: Option<i32> },
    Cancelled,
    Checkpoint,
}

impl View for BashOutcome {
    type V = BashOutcomeView;

    open spec fn view(&self) -> BashOutcomeView {
        match self {
            BashOutcome::Failed { source } => BashOutcomeView::Failed { source: source@ },
            BashOutcome::Completed { exit_code } => BashOutcomeView::Completed {
                exit_code: *exit_code,
            },
            BashOutcome::Cancelled => BashOutcomeView::Cancelled,
            BashOutcome::Checkpoint => BashOutcomeView::Checkpoint,
        }
    }
}

/// What a run of a command gives back: its result, or why there is none. At a checkpoint
/// the command goes on under an id.
pub open spec fn bash_ended(
    command: Seq<char>,
    outcome: BashOutcomeView,
    id: Seq<char>,
    checkpoint_secs: nat,
    output: Seq<char>,
    limit: nat,
) -> Result<ToolResultView, ToolErrorView> {
    match outcome {
        BashOutcomeView::Failed { source } => Err(
            ToolErrorView::CommandSpawnFailed { command, source },
        ),
        BashOutcomeView::Completed { exit_code } => Ok(
            bash_result(command, output, exit_code, limit),
        ),
        BashOutcomeView::Cancelled => Err(ToolErrorView::CommandCancelled { command }),
        BashOutcomeView::Checkpoint => Err(
            ToolErrorView::CommandCheckpoint {
                command_id: id,
                command,
                elapsed_secs: checkpoint_secs,
                output: text::capped(output, limit),
            },
        ),
    }
}

pub open spec fn secs_or_zero(secs: Option<u64>) -> nat {
    match secs {
        Some(n) => n as nat,
        None => 0,
    }
}

/// What a run of a command gives back, given how the wait for it ended and what it has
/// written so far. The command is entered in the registry at a checkpoint, and only then.
pub fn bash_cancellable_until(
    registry: &mut CommandRegistry,
    command: &str,
    checkpoint_after_secs: Option<u64>,
    outcome: BashOutcome,
    output: String,
    limit: usize,
) -> (r: Result<ToolResult, ToolError>)
    ensures
        final(registry)@ == (if outcome@ is Checkpoint {
            entered(old(registry)@, command@)
        } else {
            old(registry)@
        }),
        match r {
            Ok(result) => bash_ended(
                command@,
                outcome@,
                command_id(old(registry)@.counter as nat),
                secs_or_zero(checkpoint_after_secs),
                output@,
                limit as nat,
            ) == Ok::<ToolResultView, ToolErrorView>(result@),
            Err(e) => bash_ended(
                command@,
                outcome@,
                command_id(old(registry)@.counter as nat),
                secs_or_zero(checkpoint_after_secs),
                output@,
                limit as nat,
            ) == Err::<ToolResultView, ToolErrorView>(e@),
        },
{
    match outcome {
        BashOutcome::Failed { source } => Err(
            ToolError::CommandSpawnFailed { command: command.to_string(), source },
        ),
        BashOutcome::Completed { exit_code } => Ok(bash(command, output, exit_code, limit)),
        BashOutcome::Cancelled => Err(ToolError::CommandCancelled { command: command.to_string() }),
        BashOutcome::Checkpoint => {
            let command_id = registry.enter(command);
            let elapsed_secs: u64 = match checkpoint_after_secs {
                Some(n) => n,
                None => 0,
            };
            let capped = result::cap_output(output, limit);
            Err(
                ToolError::CommandCheckpoint {
                    command_id,
                    command: command.to_string(),
                    elapsed_secs,
                    output: capped.text,
                },
            )
        },
    }
}

/// The result of a background command that has ended.
pub open spec fn finished_result(
    handle: BackgroundView,
    status: Seq<char>,
    exit_code: Option<i32>,
    name: ToolName,
    elapsed_secs: nat,
    output: Seq<char>,
    limit: nat,
) -> ToolResultView {
    let shown = text::capped(output, limit);
    result::output_capped(
        ToolResultView {
            name,
            title: names::tool_title(name),
            metadata: json::empty_object()
                .with("command_id"@, JsonView::Text(handle.id))
                .with("command"@, JsonView::Text(handle.command))
                .with("status"@, JsonView::Text(status))
                .with("elapsed_secs"@, JsonView::Unsigned(elapsed_secs)),
            output: "command_id "@ + handle.id + " "@ + status + ". Final output:\n"@ + (
            if shown.len() == 0 {
                "<no output>"@
            } else {
                shown
            }),
            exit_code,
            truncated: false,
        },
        limit,
    )
}

fn finished_background_result(
    handle: &BackgroundCommand,
    status: &str,
    exit_code: Option<i32>,
    name: ToolName,
    elapsed_secs: u64,
    output: String,
    limit: usize,
) -> (r: ToolResult)
    ensures
        r@ == finished_result(
            handle@,
            status@,
            exit_code,
            name,
            elapsed_secs as nat,
            output@,
            limit as nat,
        ),
{
    let capped = result::cap_output(output, limit);
    let shown = if text::is_blank_len(&capped.text) {
        "<no output>".to_string()
    } else {
        capped.text
    };
    let mut message = text::cat5(
        "command_id ",
        handle.id.as_str(),
        " ",
        status,
        ". Final output:\n",
    );
    message.push_str(shown.as_str());
    ToolResult {
        name,
        title: name.title().to_string(),
        metadata: Json::object()
            .with("command_id", Json::text(handle.id.as_str()))
            .with("command", Json::text(handle.command.as_str()))
            .with("status", Json::text(status))
            .with("elapsed_secs", Json::Unsigned(elapsed_secs)),
        output: message,
        exit_code,
        truncated: false,
    }.with_output_cap(limit)
}

/// The result of waiting for a command that goes on running.
pub open spec fn still_running(
    handle: BackgroundView,
    elapsed_secs: nat,
    timeout_secs: nat,
    output: Seq<char>,
    limit: nat,
) -> ToolResultView {
    result::output_capped(
        ToolResultView {
            name: ToolName::BashWait,
            title: names::tool_title(ToolName::BashWait),
            metadata: json::empty_object()
                .with("command_id"@, JsonView::Text(handle.id))
                .with("command"@, JsonView::Text(handle.command))
                .with("running"@, JsonView::Bool(true))
                .with("elapsed_secs"@, JsonView::Unsigned(elapsed_secs)),
            output: "command_id "@ + handle.id + " is still running after waiting "@
                + error::duration_text(timeout_secs)
                + ". The command is NOT killed. Call bash_wait again to keep waiting for final output, or bash_kill to stop it.\n"@
                + error::partial_output_text(text::capped(output, limit)),
            exit_code: None,
            truncated: false,
        },
        limit,
    )
}

/// The result of waiting for a command that has got as far as `handle` says.
pub open spec fn waited(
    handle: BackgroundView,
    elapsed_secs: nat,
    timeout_secs: nat,
    output: Seq<char>,
    limit: nat,
) -> ToolResultView {
    match handle.status {
        BackgroundCommandStatus::Running => still_running(
            handle,
            elapsed_secs,
            timeout_secs,
            output,
            limit,
        ),
        BackgroundCommandStatus::Completed { exit_code } => finished_result(
            handle,
            "completed"@,
            exit_code,
            ToolName::BashWait,
            elapsed_secs,
            output,
            limit,
        ),
        BackgroundCommandStatus::Killed { exit_code } => finished_result(
            handle,
            "killed"@,
            exit_code,
            ToolName::BashWait,
            elapsed_secs,
            output,
            limit,
        ),
    }
}

/// Whether a call has to wait for the command of the given id.
pub fn must_wait(registry: &CommandRegistry, id: &str) -> (r: Result<bool, ToolError>)
    ensures
        match r {
            Ok(wait) => registry@.commands.dom().contains(id@) && wait == (
            registry@.commands[id@].status == BackgroundCommandStatus::Running),
            Err(e) => !registry@.commands.dom().contains(id@) && e@
                == (ToolErrorView::UnknownBackgroundCommand { command_id: id@ }),
        },
{
    match registry.background_command(id) {
        Ok(handle) => Ok(handle.status == BackgroundCommandStatus::Running),
        Err(e) => Err(e),
    }
}

/// Ends a wait for the command of the given id, after `timeout_secs` at most. A command
/// that has ended leaves the registry; one that runs stays in it.
pub fn bash_wait(
    registry: &mut CommandRegistry,
    id: &str,
    elapsed_secs: u64,
    timeout_secs: u64,
    output: String,
    limit: usize,
) -> (r: Result<ToolResult, ToolError>)
    ensures
        match r {
            Ok(result) => old(registry)@.commands.dom().contains(id@) && result@ == waited(
                old(registry)@.commands[id@],
                elapsed_secs as nat,
                timeout_secs as nat,
                output@,
                limit as nat,
            ),
            Err(e) => !old(registry)@.commands.dom().contains(id@) && e@
                == (ToolErrorView::UnknownBackgroundCommand { command_id: id@ }),
        },
        final(registry)@ == (if old(registry)@.commands.dom().contains(id@) && old(
            registry,
        )@.commands[id@].status != BackgroundCommandStatus::Running {
            removed(old(registry)@, id@)
        } else {
            old(registry)@
        }),
{
    let handle = match registry.background_command(id) {
        Ok(handle) => handle,
        Err(e) => {
            return Err(e);
        },
    };
    proof {
        lemma_ids(registry.commands@, id@);
    }
    match handle.status {
        BackgroundCommandStatus::Running => {
            let capped = result::cap_output(output, limit);
            let waited_for = error::format_duration(timeout_secs);
            let partial = error::format_partial_output(capped.text.as_str());
            let mut message = text::cat5(
                "command_id ",
                id,
                " is still running after waiting ",
                waited_for.as_str(),
                ". The command is NOT killed. Call bash_wait again to keep waiting for final output, or bash_kill to stop it.\n",
            );
            message.push_str(partial.as_str());
            Ok(
                ToolResult {
                    name: ToolName::BashWait,
                    title: ToolName::BashWait.title().to_string(),
                    metadata: Json::object()
                        .with("command_id", Json::text(handle.id.as_str()))
                        .with("command", Json::text(handle.command.as_str()))
                        .with("running", Json::Bool(true))
                        .with("elapsed_secs", Json::Unsigned(elapsed_secs)),
                    output: message,
                    exit_code: None,
                    truncated: false,
                }.with_output_cap(limit),
            )
        },
        BackgroundCommandStatus::Completed { exit_code } => {
            registry.remove_background_command(id);
            Ok(
                finished_background_result(
                    &handle,
                    "completed",
                    exit_code,
                    ToolName::BashWait,
                    elapsed_secs,
                    output,
                    limit,
                ),
            )
        },
        BackgroundCommandStatus::Killed { exit_code } => {
            registry.remove_background_command(id);
            Ok(
                finished_background_result(
                    &handle,
                    "killed",
                    exit_code,
                    ToolName::BashWait,
                    elapsed_secs,
                    output,
                    limit,
                ),
            )
        },
    }
}

/// The result of stopping a command that has got as far as `handle` says.
pub open spec fn killed(
    handle: BackgroundView,
    elapsed_secs: nat,
    output: Seq<char>,
    limit: nat,
) -> Result<ToolResultView, ToolErrorView> {
    match handle.status {
        BackgroundCommandStatus::Running => Err(
            ToolErrorView::CommandKillTimedOut { command_id: handle.id },
        ),
        BackgroundCommandStatus::Completed { exit_code } => Ok(
            finished_result(
                handle,
                "completed before kill"@,
                exit_code,
                ToolName::BashKill,
                elapsed_secs,
                output,
                limit,
            ),
        ),
        BackgroundCommandStatus::Killed { exit_code } => Ok(
            finished_result(
                handle,
                "killed"@,
                exit_code,
                ToolName::BashKill,
                elapsed_secs,
                output,
                limit,
            ),
        ),
    }
}

/// Ends a call that stops the command of the given id. If the command's end was not
/// heard of in time it stays in the registry; otherwise it leaves it.
pub fn bash_kill(
    registry: &mut CommandRegistry,
    id: &str,
    timed_out: bool,
    elapsed_secs: u64,
    output: String,
    limit: usize,
) -> (r: Result<ToolResult, ToolError>)
    ensures
        match r {
            Ok(result) => old(registry)@.commands.dom().contains(id@) && !timed_out && killed(
                old(registry)@.commands[id@],
                elapsed_secs as nat,
                output@,
                limit as nat,
            ) == Ok::<ToolResultView, ToolErrorView>(result@),
            Err(e) => if !old(registry)@.commands.dom().contains(id@) {
                e@ == (ToolErrorView::UnknownBackgroundCommand { command_id: id@ })
            } else {
                &&& timed_out || old(registry)@.commands[id@].status
                    == BackgroundCommandStatus::Running
                &&& e@ == (ToolErrorView::CommandKillTimedOut { command_id: id@ })
            },
        },
        final(registry)@ == (if old(registry)@.commands.dom().contains(id@) && !timed_out {
            removed(old(registry)@, id@)
        } else {
            old(registry)@
        }),
{
    let handle = match registry.background_command(id) {
        Ok(handle) => handle,
        Err(e) => {
            return Err(e);
        },
    };
    proof {
        lemma_ids(registry.commands@, id@);
    }
    if timed_out {
        return Err(ToolError::CommandKillTimedOut { command_id: id.to_string() });
    }
    registry.remove_background_command(id);
    match handle.status {
        BackgroundCommandStatus::Running => Err(
            ToolError::CommandKillTimedOut { command_id: id.to_string() },
        ),
        BackgroundCommandStatus::Completed { exit_code } => Ok(
            finished_background_result(
                &handle,
                "completed before kill",
                exit_code,
                ToolName::BashKill,
                elapsed_secs,
                output,
                limit,
            ),
        ),
        BackgroundCommandStatus::Killed { exit_code } => Ok(
            finished_background_result(
                &handle,
                "killed",
                exit_code,
                ToolName::BashKill,
                elapsed_secs,
                output,
                limit,
            ),
        ),
    }
}

// ---------------------------------------------------------------------------
// What is known of a command, and what is told of it
// ---------------------------------------------------------------------------

/// A command that is entered runs under an id of its own, which is the word for shell
/// commands and a number, and the commands that were known stay as they are.
pub proof fn an_entered_command_runs(
    registry: RegistryView,
    command: Seq<char>,
    other: Seq<char>,
)
    requires
        other != "bash-"@ + text::decimal(registry.counter as nat),
    ensures
        ({
            let after = entered(registry, command);
            let id = "bash-"@ + text::decimal(registry.counter as nat);
            &&& after.commands.dom().contains(id)
            &&& after.commands[id] == (BackgroundView {
                id,
                command,
                status: BackgroundCommandStatus::Running,
            })
            &&& after.commands.dom().contains(other) == registry.commands.dom().contains(other)
            &&& registry.commands.dom().contains(other) ==> after.commands[other]
                == registry.commands[other]
            &&& registry.counter < u64::MAX ==> after.counter == registry.counter + 1
        }),
{
}

/// What becomes of a command changes its state and nothing else; a command that is taken out
/// is no longer known, and the others are.
pub proof fn what_becomes_of_a_command_is_noted(
    registry: RegistryView,
    id: Seq<char>,
    status: BackgroundCommandStatus,
    other: Seq<char>,
)
    requires
        other != id,
    ensures
        ({
            let after = with_status(registry, id, status);
            &&& after.commands.dom() == registry.commands.dom()
            &&& registry.commands.dom().contains(id) ==> after.commands[id] == (BackgroundView {
                id: registry.commands[id].id,
                command: registry.commands[id].command,
                status,
            })
            &&& registry.commands.dom().contains(other) ==> after.commands[other]
                == registry.commands[other]
            &&& after.counter == registry.counter
        }),
        ({
            let after = removed(registry, id);
            &&& !after.commands.dom().contains(id)
            &&& after.commands.dom().contains(other) == registry.commands.dom().contains(other)
            &&& registry.commands.dom().contains(other) ==> after.commands[other]
                == registry.commands[other]
            &&& after.counter == registry.counter
        }),
{
    let after = with_status(registry, id, status);
    assert(after.commands.dom() =~= registry.commands.dom());
}

/// What a shell command leads to: its output and its exit code when it has run, an error
/// that says why when it could not, that it was cancelled, or that it goes on, with what it
/// has written so far and the id under which it can be waited for.
pub proof fn what_a_command_leads_to(
    command: Seq<char>,
    id: Seq<char>,
    secs: nat,
    stdout: Seq<char>,
    stderr: Seq<char>,
    limit: nat,
    exit_code: Option<i32>,
    source: Seq<char>,
)
    requires
        text::byte_len(stdout + stderr) <= limit,
    ensures
        ({
            let output = combined(stdout, stderr);
            let done = bash_ended(
                command,
                BashOutcomeView::Completed { exit_code },
                id,
                secs,
                output,
                limit,
            );
            &&& output == stdout + stderr
            &&& done matches Ok(r) && r.output == stdout + stderr && r.exit_code == exit_code
                && r.name == ToolName::Bash && json::text_field(r.metadata, "command"@) == Some(
                command,
            )
            &&& bash_ended(
                command,
                BashOutcomeView::Failed { source },
                id,
                secs,
                output,
                limit,
            ) == Err::<ToolResultView, ToolErrorView>(
                ToolErrorView::CommandSpawnFailed { command, source },
            )
            &&& bash_ended(command, BashOutcomeView::Cancelled, id, secs, output, limit) == Err::<
                ToolResultView,
                ToolErrorView,
            >(ToolErrorView::CommandCancelled { command })
            &&& bash_ended(command, BashOutcomeView::Checkpoint, id, secs, output, limit) == Err::<
                ToolResultView,
                ToolErrorView,
            >(
                ToolErrorView::CommandCheckpoint {
                    command_id: id,
                    command,
                    elapsed_secs: secs,
                    output: stdout + stderr,
                },
            )
        }),
{
    result::capping_keeps_the_longest_prefix(stdout + stderr, limit);
}

/// What waiting for a command, or stopping it, tells: of one that still runs that it does,
/// with nothing about its end, of one that has ended how, with its exit code; a command that
/// goes on running when it is to be stopped is an error.
pub proof fn what_waiting_tells(
    handle: BackgroundView,
    elapsed: nat,
    timeout: nat,
    output: Seq<char>,
    limit: nat,
)
    ensures
        ({
            let told = waited(handle, elapsed, timeout, output, limit);
            let stopped = killed(handle, elapsed, output, limit);
            &&& json::text_field(told.metadata, "command_id"@) == Some(handle.id)
            &&& json::text_field(told.metadata, "command"@) == Some(handle.command)
            &&& json::unsigned_field(told.metadata, "elapsed_secs"@) == Some(elapsed)
            &&& match handle.status {
                BackgroundCommandStatus::Running => json::bool_field(told.metadata, "running"@)
                    == Some(true) && told.exit_code is None && stopped == Err::<
                    ToolResultView,
                    ToolErrorView,
                >(ToolErrorView::CommandKillTimedOut { command_id: handle.id }),
                BackgroundCommandStatus::Completed { exit_code } => json::text_field(
                    told.metadata,
                    "status"@,
                ) == Some("completed"@) && told.exit_code == exit_code && (stopped matches Ok(r)
                    && json::text_field(r.metadata, "status"@) == Some("completed before kill"@)
                    && r.exit_code == exit_code),
                BackgroundCommandStatus::Killed { exit_code } => json::text_field(
                    told.metadata,
                    "status"@,
                ) == Some("killed"@) && told.exit_code == exit_code && (stopped matches Ok(r)
                    && json::text_field(r.metadata, "status"@) == Some("killed"@) && r.exit_code
                    == exit_code),
            }
        }),
{
    reveal_strlit("command_id");
    reveal_strlit("command");
    reveal_strlit("status");
    reveal_strlit("elapsed_secs");
    reveal_strlit("running");
    assert("command_id"@.len() == 10 && "command"@.len() == 7 && "command"@[0] == 'c'
        && "status"@.len() == 6 && "elapsed_secs"@.len() == 12 && "running"@.len() == 7
        && "running"@[0] == 'r');
}

/// The output of a command that has ended is told behind its id and how it ended, as much of
/// it as fits.
pub proof fn the_last_output_is_told(
    handle: BackgroundView,
    status: Seq<char>,
    exit_code: Option<i32>,
    name: ToolName,
    elapsed: nat,
    output: Seq<char>,
    limit: nat,
)
    requires
        output.len() > 0,
        text::byte_len(output) <= limit,
        text::byte_len(
            "command_id "@ + handle.id + " "@ + status + ". Final output:\n"@ + output,
        ) <= limit,
    ensures
        finished_result(handle, status, exit_code, name, elapsed, output, limit).output
            == "command_id "@ + handle.id + " "@ + status + ". Final output:\n"@ + output,
        !finished_result(handle, status, exit_code, name, elapsed, output, limit).truncated,
{
    let whole = "command_id "@ + handle.id + " "@ + status + ". Final output:\n"@ + output;
    result::capping_keeps_the_longest_prefix(output, limit);
    result::capping_keeps_the_longest_prefix(whole, limit);
}

} // verus!
