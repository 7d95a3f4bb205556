//! Which tool calls are risky, which are allowed without asking, and which have been
//! denied.
use std::collections::HashMap;

use vstd::prelude::*;

use crate::json;
use crate::json::{Json, JsonView};
use crate::runtime::call::{CallView, ParsedToolCall};
use crate::runtime::types::{
    AllowRule,
    AllowRuleKind,
    ApprovalPolicy,
    PermissionDecision,
    PermissionRequestId,
    RiskFlag,
    RuleView,
};
use crate::text;
use crate::text::CharClass;
use crate::tools::names;
use crate::tools::names::ToolName;
use crate::wildcard;

verus! {

broadcast use vstd::std_specs::hash::group_hash_axioms;

// ---------------------------------------------------------------------------
// Risk
// ---------------------------------------------------------------------------

/// The flags with one more, unless it is there.
pub open spec fn flagged(flags: Seq<RiskFlag>, flag: RiskFlag) -> Seq<RiskFlag> {
    if flags.contains(flag) {
        flags
    } else {
        flags.push(flag)
    }
}

pub open spec fn flagged_if(flags: Seq<RiskFlag>, cond: bool, flag: RiskFlag) -> Seq<RiskFlag> {
    if cond {
        flagged(flags, flag)
    } else {
        flags
    }
}

/// Whether a word stands in a shell command by itself.
pub open spec fn has_word(command: Seq<char>, word: Seq<char>) -> bool {
    text::split(command, CharClass::ShellBreak).contains(word)
}

/// Whether a command says to go into directories and not to ask.
pub open spec fn recursive_and_forced(command: Seq<char>) -> bool {
    ||| text::contains(command, "-rf"@)
    ||| text::contains(command, "-fr"@)
    ||| (text::contains(command, "-r"@) || text::contains(command, "--recursive"@)) && (
    text::contains(command, "-f"@) || text::contains(command, "--force"@))
}

pub open spec fn publishes(command: Seq<char>) -> bool {
    ||| text::contains(command, "npm publish"@)
    ||| text::contains(command, "cargo publish"@)
    ||| text::contains(command, "pip upload"@)
    ||| text::contains(command, "twine upload"@)
}

pub open spec fn installs(command: Seq<char>) -> bool {
    ||| text::contains(command, "cargo install"@)
    ||| text::contains(command, "npm install -g"@)
    ||| text::contains(command, "npm i -g"@)
    ||| text::contains(command, "pip install"@)
}

pub open spec fn reaches_network(command: Seq<char>) -> bool {
    ||| has_word(command, "curl"@)
    ||| has_word(command, "wget"@)
    ||| has_word(command, "nc"@)
    ||| has_word(command, "ssh"@)
    ||| has_word(command, "scp"@)
}

/// The flags of a shell command in lower case.
pub open spec fn command_flags(lower: Seq<char>) -> Seq<RiskFlag> {
    let f1 = flagged_if(
        seq![],
        has_word(lower, "rm"@) && recursive_and_forced(lower),
        RiskFlag::RecursiveRemove,
    );
    let f2 = flagged_if(f1, has_word(lower, "sudo"@), RiskFlag::Sudo);
    let f3 = flagged_if(
        f2,
        text::contains(lower, "git push"@) && (text::contains(lower, "--force"@)
            || text::contains(lower, "-f"@)),
        RiskFlag::GitForcePush,
    );
    let f4 = flagged_if(f3, publishes(lower), RiskFlag::PackagePublish);
    let f5 = flagged_if(f4, installs(lower), RiskFlag::WriteOutsideWorkspace);
    let f6 = flagged_if(f5, text::contains(lower, ".git/"@), RiskFlag::GitDirectory);
    flagged_if(f6, reaches_network(lower), RiskFlag::NetworkAccess)
}

/// Whether a path may lead outside the workspace.
pub open spec fn outside(path: Seq<char>) -> bool {
    text::starts_with(path, "/"@) || text::contains(path, ".."@)
}

/// The last part of a path.
pub open spec fn last_part(path: Seq<char>) -> Seq<char> {
    text::split(path, CharClass::Just('/')).last()
}

pub open spec fn read_flags(flags: Seq<RiskFlag>, path: Seq<char>) -> Seq<RiskFlag> {
    flagged_if(flags, outside(path), RiskFlag::ReadOutsideWorkspace)
}

pub open spec fn write_flags(flags: Seq<RiskFlag>, path: Seq<char>) -> Seq<RiskFlag> {
    let f1 = flagged_if(flags, outside(path), RiskFlag::WriteOutsideWorkspace);
    let f2 = flagged_if(
        f1,
        text::contains(path, ".git/"@) || path == ".git"@,
        RiskFlag::GitDirectory,
    );
    let name = last_part(path);
    if name == ".env"@ || text::starts_with(name, ".env."@) {
        flagged(f2, RiskFlag::EnvFile)
    } else {
        flagged_if(f2, text::starts_with(name, "."@), RiskFlag::Dotfile)
    }
}

/// The flags of writing to the paths one after the other.
pub open spec fn all_write_flags(flags: Seq<RiskFlag>, paths: Seq<Seq<char>>) -> Seq<RiskFlag>
    decreases paths.len(),
{
    if paths.len() == 0 {
        flags
    } else {
        write_flags(all_write_flags(flags, paths.drop_last()), paths.last())
    }
}

/// The path that a line of a patch names.
pub open spec fn line_path(line: Seq<char>) -> Option<Seq<char>> {
    let rest = if text::starts_with(line, "*** Add File: "@) {
        Some(line.skip("*** Add File: "@.len() as int))
    } else if text::starts_with(line, "*** Update File: "@) {
        Some(line.skip("*** Update File: "@.len() as int))
    } else if text::starts_with(line, "*** Delete File: "@) {
        Some(line.skip("*** Delete File: "@.len() as int))
    } else if text::starts_with(line, "--- a/"@) {
        Some(line.skip("--- a/"@.len() as int))
    } else if text::starts_with(line, "+++ b/"@) {
        Some(line.skip("+++ b/"@.len() as int))
    } else {
        None
    };
    match rest {
        Some(r) => {
            let path = text::trimmed(r);
            if path.len() == 0 || path == "/dev/null"@ {
                None
            } else {
                Some(path)
            }
        },
        None => None,
    }
}

pub open spec fn line_paths(lines: Seq<Seq<char>>) -> Seq<Seq<char>>
    decreases lines.len(),
{
    if lines.len() == 0 {
        seq![]
    } else {
        let before = line_paths(lines.drop_last());
        match line_path(lines.last()) {
            Some(p) => before.push(p),
            None => before,
        }
    }
}

/// The paths that a patch names, line by line.
pub open spec fn paths_in_patch(patch: Seq<char>) -> Seq<Seq<char>> {
    line_paths(text::lines(patch))
}

pub open spec fn opt_path(paths: Seq<Seq<char>>, path: Option<Seq<char>>) -> Seq<Seq<char>> {
    match path {
        Some(p) => paths.push(p),
        None => paths,
    }
}

/// The paths that the operations of a structured patch name.
pub open spec fn operation_paths(operations: Seq<JsonView>) -> Seq<Seq<char>>
    decreases operations.len(),
{
    if operations.len() == 0 {
        seq![]
    } else {
        let o = operations.last();
        opt_path(
            opt_path(
                opt_path(
                    operation_paths(operations.drop_last()),
                    json::text_field(o, "path"@),
                ),
                json::text_field(o, "from"@),
            ),
            json::text_field(o, "to"@),
        )
    }
}

/// The tools that read at a path.
pub open spec fn reads_path(name: Seq<char>) -> bool {
    name == "read_file"@ || name == "glob"@ || name == "grep"@ || name == "read_memory"@ || name
        == "list_dir"@
}

/// The tools that write at a path.
pub open spec fn writes_path(name: Seq<char>) -> bool {
    name == "write_file"@ || name == "write_memory"@ || name == "edit_file"@ || name
        == "multi_edit"@
}

/// The flags of a tool call, given what its command is in lower case.
pub open spec fn call_flags(call: CallView, lower: Seq<char>) -> Seq<RiskFlag> {
    if call.name == "bash"@ {
        if json::text_field(call.input, "command"@) is Some {
            command_flags(lower)
        } else {
            seq![]
        }
    } else if reads_path(call.name) {
        match json::text_field(call.input, "path"@) {
            Some(path) => read_flags(seq![], path),
            None => seq![],
        }
    } else if writes_path(call.name) {
        match json::text_field(call.input, "path"@) {
            Some(path) => write_flags(seq![], path),
            None => seq![],
        }
    } else if call.name == "apply_patch"@ || call.name == "apply_patch_freeform"@ {
        match json::text_field(call.input, "patch"@) {
            Some(patch) => all_write_flags(seq![], paths_in_patch(patch)),
            None => seq![],
        }
    } else if call.name == "apply_patch_structured"@ {
        match json::items_field(call.input, "operations"@) {
            Some(operations) => all_write_flags(seq![], operation_paths(operations)),
            None => seq![],
        }
    } else if call.name == "web_fetch"@ {
        seq![RiskFlag::NetworkAccess]
    } else {
        seq![]
    }
}

/// The shell command of a call, empty where it has none.
pub open spec fn call_command(call: CallView) -> Seq<char> {
    match json::text_field(call.input, "command"@) {
        Some(command) => command,
        None => seq![],
    }
}

fn push_unique(flags: &mut Vec<RiskFlag>, flag: RiskFlag)
    ensures
        final(flags)@ == flagged(old(flags)@, flag),
{
    let mut i: usize = 0;
    while i < flags.len()
        invariant
            i <= flags@.len(),
            flags@ == old(flags)@,
            forall|k: int| 0 <= k < i ==> flags@[k] != flag,
        decreases flags@.len() - i,
    {
        if flags[i] == flag {
            return;
        }
        i += 1;
    }
    flags.push(flag);
}

fn push_if(flags: &mut Vec<RiskFlag>, cond: bool, flag: RiskFlag)
    ensures
        final(flags)@ == flagged_if(old(flags)@, cond, flag),
{
    if cond {
        push_unique(flags, flag);
    }
}

/// Whether the word stands in the command by itself.
pub fn contains_word(command: &str, word: &str) -> (r: bool)
    ensures
        r == has_word(command@, word@),
{
    let tokens = text::split_class(command, CharClass::ShellBreak);
    let ghost all = text::views(tokens@);
    let mut i: usize = 0;
    while i < tokens.len()
        invariant
            i <= tokens@.len(),
            all == text::views(tokens@),
            all == text::split(command@, CharClass::ShellBreak),
            forall|k: int| 0 <= k < i ==> #[trigger] all[k] != word@,
        decreases tokens@.len() - i,
    {
        if text::same(tokens[i].as_str(), word) {
            assert(all[i as int] == word@);
            return true;
        }
        assert(all[i as int] != word@);
        i += 1;
    }
    false
}

/// Whether the command says to go into directories and not to ask.
pub fn has_recursive_force_flags(command: &str) -> (r: bool)
    ensures
        r == recursive_and_forced(command@),
{
    text::holds_text(command, "-rf") || text::holds_text(command, "-fr") || ((text::holds_text(
        command,
        "-r",
    ) || text::holds_text(command, "--recursive")) && (text::holds_text(command, "-f")
        || text::holds_text(command, "--force")))
}

/// The flags of a shell command in lower case.
pub fn classify_bash(lower: &str) -> (flags: Vec<RiskFlag>)
    ensures
        flags@ == command_flags(lower@),
{
    let mut flags: Vec<RiskFlag> = Vec::new();
    let removes = contains_word(lower, "rm") && has_recursive_force_flags(lower);
    push_if(&mut flags, removes, RiskFlag::RecursiveRemove);
    push_if(&mut flags, contains_word(lower, "sudo"), RiskFlag::Sudo);
    let pushes = text::holds_text(lower, "git push") && (text::holds_text(lower, "--force")
        || text::holds_text(lower, "-f"));
    push_if(&mut flags, pushes, RiskFlag::GitForcePush);
    let publishing = text::holds_text(lower, "npm publish") || text::holds_text(
        lower,
        "cargo publish",
    ) || text::holds_text(lower, "pip upload") || text::holds_text(lower, "twine upload");
    push_if(&mut flags, publishing, RiskFlag::PackagePublish);
    let installing = text::holds_text(lower, "cargo install") || text::holds_text(
        lower,
        "npm install -g",
    ) || text::holds_text(lower, "npm i -g") || text::holds_text(lower, "pip install");
    push_if(&mut flags, installing, RiskFlag::WriteOutsideWorkspace);
    push_if(&mut flags, text::holds_text(lower, ".git/"), RiskFlag::GitDirectory);
    let network = contains_word(lower, "curl") || contains_word(lower, "wget") || contains_word(
        lower,
        "nc",
    ) || contains_word(lower, "ssh") || contains_word(lower, "scp");
    push_if(&mut flags, network, RiskFlag::NetworkAccess);
    flags
}

/// Whether the path may lead outside the workspace.
pub fn is_outside_workspace(path: &str) -> (r: bool)
    ensures
        r == outside(path@),
{
    text::has_prefix(path, "/") || text::holds_text(path, "..")
}

fn classify_read_path(path: &str, flags: &mut Vec<RiskFlag>)
    ensures
        final(flags)@ == read_flags(old(flags)@, path@),
{
    push_if(flags, is_outside_workspace(path), RiskFlag::ReadOutsideWorkspace);
}

fn classify_write_path(path: &str, flags: &mut Vec<RiskFlag>)
    ensures
        final(flags)@ == write_flags(old(flags)@, path@),
{
    push_if(flags, is_outside_workspace(path), RiskFlag::WriteOutsideWorkspace);
    let git = text::holds_text(path, ".git/") || text::same(path, ".git");
    push_if(flags, git, RiskFlag::GitDirectory);
    let parts = text::split_class(path, CharClass::Just('/'));
    let name = &parts[parts.len() - 1];
    assert(name@ == text::views(parts@).last());
    if text::same(name.as_str(), ".env") || text::has_prefix(name.as_str(), ".env.") {
        push_unique(flags, RiskFlag::EnvFile);
    } else {
        push_if(flags, text::has_prefix(name.as_str(), "."), RiskFlag::Dotfile);
    }
}

fn classify_write_paths(paths: &Vec<String>) -> (flags: Vec<RiskFlag>)
    ensures
        flags@ == all_write_flags(seq![], text::views(paths@)),
{
    let ghost all = text::views(paths@);
    let mut flags: Vec<RiskFlag> = Vec::new();
    let mut i: usize = 0;
    assert(all.take(0) =~= seq![]);
    while i < paths.len()
        invariant
            i <= paths@.len(),
            all == text::views(paths@),
            flags@ == all_write_flags(seq![], all.take(i as int)),
        decreases paths@.len() - i,
    {
        assert(all.take(i + 1).drop_last() =~= all.take(i as int));
        assert(all.take(i + 1).last() == paths@[i as int]@);
        classify_write_path(paths[i].as_str(), &mut flags);
        i += 1;
    }
    assert(all.take(i as int) =~= all);
    flags
}

fn path_of_line(line: &str) -> (r: Option<String>)
    ensures
        text::opt(r) == line_path(line@),
{
    let rest = match text::strip_prefix(line, "*** Add File: ") {
        Some(r) => r,
        None => match text::strip_prefix(line, "*** Update File: ") {
            Some(r) => r,
            None => match text::strip_prefix(line, "*** Delete File: ") {
                Some(r) => r,
                None => match text::strip_prefix(line, "--- a/") {
                    Some(r) => r,
                    None => match text::strip_prefix(line, "+++ b/") {
                        Some(r) => r,
                        None => {
                            return None;
                        },
                    },
                },
            },
        },
    };
    let path = text::trim(rest.as_str());
    if text::is_blank_len(&path) || text::same(path.as_str(), "/dev/null") {
        None
    } else {
        Some(path)
    }
}

/// The paths that the patch names, line by line.
pub fn patch_paths(patch: &str) -> (paths: Vec<String>)
    ensures
        text::views(paths@) == paths_in_patch(patch@),
{
    let lines = text::lines_of(patch);
    let ghost all = text::views(lines@);
    let mut paths: Vec<String> = Vec::new();
    let mut i: usize = 0;
    assert(text::views(paths@) =~= line_paths(all.take(0)));
    while i < lines.len()
        invariant
            i <= lines@.len(),
            all == text::views(lines@),
            text::views(paths@) == line_paths(all.take(i as int)),
        decreases lines@.len() - i,
    {
        assert(all.take(i + 1).drop_last() =~= all.take(i as int));
        assert(all.take(i + 1).last() == lines@[i as int]@);
        match path_of_line(lines[i].as_str()) {
            Some(p) => {
                let ghost before = text::views(paths@);
                let ghost shown = p@;
                paths.push(p);
                assert(text::views(paths@) =~= before.push(shown));
            },
            None => {},
        }
        i += 1;
    }
    assert(all.take(i as int) =~= all);
    paths
}

fn push_path(paths: &mut Vec<String>, path: Option<String>)
    ensures
        text::views(final(paths)@) == opt_path(text::views(old(paths)@), text::opt(path)),
{
    match path {
        Some(p) => {
            let ghost before = text::views(paths@);
            let ghost shown = p@;
            paths.push(p);
            assert(text::views(paths@) =~= before.push(shown));
        },
        None => {},
    }
}

pub fn paths_of_operations(operations: &Vec<Json>) -> (paths: Vec<String>)
    ensures
        text::views(paths@) == operation_paths(json::array_view(operations@)),
{
    let ghost all = json::array_view(operations@);
    proof {
        json::lemma_array_view(operations@);
    }
    let mut paths: Vec<String> = Vec::new();
    let mut i: usize = 0;
    assert(text::views(paths@) =~= operation_paths(all.take(0)));
    while i < operations.len()
        invariant
            i <= operations@.len(),
            all.len() == operations@.len(),
            forall|k: int| 0 <= k < all.len() ==> #[trigger] all[k] == operations@[k]@,
            text::views(paths@) == operation_paths(all.take(i as int)),
        decreases operations@.len() - i,
    {
        assert(all.take(i + 1).drop_last() =~= all.take(i as int));
        assert(all.take(i + 1).last() == operations@[i as int]@);
        push_path(&mut paths, operations[i].get_string("path"));
        push_path(&mut paths, operations[i].get_string("from"));
        push_path(&mut paths, operations[i].get_string("to"));
        i += 1;
    }
    assert(all.take(i as int) =~= all);
    paths
}

/// The flags of the tool call, given what its command is in lower case.
pub fn classify_lowered(call: &ParsedToolCall, lower: &str) -> (flags: Vec<RiskFlag>)
    ensures
        flags@ == call_flags(call@, lower@),
{
    let name = call.name.as_str();
    let mut flags: Vec<RiskFlag> = Vec::new();
    assert(flags@ =~= seq![]);
    if text::same(name, "bash") {
        if call.input.get_str("command").is_some() {
            return classify_bash(lower);
        }
    } else if text::same(name, "read_file") || text::same(name, "glob") || text::same(name, "grep")
        || text::same(name, "read_memory") || text::same(name, "list_dir") {
        match call.input.get_string("path") {
            Some(path) => {
                classify_read_path(path.as_str(), &mut flags);
            },
            None => {},
        }
    } else if text::same(name, "write_file") || text::same(name, "write_memory") || text::same(
        name,
        "edit_file",
    ) || text::same(name, "multi_edit") {
        match call.input.get_string("path") {
            Some(path) => {
                classify_write_path(path.as_str(), &mut flags);
            },
            None => {},
        }
    } else if text::same(name, "apply_patch") || text::same(name, "apply_patch_freeform") {
        match call.input.get_string("patch") {
            Some(patch) => {
                return classify_write_paths(&patch_paths(patch.as_str()));
            },
            None => {},
        }
    } else if text::same(name, "apply_patch_structured") {
        match call.input.get_array("operations") {
            Some(operations) => {
                return classify_write_paths(&paths_of_operations(operations));
            },
            None => {},
        }
    } else if text::same(name, "web_fetch") {
        flags.push(RiskFlag::NetworkAccess);
        assert(flags@ =~= seq![RiskFlag::NetworkAccess]);
    }
    flags
}

/// The shell command of the call, empty where it has none.
pub fn command_of(call: &ParsedToolCall) -> (r: String)
    ensures
        r@ == call_command(call@),
{
    match call.input.get_string("command") {
        Some(command) => command,
        None => String::new(),
    }
}

/// The flags of the tool call.
pub fn classify(call: &ParsedToolCall) -> (flags: Vec<RiskFlag>)
    ensures
        flags@ == call_flags(call@, text::lowercase(call_command(call@))),
{
    let command = command_of(call);
    let lower = text::lowercase_of(command.as_str());
    classify_lowered(call, lower.as_str())
}

/// Whether a tool of the given name changes something.
pub open spec fn mutating(name: Seq<char>) -> bool {
    ||| name == "write_file"@
    ||| name == "write_memory"@
    ||| name == "edit_file"@
    ||| name == "multi_edit"@
    ||| name == "apply_patch"@
    ||| name == "apply_patch_freeform"@
    ||| name == "apply_patch_structured"@
    ||| name == "bash_kill"@
    ||| name == "bash"@
}

/// Whether a tool of the given name changes something.
pub fn is_mutating_tool_name(name: &str) -> (r: bool)
    ensures
        r == mutating(name@),
{
    text::same(name, "write_file") || text::same(name, "write_memory") || text::same(
        name,
        "edit_file",
    ) || text::same(name, "multi_edit") || text::same(name, "apply_patch") || text::same(
        name,
        "apply_patch_freeform",
    ) || text::same(name, "apply_patch_structured") || text::same(name, "bash_kill")
        || text::same(name, "bash")
}

/// A tool that is advertised as one that only reads changes nothing, and any other tool
/// changes something.
pub proof fn tools_that_read_change_nothing(name: ToolName)
    ensures
        mutating(names::tool_name(name)) == !names::tool_reads_only(name),
{
    if names::tool_reads_only(name) {
        reveal_strlit("write_memory");
        reveal_strlit("read_file");
        reveal_strlit("list_dir");
        reveal_strlit("glob");
        reveal_strlit("grep");
        reveal_strlit("web_fetch");
        reveal_strlit("todo_write");
        reveal_strlit("bash_wait");
        reveal_strlit("read_blob");
        let s = names::tool_name(name);
        assert(s.len() != "write_memory"@.len());
        assert forall|other: ToolName| !names::tool_reads_only(other) implies s
            != #[trigger] names::tool_name(other) by {
            if s == names::tool_name(other) {
                names::tool_names_are_distinct(name, other);
            }
        }
        assert(s != names::tool_name(ToolName::WriteFile));
        assert(s != names::tool_name(ToolName::EditFile));
        assert(s != names::tool_name(ToolName::MultiEdit));
        assert(s != names::tool_name(ToolName::ApplyPatch));
        assert(s != names::tool_name(ToolName::ApplyPatchFreeform));
        assert(s != names::tool_name(ToolName::ApplyPatchStructured));
        assert(s != names::tool_name(ToolName::BashKill));
        assert(s != names::tool_name(ToolName::Bash));
    }
}

// ---------------------------------------------------------------------------
// Rules
// ---------------------------------------------------------------------------

/// The tools that a rule on paths speaks of.
pub open spec fn patches_path(name: Seq<char>) -> bool {
    writes_path(name) || name == "apply_patch"@ || name == "apply_patch_freeform"@ || name
        == "apply_patch_structured"@
}

/// Whether a rule allows a call, given whether the rule's value matches the call's
/// command as a regular expression.
pub open spec fn rule_allows(rule: RuleView, call: CallView, regex: Option<bool>) -> bool {
    match rule.kind {
        AllowRuleKind::ToolName => wildcard::wild(rule.value, call.name),
        AllowRuleKind::BashPrefix => call.name == "bash"@ && (json::text_field(
            call.input,
            "command"@,
        ) matches Some(command) && text::starts_with(
            text::trim_start(command, CharClass::Space),
            rule.value,
        )),
        AllowRuleKind::BashRegex => call.name == "bash"@ && json::text_field(
            call.input,
            "command"@,
        ) is Some && regex == Some(true),
        AllowRuleKind::PathWrite => patches_path(call.name) && (json::text_field(
            call.input,
            "path"@,
        ) matches Some(path) && (wildcard::wild(rule.value, path) || text::starts_with(
            path,
            rule.value,
        ))),
    }
}

/// Whether a rule allows a call.
pub open spec fn allows(rule: RuleView, call: CallView) -> bool {
    rule_allows(rule, call, text::regex_matches(rule.value, call_command(call)))
}

pub open spec fn rule_views(rules: Seq<AllowRule>) -> Seq<RuleView> {
    rules.map_values(|r: AllowRule| r@)
}

/// Whether one of the rules allows a call.
pub open spec fn any_allows(rules: Seq<RuleView>, call: CallView) -> bool {
    exists|i: int| 0 <= i < rules.len() && allows(#[trigger] rules[i], call)
}

/// The rules with one more, unless it is there.
pub open spec fn with_rule(rules: Seq<RuleView>, rule: RuleView) -> Seq<RuleView> {
    if rules.contains(rule) {
        rules
    } else {
        rules.push(rule)
    }
}

/// The first word of a command; the command itself where it has none.
pub open spec fn program_of(command: Seq<char>) -> Seq<char> {
    if text::words(command).len() > 0 {
        text::words(command)[0]
    } else {
        command
    }
}

/// The rule that is kept when a call is to be allowed always.
pub open spec fn kept_rule(call: CallView) -> RuleView {
    if call.name == "bash"@ {
        RuleView { kind: AllowRuleKind::BashPrefix, value: program_of(call_command(call)) }
    } else {
        RuleView { kind: AllowRuleKind::ToolName, value: call.name }
    }
}

/// Whether the rule allows the call, given whether the rule's value matches the call's
/// command as a regular expression.
pub fn rule_matches_given(rule: &AllowRule, call: &ParsedToolCall, regex: Option<bool>) -> (r: bool)
    ensures
        r == rule_allows(rule@, call@, regex),
{
    let name = call.name.as_str();
    match rule.kind {
        AllowRuleKind::ToolName => wildcard::wildcard_match(rule.value.as_str(), name),
        AllowRuleKind::BashPrefix => {
            if !text::same(name, "bash") {
                return false;
            }
            match call.input.get_string("command") {
                Some(command) => {
                    let start = text::trim_start_class(command.as_str(), CharClass::Space);
                    text::has_prefix(start.as_str(), rule.value.as_str())
                },
                None => false,
            }
        },
        AllowRuleKind::BashRegex => {
            text::same(name, "bash") && call.input.get_str("command").is_some() && match regex {
                Some(b) => b,
                None => false,
            }
        },
        AllowRuleKind::PathWrite => {
            let patches = text::same(name, "write_file") || text::same(name, "write_memory")
                || text::same(name, "edit_file") || text::same(name, "multi_edit") || text::same(
                name,
                "apply_patch",
            ) || text::same(name, "apply_patch_freeform") || text::same(
                name,
                "apply_patch_structured",
            );
            if !patches {
                return false;
            }
            match call.input.get_string("path") {
                Some(path) => wildcard::wildcard_match(rule.value.as_str(), path.as_str())
                    || text::has_prefix(path.as_str(), rule.value.as_str()),
                None => false,
            }
        },
    }
}

/// Whether the rule allows the call.
pub fn rule_matches(rule: &AllowRule, call: &ParsedToolCall) -> (r: bool)
    ensures
        r == allows(rule@, call@),
{
    let regex = match rule.kind {
        AllowRuleKind::BashRegex => text::regex_match(rule.value.as_str(), command_of(call).as_str()),
        _ => None,
    };
    rule_matches_given(rule, call, regex)
}

/// The rules by which calls are allowed without asking.
#[derive(Debug)]
pub struct AllowStore {
    rules: Vec<AllowRule>,
}

impl View for AllowStore {
    type V = Seq<RuleView>;

    closed spec fn view(&self) -> Seq<RuleView> {
        rule_views(self.rules@)
    }
}

impl Default for AllowStore {
    fn default() -> (r: AllowStore)
        ensures
            r@ == Seq::<RuleView>::empty(),
    {
        AllowStore::new()
    }
}

impl AllowStore {
    /// The store without rules.
    pub fn new() -> (r: AllowStore)
        ensures
            r@ == Seq::<RuleView>::empty(),
    {
        let r = AllowStore { rules: Vec::new() };
        assert(r@ =~= Seq::<RuleView>::empty());
        r
    }

    pub fn with_rules(rules: Vec<AllowRule>) -> (r: AllowStore)
        ensures
            r@ == rule_views(rules@),
    {
        AllowStore { rules }
    }

    /// Adds the rule, unless it is there.
    pub fn add(&mut self, rule: AllowRule)
        ensures
            final(self)@ == with_rule(old(self)@, rule@),
    {
        let ghost before = self@;
        let ghost added = rule@;
        let mut i: usize = 0;
        while i < self.rules.len()
            invariant
                i <= self.rules@.len(),
                self@ == before,
                before == old(self)@,
                before == rule_views(self.rules@),
                added == rule@,
                forall|k: int| 0 <= k < i ==> #[trigger] before[k] != added,
            decreases self.rules@.len() - i,
        {
            if self.rules[i].same(&rule) {
                assert(before[i as int] == added);
                return;
            }
            assert(before[i as int] != added);
            i += 1;
        }
        self.rules.push(rule);
        assert(rule_views(self.rules@) =~= before.push(added));
    }

    pub fn rules(&self) -> (r: &Vec<AllowRule>)
        ensures
            rule_views(r@) == self@,
    {
        &self.rules
    }

    /// Whether a rule allows the call.
    pub fn is_allowed(&self, call: &ParsedToolCall) -> (r: bool)
        ensures
            r == any_allows(self@, call@),
    {
        let ghost all = self@;
        let mut i: usize = 0;
        while i < self.rules.len()
            invariant
                i <= self.rules@.len(),
                all == rule_views(self.rules@),
                all == self@,
                forall|k: int| 0 <= k < i ==> !allows(#[trigger] all[k], call@),
            decreases self.rules@.len() - i,
        {
            if rule_matches(&self.rules[i], call) {
                assert(allows(all[i as int], call@));
                return true;
            }
            assert(!allows(all[i as int], call@));
            i += 1;
        }
        false
    }

    /// The rule that is kept when the call is to be allowed always.
    pub fn rule_for(call: &ParsedToolCall) -> (r: AllowRule)
        ensures
            r@ == kept_rule(call@),
    {
        if text::same(call.name.as_str(), "bash") {
            let command = command_of(call);
            let words = text::split_whitespace(command.as_str());
            if words.len() > 0 {
                assert(text::views(words@)[0] == words@[0]@);
                AllowRule::new(AllowRuleKind::BashPrefix, words[0].as_str())
            } else {
                AllowRule::new(AllowRuleKind::BashPrefix, command.as_str())
            }
        } else {
            AllowRule::new(AllowRuleKind::ToolName, call.name.as_str())
        }
    }
}

// ---------------------------------------------------------------------------
// Permissions
// ---------------------------------------------------------------------------

/// What a call is remembered by, given the text of its input.
pub open spec fn print_of(name: Seq<char>, input: Seq<char>) -> Seq<char> {
    name + ":"@ + input
}

/// What a call is remembered by.
pub open spec fn fingerprint(call: CallView) -> Seq<char> {
    print_of(call.name, json::json_text(call.input))
}

/// What a call is remembered by, given the text of its input.
pub fn fingerprint_of(name: &str, input: &str) -> (r: String)
    ensures
        r@ == print_of(name@, input@),
{
    text::cat3(name, ":", input)
}

fn call_fingerprint(call: &ParsedToolCall) -> (r: String)
    ensures
        r@ == fingerprint(call@),
{
    fingerprint_of(call.name.as_str(), call.input.to_text().as_str())
}

/// A call that waits for the user's answer.
#[derive(Debug)]
pub struct PendingPermission {
    pub request_id: PermissionRequestId,
    pub tool_name: String,
    pub input: Json,
    pub risk_flags: Vec<RiskFlag>,
    pub reason: String,
    pub fingerprint: String,
}

/// The content of a `PendingPermission`.
pub struct PendingView {
    pub request_id: PermissionRequestId,
    pub tool_name: Seq<char>,
    pub input: JsonView,
    pub risk_flags: Seq<RiskFlag>,
    pub reason: Seq<char>,
    pub fingerprint: Seq<char>,
}

impl View for PendingPermission {
    type V = PendingView;

    open spec fn view(&self) -> PendingView {
        PendingView {
            request_id: self.request_id,
            tool_name: self.tool_name@,
            input: self.input@,
            risk_flags: self.risk_flags@,
            reason: self.reason@,
            fingerprint: self.fingerprint@,
        }
    }
}

pub(crate) fn copy_flags(flags: &Vec<RiskFlag>) -> (r: Vec<RiskFlag>)
    ensures
        r@ == flags@,
{
    let mut r: Vec<RiskFlag> = Vec::new();
    let mut i: usize = 0;
    while i < flags.len()
        invariant
            i <= flags@.len(),
            r@ == flags@.take(i as int),
        decreases flags@.len() - i,
    {
        r.push(flags[i]);
        i += 1;
        assert(flags@.take(i as int) =~= flags@.take(i - 1).push(flags@[i - 1]));
    }
    assert(flags@.take(i as int) =~= flags@);
    r
}

impl Clone for PendingPermission {
    fn clone(&self) -> (r: PendingPermission)
        ensures
            r@ == self@,
    {
        PendingPermission {
            request_id: self.request_id,
            tool_name: self.tool_name.clone(),
            input: self.input.clone(),
            risk_flags: copy_flags(&self.risk_flags),
            reason: self.reason.clone(),
            fingerprint: self.fingerprint.clone(),
        }
    }
}

/// The rules, the calls that wait for an answer, and what has been denied.
#[derive(Debug)]
pub struct PermissionService {
    allow: AllowStore,
    pending: HashMap<u128, PendingPermission>,
    denied: Vec<String>,
}

/// The content of a `PermissionService`.
pub struct PermissionsView {
    pub rules: Seq<RuleView>,
    pub pending: Map<PermissionRequestId, PendingView>,
    pub denied: Set<Seq<char>>,
}

closed spec fn pending_map(pending: Map<u128, PendingPermission>) -> Map<
    PermissionRequestId,
    PendingView,
> {
    Map::new(
        |id: PermissionRequestId| pending.dom().contains(id.0),
        |id: PermissionRequestId| pending[id.0]@,
    )
}

impl View for PermissionService {
    type V = PermissionsView;

    closed spec fn view(&self) -> PermissionsView {
        PermissionsView {
            rules: self.allow@,
            pending: pending_map(self.pending@),
            denied: text::views(self.denied@).to_set(),
        }
    }
}

/// Whether the user is to be asked about a call that no rule allows.
pub open spec fn policy_asks(policy: ApprovalPolicy, flags: Seq<RiskFlag>, name: Seq<char>) -> bool {
    match policy {
        ApprovalPolicy::Never => false,
        ApprovalPolicy::Always => true,
        ApprovalPolicy::OnRequest => flags.len() > 0,
        ApprovalPolicy::Mutating => flags.len() > 0 || mutating(name),
        ApprovalPolicy::OnFailure => false,
    }
}

/// Whether the user is to be asked about a call.
pub open spec fn asks(
    service: PermissionsView,
    policy: ApprovalPolicy,
    flags: Seq<RiskFlag>,
    call: CallView,
) -> bool {
    !any_allows(service.rules, call) && policy_asks(policy, flags, call.name)
}

/// The service with one more call that waits for an answer.
pub open spec fn with_pending(service: PermissionsView, p: PendingView) -> PermissionsView {
    PermissionsView { pending: service.pending.insert(p.request_id, p), ..service }
}

/// The fingerprint of the call that waits for an answer under an id, or that of `call`
/// where none does.
pub open spec fn pending_print(
    service: PermissionsView,
    id: PermissionRequestId,
    call: CallView,
) -> Seq<char> {
    if service.pending.dom().contains(id) {
        service.pending[id].fingerprint
    } else {
        fingerprint(call)
    }
}

/// The service after the user's answer.
pub open spec fn resolved(
    service: PermissionsView,
    id: PermissionRequestId,
    decision: PermissionDecision,
    call: CallView,
) -> PermissionsView {
    let print = pending_print(service, id, call);
    PermissionsView {
        rules: if decision == PermissionDecision::AllowAlways {
            with_rule(service.rules, kept_rule(call))
        } else {
            service.rules
        },
        pending: service.pending.remove(id),
        denied: if decision == PermissionDecision::Deny {
            service.denied.insert(print)
        } else {
            service.denied
        },
    }
}

proof fn lemma_set_of_pushed(s: Seq<Seq<char>>, x: Seq<char>)
    ensures
        s.push(x).to_set() == s.to_set().insert(x),
{
    let a = s.push(x).to_set();
    let b = s.to_set().insert(x);
    assert forall|y: Seq<char>| a.contains(y) == b.contains(y) by {
        if s.contains(y) {
            let k = choose|k: int| 0 <= k < s.len() && s[k] == y;
            assert(s.push(x)[k] == y);
        }
        if y == x {
            assert(s.push(x)[s.len() as int] == y);
        }
        if s.push(x).contains(y) && y != x {
            let k = choose|k: int| 0 <= k < s.push(x).len() && s.push(x)[k] == y;
            assert(s[k] == y);
        }
    }
    assert(a =~= b);
}

impl PermissionService {
    /// The service with the rules of a store, in which nothing waits or is denied.
    pub fn new(allow: AllowStore) -> (r: PermissionService)
        ensures
            r@ == (PermissionsView {
                rules: allow@,
                pending: Map::empty(),
                denied: Set::empty(),
            }),
    {
        let r = PermissionService { allow, pending: HashMap::new(), denied: Vec::new() };
        assert(r@.pending =~= Map::empty());
        assert(text::views(r.denied@) =~= seq![]);
        assert(r@.denied =~= Set::empty());
        r
    }

    /// The rules as they have become.
    pub fn into_store(self) -> (r: AllowStore)
        ensures
            r@ == self@.rules,
    {
        self.allow
    }

    pub fn rules(&self) -> (r: &Vec<AllowRule>)
        ensures
            rule_views(r@) == self@.rules,
    {
        self.allow.rules()
    }

    /// Whether a rule allows the call.
    pub fn is_allowed(&self, call: &ParsedToolCall) -> (r: bool)
        ensures
            r == any_allows(self@.rules, call@),
    {
        self.allow.is_allowed(call)
    }

    fn has_denied(&self, print: &str) -> (r: bool)
        ensures
            r == self@.denied.contains(print@),
    {
        let ghost all = text::views(self.denied@);
        let mut i: usize = 0;
        while i < self.denied.len()
            invariant
                i <= self.denied@.len(),
                all == text::views(self.denied@),
                self@.denied == all.to_set(),
                forall|k: int| 0 <= k < i ==> #[trigger] all[k] != print@,
            decreases self.denied@.len() - i,
        {
            if text::same(self.denied[i].as_str(), print) {
                assert(all[i as int] == print@);
                assert(all.contains(print@));
                return true;
            }
            assert(all[i as int] != print@);
            i += 1;
        }
        assert(!all.contains(print@));
        false
    }

    /// Whether the same call has been denied in this session.
    pub fn is_denied_for_session(&self, call: &ParsedToolCall) -> (r: bool)
        ensures
            r == self@.denied.contains(fingerprint(call@)),
    {
        let print = call_fingerprint(call);
        self.has_denied(print.as_str())
    }

    /// Whether the user is to be asked about the call.
    pub fn should_request(
        &self,
        policy: ApprovalPolicy,
        risk_flags: &Vec<RiskFlag>,
        call: &ParsedToolCall,
    ) -> (r: bool)
        ensures
            r == asks(self@, policy, risk_flags@, call@),
    {
        if self.is_allowed(call) {
            return false;
        }
        match policy {
            ApprovalPolicy::Never => false,
            ApprovalPolicy::Always => true,
            ApprovalPolicy::OnRequest => risk_flags.len() > 0,
            ApprovalPolicy::Mutating => risk_flags.len() > 0 || is_mutating_tool_name(
                call.name.as_str(),
            ),
            ApprovalPolicy::OnFailure => false,
        }
    }

    /// Notes that the call waits for an answer, under the given id.
    pub fn begin_request(
        &mut self,
        request_id: PermissionRequestId,
        call: &ParsedToolCall,
        input: Json,
        risk_flags: Vec<RiskFlag>,
        reason: String,
    ) -> (p: PendingPermission)
        ensures
            p@ == (PendingView {
                request_id,
                tool_name: call@.name,
                input: input@,
                risk_flags: risk_flags@,
                reason: reason@,
                fingerprint: fingerprint(call@),
            }),
            final(self)@ == with_pending(old(self)@, p@),
    {
        let pending = PendingPermission {
            request_id,
            tool_name: call.name.clone(),
            input,
            risk_flags,
            reason,
            fingerprint: call_fingerprint(call),
        };
        let copy = pending.clone();
        let ghost before = self@.pending;
        self.pending.insert(request_id.0, copy);
        assert(self@.pending =~= before.insert(request_id, pending@));
        pending
    }

    fn take_pending(&mut self, id: PermissionRequestId) -> (r: Option<String>)
        ensures
            final(self)@ == (PermissionsView {
                pending: old(self)@.pending.remove(id),
                ..old(self)@
            }),
            match r {
                Some(print) => old(self)@.pending.dom().contains(id) && old(
                    self,
                )@.pending[id].fingerprint == print@,
                None => !old(self)@.pending.dom().contains(id),
            },
    {
        let ghost before = self@.pending;
        let taken = self.pending.remove(&id.0);
        assert(self@.pending =~= before.remove(id));
        match taken {
            Some(p) => Some(p.fingerprint),
            None => None,
        }
    }

    /// Takes the user's answer: a rule is kept for calls that are to be allowed always,
    /// and a call that is denied is remembered.
    pub fn resolve(
        &mut self,
        request_id: PermissionRequestId,
        decision: PermissionDecision,
        call: &ParsedToolCall,
    )
        ensures
            final(self)@ == resolved(old(self)@, request_id, decision, call@),
    {
        let print = match self.take_pending(request_id) {
            Some(print) => print,
            None => call_fingerprint(call),
        };
        match decision {
            PermissionDecision::AllowAlways => {
                self.allow.add(AllowStore::rule_for(call));
            },
            PermissionDecision::Deny => {
                let ghost before = text::views(self.denied@);
                let ghost shown = print@;
                self.denied.push(print);
                assert(text::views(self.denied@) =~= before.push(shown));
                proof {
                    lemma_set_of_pushed(before, shown);
                }
            },
            PermissionDecision::Allow => {},
        }
    }
}

// ---------------------------------------------------------------------------
// What the rules promise
// ---------------------------------------------------------------------------

pub open spec fn no_duplicates(rules: Seq<RuleView>) -> bool {
    forall|i: int, j: int| 0 <= i < j < rules.len() ==> #[trigger] rules[i] != #[trigger] rules[j]
}

/// Adding rules to a store keeps every rule in it once, and keeps the rules that it had.
pub proof fn adding_keeps_rules_apart(rules: Seq<RuleView>, rule: RuleView)
    requires
        no_duplicates(rules),
    ensures
        no_duplicates(with_rule(rules, rule)),
        with_rule(rules, rule).contains(rule),
        rules.is_prefix_of(with_rule(rules, rule)),
{
    let after = with_rule(rules, rule);
    if !rules.contains(rule) {
        assert(after[rules.len() as int] == rule);
    }
}

/// Whether the rule that is kept for a call can speak of it: a shell command must have a
/// word, or be empty.
pub open spec fn rule_speaks(call: CallView) -> bool {
    call.name == "bash"@ ==> (json::text_field(call.input, "command"@) matches Some(command) && (
    text::words(command).len() > 0 || command.len() == 0))
}

/// A call that is to be allowed always is allowed from then on.
pub proof fn always_allowed_calls_are_allowed(
    service: PermissionsView,
    id: PermissionRequestId,
    call: CallView,
    policy: ApprovalPolicy,
    flags: Seq<RiskFlag>,
)
    requires
        rule_speaks(call),
    ensures
        ({
            let after = resolved(service, id, PermissionDecision::AllowAlways, call);
            any_allows(after.rules, call) && !asks(after, policy, flags, call)
        }),
{
    let rule = kept_rule(call);
    let after = resolved(service, id, PermissionDecision::AllowAlways, call);
    if call.name == "bash"@ {
        let command = call_command(call);
        if text::words(command).len() > 0 {
            text::lemma_first_word(command);
        } else {
            let start = text::trim_start(command, CharClass::Space);
            assert(start.subrange(0, 0) =~= command);
        }
    } else {
        wildcard::a_text_matches_itself(call.name);
    }
    assert(allows(rule, call));
    if service.rules.contains(rule) {
        let i = choose|i: int| 0 <= i < service.rules.len() && service.rules[i] == rule;
        assert(allows(after.rules[i], call));
    } else {
        assert(after.rules[service.rules.len() as int] == rule);
        assert(allows(after.rules[service.rules.len() as int], call));
    }
}

/// A call that was denied while it waited for an answer is denied from then on: nothing
/// takes a denial back.
pub proof fn denied_calls_stay_denied(
    service: PermissionsView,
    pending: PendingView,
    call: CallView,
    later_id: PermissionRequestId,
    later: PermissionDecision,
    later_call: CallView,
)
    requires
        pending.fingerprint == fingerprint(call),
    ensures
        ({
            let denied = resolved(
                with_pending(service, pending),
                pending.request_id,
                PermissionDecision::Deny,
                call,
            );
            &&& denied.denied.contains(fingerprint(call))
            &&& resolved(denied, later_id, later, later_call).denied.contains(fingerprint(call))
        }),
{
}

/// A rule never makes the user be asked: with more rules, fewer calls are asked about.
pub proof fn rules_only_spare_questions(
    service: PermissionsView,
    rule: RuleView,
    policy: ApprovalPolicy,
    flags: Seq<RiskFlag>,
    call: CallView,
)
    ensures
        asks(
            PermissionsView { rules: with_rule(service.rules, rule), ..service },
            policy,
            flags,
            call,
        ) ==> asks(service, policy, flags, call),
{
    let after = with_rule(service.rules, rule);
    if any_allows(service.rules, call) {
        let i = choose|i: int|
            0 <= i < service.rules.len() && allows(#[trigger] service.rules[i], call);
        assert(allows(after[i], call));
    }
}

/// No flag stands twice among those of a call.
pub proof fn flags_are_distinct(call: CallView, lower: Seq<char>)
    ensures
        call_flags(call, lower).no_duplicates(),
{
    assert(Seq::<RiskFlag>::empty().no_duplicates());
    if call.name == "apply_patch"@ || call.name == "apply_patch_freeform"@ {
        if let Some(patch) = json::text_field(call.input, "patch"@) {
            lemma_write_flags_distinct(seq![], paths_in_patch(patch));
        }
    } else if call.name == "apply_patch_structured"@ {
        if let Some(operations) = json::items_field(call.input, "operations"@) {
            lemma_write_flags_distinct(seq![], operation_paths(operations));
        }
    }
}

proof fn lemma_write_flags_distinct(flags: Seq<RiskFlag>, paths: Seq<Seq<char>>)
    requires
        flags.no_duplicates(),
    ensures
        all_write_flags(flags, paths).no_duplicates(),
    decreases paths.len(),
{
    if paths.len() > 0 {
        lemma_write_flags_distinct(flags, paths.drop_last());
    }
}

// ---------------------------------------------------------------------------
// What is risky
// ---------------------------------------------------------------------------

/// Whether a character ends a word of a shell command.
pub open spec fn ends_word(c: char) -> bool {
    text::is_space(c) || c == ';' || c == '|' || c == '&' || c == '(' || c == ')' || c == '<' || c
        == '>'
}

/// Whether a word stands in a command by itself: nothing but the end of the command or a
/// character that ends a word stands on either side of it.
pub open spec fn by_itself(command: Seq<char>, word: Seq<char>) -> bool {
    exists|i: int|
        0 <= i && i + word.len() <= command.len() && #[trigger] command.subrange(
            i,
            i + word.len(),
        ) == word && (i == 0 || ends_word(command[i - 1])) && (i + word.len() == command.len()
            || ends_word(command[i + word.len()]))
}

/// A word without characters that end a word is found in a command exactly where it
/// stands there by itself.
pub proof fn words_are_found_by_themselves(command: Seq<char>, word: Seq<char>)
    requires
        forall|i: int| 0 <= i < word.len() ==> !ends_word(#[trigger] word[i]),
    ensures
        has_word(command, word) <==> by_itself(command, word),
{
    let k = CharClass::ShellBreak;
    assert(text::free_of(word, k));
    text::pieces_stand_between_breaks(command, k, word);
    if text::stands_between(command, k, word) {
        let i = choose|i: int|
            #[trigger] text::occurs_at(command, word, i) && (i == 0 || k.has(command[i - 1])) && (i
                + word.len() == command.len() || k.has(command[i + word.len()]));
        assert(command.subrange(i, i + word.len()) == word);
    }
    if by_itself(command, word) {
        let i = choose|i: int|
            0 <= i && i + word.len() <= command.len() && #[trigger] command.subrange(
                i,
                i + word.len(),
            ) == word && (i == 0 || ends_word(command[i - 1])) && (i + word.len() == command.len()
                || ends_word(command[i + word.len()]));
        assert(text::occurs_at(command, word, i));
    }
}

proof fn lemma_plain_words(command: Seq<char>)
    ensures
        has_word(command, "rm"@) <==> by_itself(command, "rm"@),
        has_word(command, "sudo"@) <==> by_itself(command, "sudo"@),
        has_word(command, "curl"@) <==> by_itself(command, "curl"@),
        has_word(command, "wget"@) <==> by_itself(command, "wget"@),
        has_word(command, "nc"@) <==> by_itself(command, "nc"@),
        has_word(command, "ssh"@) <==> by_itself(command, "ssh"@),
        has_word(command, "scp"@) <==> by_itself(command, "scp"@),
{
    reveal_strlit("rm");
    reveal_strlit("sudo");
    reveal_strlit("curl");
    reveal_strlit("wget");
    reveal_strlit("nc");
    reveal_strlit("ssh");
    reveal_strlit("scp");
    words_are_found_by_themselves(command, "rm"@);
    words_are_found_by_themselves(command, "sudo"@);
    words_are_found_by_themselves(command, "curl"@);
    words_are_found_by_themselves(command, "wget"@);
    words_are_found_by_themselves(command, "nc"@);
    words_are_found_by_themselves(command, "ssh"@);
    words_are_found_by_themselves(command, "scp"@);
}

proof fn lemma_flagged_if(flags: Seq<RiskFlag>, cond: bool, flag: RiskFlag, other: RiskFlag)
    ensures
        flagged_if(flags, cond, flag).contains(other) <==> flags.contains(other) || (cond && flag
            == other),
{
    let after = flags.push(flag);
    if flags.contains(other) {
        let i = choose|i: int| 0 <= i < flags.len() && flags[i] == other;
        assert(after[i] == other);
    }
    assert(after[flags.len() as int] == flag);
    if after.contains(other) && flag != other {
        let i = choose|i: int| 0 <= i < after.len() && after[i] == other;
        assert(flags[i] == other);
    }
}

/// The flags of a shell command in lower case, each with what it stands for: a program is
/// told by its name where that stands in the command by itself, and an option or a
/// phrase wherever it stands.
pub proof fn commands_are_flagged_for_what_they_hold(lower: Seq<char>)
    ensures
        command_flags(lower).contains(RiskFlag::NetworkAccess) <==> by_itself(lower, "curl"@)
            || by_itself(lower, "wget"@) || by_itself(lower, "nc"@) || by_itself(lower, "ssh"@)
            || by_itself(lower, "scp"@),
        command_flags(lower).contains(RiskFlag::Sudo) <==> by_itself(lower, "sudo"@),
        command_flags(lower).contains(RiskFlag::RecursiveRemove) <==> by_itself(lower, "rm"@) && (
        text::contains(lower, "-rf"@) || text::contains(lower, "-fr"@) || ((text::contains(
            lower,
            "-r"@,
        ) || text::contains(lower, "--recursive"@)) && (text::contains(lower, "-f"@)
            || text::contains(lower, "--force"@)))),
        command_flags(lower).contains(RiskFlag::GitForcePush) <==> text::contains(
            lower,
            "git push"@,
        ) && (text::contains(lower, "--force"@) || text::contains(lower, "-f"@)),
        command_flags(lower).contains(RiskFlag::PackagePublish) <==> text::contains(
            lower,
            "npm publish"@,
        ) || text::contains(lower, "cargo publish"@) || text::contains(lower, "pip upload"@)
            || text::contains(lower, "twine upload"@),
        command_flags(lower).contains(RiskFlag::WriteOutsideWorkspace) <==> text::contains(
            lower,
            "cargo install"@,
        ) || text::contains(lower, "npm install -g"@) || text::contains(lower, "npm i -g"@)
            || text::contains(lower, "pip install"@),
        command_flags(lower).contains(RiskFlag::GitDirectory) <==> text::contains(lower, ".git/"@),
        !command_flags(lower).contains(RiskFlag::ReadOutsideWorkspace),
        !command_flags(lower).contains(RiskFlag::EnvFile),
        !command_flags(lower).contains(RiskFlag::Dotfile),
{
    lemma_plain_words(lower);
    assert forall|flags: Seq<RiskFlag>, cond: bool, flag: RiskFlag, other: RiskFlag|
        #[trigger] flagged_if(flags, cond, flag).contains(other) <==> flags.contains(other) || (
        cond && flag == other) by {
        lemma_flagged_if(flags, cond, flag, other);
    }
}

/// The flags of a call of the shell are those of its command, read in lower case.
pub proof fn shell_calls_are_flagged_by_their_command(call: CallView, command: Seq<char>)
    requires
        call.name == "bash"@,
        json::text_field(call.input, "command"@) == Some(command),
    ensures
        call_flags(call, text::lowercase(call_command(call))) == command_flags(
            text::lowercase(command),
        ),
{
}

/// A program that reaches the network, called with whatever follows it, is flagged, and
/// the user is asked about it where no rule allows the call, unless they never want to
/// be.
pub proof fn network_programs_are_asked_about(
    service: PermissionsView,
    call: CallView,
    command: Seq<char>,
    program: Seq<char>,
    rest: Seq<char>,
)
    requires
        program == "curl"@ || program == "wget"@ || program == "nc"@ || program == "ssh"@ || program
            == "scp"@,
        call.name == "bash"@,
        json::text_field(call.input, "command"@) == Some(command),
        text::lowercase(command) == program + " "@ + rest,
        !any_allows(service.rules, call),
    ensures
        ({
            let flags = call_flags(call, text::lowercase(call_command(call)));
            &&& flags.contains(RiskFlag::NetworkAccess)
            &&& asks(service, ApprovalPolicy::OnRequest, flags, call)
            &&& asks(service, ApprovalPolicy::Mutating, flags, call)
            &&& asks(service, ApprovalPolicy::Always, flags, call)
            &&& !asks(service, ApprovalPolicy::Never, flags, call)
        }),
{
    let lower = text::lowercase(command);
    reveal_strlit(" ");
    assert(lower.subrange(0, 0int + program.len()) =~= program);
    assert(lower[program.len() as int] == ' ');
    assert(by_itself(lower, program));
    commands_are_flagged_for_what_they_hold(lower);
}

/// Whether `name` is the last part of a path: what stands behind the last slash, the
/// whole path where there is none.
pub open spec fn is_last_part(path: Seq<char>, name: Seq<char>) -> bool {
    &&& forall|i: int| 0 <= i < name.len() ==> #[trigger] name[i] != '/'
    &&& path == name || exists|i: int|
        0 <= i < path.len() && #[trigger] path[i] == '/' && path.skip(i + 1) == name
}

proof fn lemma_last_part(path: Seq<char>, name: Seq<char>)
    requires
        is_last_part(path, name),
    ensures
        last_part(path) == name,
{
    let k = CharClass::Just('/');
    assert(text::free_of(name, k));
    text::a_text_without_breaks_is_one_piece(name, k);
    if path != name {
        let i = choose|i: int|
            0 <= i < path.len() && #[trigger] path[i] == '/' && path.skip(i + 1) == name;
        assert(path =~= path.take(i).push('/') + name);
        text::pieces_come_apart(path.take(i), '/', name, k);
    }
}

/// The flags of a call that writes at a path: outside the workspace for an absolute path
/// or one with two dots in it, the directory of git, and by the last part of the path an
/// environment file or another file that begins with a dot.
pub proof fn writes_are_flagged_by_their_path(
    call: CallView,
    lower: Seq<char>,
    path: Seq<char>,
    name: Seq<char>,
)
    requires
        call.name == "write_file"@ || call.name == "write_memory"@ || call.name == "edit_file"@
            || call.name == "multi_edit"@,
        json::text_field(call.input, "path"@) == Some(path),
        is_last_part(path, name),
    ensures
        ({
            let flags = call_flags(call, lower);
            let env = name == ".env"@ || text::starts_with(name, ".env."@);
            &&& flags.contains(RiskFlag::WriteOutsideWorkspace) <==> text::starts_with(path, "/"@)
                || text::contains(path, ".."@)
            &&& flags.contains(RiskFlag::GitDirectory) <==> text::contains(path, ".git/"@) || path
                == ".git"@
            &&& flags.contains(RiskFlag::EnvFile) <==> env
            &&& flags.contains(RiskFlag::Dotfile) <==> text::starts_with(name, "."@) && !env
            &&& !flags.contains(RiskFlag::ReadOutsideWorkspace)
            &&& !flags.contains(RiskFlag::NetworkAccess)
        }),
{
    lemma_tool_words();
    lemma_last_part(path, name);
    lemma_write_flags(seq![], path);
}

proof fn lemma_tool_words()
    ensures
        "bash"@.len() == 4,
        "read_file"@.len() == 9 && "read_file"@[0] == 'r',
        "glob"@.len() == 4 && "glob"@[0] == 'g' && "bash"@[0] == 'b',
        "grep"@.len() == 4 && "grep"@[0] == 'g' && "grep"@[1] == 'r' && "glob"@[1] == 'l',
        "read_memory"@.len() == 11,
        "list_dir"@.len() == 8,
        "write_file"@.len() == 10 && "write_file"@[0] == 'w',
        "write_memory"@.len() == 12 && "write_memory"@[0] == 'w',
        "edit_file"@.len() == 9 && "edit_file"@[0] == 'e',
        "multi_edit"@.len() == 10 && "multi_edit"@[0] == 'm',
        "apply_patch"@.len() == 11 && "apply_patch"@[0] == 'a' && "read_memory"@[0] == 'r',
        "apply_patch_freeform"@.len() == 20,
        "apply_patch_structured"@.len() == 22,
        "web_fetch"@.len() == 9 && "web_fetch"@[0] == 'w',
        "bash_kill"@.len() == 9 && "bash_kill"@[0] == 'b',
{
    reveal_strlit("bash");
    reveal_strlit("read_file");
    reveal_strlit("glob");
    reveal_strlit("grep");
    reveal_strlit("read_memory");
    reveal_strlit("list_dir");
    reveal_strlit("write_file");
    reveal_strlit("write_memory");
    reveal_strlit("edit_file");
    reveal_strlit("multi_edit");
    reveal_strlit("apply_patch");
    reveal_strlit("apply_patch_freeform");
    reveal_strlit("apply_patch_structured");
    reveal_strlit("web_fetch");
    reveal_strlit("bash_kill");
}

/// The flags that writing at a path adds.
pub open spec fn earns(path: Seq<char>, flag: RiskFlag) -> bool {
    let name = last_part(path);
    let env = name == ".env"@ || text::starts_with(name, ".env."@);
    match flag {
        RiskFlag::WriteOutsideWorkspace => text::starts_with(path, "/"@) || text::contains(
            path,
            ".."@,
        ),
        RiskFlag::GitDirectory => text::contains(path, ".git/"@) || path == ".git"@,
        RiskFlag::EnvFile => env,
        RiskFlag::Dotfile => text::starts_with(name, "."@) && !env,
        _ => false,
    }
}

proof fn lemma_write_flags(flags: Seq<RiskFlag>, path: Seq<char>)
    ensures
        forall|flag: RiskFlag|
            #[trigger] write_flags(flags, path).contains(flag) <==> flags.contains(flag) || earns(
                path,
                flag,
            ),
{
    assert forall|flags: Seq<RiskFlag>, cond: bool, flag: RiskFlag, other: RiskFlag|
        #[trigger] flagged_if(flags, cond, flag).contains(other) <==> flags.contains(other) || (
        cond && flag == other) by {
        lemma_flagged_if(flags, cond, flag, other);
    }
    let name = last_part(path);
    let f1 = flagged_if(flags, outside(path), RiskFlag::WriteOutsideWorkspace);
    let f2 = flagged_if(
        f1,
        text::contains(path, ".git/"@) || path == ".git"@,
        RiskFlag::GitDirectory,
    );
    assert(flagged(f2, RiskFlag::EnvFile) == flagged_if(f2, true, RiskFlag::EnvFile));
}

proof fn lemma_all_write_flags(flags: Seq<RiskFlag>, paths: Seq<Seq<char>>, flag: RiskFlag)
    ensures
        all_write_flags(flags, paths).contains(flag) <==> flags.contains(flag) || exists|i: int|
            0 <= i < paths.len() && earns(#[trigger] paths[i], flag),
    decreases paths.len(),
{
    if paths.len() > 0 {
        let front = paths.drop_last();
        lemma_all_write_flags(flags, front, flag);
        lemma_write_flags(all_write_flags(flags, front), paths.last());
        if exists|i: int| 0 <= i < front.len() && earns(#[trigger] front[i], flag) {
            let i = choose|i: int| 0 <= i < front.len() && earns(#[trigger] front[i], flag);
            assert(earns(paths[i], flag));
        }
        if exists|i: int| 0 <= i < paths.len() && earns(#[trigger] paths[i], flag) {
            let i = choose|i: int| 0 <= i < paths.len() && earns(#[trigger] paths[i], flag);
            if i < front.len() {
                assert(earns(front[i], flag));
            }
        }
        if earns(paths.last(), flag) {
            assert(earns(paths[paths.len() - 1], flag));
        }
    }
}

/// A call that reads at a path is flagged exactly when the path is absolute or has two
/// dots in it.
pub proof fn reads_are_flagged_by_their_path(call: CallView, lower: Seq<char>, path: Seq<char>)
    requires
        call.name == "read_file"@ || call.name == "glob"@ || call.name == "grep"@ || call.name
            == "read_memory"@ || call.name == "list_dir"@,
        json::text_field(call.input, "path"@) == Some(path),
    ensures
        call_flags(call, lower) == (if text::starts_with(path, "/"@) || text::contains(path, ".."@) {
            seq![RiskFlag::ReadOutsideWorkspace]
        } else {
            seq![]
        }),
{
    lemma_tool_words();
    assert(seq![].push(RiskFlag::ReadOutsideWorkspace) =~= seq![RiskFlag::ReadOutsideWorkspace]);
}

/// Fetching a page is always flagged as reaching the network.
pub proof fn fetching_reaches_the_network(call: CallView, lower: Seq<char>)
    requires
        call.name == "web_fetch"@,
    ensures
        call_flags(call, lower) == seq![RiskFlag::NetworkAccess],
{
    lemma_tool_words();
}

proof fn lemma_line_paths(lines: Seq<Seq<char>>, i: int, path: Seq<char>)
    requires
        0 <= i < lines.len(),
        line_path(lines[i]) == Some(path),
    ensures
        line_paths(lines).contains(path),
    decreases lines.len(),
{
    let before = line_paths(lines.drop_last());
    let all = line_paths(lines);
    if i < lines.len() - 1 {
        lemma_line_paths(lines.drop_last(), i, path);
        let k = choose|k: int| 0 <= k < before.len() && before[k] == path;
        assert(all[k] == path);
    } else {
        assert(all[before.len() as int] == path);
    }
}

/// A patch is flagged for every path that one of its lines names, be it added, updated or
/// deleted: as a call that writes at that path would be.
pub proof fn patches_are_flagged_for_every_path(
    call: CallView,
    lower: Seq<char>,
    patch: Seq<char>,
    i: int,
    phrase: Seq<char>,
    path: Seq<char>,
    name: Seq<char>,
)
    requires
        call.name == "apply_patch"@ || call.name == "apply_patch_freeform"@,
        json::text_field(call.input, "patch"@) == Some(patch),
        0 <= i < text::lines(patch).len(),
        text::lines(patch)[i] == phrase + path,
        phrase == "*** Add File: "@ || phrase == "*** Update File: "@ || phrase
            == "*** Delete File: "@ || phrase == "--- a/"@ || phrase == "+++ b/"@,
        path.len() > 0 && text::trimmed(path) == path && path != "/dev/null"@,
        is_last_part(path, name),
    ensures
        ({
            let flags = call_flags(call, lower);
            let env = name == ".env"@ || text::starts_with(name, ".env."@);
            &&& text::starts_with(path, "/"@) || text::contains(path, ".."@) ==> flags.contains(
                RiskFlag::WriteOutsideWorkspace,
            )
            &&& text::contains(path, ".git/"@) || path == ".git"@ ==> flags.contains(
                RiskFlag::GitDirectory,
            )
            &&& env ==> flags.contains(RiskFlag::EnvFile)
            &&& text::starts_with(name, "."@) && !env ==> flags.contains(RiskFlag::Dotfile)
        }),
{
    lemma_tool_words();
    lemma_last_part(path, name);
    let line = text::lines(patch)[i];
    reveal_strlit("*** Add File: ");
    reveal_strlit("*** Update File: ");
    reveal_strlit("*** Delete File: ");
    reveal_strlit("--- a/");
    reveal_strlit("+++ b/");
    assert(line.subrange(0, phrase.len() as int) =~= phrase);
    assert(line.skip(phrase.len() as int) =~= path);
    assert(line[0] == phrase[0] && line[4] == phrase[4]);
    assert(text::starts_with(line, "*** Add File: "@) ==> line[4] == 'A') by {
        if text::starts_with(line, "*** Add File: "@) {
            assert(line.subrange(0, "*** Add File: "@.len() as int)[4] == 'A');
        }
    }
    assert(text::starts_with(line, "*** Update File: "@) ==> line[4] == 'U') by {
        if text::starts_with(line, "*** Update File: "@) {
            assert(line.subrange(0, "*** Update File: "@.len() as int)[4] == 'U');
        }
    }
    assert(text::starts_with(line, "*** Delete File: "@) ==> line[4] == 'D') by {
        if text::starts_with(line, "*** Delete File: "@) {
            assert(line.subrange(0, "*** Delete File: "@.len() as int)[4] == 'D');
        }
    }
    assert(text::starts_with(line, "--- a/"@) ==> line[0] == '-') by {
        if text::starts_with(line, "--- a/"@) {
            assert(line.subrange(0, "--- a/"@.len() as int)[0] == '-');
        }
    }
    assert(line_path(line) == Some(path));
    lemma_line_paths(text::lines(patch), i, path);
    let paths = paths_in_patch(patch);
    let k = choose|k: int| 0 <= k < paths.len() && paths[k] == path;
    assert forall|flag: RiskFlag| earns(path, flag) implies #[trigger] call_flags(
        call,
        lower,
    ).contains(flag) by {
        lemma_all_write_flags(seq![], paths, flag);
        assert(earns(paths[k], flag));
    }
}

proof fn lemma_operation_paths(operations: Seq<JsonView>, i: int, path: Seq<char>)
    requires
        0 <= i < operations.len(),
        json::text_field(operations[i], "path"@) == Some(path) || json::text_field(
            operations[i],
            "from"@,
        ) == Some(path) || json::text_field(operations[i], "to"@) == Some(path),
    ensures
        operation_paths(operations).contains(path),
    decreases operations.len(),
{
    let before = operation_paths(operations.drop_last());
    let o = operations.last();
    let p1 = opt_path(before, json::text_field(o, "path"@));
    let p2 = opt_path(p1, json::text_field(o, "from"@));
    let all = operation_paths(operations);
    if i < operations.len() - 1 {
        lemma_operation_paths(operations.drop_last(), i, path);
        let k = choose|k: int| 0 <= k < before.len() && before[k] == path;
        assert(all[k] == path);
    } else if json::text_field(o, "path"@) == Some(path) {
        assert(all[before.len() as int] == path);
    } else if json::text_field(o, "from"@) == Some(path) {
        assert(all[p1.len() as int] == path);
    } else {
        assert(all[p2.len() as int] == path);
    }
}

/// A structured patch is flagged for every path that one of its operations names, also
/// for both paths of a rename.
pub proof fn structured_patches_are_flagged_for_every_path(
    call: CallView,
    lower: Seq<char>,
    operations: Seq<JsonView>,
    i: int,
    path: Seq<char>,
    name: Seq<char>,
)
    requires
        call.name == "apply_patch_structured"@,
        json::items_field(call.input, "operations"@) == Some(operations),
        0 <= i < operations.len(),
        json::text_field(operations[i], "path"@) == Some(path) || json::text_field(
            operations[i],
            "from"@,
        ) == Some(path) || json::text_field(operations[i], "to"@) == Some(path),
        is_last_part(path, name),
    ensures
        ({
            let flags = call_flags(call, lower);
            let env = name == ".env"@ || text::starts_with(name, ".env."@);
            &&& text::starts_with(path, "/"@) || text::contains(path, ".."@) ==> flags.contains(
                RiskFlag::WriteOutsideWorkspace,
            )
            &&& text::contains(path, ".git/"@) || path == ".git"@ ==> flags.contains(
                RiskFlag::GitDirectory,
            )
            &&& env ==> flags.contains(RiskFlag::EnvFile)
            &&& text::starts_with(name, "."@) && !env ==> flags.contains(RiskFlag::Dotfile)
        }),
{
    lemma_tool_words();
    lemma_last_part(path, name);
    lemma_operation_paths(operations, i, path);
    let paths = operation_paths(operations);
    let k = choose|k: int| 0 <= k < paths.len() && paths[k] == path;
    assert forall|flag: RiskFlag| earns(path, flag) implies #[trigger] call_flags(
        call,
        lower,
    ).contains(flag) by {
        lemma_all_write_flags(seq![], paths, flag);
        assert(earns(paths[k], flag));
    }
}

/// When the user is asked about a call: never where a rule allows it; otherwise always,
/// never, for calls with a flag, or also for those that change something, as the policy
/// has it.
pub proof fn the_policy_says_when_to_ask(
    service: PermissionsView,
    flags: Seq<RiskFlag>,
    call: CallView,
)
    ensures
        forall|policy: ApprovalPolicy|
            any_allows(service.rules, call) ==> !#[trigger] asks(service, policy, flags, call),
        !any_allows(service.rules, call) ==> {
            &&& asks(service, ApprovalPolicy::Always, flags, call)
            &&& !asks(service, ApprovalPolicy::Never, flags, call)
            &&& !asks(service, ApprovalPolicy::OnFailure, flags, call)
            &&& asks(service, ApprovalPolicy::OnRequest, flags, call) <==> flags.len() > 0
            &&& asks(service, ApprovalPolicy::Mutating, flags, call) <==> flags.len() > 0
                || call.name == "write_file"@ || call.name == "write_memory"@ || call.name
                == "edit_file"@ || call.name == "multi_edit"@ || call.name == "apply_patch"@
                || call.name == "apply_patch_freeform"@ || call.name == "apply_patch_structured"@
                || call.name == "bash_kill"@ || call.name == "bash"@
        },
{
}

/// A rule on the beginning of commands allows every command that begins with it, apart
/// from white space, and no call of another tool.
pub proof fn a_prefix_rule_allows_what_begins_with_it(
    rule: RuleView,
    call: CallView,
    blanks: Seq<char>,
    rest: Seq<char>,
)
    requires
        rule.kind == AllowRuleKind::BashPrefix,
        rule.value.len() > 0 && !text::is_space(rule.value[0]),
        forall|i: int| 0 <= i < blanks.len() ==> text::is_space(#[trigger] blanks[i]),
    ensures
        call.name == "bash"@ && json::text_field(call.input, "command"@) == Some(
            blanks + rest,
        ) && rest.len() > 0 && !text::is_space(rest[0]) ==> (allows(rule, call)
            <==> rule.value.is_prefix_of(rest)),
        call.name != "bash"@ ==> !allows(rule, call),
{
    let command = blanks + rest;
    if rest.len() > 0 && !text::is_space(rest[0]) {
        lemma_trim_blanks(blanks, rest);
        if rule.value.is_prefix_of(rest) {
            assert(rest.subrange(0, rule.value.len() as int) =~= rule.value);
        }
        if text::starts_with(rest, rule.value) {
            assert forall|i: int| 0 <= i < rule.value.len() implies rule.value[i] == rest[i] by {
                assert(rest.subrange(0, rule.value.len() as int)[i] == rest[i]);
            }
        }
    }
}

proof fn lemma_trim_blanks(blanks: Seq<char>, rest: Seq<char>)
    requires
        forall|i: int| 0 <= i < blanks.len() ==> text::is_space(#[trigger] blanks[i]),
        rest.len() > 0,
        !text::is_space(rest[0]),
    ensures
        text::trim_start(blanks + rest, CharClass::Space) == rest,
    decreases blanks.len(),
{
    let s = blanks + rest;
    if blanks.len() == 0 {
        assert(s =~= rest);
    } else {
        assert(text::is_space(blanks[0]));
        let fewer = blanks.skip(1);
        assert forall|i: int| 0 <= i < fewer.len() implies text::is_space(#[trigger] fewer[i]) by {
            assert(text::is_space(blanks[i + 1]));
        }
        lemma_trim_blanks(fewer, rest);
        assert(s.skip(1) =~= fewer + rest);
    }
}

/// A rule on paths speaks of the calls that write files, and allows every path that
/// begins with it; it allows nothing that reads or runs.
pub proof fn a_path_rule_allows_what_lies_below_it(
    rule: RuleView,
    call: CallView,
    rest: Seq<char>,
)
    requires
        rule.kind == AllowRuleKind::PathWrite,
    ensures
        (call.name == "write_file"@ || call.name == "write_memory"@ || call.name == "edit_file"@
            || call.name == "multi_edit"@ || call.name == "apply_patch"@ || call.name
            == "apply_patch_freeform"@ || call.name == "apply_patch_structured"@)
            && json::text_field(call.input, "path"@) == Some(rule.value + rest) ==> allows(
            rule,
            call,
        ),
        call.name == "bash"@ || call.name == "read_file"@ || call.name == "glob"@ || call.name
            == "grep"@ || call.name == "list_dir"@ || call.name == "web_fetch"@ || call.name
            == "bash_kill"@ || json::text_field(call.input, "path"@) is None ==> !allows(
            rule,
            call,
        ),
{
    lemma_tool_words();
    assert((rule.value + rest).subrange(0, rule.value.len() as int) =~= rule.value);
}

/// A rule of regular expressions allows a call of the shell exactly when the command
/// matches; a rule on names goes by the name of the tool alone.
pub proof fn other_rules_go_by_their_match(rule: RuleView, call: CallView, command: Seq<char>)
    ensures
        rule.kind == AllowRuleKind::BashRegex && call.name == "bash"@ && json::text_field(
            call.input,
            "command"@,
        ) == Some(command) ==> (allows(rule, call) <==> text::regex_matches(rule.value, command)
            == Some(true)),
        rule.kind == AllowRuleKind::BashRegex && call.name != "bash"@ ==> !allows(rule, call),
        rule.kind == AllowRuleKind::ToolName ==> (allows(rule, call) <==> wildcard::wild(
            rule.value,
            call.name,
        )),
{
}

/// The rule that is kept for a shell command is on its program, the first word; for any
/// other call it is on the name of the tool.
pub proof fn the_kept_rule_is_on_the_program(
    call: CallView,
    program: Seq<char>,
    c: char,
    rest: Seq<char>,
)
    requires
        program.len() > 0,
        forall|i: int| 0 <= i < program.len() ==> !text::is_space(#[trigger] program[i]),
        text::is_space(c),
    ensures
        call.name == "bash"@ && (json::text_field(call.input, "command"@) == Some(program)
            || json::text_field(call.input, "command"@) == Some(program.push(c) + rest))
            ==> kept_rule(call) == (RuleView { kind: AllowRuleKind::BashPrefix, value: program }),
        call.name != "bash"@ ==> kept_rule(call) == (RuleView {
            kind: AllowRuleKind::ToolName,
            value: call.name,
        }),
{
    assert(text::free_of(program, CharClass::Space));
    text::a_text_without_spaces_is_one_word(program);
    text::words_come_apart(program, c, rest);
}

/// An answer settles the question that it answers and no other. A call that is allowed
/// once leaves no trace, one that is denied is remembered and changes no rule, and one
/// that is allowed always is not remembered as denied.
pub proof fn an_answer_settles_one_question(
    service: PermissionsView,
    id: PermissionRequestId,
    other: PermissionRequestId,
    decision: PermissionDecision,
    call: CallView,
)
    requires
        other != id,
    ensures
        ({
            let after = resolved(service, id, decision, call);
            let print = if service.pending.dom().contains(id) {
                service.pending[id].fingerprint
            } else {
                fingerprint(call)
            };
            &&& !after.pending.dom().contains(id)
            &&& after.pending.dom().contains(other) == service.pending.dom().contains(other)
            &&& service.pending.dom().contains(other) ==> after.pending[other]
                == service.pending[other]
            &&& decision == PermissionDecision::Allow ==> after.rules == service.rules
                && after.denied == service.denied
            &&& decision == PermissionDecision::Deny ==> after.rules == service.rules && (
            forall|p: Seq<char>| #[trigger]
                after.denied.contains(p) <==> service.denied.contains(p) || p == print)
            &&& decision == PermissionDecision::AllowAlways ==> after.denied == service.denied
                && after.rules.contains(kept_rule(call))
        }),
{
    let after = resolved(service, id, decision, call);
    let rule = kept_rule(call);
    if decision == PermissionDecision::AllowAlways && !service.rules.contains(rule) {
        assert(after.rules[service.rules.len() as int] == rule);
    }
}

} // verus!
