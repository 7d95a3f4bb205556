//! Which files a tool call is about: the hashes that guard edits, the changes that are
//! shown before and after a call, and whether it leads outside the workspace.
use vstd::prelude::*;

use crate::json;
use crate::json::{Json, JsonView};
use crate::runtime::call;
use crate::runtime::call::{
    CallView,
    ExecErrorView,
    ParsedToolCall,
    ToolAction,
    ToolActionView,
    ToolExecError,
};
use crate::runtime::diff;
use crate::runtime::diff::{DiffLineView, GeneratedDiffLineKind};
use crate::runtime::events;
use crate::runtime::events::{DiagnosticFile, DiagnosticView, PatchFile, PatchFileView};
use crate::runtime::risk;
use crate::runtime::types::RiskFlag;
use crate::text;
use crate::text_laws;
use crate::textmap;
use crate::textmap::TextMap;
use crate::tools::error::{ToolError, ToolErrorView};
use crate::tools::line_patch;
use crate::tools::paths;

verus! {

// ---------------------------------------------------------------------------
// Paths
// ---------------------------------------------------------------------------

/// The first of three members that is there, if it is a text.
pub open spec fn first_text(
    v: JsonView,
    a: Seq<char>,
    b: Seq<char>,
    c: Seq<char>,
) -> Option<Seq<char>> {
    if json::field(v, a) is Some {
        json::text_field(v, a)
    } else if json::field(v, b) is Some {
        json::text_field(v, b)
    } else {
        json::text_field(v, c)
    }
}

/// The paths that the operations of a structured patch are about.
pub open spec fn structured_paths(operations: Seq<JsonView>) -> Seq<Seq<char>>
    decreases operations.len(),
{
    if operations.len() == 0 {
        seq![]
    } else {
        risk::opt_path(
            structured_paths(operations.drop_last()),
            first_text(operations.last(), "path"@, "from"@, "to"@),
        )
    }
}

/// The paths that the input of `apply_patch` names: those in its patch text, where there is
/// one, and else those of its operations.
pub open spec fn apply_patch_paths(input: JsonView) -> Seq<Seq<char>> {
    match (json::text_field(input, "patch"@), json::items_field(input, "operations"@)) {
        (Some(patch), _) => risk::paths_in_patch(patch),
        (None, Some(operations)) => risk::operation_paths(operations),
        (None, None) => seq![],
    }
}

/// The paths of the files that a call changes.
pub open spec fn target_paths(call: CallView) -> Seq<Seq<char>> {
    if call.name == "write_file"@ || call.name == "edit_file"@ || call.name == "multi_edit"@ {
        match json::text_field(call.input, "path"@) {
            Some(path) => seq![path],
            None => seq![],
        }
    } else if call.name == "apply_patch_structured"@ {
        match json::items_field(call.input, "operations"@) {
            Some(operations) => structured_paths(operations),
            None => seq![],
        }
    } else if call.name == "apply_patch"@ {
        apply_patch_paths(call.input)
    } else {
        seq![]
    }
}

fn first_string(v: &Json, a: &str, b: &str, c: &str) -> (r: Option<String>)
    ensures
        text::opt(r) == first_text(v@, a@, b@, c@),
{
    if v.get(a).is_some() {
        v.get_string(a)
    } else if v.get(b).is_some() {
        v.get_string(b)
    } else {
        v.get_string(c)
    }
}

fn structured_patch_paths(operations: &Vec<Json>) -> (paths: Vec<String>)
    ensures
        text::views(paths@) == structured_paths(json::array_view(operations@)),
{
    let ghost all = json::array_view(operations@);
    proof {
        json::lemma_array_view(operations@);
    }
    let mut paths: Vec<String> = Vec::new();
    let mut i: usize = 0;
    assert(text::views(paths@) =~= structured_paths(all.take(0)));
    while i < operations.len()
        invariant
            i <= operations@.len(),
            all.len() == operations@.len(),
            forall|k: int| 0 <= k < all.len() ==> #[trigger] all[k] == operations@[k]@,
            text::views(paths@) == structured_paths(all.take(i as int)),
        decreases operations@.len() - i,
    {
        assert(all.take(i + 1).drop_last() =~= all.take(i as int));
        assert(all.take(i + 1).last() == operations@[i as int]@);
        match first_string(&operations[i], "path", "from", "to") {
            Some(p) => {
                let ghost before = text::views(paths@);
                let ghost shown = p@;
                paths.push(p);
                assert(text::views(paths@) =~= before.push(shown));
            },
            None => {},
        }
        i += 1;
    }
    assert(all.take(i as int) =~= all);
    paths
}

/// The paths that the input of `apply_patch` names.
pub fn paths_of_patch_input(input: &Json) -> (paths: Vec<String>)
    ensures
        text::views(paths@) == apply_patch_paths(input@),
{
    if let Some(patch) = input.get_string("patch") {
        return risk::patch_paths(patch.as_str());
    }
    match input.get_array("operations") {
        Some(operations) => risk::paths_of_operations(operations),
        None => {
            let none: Vec<String> = Vec::new();
            assert(text::views(none@) =~= seq![]);
            none
        },
    }
}

/// The paths of the files that the call changes.
pub fn tool_target_paths(call: &ParsedToolCall) -> (paths: Vec<String>)
    ensures
        text::views(paths@) == target_paths(call@),
{
    let name = call.name.as_str();
    let none: Vec<String> = Vec::new();
    assert(text::views(none@) =~= seq![]);
    if text::same(name, "write_file") || text::same(name, "edit_file") || text::same(
        name,
        "multi_edit",
    ) {
        match call.input.get_str("path") {
            Some(path) => text::list1(path),
            None => none,
        }
    } else if text::same(name, "apply_patch_structured") {
        match call.input.get_array("operations") {
            Some(operations) => structured_patch_paths(operations),
            None => none,
        }
    } else if text::same(name, "apply_patch") {
        paths_of_patch_input(&call.input)
    } else {
        none
    }
}

pub open spec fn has_dotdot(ps: Seq<Seq<char>>) -> bool {
    ps.contains(".."@)
}

/// The file in the workspace that a plain relative path means; an absolute path, or one
/// with a `..`, means none.
pub open spec fn plain_target(root: Seq<char>, path: Seq<char>) -> Option<Seq<char>> {
    if paths::is_absolute(path) || has_dotdot(paths::parts(path)) {
        None
    } else {
        Some(paths::joined(root, text::join(paths::parts(path), "/"@)))
    }
}

/// The file in the workspace that the plain relative path means.
pub fn resolve_workspace_path(root: &str, path: &str) -> (r: Option<String>)
    ensures
        text::opt(r) == plain_target(root@, path@),
{
    if text::has_prefix(path, "/") {
        proof {
            reveal_strlit("/");
            assert(path@.subrange(0, 1)[0] == path@[0]);
        }
        return None;
    }
    assert(!paths::is_absolute(path@)) by {
        reveal_strlit("/");
        if paths::is_absolute(path@) {
            assert(path@.subrange(0, 1) =~= "/"@);
        }
    }
    let ps = paths::parts_of(path);
    let ghost all = text::views(ps@);
    let mut i: usize = 0;
    while i < ps.len()
        invariant
            i <= ps@.len(),
            all == text::views(ps@),
            all == paths::parts(path@),
            !paths::is_absolute(path@),
            forall|k: int| 0 <= k < i ==> #[trigger] all[k] != ".."@,
        decreases ps@.len() - i,
    {
        if text::same(ps[i].as_str(), "..") {
            assert(all[i as int] == ".."@);
            return None;
        }
        assert(all[i as int] != ".."@);
        i += 1;
    }
    let rest = text::join_strings(ps.as_slice(), "/");
    Some(paths::join_path(root, rest.as_str()))
}

// ---------------------------------------------------------------------------
// Outside the workspace
// ---------------------------------------------------------------------------

/// The first of the paths that may lead outside the workspace.
pub open spec fn first_outside(ps: Seq<Seq<char>>) -> Option<Seq<char>>
    decreases ps.len(),
{
    if ps.len() == 0 {
        None
    } else if risk::outside(ps[0]) {
        Some(ps[0])
    } else {
        first_outside(ps.skip(1))
    }
}

/// The path by which a call may lead outside the workspace.
pub open spec fn outside_path(call: CallView) -> Option<Seq<char>> {
    if call.name == "read_file"@ || call.name == "glob"@ || call.name == "grep"@ || call.name
        == "list_dir"@ || call.name == "write_file"@ || call.name == "edit_file"@ || call.name
        == "multi_edit"@ {
        match json::text_field(call.input, "path"@) {
            Some(path) if risk::outside(path) => Some(path),
            _ => None,
        }
    } else if call.name == "apply_patch_structured"@ {
        match json::items_field(call.input, "operations"@) {
            Some(operations) => first_outside(risk::operation_paths(operations)),
            None => None,
        }
    } else {
        None
    }
}

fn find_outside(ps: &Vec<String>) -> (r: Option<String>)
    ensures
        text::opt(r) == first_outside(text::views(ps@)),
{
    let ghost all = text::views(ps@);
    let mut i: usize = 0;
    assert(all.skip(0) =~= all);
    while i < ps.len()
        invariant
            i <= ps@.len(),
            all == text::views(ps@),
            first_outside(all) == first_outside(all.skip(i as int)),
        decreases ps@.len() - i,
    {
        assert(all.skip(i as int).skip(1) =~= all.skip(i + 1));
        assert(all.skip(i as int)[0] == ps@[i as int]@);
        if risk::is_outside_workspace(ps[i].as_str()) {
            return Some(ps[i].clone());
        }
        i += 1;
    }
    None
}

/// The path by which the call may lead outside the workspace.
pub fn get_outside_path(call: &ParsedToolCall) -> (r: Option<String>)
    ensures
        text::opt(r) == outside_path(call@),
{
    let name = call.name.as_str();
    if text::same(name, "read_file") || text::same(name, "glob") || text::same(name, "grep")
        || text::same(name, "list_dir") || text::same(name, "write_file") || text::same(
        name,
        "edit_file",
    ) || text::same(name, "multi_edit") {
        match call.input.get_string("path") {
            Some(path) => if risk::is_outside_workspace(path.as_str()) {
                Some(path)
            } else {
                None
            },
            None => None,
        }
    } else if text::same(name, "apply_patch_structured") {
        match call.input.get_array("operations") {
            Some(operations) => find_outside(&risk::paths_of_operations(operations)),
            None => None,
        }
    } else {
        None
    }
}

/// The flags of commands that the sandbox would hinder.
pub open spec fn unlocks(flag: RiskFlag) -> bool {
    flag == RiskFlag::WriteOutsideWorkspace || flag == RiskFlag::Sudo || flag
        == RiskFlag::NetworkAccess || flag == RiskFlag::PackagePublish
}

/// Whether a call, once approved, runs without the confinement to the workspace.
pub open spec fn needs_unlocked(call: CallView, flags: Seq<RiskFlag>) -> bool {
    outside_path(call) is Some || (call.name == "bash"@ && exists|i: int|
        0 <= i < flags.len() && unlocks(#[trigger] flags[i]))
}

/// Whether the call, once approved, runs without the confinement to the workspace.
pub fn execution_needs_unlocked_access(call: &ParsedToolCall, risk_flags: &Vec<RiskFlag>) -> (r:
    bool)
    ensures
        r == needs_unlocked(call@, risk_flags@),
{
    if get_outside_path(call).is_some() {
        return true;
    }
    if !text::same(call.name.as_str(), "bash") {
        return false;
    }
    let mut i: usize = 0;
    while i < risk_flags.len()
        invariant
            i <= risk_flags@.len(),
            call@.name == "bash"@,
            forall|k: int| 0 <= k < i ==> !unlocks(#[trigger] risk_flags@[k]),
        decreases risk_flags@.len() - i,
    {
        let flag = risk_flags[i];
        if flag == RiskFlag::WriteOutsideWorkspace || flag == RiskFlag::Sudo || flag
            == RiskFlag::NetworkAccess || flag == RiskFlag::PackagePublish {
            assert(unlocks(risk_flags@[i as int]));
            return true;
        }
        i += 1;
    }
    false
}

/// Whether output in lower case tells that the sandbox stopped a command.
pub open spec fn tells_denial(lower: Seq<char>) -> bool {
    ||| text::contains(lower, "operation not permitted"@)
    ||| text::contains(lower, "sandbox"@)
    ||| text::contains(lower, "deny"@)
    ||| text::contains(lower, "not allowed"@)
}

/// Whether a command seems to have been stopped by the sandbox, given its output in
/// lower case.
pub open spec fn sandbox_denied(
    enforced: bool,
    name: Seq<char>,
    exit_code: Option<i32>,
    lower: Seq<char>,
) -> bool {
    name == "bash"@ && enforced && exit_code != Some(0i32) && tells_denial(lower)
}

/// Whether the command seems to have been stopped by the sandbox, given its output in
/// lower case.
pub fn sandbox_denied_lowered(
    enforced: bool,
    name: &str,
    exit_code: Option<i32>,
    lower: &str,
) -> (r: bool)
    ensures
        r == sandbox_denied(enforced, name@, exit_code, lower@),
{
    let failed = match exit_code {
        Some(code) => code != 0,
        None => true,
    };
    text::same(name, "bash") && enforced && failed && (text::holds_text(
        lower,
        "operation not permitted",
    ) || text::holds_text(lower, "sandbox") || text::holds_text(lower, "deny")
        || text::holds_text(lower, "not allowed"))
}

/// Whether the command seems to have been stopped by the sandbox.
pub fn sandbox_denied_result(enforced: bool, name: &str, exit_code: Option<i32>, output: &str)
    -> (r: bool)
    ensures
        r == sandbox_denied(enforced, name@, exit_code, text::lowercase(output@)),
{
    let lower = text::lowercase_of(output);
    sandbox_denied_lowered(enforced, name, exit_code, lower.as_str())
}

// ---------------------------------------------------------------------------
// Hashes
// ---------------------------------------------------------------------------

/// An input without the hashes that a model may have put there.
pub open spec fn stripped(v: JsonView) -> JsonView
    decreases v,
{
    match v {
        JsonView::Object(m) => {
            let plain = m.remove("expected_hash"@);
            if m.dom().contains("operations"@) {
                match m["operations"@] {
                    JsonView::Array(items) => JsonView::Object(
                        plain.insert("operations"@, JsonView::Array(all_stripped(items))),
                    ),
                    _ => JsonView::Object(plain),
                }
            } else {
                JsonView::Object(plain)
            }
        },
        _ => v,
    }
}

pub open spec fn all_stripped(items: Seq<JsonView>) -> Seq<JsonView>
    decreases items,
{
    if items.len() == 0 {
        seq![]
    } else {
        all_stripped(items.drop_last()).push(stripped(items.last()))
    }
}

/// The key of a file in the cache of hashes: its path in the workspace.
pub open spec fn cache_key(root: Seq<char>, canonical: Seq<char>) -> Option<Seq<char>> {
    if paths::inside(root, canonical) {
        Some(text::replace(paths::shown(root, canonical), "\\"@, "/"@))
    } else {
        None
    }
}

/// The key in the cache of hashes of the file with the given canonical path.
pub fn workspace_relative_key(root: &str, canonical: &str) -> (r: Option<String>)
    ensures
        text::opt(r) == cache_key(root@, canonical@),
{
    if !paths::is_inside(root, canonical) {
        return None;
    }
    proof {
        reveal_strlit("\\");
    }
    let shown = paths::relative_path(root, canonical);
    Some(text::replace_text(shown.as_str(), "\\", "/"))
}

/// The path in an operation of a structured patch whose hash is looked up.
pub open spec fn hashed_path(operation: JsonView) -> Option<Seq<char>> {
    if json::field(operation, "path"@) is Some {
        json::text_field(operation, "path"@)
    } else {
        json::text_field(operation, "from"@)
    }
}

pub open spec fn with_hash(v: JsonView, hash: Option<Seq<char>>) -> JsonView {
    match hash {
        Some(h) => v.with("expected_hash"@, JsonView::Text(h)),
        None => v,
    }
}

/// The hash of the file at a path, where one is known: the path leads to the key of the
/// file, and the key to the hash.
pub open spec fn known_hash(
    path: Option<Seq<char>>,
    keys: Map<Seq<char>, Seq<char>>,
    hashes: Map<Seq<char>, Seq<char>>,
) -> Option<Seq<char>> {
    match path {
        Some(p) => match textmap::lookup(keys, p) {
            Some(key) => textmap::lookup(hashes, key),
            None => None,
        },
        None => None,
    }
}

pub open spec fn operations_hashed(
    operations: Seq<JsonView>,
    keys: Map<Seq<char>, Seq<char>>,
    hashes: Map<Seq<char>, Seq<char>>,
) -> Seq<JsonView> {
    operations.map_values(
        |o: JsonView| with_hash(o, known_hash(hashed_path(o), keys, hashes)),
    )
}

/// An input with the hashes that its edits expect, given the keys of the files by their
/// paths, and the hashes by key.
pub open spec fn hashed(
    name: Seq<char>,
    input: JsonView,
    keys: Map<Seq<char>, Seq<char>>,
    hashes: Map<Seq<char>, Seq<char>>,
) -> JsonView {
    if name == "edit_file"@ || name == "multi_edit"@ {
        with_hash(input, known_hash(json::text_field(input, "path"@), keys, hashes))
    } else if name == "apply_patch_structured"@ {
        match json::items_field(input, "operations"@) {
            Some(operations) => input.with(
                "operations"@,
                JsonView::Array(operations_hashed(operations, keys, hashes)),
            ),
            None => input,
        }
    } else {
        input
    }
}

spec fn stripped_map(m: Map<Seq<char>, JsonView>) -> Map<Seq<char>, JsonView> {
    stripped(JsonView::Object(m))->Object_0
}

fn strip_expected_hashes(v: &Json) -> (r: Json)
    ensures
        r@ == stripped(v@),
    decreases v,
{
    match v {
        Json::Object(members) => {
            let mut out: Vec<(String, Json)> = Vec::new();
            let mut i: usize = 0;
            let ghost all = members@;
            proof {
                reveal_strlit("expected_hash");
                reveal_strlit("operations");
                assert("expected_hash"@.len() != "operations"@.len());
                assert(all.take(0) =~= seq![]);
                assert(json::object_view(out@) =~= stripped_map(json::object_view(all.take(0))));
            }
            while i < members.len()
                invariant
                    i <= members@.len(),
                    all == members@,
                    *v == Json::Object(*members),
                    "expected_hash"@.len() != "operations"@.len(),
                    json::object_view(out@) == stripped_map(json::object_view(all.take(i as int))),
                decreases members@.len() - i,
            {
                let ghost before = out@;
                let ghost m = json::object_view(all.take(i as int));
                let ghost member = all[i as int];
                proof {
                    assert(all.take(i + 1).drop_last() =~= all.take(i as int));
                    assert(json::object_view(all.take(i + 1)) == m.insert(member.0@, member.1@));
                    assert(decreases_to!(*v => v->Object_0));
                    assert(decreases_to!(*members => members@));
                    assert(decreases_to!(members@ => members@[i as int]));
                    assert(decreases_to!(members@[i as int] => members@[i as int].1));
                }
                let name = &members[i].0;
                let inner = &members[i].1;
                if text::same(name.as_str(), "operations") {
                    let kept = match inner {
                        Json::Array(items) => {
                            assert(decreases_to!(members@[i as int].1 => members@[i as int].1->Array_0));
                            assert(decreases_to!(*items => items@));
                            strip_items(items)
                        },
                        other => other.clone(),
                    };
                    out.push((name.clone(), kept));
                    assert(out@.drop_last() =~= before);
                } else if !text::same(name.as_str(), "expected_hash") {
                    out.push((name.clone(), inner.clone()));
                    assert(out@.drop_last() =~= before);
                }
                i += 1;
                assert(json::object_view(out@) =~= stripped_map(
                    json::object_view(all.take(i as int)),
                ));
            }
            assert(all.take(i as int) =~= all);
            Json::Object(out)
        },
        other => other.clone(),
    }
}

fn strip_items(items: &Vec<Json>) -> (r: Json)
    ensures
        r@ == JsonView::Array(all_stripped(json::array_view(items@))),
    decreases items@,
{
    let ghost all = json::array_view(items@);
    proof {
        json::lemma_array_view(items@);
    }
    let mut out: Vec<Json> = Vec::new();
    let mut i: usize = 0;
    assert(all.take(0) =~= seq![]);
    assert(json::array_view(out@) =~= all_stripped(all.take(0)));
    while i < items.len()
        invariant
            i <= items@.len(),
            all.len() == items@.len(),
            forall|k: int| 0 <= k < all.len() ==> #[trigger] all[k] == items@[k]@,
            json::array_view(out@) == all_stripped(all.take(i as int)),
        decreases items@.len() - i,
    {
        let ghost before = out@;
        assert(all.take(i + 1).drop_last() =~= all.take(i as int));
        assert(decreases_to!(items@ => items@[i as int]));
        out.push(strip_expected_hashes(&items[i]));
        assert(out@.drop_last() =~= before);
        i += 1;
    }
    assert(all.take(i as int) =~= all);
    Json::Array(out)
}

fn attach_hash(v: &Json, hash: Option<String>) -> (r: Json)
    ensures
        r@ == with_hash(v@, text::opt(hash)),
{
    match hash {
        Some(h) => v.clone().with("expected_hash", Json::Text(h)),
        None => v.clone(),
    }
}

fn hash_for(path: Option<String>, keys: &TextMap, hashes: &TextMap) -> (r: Option<String>)
    ensures
        text::opt(r) == known_hash(text::opt(path), keys@, hashes@),
{
    match path {
        Some(p) => match keys.get(p.as_str()) {
            Some(key) => hashes.get(key.as_str()),
            None => None,
        },
        None => None,
    }
}

fn path_to_hash(operation: &Json) -> (r: Option<String>)
    ensures
        text::opt(r) == hashed_path(operation@),
{
    if operation.get("path").is_some() {
        operation.get_string("path")
    } else {
        operation.get_string("from")
    }
}

/// The input with the hashes that its edits expect, given the keys of the files by their
/// paths, and the hashes by key.
pub fn attach_cached_hashes(name: &str, input: &Json, keys: &TextMap, hashes: &TextMap) -> (r: Json)
    ensures
        r@ == hashed(name@, input@, keys@, hashes@),
{
    if text::same(name, "edit_file") || text::same(name, "multi_edit") {
        attach_hash(input, hash_for(input.get_string("path"), keys, hashes))
    } else if text::same(name, "apply_patch_structured") {
        match input.get_array("operations") {
            Some(operations) => {
                let ghost all = json::array_view(operations@);
                proof {
                    json::lemma_array_view(operations@);
                }
                let mut out: Vec<Json> = Vec::new();
                let mut i: usize = 0;
                while i < operations.len()
                    invariant
                        i <= operations@.len(),
                        out@.len() == i,
                        all.len() == operations@.len(),
                        forall|k: int| 0 <= k < all.len() ==> #[trigger] all[k] == operations@[k]@,
                        forall|k: int|
                            0 <= k < i ==> (#[trigger] out@[k])@ == with_hash(
                                all[k],
                                known_hash(hashed_path(all[k]), keys@, hashes@),
                            ),
                    decreases operations@.len() - i,
                {
                    let hash = hash_for(path_to_hash(&operations[i]), keys, hashes);
                    out.push(attach_hash(&operations[i], hash));
                    i += 1;
                }
                proof {
                    json::lemma_array_view(out@);
                    assert(json::array_view(out@) =~= operations_hashed(all, keys@, hashes@));
                }
                input.clone().with("operations", Json::Array(out))
            },
            None => input.clone(),
        }
    } else {
        input.clone()
    }
}

/// What is known of files by their keys: the hashes of files as they were last read or
/// written, and which files were written since they were last read.
#[derive(Debug)]
pub struct ToolHashCache {
    hashes: TextMap,
    written: TextMap,
}

/// The content of a `ToolHashCache`.
pub struct CacheView {
    pub hashes: Map<Seq<char>, Seq<char>>,
    pub written: Set<Seq<char>>,
}

impl View for ToolHashCache {
    type V = CacheView;

    closed spec fn view(&self) -> CacheView {
        CacheView { hashes: self.hashes@, written: self.written@.dom() }
    }
}

/// A call as the model sees it: without hashes.
pub open spec fn visible_call(call: CallView) -> CallView {
    CallView { input: stripped(call.input), ..call }
}

/// A call as it is carried out: with the hashes of the cache, given the keys of the files
/// by their paths.
pub open spec fn guarded_call(
    call: CallView,
    keys: Map<Seq<char>, Seq<char>>,
    cache: CacheView,
) -> CallView {
    CallView { input: hashed(call.name, stripped(call.input), keys, cache.hashes), ..call }
}

/// The cache after a file has been read: its metadata may tell the path and the hash.
pub open spec fn read_recorded(cache: CacheView, metadata: JsonView) -> CacheView {
    match json::text_field(metadata, "path"@) {
        Some(path) => CacheView {
            hashes: match json::text_field(metadata, "sha256"@) {
                Some(hash) => cache.hashes.insert(path, hash),
                None => cache.hashes,
            },
            written: cache.written.remove(path),
        },
        None => cache,
    }
}

/// The cache after the file of a key has been written: with the hash that the metadata of
/// a read tells, or without one where the file cannot be read.
pub open spec fn refreshed(cache: CacheView, key: Seq<char>, metadata: Option<JsonView>)
    -> CacheView {
    CacheView {
        hashes: match metadata {
            Some(m) => match json::text_field(m, "sha256"@) {
                Some(hash) => cache.hashes.insert(key, hash),
                None => cache.hashes,
            },
            None => cache.hashes.remove(key),
        },
        written: cache.written.insert(key),
    }
}

/// The paths of the files whose lines a call changes by their numbers.
pub open spec fn line_patched(call: CallView) -> Seq<Seq<char>> {
    if call.name == "apply_patch"@ && json::text_field(call.input, "patch"@) is None {
        apply_patch_paths(call.input)
    } else {
        seq![]
    }
}

/// Whether the file at a path was written since it was last read.
pub open spec fn is_written(
    path: Seq<char>,
    keys: Map<Seq<char>, Seq<char>>,
    written: Set<Seq<char>>,
) -> bool {
    textmap::lookup(keys, path) matches Some(key) && written.contains(key)
}

/// The first of the paths whose file was written since it was last read.
pub open spec fn first_written(
    ps: Seq<Seq<char>>,
    keys: Map<Seq<char>, Seq<char>>,
    written: Set<Seq<char>>,
) -> Option<Seq<char>>
    decreases ps.len(),
{
    if ps.len() == 0 {
        None
    } else if is_written(ps[0], keys, written) {
        Some(ps[0])
    } else {
        first_written(ps.skip(1), keys, written)
    }
}

/// The path of a file that must be read before a call: the call changes lines by their
/// numbers, and these may have moved since the file was read.
pub open spec fn read_needed(
    call: CallView,
    keys: Map<Seq<char>, Seq<char>>,
    cache: CacheView,
) -> Option<Seq<char>> {
    first_written(line_patched(call), keys, cache.written)
}

/// What is done with a call that may run: it is refused where a file must be read first,
/// and else carried out as it is guarded by the hashes.
pub open spec fn attempted(
    call: CallView,
    keys: Map<Seq<char>, Seq<char>>,
    cache: CacheView,
) -> Result<ToolActionView, ExecErrorView> {
    match read_needed(call, keys, cache) {
        Some(path) => Err(ExecErrorView::Runtime(ToolErrorView::FreshReadRequired { path })),
        None => call::tool_action(guarded_call(call, keys, cache)),
    }
}

impl ToolHashCache {
    pub fn new() -> (r: ToolHashCache)
        ensures
            r@.hashes == Map::<Seq<char>, Seq<char>>::empty(),
            r@.written == Set::<Seq<char>>::empty(),
    {
        let r = ToolHashCache { hashes: TextMap::new(), written: TextMap::new() };
        assert(r@.written =~= Set::<Seq<char>>::empty());
        r
    }

    /// The hash of the file with the given key.
    pub fn hash_of(&self, key: &str) -> (r: Option<String>)
        ensures
            text::opt(r) == textmap::lookup(self@.hashes, key@),
    {
        self.hashes.get(key)
    }

    /// The call as the model sees it.
    pub fn model_visible_call(&self, call: &ParsedToolCall) -> (r: ParsedToolCall)
        ensures
            r@ == visible_call(call@),
    {
        ParsedToolCall { name: call.name.clone(), input: strip_expected_hashes(&call.input) }
    }

    /// The call as it is carried out, given the keys of the files by their paths.
    pub fn execution_call(&self, call: &ParsedToolCall, keys: &TextMap) -> (r: ParsedToolCall)
        ensures
            r@ == guarded_call(call@, keys@, self@),
    {
        let visible = strip_expected_hashes(&call.input);
        ParsedToolCall {
            name: call.name.clone(),
            input: attach_cached_hashes(call.name.as_str(), &visible, keys, &self.hashes),
        }
    }

    /// Lets a call pass that needs no file to be read first, given the keys of the files by
    /// their paths.
    pub fn check_fresh(&self, call: &ParsedToolCall, keys: &TextMap) -> (r: Result<
        (),
        ToolExecError,
    >)
        ensures
            match r {
                Ok(_) => read_needed(call@, keys@, self@) is None,
                Err(e) => read_needed(call@, keys@, self@) matches Some(path) && e@
                    == ExecErrorView::Runtime(ToolErrorView::FreshReadRequired { path }),
            },
    {
        if !text::same(call.name.as_str(), "apply_patch") || call.input.get_str("patch").is_some() {
            return Ok(());
        }
        let ps = paths_of_patch_input(&call.input);
        let ghost all = text::views(ps@);
        let mut i: usize = 0;
        assert(all.skip(0) =~= all);
        while i < ps.len()
            invariant
                i <= ps@.len(),
                all == text::views(ps@),
                all == line_patched(call@),
                first_written(all, keys@, self@.written) == first_written(
                    all.skip(i as int),
                    keys@,
                    self@.written,
                ),
            decreases ps@.len() - i,
        {
            assert(all.skip(i as int).skip(1) =~= all.skip(i + 1));
            assert(all.skip(i as int)[0] == ps@[i as int]@);
            if let Some(key) = keys.get(ps[i].as_str()) {
                if self.written.get(key.as_str()).is_some() {
                    return Err(
                        ToolExecError::Runtime(
                            ToolError::FreshReadRequired { path: ps[i].clone() },
                        ),
                    );
                }
            }
            i += 1;
        }
        Ok(())
    }

    /// What is done with a call that may run, given the keys of the files by their paths.
    pub fn attempt(&self, call: &ParsedToolCall, keys: &TextMap) -> (r: Result<
        ToolAction,
        ToolExecError,
    >)
        ensures
            call::action_result(r) == attempted(call@, keys@, self@),
    {
        match self.check_fresh(call, keys) {
            Err(e) => Err(e),
            Ok(_) => {
                let guarded = self.execution_call(call, keys);
                call::execute_tool_call_cancellable_until(&guarded)
            },
        }
    }

    /// Notes what a call has done: what a read has told is noted at once. Of a call that
    /// changes files, the paths are returned of the files that are then to be noted by
    /// `refresh`.
    pub fn record_success(&mut self, call: &ParsedToolCall, metadata: &Json) -> (refresh: Vec<
        String,
    >)
        ensures
            call@.name == "read_file"@ ==> final(self)@ == read_recorded(old(self)@, metadata@)
                && refresh@.len() == 0,
            call@.name != "read_file"@ ==> final(self)@ == old(self)@ && text::views(refresh@)
                == target_paths(call@),
    {
        if text::same(call.name.as_str(), "read_file") {
            self.record_read(metadata);
            return Vec::new();
        }
        tool_target_paths(call)
    }

    /// Notes what a read of a file has told.
    pub fn record_read(&mut self, metadata: &Json)
        ensures
            final(self)@ == read_recorded(old(self)@, metadata@),
    {
        let ghost before = self@;
        if let Some(path) = metadata.get_string("path") {
            if let Some(hash) = metadata.get_string("sha256") {
                self.hashes.insert(path.as_str(), hash.as_str());
            }
            self.written.remove(path.as_str());
            assert(self@.written =~= before.written.remove(path@));
        }
    }

    /// Notes that the file of a key was written, and what reading it has told.
    pub fn refresh(&mut self, key: &str, metadata: Option<&Json>)
        ensures
            final(self)@ == refreshed(
                old(self)@,
                key@,
                match metadata {
                    Some(m) => Some(m@),
                    None => None,
                },
            ),
    {
        let ghost before = self@;
        match metadata {
            Some(m) => match m.get_string("sha256") {
                Some(hash) => {
                    self.hashes.insert(key, hash.as_str());
                },
                None => {},
            },
            None => {
                self.hashes.remove(key);
            },
        }
        self.written.insert(key, "");
        assert(self@.written =~= before.written.insert(key@));
    }
}

// ---------------------------------------------------------------------------
// Changes
// ---------------------------------------------------------------------------

/// A file that a call changes, and what it held before.
#[derive(Debug)]
pub struct ToolTarget {
    pub path: String,
    pub before: Option<String>,
}

/// The content of a `ToolTarget`.
pub struct TargetView {
    pub path: Seq<char>,
    pub before: Option<Seq<char>>,
}

impl View for ToolTarget {
    type V = TargetView;

    open spec fn view(&self) -> TargetView {
        TargetView { path: self.path@, before: text::opt(self.before) }
    }
}

pub open spec fn target_views(targets: Seq<ToolTarget>) -> Seq<TargetView> {
    targets.map_values(|t: ToolTarget| t@)
}

/// What a file held; a file that is missing held nothing.
pub open spec fn text_or_empty(s: Option<Seq<char>>) -> Seq<char> {
    match s {
        Some(t) => t,
        None => seq![],
    }
}

/// The edits of a list one after the other, each at the first match; nothing if an item
/// is no edit.
pub open spec fn edits_predicted(before: Seq<char>, items: Seq<JsonView>) -> Option<Seq<char>>
    decreases items.len(),
{
    if items.len() == 0 {
        Some(before)
    } else {
        match (
            edits_predicted(before, items.drop_last()),
            json::text_field(items.last(), "old"@),
            json::text_field(items.last(), "new"@),
        ) {
            (Some(t), Some(old), Some(new)) => Some(text::replace_first(t, old, new)),
            _ => None,
        }
    }
}

/// What a file will hold after a call, as far as the call tells.
pub open spec fn predicted(call: CallView, before: Seq<char>) -> Option<Seq<char>> {
    if call.name == "write_file"@ {
        json::text_field(call.input, "content"@)
    } else if call.name == "edit_file"@ {
        match (json::text_field(call.input, "old"@), json::text_field(call.input, "new"@)) {
            (Some(old), Some(new)) => Some(text::replace_first(before, old, new)),
            _ => None,
        }
    } else if call.name == "multi_edit"@ {
        match json::items_field(call.input, "edits"@) {
            Some(items) => edits_predicted(before, items),
            None => None,
        }
    } else {
        None
    }
}

/// How a file changed, if it did.
pub open spec fn file_change(path: Seq<char>, before: Seq<char>, after: Seq<char>) -> Option<
    PatchFileView,
> {
    if before == after {
        None
    } else {
        let lines = diff::diff_lines(before, after);
        Some(
            PatchFileView {
                path,
                additions: diff::count_kind(lines, GeneratedDiffLineKind::Add) as u64,
                deletions: diff::count_kind(lines, GeneratedDiffLineKind::Remove) as u64,
                diff: Some(diff::unified_text(path, lines)),
            },
        )
    }
}

pub open spec fn opt_change(
    files: Seq<PatchFileView>,
    change: Option<PatchFileView>,
) -> Seq<PatchFileView> {
    match change {
        Some(f) => files.push(f),
        None => files,
    }
}

/// How files will change by a call.
pub open spec fn preview_changes(call: CallView, targets: Seq<TargetView>) -> Seq<PatchFileView>
    decreases targets.len(),
{
    if targets.len() == 0 {
        seq![]
    } else {
        let t = targets.last();
        let before = text_or_empty(t.before);
        opt_change(
            preview_changes(call, targets.drop_last()),
            match predicted(call, before) {
                Some(after) => file_change(t.path, before, after),
                None => None,
            },
        )
    }
}

/// How files have changed, given what each holds now.
pub open spec fn actual_changes(
    targets: Seq<TargetView>,
    after: Seq<Option<Seq<char>>>,
) -> Seq<PatchFileView>
    decreases targets.len(),
{
    if targets.len() == 0 {
        seq![]
    } else {
        let t = targets.last();
        opt_change(
            actual_changes(targets.drop_last(), after),
            file_change(
                t.path,
                text_or_empty(t.before),
                text_or_empty(after[targets.len() - 1]),
            ),
        )
    }
}

fn predict_edits(before: &str, items: &Vec<Json>) -> (r: Option<String>)
    ensures
        text::opt(r) == edits_predicted(before@, json::array_view(items@)),
{
    let ghost all = json::array_view(items@);
    proof {
        json::lemma_array_view(items@);
    }
    let mut current = before.to_string();
    let mut i: usize = 0;
    assert(all.take(0) =~= seq![]);
    while i < items.len()
        invariant
            i <= items@.len(),
            all == json::array_view(items@),
            all.len() == items@.len(),
            forall|k: int| 0 <= k < all.len() ==> #[trigger] all[k] == items@[k]@,
            edits_predicted(before@, all.take(i as int)) == Some(current@),
        decreases items@.len() - i,
    {
        assert(all.take(i + 1).drop_last() =~= all.take(i as int));
        assert(all.take(i + 1).last() == items@[i as int]@);
        match (items[i].get_str("old"), items[i].get_str("new")) {
            (Some(old), Some(new)) => {
                current = text::replace_first_text(current.as_str(), old, new);
            },
            _ => {
                proof {
                    lemma_not_predicted(before@, all, i + 1);
                }
                return None;
            },
        }
        i += 1;
    }
    assert(all.take(i as int) =~= all);
    Some(current)
}

proof fn lemma_not_predicted(before: Seq<char>, items: Seq<JsonView>, n: int)
    requires
        0 <= n <= items.len(),
        edits_predicted(before, items.take(n)) is None,
    ensures
        edits_predicted(before, items) is None,
    decreases items.len() - n,
{
    if n == items.len() {
        assert(items.take(n) =~= items);
    } else {
        assert(items.take(n + 1).drop_last() =~= items.take(n));
        lemma_not_predicted(before, items, n + 1);
    }
}

/// What a file that held `before` will hold after the call, as far as the call tells.
pub fn predicted_after(call: &ParsedToolCall, before: &str) -> (r: Option<String>)
    ensures
        text::opt(r) == predicted(call@, before@),
{
    let name = call.name.as_str();
    if text::same(name, "write_file") {
        call.input.get_string("content")
    } else if text::same(name, "edit_file") {
        match (call.input.get_str("old"), call.input.get_str("new")) {
            (Some(old), Some(new)) => Some(text::replace_first_text(before, old, new)),
            _ => None,
        }
    } else if text::same(name, "multi_edit") {
        match call.input.get_array("edits") {
            Some(items) => predict_edits(before, items),
            None => None,
        }
    } else {
        None
    }
}

/// How the file changed, if it did.
pub fn patch_file(path: &str, before: &str, after: &str) -> (r: Option<PatchFile>)
    ensures
        match r {
            Some(f) => file_change(path@, before@, after@) == Some(f@),
            None => file_change(path@, before@, after@) is None,
        },
{
    if text::same(before, after) {
        return None;
    }
    let d = diff::unified_line_diff(path, before, after);
    Some(
        PatchFile {
            path: path.to_string(),
            additions: d.additions,
            deletions: d.deletions,
            diff: Some(d.text),
        },
    )
}

fn or_empty(s: &Option<String>) -> (r: String)
    ensures
        r@ == text_or_empty(text::opt(*s)),
{
    match s {
        Some(t) => t.clone(),
        None => String::new(),
    }
}

fn push_change(files: &mut Vec<PatchFile>, change: Option<PatchFile>)
    ensures
        events::patch_file_views(final(files)@) == opt_change(
            events::patch_file_views(old(files)@),
            match change {
                Some(f) => Some(f@),
                None => None,
            },
        ),
{
    match change {
        Some(f) => {
            let ghost before = events::patch_file_views(files@);
            let ghost added = f@;
            files.push(f);
            assert(events::patch_file_views(files@) =~= before.push(added));
        },
        None => {},
    }
}

/// How the files will change by the call.
pub fn preview_patch(call: &ParsedToolCall, targets: &Vec<ToolTarget>) -> (files: Vec<PatchFile>)
    ensures
        events::patch_file_views(files@) == preview_changes(call@, target_views(targets@)),
{
    let ghost all = target_views(targets@);
    let mut files: Vec<PatchFile> = Vec::new();
    let mut i: usize = 0;
    assert(events::patch_file_views(files@) =~= preview_changes(call@, all.take(0)));
    while i < targets.len()
        invariant
            i <= targets@.len(),
            all == target_views(targets@),
            events::patch_file_views(files@) == preview_changes(call@, all.take(i as int)),
        decreases targets@.len() - i,
    {
        assert(all.take(i + 1).drop_last() =~= all.take(i as int));
        assert(all.take(i + 1).last() == targets@[i as int]@);
        let before = or_empty(&targets[i].before);
        let change = match predicted_after(call, before.as_str()) {
            Some(after) => patch_file(targets[i].path.as_str(), before.as_str(), after.as_str()),
            None => None,
        };
        push_change(&mut files, change);
        i += 1;
    }
    assert(all.take(i as int) =~= all);
    files
}

pub open spec fn opt_views(texts: Seq<Option<String>>) -> Seq<Option<Seq<char>>> {
    texts.map_values(|t: Option<String>| text::opt(t))
}

/// How the files have changed, given what each of them holds now.
pub fn patch(targets: &Vec<ToolTarget>, after: &Vec<Option<String>>) -> (files: Vec<PatchFile>)
    requires
        after@.len() == targets@.len(),
    ensures
        events::patch_file_views(files@) == actual_changes(
            target_views(targets@),
            opt_views(after@),
        ),
{
    let ghost all = target_views(targets@);
    let ghost now = opt_views(after@);
    let mut files: Vec<PatchFile> = Vec::new();
    let mut i: usize = 0;
    assert(events::patch_file_views(files@) =~= actual_changes(all.take(0), now));
    while i < targets.len()
        invariant
            i <= targets@.len(),
            after@.len() == targets@.len(),
            all == target_views(targets@),
            now == opt_views(after@),
            events::patch_file_views(files@) == actual_changes(all.take(i as int), now),
        decreases targets@.len() - i,
    {
        assert(all.take(i + 1).drop_last() =~= all.take(i as int));
        assert(all.take(i + 1).last() == targets@[i as int]@);
        assert(now[i as int] == text::opt(after@[i as int]));
        let before = or_empty(&targets[i].before);
        let current = or_empty(&after[i]);
        let change = patch_file(targets[i].path.as_str(), before.as_str(), current.as_str());
        push_change(&mut files, change);
        i += 1;
    }
    assert(all.take(i as int) =~= all);
    files
}

/// The lines that are added in all files together.
pub open spec fn total_additions(files: Seq<PatchFileView>) -> nat
    decreases files.len(),
{
    if files.len() == 0 {
        0
    } else {
        total_additions(files.drop_last()) + files.last().additions as nat
    }
}

/// The lines that are removed in all files together.
pub open spec fn total_deletions(files: Seq<PatchFileView>) -> nat
    decreases files.len(),
{
    if files.len() == 0 {
        0
    } else {
        total_deletions(files.drop_last()) + files.last().deletions as nat
    }
}

proof fn lemma_totals_grow(files: Seq<PatchFileView>, n: int)
    requires
        0 <= n <= files.len(),
    ensures
        total_additions(files.take(n)) <= total_additions(files),
        total_deletions(files.take(n)) <= total_deletions(files),
    decreases files.len() - n,
{
    if n == files.len() {
        assert(files.take(n) =~= files);
    } else {
        assert(files.take(n + 1).drop_last() =~= files.take(n));
        lemma_totals_grow(files, n + 1);
    }
}

/// The lines that are added and removed in all files together, where the numbers fit.
pub fn summarize_patch(files: &Vec<PatchFile>) -> (r: Option<(u64, u64)>)
    ensures
        match r {
            Some((a, d)) => a == total_additions(events::patch_file_views(files@)) && d
                == total_deletions(events::patch_file_views(files@)),
            None => total_additions(events::patch_file_views(files@)) > u64::MAX
                || total_deletions(events::patch_file_views(files@)) > u64::MAX,
        },
{
    let ghost all = events::patch_file_views(files@);
    let mut additions: u64 = 0;
    let mut deletions: u64 = 0;
    let mut i: usize = 0;
    while i < files.len()
        invariant
            i <= files@.len(),
            all == events::patch_file_views(files@),
            additions == total_additions(all.take(i as int)),
            deletions == total_deletions(all.take(i as int)),
        decreases files@.len() - i,
    {
        assert(all.take(i + 1).drop_last() =~= all.take(i as int));
        assert(all.take(i + 1).last() == files@[i as int]@);
        proof {
            lemma_totals_grow(all, i + 1);
        }
        match (additions.checked_add(files[i].additions), deletions.checked_add(files[i].deletions)) {
            (Some(a), Some(d)) => {
                additions = a;
                deletions = d;
            },
            _ => {
                return None;
            },
        }
        i += 1;
    }
    assert(all.take(i as int) =~= all);
    Some((additions, deletions))
}

/// What became of a file: whether it exists, and how long the text is that it holds.
pub fn diagnostic(path: &str, exists: bool, content: Option<&str>) -> (r: DiagnosticFile)
    ensures
        r@ == (DiagnosticView {
            path: path@,
            exists,
            bytes: match content {
                Some(t) => Some(text::byte_len(t@) as u64),
                None => None,
            },
            lines: match content {
                Some(t) => Some(text::lines(t@).len() as u64),
                None => None,
            },
        }),
{
    let (bytes, lines) = match content {
        Some(t) => {
            let ls = text::lines_of(t);
            assert(text::views(ls@).len() == ls@.len());
            (Some(text::byte_len_of(t) as u64), Some(ls.len() as u64))
        },
        None => (None, None),
    };
    DiagnosticFile { path: path.to_string(), exists, bytes, lines }
}

// ---------------------------------------------------------------------------
// Previews
// ---------------------------------------------------------------------------

/// A changed file as JSON.
pub open spec fn change_json(f: PatchFileView) -> JsonView {
    json::empty_object()
        .with("path"@, JsonView::Text(f.path))
        .with("additions"@, JsonView::Unsigned(f.additions as nat))
        .with("deletions"@, JsonView::Unsigned(f.deletions as nat))
        .with(
        "diff"@,
        match f.diff {
            Some(d) => JsonView::Text(d),
            None => JsonView::Null,
        },
    )
}

/// A value with a member that is set only where it is missing.
pub open spec fn with_default(v: JsonView, name: Seq<char>, x: JsonView) -> JsonView {
    if json::field(v, name) is Some {
        v
    } else {
        v.with(name, x)
    }
}

/// The input of a call as it is shown when permission is asked: with the changes that it
/// will make.
pub open spec fn preview_input(
    call: CallView,
    changes: Seq<PatchFileView>,
) -> JsonView {
    if !risk::mutating(call.name) || changes.len() == 0 || call.input !is Object {
        call.input
    } else {
        let first = changes[0];
        let named = with_default(call.input, "filepath"@, JsonView::Text(first.path));
        let shown = match first.diff {
            Some(d) => with_default(named, "diff"@, JsonView::Text(d)),
            None => named,
        };
        shown.with(
            "patch"@,
            JsonView::Array(changes.map_values(|f: PatchFileView| change_json(f))),
        )
    }
}

fn change_value(f: &PatchFile) -> (r: Json)
    ensures
        r@ == change_json(f@),
{
    let d = match &f.diff {
        Some(d) => Json::text(d.as_str()),
        None => Json::Null,
    };
    Json::object()
        .with("path", Json::text(f.path.as_str()))
        .with("additions", Json::Unsigned(f.additions))
        .with("deletions", Json::Unsigned(f.deletions))
        .with("diff", d)
}

fn set_default(v: Json, name: &str, x: &str) -> (r: Json)
    ensures
        r@ == with_default(v@, name@, JsonView::Text(x@)),
{
    if v.get(name).is_some() {
        v
    } else {
        v.with(name, Json::text(x))
    }
}

/// The input of the call as it is shown when permission is asked, given the files that it
/// changes.
pub fn permission_preview_input(call: &ParsedToolCall, targets: &Vec<ToolTarget>) -> (r: Json)
    ensures
        r@ == preview_input(call@, preview_changes(call@, target_views(targets@))),
{
    let input = call.input.clone();
    if !risk::is_mutating_tool_name(call.name.as_str()) {
        return input;
    }
    let files = preview_patch(call, targets);
    let ghost changes = events::patch_file_views(files@);
    if files.len() == 0 {
        return input;
    }
    match &call.input {
        Json::Object(_) => {},
        _ => {
            return input;
        },
    }
    assert(changes[0] == files@[0]@);
    let named = set_default(input, "filepath", files[0].path.as_str());
    let shown = match &files[0].diff {
        Some(d) => set_default(named, "diff", d.as_str()),
        None => named,
    };
    let mut items: Vec<Json> = Vec::new();
    let mut i: usize = 0;
    while i < files.len()
        invariant
            i <= files@.len(),
            items@.len() == i,
            changes == events::patch_file_views(files@),
            forall|k: int| 0 <= k < i ==> (#[trigger] items@[k])@ == change_json(changes[k]),
        decreases files@.len() - i,
    {
        items.push(change_value(&files[i]));
        i += 1;
    }
    proof {
        json::lemma_array_view(items@);
        assert(json::array_view(items@) =~= changes.map_values(
            |f: PatchFileView| change_json(f),
        ));
    }
    shown.with("patch", Json::Array(items))
}

// ---------------------------------------------------------------------------
// What holds of hashes
// ---------------------------------------------------------------------------

/// What the model is shown of a call never holds a hash: not in its input, nor in an
/// operation of a structured patch.
pub proof fn shown_calls_hold_no_hash(call: CallView)
    ensures
        json::field(visible_call(call).input, "expected_hash"@) is None,
        json::items_field(visible_call(call).input, "operations"@) matches Some(items)
            ==> forall|i: int|
            0 <= i < items.len() ==> json::field(#[trigger] items[i], "expected_hash"@) is None,
{
    lemma_stripped(call.input);
    reveal_strlit("expected_hash");
    reveal_strlit("operations");
    assert("expected_hash"@.len() != "operations"@.len());
    if let JsonView::Object(m) = call.input {
        if m.dom().contains("operations"@) {
            if let JsonView::Array(items) = m["operations"@] {
                lemma_all_stripped(items);
            }
        }
    }
}

proof fn lemma_stripped(v: JsonView)
    ensures
        json::field(stripped(v), "expected_hash"@) is None,
{
    reveal_strlit("expected_hash");
    reveal_strlit("operations");
    assert("expected_hash"@.len() != "operations"@.len());
}

proof fn lemma_all_stripped(items: Seq<JsonView>)
    ensures
        all_stripped(items).len() == items.len(),
        forall|i: int|
            0 <= i < items.len() ==> json::field(
                #[trigger] all_stripped(items)[i],
                "expected_hash"@,
            ) is None,
    decreases items.len(),
{
    if items.len() > 0 {
        lemma_all_stripped(items.drop_last());
        lemma_stripped(items.last());
    }
}

// ---------------------------------------------------------------------------
// What holds of line-aware patches
// ---------------------------------------------------------------------------

proof fn lemma_first_written(
    ps: Seq<Seq<char>>,
    keys: Map<Seq<char>, Seq<char>>,
    written: Set<Seq<char>>,
)
    ensures
        match first_written(ps, keys, written) {
            Some(path) => ps.contains(path) && is_written(path, keys, written),
            None => forall|i: int| 0 <= i < ps.len() ==> !is_written(#[trigger] ps[i], keys, written),
        },
    decreases ps.len(),
{
    if ps.len() > 0 {
        if is_written(ps[0], keys, written) {
            assert(ps.contains(ps[0]));
        } else {
            let rest = ps.skip(1);
            lemma_first_written(rest, keys, written);
            match first_written(rest, keys, written) {
                Some(path) => {
                    let i = choose|i: int| 0 <= i < rest.len() && #[trigger] rest[i] == path;
                    assert(ps[i + 1] == path);
                },
                None => {
                    assert forall|i: int| 0 <= i < ps.len() implies !is_written(
                        #[trigger] ps[i],
                        keys,
                        written,
                    ) by {
                        if i > 0 {
                            assert(ps[i] == rest[i - 1]);
                        }
                    }
                },
            }
        }
    }
}

/// Once a file has been written, a patch of its lines is refused until the file is read.
pub proof fn a_line_patch_needs_a_fresh_read(
    cache: CacheView,
    call: CallView,
    keys: Map<Seq<char>, Seq<char>>,
    key: Seq<char>,
    metadata: Option<JsonView>,
    i: int,
)
    requires
        0 <= i < line_patched(call).len(),
        textmap::lookup(keys, line_patched(call)[i]) == Some(key),
    ensures
        read_needed(call, keys, refreshed(cache, key, metadata)) is Some,
{
    let written = refreshed(cache, key, metadata).written;
    lemma_first_written(line_patched(call), keys, written);
    assert(is_written(line_patched(call)[i], keys, written));
}

/// A patch of the lines of one file passes once the file has been read, whatever was
/// written before.
pub proof fn a_fresh_read_allows_a_line_patch(
    cache: CacheView,
    call: CallView,
    keys: Map<Seq<char>, Seq<char>>,
    key: Seq<char>,
    metadata: JsonView,
)
    requires
        json::text_field(metadata, "path"@) == Some(key),
        forall|i: int|
            0 <= i < line_patched(call).len() ==> textmap::lookup(
                keys,
                #[trigger] line_patched(call)[i],
            ) == Some(key),
    ensures
        read_needed(call, keys, read_recorded(cache, metadata)) is None,
{
    let written = read_recorded(cache, metadata).written;
    lemma_first_written(line_patched(call), keys, written);
    if let Some(path) = first_written(line_patched(call), keys, written) {
        let i = choose|i: int|
            0 <= i < line_patched(call).len() && #[trigger] line_patched(call)[i] == path;
        assert(textmap::lookup(keys, line_patched(call)[i]) == Some(key));
    }
}

/// A file that no call has written needs no reading before it is patched.
pub proof fn an_unwritten_file_needs_no_read(
    call: CallView,
    keys: Map<Seq<char>, Seq<char>>,
    cache: CacheView,
)
    requires
        cache.written == Set::<Seq<char>>::empty(),
    ensures
        read_needed(call, keys, cache) is None,
{
    lemma_first_written(line_patched(call), keys, cache.written);
}

proof fn lemma_named_in_lines(lines: Seq<Seq<char>>, i: int, path: Seq<char>)
    requires
        0 <= i < lines.len(),
        risk::line_path(lines[i]) == Some(path),
    ensures
        risk::line_paths(lines).contains(path),
    decreases lines.len(),
{
    let before = risk::line_paths(lines.drop_last());
    let all = risk::line_paths(lines);
    if i == lines.len() - 1 {
        assert(all[before.len() as int] == path);
    } else {
        lemma_named_in_lines(lines.drop_last(), i, path);
        let k = choose|k: int| 0 <= k < before.len() && #[trigger] before[k] == path;
        assert(all[k] == path);
    }
}

proof fn lemma_sections_are_named(lines: Seq<Seq<char>>, i: int)
    requires
        0 <= i,
    ensures
        line_patch::sections(lines, i) matches Ok(ops) ==> forall|k: int|
            0 <= k < ops.len() ==> risk::line_paths(lines).contains(
                line_patch::operation_path(#[trigger] ops[k]),
            ),
    decreases lines.len() - i,
{
    if i < lines.len() && text::trimmed(lines[i]) != "*** End Patch"@ {
        let end = line_patch::section_end(lines, i + 1);
        line_patch::lemma_section_end(lines, i + 1);
        lemma_sections_are_named(lines, end);
        if let Ok(op) = line_patch::section(lines[i], lines.subrange(i + 1, end)) {
            reveal_strlit("*** Add File: ");
            reveal_strlit("*** Update File: ");
            reveal_strlit("*** Delete File: ");
            let path = line_patch::operation_path(op);
            assert(risk::line_path(lines[i]) == Some(path));
            lemma_named_in_lines(lines, i, path);
            if let Ok(rest) = line_patch::sections(lines, end) {
                let ops = seq![op] + rest;
                assert forall|k: int| 0 <= k < ops.len() implies risk::line_paths(lines).contains(
                    line_patch::operation_path(#[trigger] ops[k]),
                ) by {
                    if k > 0 {
                        assert(ops[k] == rest[k - 1]);
                    }
                }
            }
        }
    }
}

proof fn lemma_line_operations_are_named(items: Seq<JsonView>)
    ensures
        call::line_operations_of(items) matches Some(ops) ==> forall|k: int|
            0 <= k < ops.len() ==> risk::operation_paths(items).contains(
                line_patch::operation_path(#[trigger] ops[k]),
            ),
    decreases items.len(),
{
    if items.len() > 0 {
        lemma_line_operations_are_named(items.drop_last());
        if let Some(ops) = call::line_operations_of(items) {
            let before = risk::operation_paths(items.drop_last());
            let all = risk::operation_paths(items);
            assert forall|k: int| 0 <= k < ops.len() implies all.contains(
                line_patch::operation_path(#[trigger] ops[k]),
            ) by {
                let path = line_patch::operation_path(ops[k]);
                if k < ops.len() - 1 {
                    let done = call::line_operations_of(items.drop_last())->0;
                    assert(done[k] == ops[k]);
                    let m = choose|m: int| 0 <= m < before.len() && #[trigger] before[m] == path;
                    assert(all[m] == path);
                } else {
                    assert(all[before.len() as int] == path);
                }
            }
        }
    }
}

/// Every file that a call of `apply_patch` changes is among the paths by which it is noted
/// and shown that the call changes files.
pub proof fn a_patch_changes_the_named_files_alone(call: CallView)
    requires
        call.name == "apply_patch"@,
    ensures
        call::patch_action(call) matches Ok(ToolActionView::ApplyPatch { changes })
            ==> forall|k: int|
            0 <= k < changes.len() ==> target_paths(call).contains(
                line_patch::operation_path(#[trigger] changes[k]),
            ),
{
    reveal_strlit("apply_patch");
    reveal_strlit("write_file");
    reveal_strlit("edit_file");
    reveal_strlit("multi_edit");
    reveal_strlit("apply_patch_structured");
    assert("edit_file"@.len() != "apply_patch"@.len());
    assert("write_file"@.len() != "apply_patch"@.len());
    assert("multi_edit"@.len() != "apply_patch"@.len());
    assert("apply_patch_structured"@.len() != "apply_patch"@.len());
    if let Some(patch) = json::text_field(call.input, "patch"@) {
        lemma_sections_are_named(text::lines(patch), 1);
    } else if let Some(items) = json::items_field(call.input, "operations"@) {
        lemma_line_operations_are_named(items);
    }
}

// ---------------------------------------------------------------------------
// What a call may touch, and what it is shown to change
// ---------------------------------------------------------------------------

proof fn lemma_first_outside(ps: Seq<Seq<char>>)
    ensures
        match first_outside(ps) {
            Some(p) => exists|i: int|
                0 <= i < ps.len() && #[trigger] ps[i] == p && (text::starts_with(p, "/"@)
                    || text::contains(p, ".."@)) && forall|j: int|
                    0 <= j < i ==> !(text::starts_with(#[trigger] ps[j], "/"@) || text::contains(
                        ps[j],
                        ".."@,
                    )),
            None => forall|i: int|
                0 <= i < ps.len() ==> !(text::starts_with(#[trigger] ps[i], "/"@) || text::contains(
                    ps[i],
                    ".."@,
                )),
        },
    decreases ps.len(),
{
    if ps.len() > 0 {
        if risk::outside(ps[0]) {
            assert(ps[0] == first_outside(ps)->0);
        } else {
            let rest = ps.skip(1);
            lemma_first_outside(rest);
            match first_outside(rest) {
                Some(p) => {
                    let i = choose|i: int|
                        0 <= i < rest.len() && #[trigger] rest[i] == p && (text::starts_with(
                            p,
                            "/"@,
                        ) || text::contains(p, ".."@)) && forall|j: int|
                            0 <= j < i ==> !(text::starts_with(#[trigger] rest[j], "/"@)
                                || text::contains(rest[j], ".."@));
                    assert(ps[i + 1] == p);
                    assert forall|j: int| 0 <= j < i + 1 implies !(text::starts_with(
                        #[trigger] ps[j],
                        "/"@,
                    ) || text::contains(ps[j], ".."@)) by {
                        if j > 0 {
                            assert(rest[j - 1] == ps[j]);
                        }
                    }
                },
                None => {
                    assert forall|i: int| 0 <= i < ps.len() implies !(text::starts_with(
                        #[trigger] ps[i],
                        "/"@,
                    ) || text::contains(ps[i], ".."@)) by {
                        if i > 0 {
                            assert(rest[i - 1] == ps[i]);
                        }
                    }
                },
            }
        }
    }
}

/// A call on a file may lead outside the workspace exactly when its path is absolute or has
/// two dots in it; a structured patch when one of the paths that it names is, and it is the
/// first such path that is told.
pub proof fn a_call_leads_outside_by_its_path(
    call: CallView,
    path: Seq<char>,
    operations: Seq<JsonView>,
)
    ensures
        (call.name == "read_file"@ || call.name == "glob"@ || call.name == "grep"@ || call.name
            == "list_dir"@ || call.name == "write_file"@ || call.name == "edit_file"@ || call.name
            == "multi_edit"@) && json::text_field(call.input, "path"@) == Some(path)
            ==> outside_path(call) == (if text::starts_with(path, "/"@) || text::contains(
            path,
            ".."@,
        ) {
            Some(path)
        } else {
            None
        }),
        call.name == "apply_patch_structured"@ && json::items_field(call.input, "operations"@)
            == Some(operations) ==> match outside_path(call) {
            Some(p) => exists|i: int|
                0 <= i < risk::operation_paths(operations).len() && #[trigger]
                    risk::operation_paths(operations)[i] == p && (text::starts_with(p, "/"@)
                    || text::contains(p, ".."@)),
            None => forall|i: int|
                0 <= i < risk::operation_paths(operations).len() ==> !(text::starts_with(
                    #[trigger] risk::operation_paths(operations)[i],
                    "/"@,
                ) || text::contains(risk::operation_paths(operations)[i], ".."@)),
        },
        call.name == "bash"@ || call.name == "web_fetch"@ ==> outside_path(call) is None,
{
    lemma_call_names();
    lemma_first_outside(risk::operation_paths(operations));
}

proof fn lemma_call_names()
    ensures
        "read_file"@.len() == 9 && "read_file"@[0] == 'r',
        "glob"@.len() == 4 && "glob"@[0] == 'g',
        "grep"@.len() == 4 && "grep"@[0] == 'g',
        "list_dir"@.len() == 8,
        "write_file"@.len() == 10 && "write_file"@[0] == 'w',
        "edit_file"@.len() == 9 && "edit_file"@[0] == 'e',
        "multi_edit"@.len() == 10 && "multi_edit"@[0] == 'm',
        "apply_patch_structured"@.len() == 22,
        "apply_patch"@.len() == 11,
        "bash"@.len() == 4 && "bash"@[0] == 'b',
        "web_fetch"@.len() == 9 && "web_fetch"@[0] == 'w',
{
    reveal_strlit("read_file");
    reveal_strlit("glob");
    reveal_strlit("grep");
    reveal_strlit("list_dir");
    reveal_strlit("write_file");
    reveal_strlit("edit_file");
    reveal_strlit("multi_edit");
    reveal_strlit("apply_patch_structured");
    reveal_strlit("apply_patch");
    reveal_strlit("bash");
    reveal_strlit("web_fetch");
}

/// A shell command runs without the confinement, once approved, exactly when it is flagged
/// as writing outside, as acting as root, as reaching the network or as publishing.
pub proof fn commands_are_unlocked_by_their_flags(call: CallView, flags: Seq<RiskFlag>)
    requires
        call.name == "bash"@,
    ensures
        needs_unlocked(call, flags) <==> flags.contains(RiskFlag::WriteOutsideWorkspace)
            || flags.contains(RiskFlag::Sudo) || flags.contains(RiskFlag::NetworkAccess)
            || flags.contains(RiskFlag::PackagePublish),
{
    lemma_call_names();
    if needs_unlocked(call, flags) {
        let i = choose|i: int| 0 <= i < flags.len() && unlocks(#[trigger] flags[i]);
        assert(flags.contains(flags[i]));
    }
    assert forall|f: RiskFlag| flags.contains(f) && unlocks(f) implies needs_unlocked(
        call,
        flags,
    ) by {
        let i = choose|i: int| 0 <= i < flags.len() && flags[i] == f;
        assert(unlocks(flags[i]));
    }
    assert(unlocks(RiskFlag::WriteOutsideWorkspace) && unlocks(RiskFlag::Sudo) && unlocks(
        RiskFlag::NetworkAccess,
    ) && unlocks(RiskFlag::PackagePublish));
}

/// The sandbox seems to have stopped a call exactly when it was a shell command that ran in
/// it, did not succeed, and says so in one of four ways.
pub proof fn a_stopped_command_says_so(
    enforced: bool,
    name: Seq<char>,
    exit_code: Option<i32>,
    lower: Seq<char>,
)
    ensures
        sandbox_denied(enforced, name, exit_code, lower) <==> enforced && name == "bash"@
            && exit_code != Some(0i32) && (text::contains(lower, "operation not permitted"@)
            || text::contains(lower, "sandbox"@) || text::contains(lower, "deny"@)
            || text::contains(lower, "not allowed"@)),
{
}

/// An edit of a file that was read expects the file as it was read, whatever hash the model
/// has given, and one of a file that has been written expects it as it was written; when the
/// file is gone, nothing is expected.
pub proof fn an_edit_expects_the_file_as_it_was_last_seen(
    cache: CacheView,
    call: CallView,
    m: Map<Seq<char>, JsonView>,
    path: Seq<char>,
    key: Seq<char>,
    keys: Map<Seq<char>, Seq<char>>,
    metadata: JsonView,
    hash: Seq<char>,
)
    requires
        call.name == "edit_file"@ || call.name == "multi_edit"@,
        call.input == JsonView::Object(m),
        json::text_field(call.input, "path"@) == Some(path),
        !m.dom().contains("operations"@),
        keys.dom().contains(path) && keys[path] == key,
        json::text_field(metadata, "path"@) == Some(key),
        json::text_field(metadata, "sha256"@) == Some(hash),
    ensures
        json::text_field(
            guarded_call(call, keys, read_recorded(cache, metadata)).input,
            "expected_hash"@,
        ) == Some(hash),
        json::text_field(
            guarded_call(call, keys, refreshed(cache, key, Some(metadata))).input,
            "expected_hash"@,
        ) == Some(hash),
        json::field(
            guarded_call(call, keys, refreshed(cache, key, None)).input,
            "expected_hash"@,
        ) is None,
        !read_recorded(cache, metadata).written.contains(key),
        refreshed(cache, key, Some(metadata)).written.contains(key),
{
    lemma_call_names();
    reveal_strlit("path");
    reveal_strlit("expected_hash");
    reveal_strlit("operations");
    assert("path"@.len() == 4 && "expected_hash"@.len() == 13 && "operations"@.len() == 10);
    let plain = m.remove("expected_hash"@);
    assert(stripped(call.input) == JsonView::Object(plain));
    assert(json::text_field(JsonView::Object(plain), "path"@) == Some(path));
}

/// What a call will do to a file is shown before it runs: what is written takes the place of
/// the whole file, and an edit replaces the old text where it stands first.
pub proof fn what_a_call_will_do_is_shown(
    call: CallView,
    a: Seq<char>,
    old: Seq<char>,
    b: Seq<char>,
    new: Seq<char>,
)
    requires
        old.len() > 0,
        forall|i: int| 0 <= i < a.len() ==> !#[trigger] text::occurs_at(a + old + b, old, i),
    ensures
        call.name == "write_file"@ && json::text_field(call.input, "content"@) == Some(new)
            ==> predicted(call, a + old + b) == Some(new),
        call.name == "edit_file"@ && json::text_field(call.input, "old"@) == Some(old)
            && json::text_field(call.input, "new"@) == Some(new) ==> predicted(call, a + old + b)
            == Some(a + new + b),
        call.name == "bash"@ || call.name == "read_file"@ ==> predicted(call, a + old + b) is None,
{
    lemma_call_names();
    text_laws::the_first_match_is_replaced(a, old, b, new);
}

/// A file that stays as it is is not told as changed; one that changes is told with its
/// path, its diff and the numbers of lines that were added and removed.
pub proof fn a_change_is_told_with_its_diff(
    path: Seq<char>,
    before: Seq<char>,
    after: Seq<char>,
)
    requires
        text::lines(before).len() + text::lines(after).len() <= u64::MAX,
    ensures
        before == after <==> file_change(path, before, after) is None,
        file_change(path, before, after) matches Some(f) ==> {
            let d = diff::diff_lines(before, after);
            &&& f.path == path
            &&& f.diff == Some(diff::unified_text(path, d))
            &&& f.additions == d.filter(
                |l: DiffLineView| l.kind == GeneratedDiffLineKind::Add,
            ).len()
            &&& f.deletions == d.filter(
                |l: DiffLineView| l.kind == GeneratedDiffLineKind::Remove,
            ).len()
            &&& f.additions + text::lines(before).len() == f.deletions + text::lines(after).len()
        },
{
    let d = diff::diff_lines(before, after);
    diff::the_counts_of_a_diff_add_up(before, after);
    lemma_counted(d, GeneratedDiffLineKind::Add);
    lemma_counted(d, GeneratedDiffLineKind::Remove);
}

proof fn lemma_counted(lines: Seq<DiffLineView>, kind: GeneratedDiffLineKind)
    ensures
        diff::count_kind(lines, kind) == lines.filter(|l: DiffLineView| l.kind == kind).len(),
    decreases lines.len(),
{
    reveal(Seq::filter);
    if lines.len() > 0 {
        lemma_counted(lines.drop_last(), kind);
    }
}

/// The files that a call has changed are told in the order of its targets, and the lines
/// that were added and removed are counted over all of them.
pub proof fn changes_are_told_in_order(
    targets: Seq<TargetView>,
    after: Seq<Option<Seq<char>>>,
    t: TargetView,
    now: Option<Seq<char>>,
    files: Seq<PatchFileView>,
    f: PatchFileView,
)
    requires
        after.len() == targets.len(),
    ensures
        ({
            let told = actual_changes(targets, after);
            let more = actual_changes(targets.push(t), after.push(now));
            let was = match t.before {
                Some(s) => s,
                None => seq![],
            };
            let is = match now {
                Some(s) => s,
                None => seq![],
            };
            &&& was == is ==> more == told
            &&& was != is ==> more == told.push(file_change(t.path, was, is)->0)
        }),
        total_additions(files.push(f)) == total_additions(files) + f.additions,
        total_deletions(files.push(f)) == total_deletions(files) + f.deletions,
{
    assert(targets.push(t).drop_last() =~= targets);
    assert(files.push(f).drop_last() =~= files);
    lemma_later_texts(targets, after, now);
}

proof fn lemma_later_texts(
    targets: Seq<TargetView>,
    after: Seq<Option<Seq<char>>>,
    now: Option<Seq<char>>,
)
    requires
        targets.len() <= after.len(),
    ensures
        actual_changes(targets, after.push(now)) == actual_changes(targets, after),
    decreases targets.len(),
{
    if targets.len() > 0 {
        lemma_later_texts(targets.drop_last(), after, now);
    }
}

/// A call that changes files is shown with what it will change: the first file and its diff,
/// unless the call has such fields of its own, and a list of all.
pub proof fn a_call_is_shown_with_its_changes(
    call: CallView,
    m: Map<Seq<char>, JsonView>,
    changes: Seq<PatchFileView>,
    i: int,
)
    requires
        call.input == JsonView::Object(m),
        changes.len() > 0,
        0 <= i < changes.len(),
    ensures
        ({
            let v = preview_input(call, changes);
            let list = json::items_field(v, "patch"@)->0;
            &&& !risk::mutating(call.name) ==> v == call.input
            &&& risk::mutating(call.name) ==> {
                &&& json::items_field(v, "patch"@) is Some && list.len() == changes.len()
                &&& json::text_field(list[i], "path"@) == Some(changes[i].path)
                &&& json::unsigned_field(list[i], "additions"@) == Some(
                    changes[i].additions as nat,
                )
                &&& json::unsigned_field(list[i], "deletions"@) == Some(
                    changes[i].deletions as nat,
                )
                &&& json::text_field(list[i], "diff"@) == changes[i].diff
                &&& !m.dom().contains("filepath"@) ==> json::text_field(v, "filepath"@) == Some(
                    changes[0].path,
                )
                &&& m.dom().contains("filepath"@) ==> json::field(v, "filepath"@) == Some(
                    m["filepath"@],
                )
                &&& !m.dom().contains("diff"@) && changes[0].diff is Some ==> json::text_field(
                    v,
                    "diff"@,
                ) == changes[0].diff
            }
        }),
{
    reveal_strlit("path");
    reveal_strlit("additions");
    reveal_strlit("deletions");
    reveal_strlit("diff");
    reveal_strlit("filepath");
    reveal_strlit("patch");
    assert("path"@.len() == 4 && "path"@[0] == 'p' && "additions"@.len() == 9 && "additions"@[0]
        == 'a' && "deletions"@.len() == 9 && "deletions"@[0] == 'd' && "diff"@.len() == 4
        && "diff"@[0] == 'd' && "filepath"@.len() == 8 && "patch"@.len() == 5);
}

/// A file in the workspace is remembered by its path in it, with plain slashes, and a file
/// elsewhere is not remembered.
pub proof fn files_are_remembered_by_their_path(root: Seq<char>, canonical: Seq<char>)
    ensures
        cache_key(root, canonical) is Some <==> paths::inside(root, canonical),
        paths::inside(root, canonical) ==> cache_key(root, canonical) == Some(
            text::replace(paths::shown(root, canonical), "\\"@, "/"@),
        ),
{
}

/// A path that starts at the root or holds two dots is no plain target; any other one lies
/// in the workspace.
pub proof fn plain_targets_lie_in_the_workspace(root: Seq<char>, path: Seq<char>)
    ensures
        path.len() > 0 && path[0] == '/' ==> plain_target(root, path) is None,
        paths::parts(path).contains(".."@) ==> plain_target(root, path) is None,
        (path.len() == 0 || path[0] != '/') && !paths::parts(path).contains(".."@)
            ==> plain_target(root, path) == Some(
            paths::joined(root, text::join(paths::parts(path), "/"@)),
        ),
{
}

/// What a call will change is told file by file: a file that the call leaves as it is, and
/// one of which nothing can be said, are left out, and any other one follows those before it.
pub proof fn previews_follow_the_targets(
    call: CallView,
    targets: Seq<TargetView>,
    path: Seq<char>,
    before: Seq<char>,
)
    ensures
        ({
            let t = TargetView { path, before: Some(before) };
            let told = preview_changes(call, targets);
            let all = preview_changes(call, targets.push(t));
            &&& preview_changes(call, seq![]).len() == 0
            &&& predicted(call, before) is None ==> all == told
            &&& predicted(call, before) matches Some(after) ==> (after == before ==> all == told)
                && (after != before ==> all.len() == told.len() + 1 && all.drop_last() == told
                && all.last().path == path && Some(all.last()) == file_change(path, before, after))
        }),
{
    let t = TargetView { path, before: Some(before) };
    assert(targets.push(t).drop_last() =~= targets);
    assert(targets.push(t).last() == t);
    let told = preview_changes(call, targets);
    if let Some(after) = predicted(call, before) {
        if let Some(f) = file_change(path, before, after) {
            assert(told.push(f).drop_last() =~= told);
        }
    }
}

} // verus!
