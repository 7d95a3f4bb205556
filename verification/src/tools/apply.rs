use vstd::prelude::*;

use crate::json;
use crate::json::{Json, JsonView};
use crate::text;
use crate::tools::edit;
use crate::tools::edit::NewlineStyle;
use crate::tools::error::{ToolError, ToolErrorView};
use crate::tools::names::ToolName;
use crate::tools::patch;
use crate::tools::patch::{
    FilePatchView,
    HunkLine,
    HunkLineKind,
    HunkLineView,
    HunkView,
    UnifiedFilePatch,
    UnifiedHunk,
};
use crate::tools::result;
use crate::tools::result::{CappedOutput, ToolResult, ToolResultView};

verus! {

/// One of the two sides of a hunk.
#[derive(Debug, Clone, Copy, PartialEq, Eq, Structural)]
pub enum Side {
    Old,
    New,
}

pub open spec fn on_side(kind: HunkLineKind, side: Side) -> bool {
    match kind {
        HunkLineKind::Context => true,
        HunkLineKind::Remove => side == Side::Old,
        HunkLineKind::Add => side == Side::New,
    }
}

/// The lines that a hunk has on one side, ending as the lines of the file do.
pub open spec fn side_lines(lines: Seq<HunkLineView>, side: Side, newline: NewlineStyle) -> Seq<
    Seq<char>,
>
    decreases lines.len(),
{
    if lines.len() == 0 {
        seq![]
    } else {
        let before = side_lines(lines.drop_last(), side, newline);
        if on_side(lines.last().kind, side) {
            before.push(edit::with_newlines(lines.last().text, newline))
        } else {
            before
        }
    }
}

/// Whether the lines `part` stand together in `lines` at index `i`.
pub open spec fn lines_at(lines: Seq<Seq<char>>, part: Seq<Seq<char>>, i: int) -> bool {
    0 <= i && i + part.len() <= lines.len() && lines.subrange(i, i + part.len()) == part
}

/// Whether the new side of a hunk stands in the file already.
pub open spec fn has_landed(lines: Seq<Seq<char>>, new: Seq<Seq<char>>) -> bool {
    new.len() == 0 || exists|i: int| lines_at(lines, new, i)
}

/// The lines of a file that is being patched, and by how much the hunks so far have moved
/// the lines behind them.
pub struct PatchState {
    pub lines: Seq<Seq<char>>,
    pub offset: int,
}

pub open spec fn apply_failed(path: Seq<char>, message: Seq<char>) -> Result<
    PatchState,
    ToolErrorView,
> {
    Err(ToolErrorView::PatchApplyFailed { path, message })
}

/// Applies one hunk: its old side must stand where the header says, moved by the hunks
/// before it. Where it does not, but the new side stands in the file, nothing changes.
pub open spec fn hunk_applied(
    path: Seq<char>,
    state: PatchState,
    hunk: HunkView,
    newline: NewlineStyle,
) -> Result<PatchState, ToolErrorView> {
    let start = hunk.old_start - 1 + state.offset;
    let old = side_lines(hunk.lines, Side::Old, newline);
    let new = side_lines(hunk.lines, Side::New, newline);
    let offset = state.offset + new.len() - old.len();
    if start < 0 || start > state.lines.len() {
        apply_failed(path, "hunk starts beyond end of file"@)
    } else if lines_at(state.lines, old, start) {
        Ok(
            PatchState {
                lines: state.lines.take(start) + new + state.lines.skip(start + old.len()),
                offset,
            },
        )
    } else if has_landed(state.lines, new) {
        Ok(PatchState { lines: state.lines, offset })
    } else {
        apply_failed(path, "hunk did not match at line "@ + text::decimal(hunk.old_start))
    }
}

/// Applies hunks one after the other; the first one that fails ends it.
pub open spec fn hunks_applied(
    path: Seq<char>,
    lines: Seq<Seq<char>>,
    hunks: Seq<HunkView>,
    newline: NewlineStyle,
) -> Result<PatchState, ToolErrorView>
    decreases hunks.len(),
{
    if hunks.len() == 0 {
        Ok(PatchState { lines, offset: 0 })
    } else {
        match hunks_applied(path, lines, hunks.drop_last(), newline) {
            Ok(state) => hunk_applied(path, state, hunks.last(), newline),
            Err(e) => Err(e),
        }
    }
}

/// The text of a file after a patch.
pub open spec fn text_patched(
    path: Seq<char>,
    content: Seq<char>,
    hunks: Seq<HunkView>,
) -> Result<Seq<char>, ToolErrorView> {
    match hunks_applied(path, text::full_lines(content), hunks, edit::newline_of(content)) {
        Ok(state) => Ok(text::concat(state.lines)),
        Err(e) => Err(e),
    }
}

fn side_of(lines: &Vec<HunkLine>, side: Side, newline: NewlineStyle) -> (out: Vec<String>)
    ensures
        text::views(out@) == side_lines(lines@.map_values(|l: HunkLine| l@), side, newline),
        out@.len() <= lines@.len(),
{
    let ghost all = lines@.map_values(|l: HunkLine| l@);
    let mut out: Vec<String> = Vec::new();
    let mut i: usize = 0;
    assert(text::views(out@) =~= side_lines(all.take(0), side, newline));
    while i < lines.len()
        invariant
            i <= lines@.len(),
            out@.len() <= i,
            all == lines@.map_values(|l: HunkLine| l@),
            text::views(out@) == side_lines(all.take(i as int), side, newline),
        decreases lines@.len() - i,
    {
        assert(all.take(i + 1).drop_last() =~= all.take(i as int));
        assert(all.take(i + 1).last() == lines@[i as int]@);
        let keep = match lines[i].kind {
            HunkLineKind::Context => true,
            HunkLineKind::Remove => side == Side::Old,
            HunkLineKind::Add => side == Side::New,
        };
        if keep {
            let ghost before = out@;
            let line = edit::normalize_edit_text(lines[i].text.as_str(), newline);
            out.push(line);
            assert(text::views(out@) =~= text::views(before).push(line@));
        }
        i += 1;
    }
    assert(all.take(i as int) =~= all);
    out
}

fn stand_at(lines: &Vec<String>, part: &Vec<String>, i: usize) -> (r: bool)
    ensures
        r == lines_at(text::views(lines@), text::views(part@), i as int),
{
    if i > lines.len() || part.len() > lines.len() - i {
        return false;
    }
    let total: usize = lines.len();
    let mut k: usize = 0;
    while k < part.len()
        invariant
            k <= part@.len(),
            total == lines@.len(),
            i + part@.len() <= total,
            forall|j: int| 0 <= j < k ==> (#[trigger] lines@[i + j])@ == part@[j]@,
        decreases part@.len() - k,
    {
        if !text::same(lines[i + k].as_str(), part[k].as_str()) {
            assert(text::views(lines@).subrange(i as int, i + part@.len())[k as int]
                != text::views(part@)[k as int]);
            return false;
        }
        k += 1;
    }
    proof {
        let window = text::views(lines@).subrange(i as int, i + part@.len());
        assert forall|j: int| 0 <= j < part@.len() implies window[j] == text::views(part@)[j] by {
            assert(lines@[i + j]@ == part@[j]@);
        }
        assert(window =~= text::views(part@));
    }
    true
}

/// Whether the new side of a hunk stands in the file already.
pub fn already_applied_hunk(lines: &Vec<String>, new_lines: &Vec<String>) -> (r: bool)
    ensures
        r == has_landed(text::views(lines@), text::views(new_lines@)),
{
    if new_lines.len() == 0 {
        return true;
    }
    let mut i: usize = 0;
    while i < lines.len()
        invariant
            i <= lines@.len(),
            new_lines@.len() > 0,
            forall|j: int|
                0 <= j < i ==> !lines_at(text::views(lines@), text::views(new_lines@), j),
        decreases lines@.len() - i,
    {
        if stand_at(lines, new_lines, i) {
            assert(lines_at(text::views(lines@), text::views(new_lines@), i as int));
            return true;
        }
        i += 1;
    }
    false
}

fn replaced(lines: &Vec<String>, start: usize, count: usize, new: &Vec<String>) -> (out: Vec<
    String,
>)
    requires
        start + count <= lines@.len(),
    ensures
        text::views(out@) == text::views(lines@).take(start as int) + text::views(new@)
            + text::views(lines@).skip(start + count),
{
    let ghost all = text::views(lines@);
    let total: usize = lines.len();
    let mut out: Vec<String> = Vec::new();
    let mut i: usize = 0;
    while i < start
        invariant
            i <= start,
            start <= lines@.len(),
            all == text::views(lines@),
            text::views(out@) == all.take(i as int),
        decreases start - i,
    {
        let ghost before = out@;
        out.push(lines[i].clone());
        assert(text::views(out@) =~= text::views(before).push(lines@[i as int]@));
        assert(all.take(i + 1) =~= all.take(i as int).push(lines@[i as int]@));
        i += 1;
    }
    let mut k: usize = 0;
    assert(text::views(new@).take(0) =~= seq![]);
    assert(text::views(out@) =~= all.take(start as int) + text::views(new@).take(0));
    while k < new.len()
        invariant
            k <= new@.len(),
            text::views(out@) == all.take(start as int) + text::views(new@).take(k as int),
        decreases new@.len() - k,
    {
        let ghost before = out@;
        out.push(new[k].clone());
        assert(text::views(out@) =~= text::views(before).push(new@[k as int]@));
        assert(text::views(new@).take(k + 1) =~= text::views(new@).take(k as int).push(new@[k as int]@));
        k += 1;
    }
    assert(text::views(new@).take(k as int) =~= text::views(new@));
    let from: usize = start + count;
    let mut j: usize = from;
    assert(text::views(out@) =~= all.take(start as int) + text::views(new@) + all.subrange(from as int, j as int));
    while j < total
        invariant
            from <= j <= total,
            total == lines@.len(),
            all == text::views(lines@),
            text::views(out@) == all.take(start as int) + text::views(new@) + all.subrange(
                from as int,
                j as int,
            ),
        decreases total - j,
    {
        let ghost before = out@;
        out.push(lines[j].clone());
        assert(text::views(out@) =~= text::views(before).push(lines@[j as int]@));
        assert(all.subrange(from as int, j + 1) =~= all.subrange(from as int, j as int).push(lines@[j as int]@));
        j += 1;
    }
    assert(all.subrange(from as int, total as int) =~= all.skip(from as int));
    out
}

/// Counts of lines stay within what 128 bits hold.
proof fn lemma_totals(n: int, m: int, total: int, more: int)
    requires
        0 <= n < m <= usize::MAX,
        0 <= total <= n * usize::MAX,
        0 <= more <= usize::MAX,
    ensures
        total + more <= (n + 1) * usize::MAX,
        (n + 1) * usize::MAX <= u128::MAX - usize::MAX,
{
    assert((n + 1) * usize::MAX == n * usize::MAX + usize::MAX) by (nonlinear_arith);
    assert((n + 1) * usize::MAX <= usize::MAX * usize::MAX) by (nonlinear_arith)
        requires
            0 <= n < m <= usize::MAX,
    ;
    assert(usize::MAX * usize::MAX <= 0xFFFF_FFFF_FFFF_FFFF * 0xFFFF_FFFF_FFFF_FFFF) by (nonlinear_arith)
        requires
            0 <= usize::MAX <= 0xFFFF_FFFF_FFFF_FFFF,
    ;
}

/// Applies the hunks of a patch to the lines of a file.
pub fn apply_hunks(path: &str, lines: Vec<String>, hunks: &Vec<UnifiedHunk>, newline: NewlineStyle)
    -> (r: Result<Vec<String>, ToolError>)
    ensures
        match r {
            Ok(out) => hunks_applied(
                path@,
                text::views(lines@),
                hunks@.map_values(|h: UnifiedHunk| h@),
                newline,
            ) matches Ok(state) && state.lines == text::views(out@),
            Err(e) => hunks_applied(
                path@,
                text::views(lines@),
                hunks@.map_values(|h: UnifiedHunk| h@),
                newline,
            ) == Err::<PatchState, ToolErrorView>(e@),
        },
{
    let ghost all = hunks@.map_values(|h: UnifiedHunk| h@);
    let ghost first = text::views(lines@);
    let count: usize = hunks.len();
    let mut current = lines;
    let mut added: u128 = 0;
    let mut removed: u128 = 0;
    let mut i: usize = 0;
    assert(0 * usize::MAX == 0) by (nonlinear_arith);
    while i < count
        invariant
            i <= count,
            count == hunks@.len(),
            all == hunks@.map_values(|h: UnifiedHunk| h@),
            first == text::views(lines@),
            0 <= added <= i * usize::MAX,
            0 <= removed <= i * usize::MAX,
            hunks_applied(path@, first, all.take(i as int), newline) == Ok::<
                PatchState,
                ToolErrorView,
            >(PatchState { lines: text::views(current@), offset: added - removed }),
        decreases count - i,
    {
        let ghost hunk = all[i as int];
        assert(all.take(i + 1).drop_last() =~= all.take(i as int));
        assert(all.take(i + 1).last() == hunk);
        let old_start: usize = hunks[i].old_start;
        let old_lines = side_of(&hunks[i].lines, Side::Old, newline);
        let new_lines = side_of(&hunks[i].lines, Side::New, newline);
        let new_count: usize = new_lines.len();
        let old_count: usize = old_lines.len();
        proof {
            lemma_totals(i as int, count as int, added as int, new_count as int);
            lemma_totals(i as int, count as int, removed as int, old_count as int);
        }
        let base: u128 = old_start as u128 + added;
        let below: u128 = removed + 1;
        if base < below || base - below > current.len() as u128 {
            let e = ToolError::PatchApplyFailed {
                path: path.to_string(),
                message: "hunk starts beyond end of file".to_string(),
            };
            proof {
                lemma_failed_hunk(path@, first, newline, all, i + 1, e@);
            }
            return Err(e);
        }
        let start: usize = (base - below) as usize;
        if stand_at(&current, &old_lines, start) {
            current = replaced(&current, start, old_count, &new_lines);
        } else if !already_applied_hunk(&current, &new_lines) {
            let e = ToolError::PatchApplyFailed {
                path: path.to_string(),
                message: text::cat2(
                    "hunk did not match at line ",
                    text::decimal_text(old_start as u64).as_str(),
                ),
            };
            proof {
                lemma_failed_hunk(path@, first, newline, all, i + 1, e@);
            }
            return Err(e);
        }
        added += new_count as u128;
        removed += old_count as u128;
        i += 1;
    }
    assert(all.take(i as int) =~= all);
    Ok(current)
}

/// A hunk that fails makes the whole patch fail.
proof fn lemma_failed_hunk(
    path: Seq<char>,
    lines: Seq<Seq<char>>,
    newline: NewlineStyle,
    hunks: Seq<HunkView>,
    n: int,
    e: ToolErrorView,
)
    requires
        0 <= n <= hunks.len(),
        hunks_applied(path, lines, hunks.take(n), newline) == Err::<PatchState, ToolErrorView>(e),
    ensures
        hunks_applied(path, lines, hunks, newline) == Err::<PatchState, ToolErrorView>(e),
    decreases hunks.len() - n,
{
    if n == hunks.len() {
        assert(hunks.take(n) =~= hunks);
    } else {
        assert(hunks.take(n + 1).drop_last() =~= hunks.take(n));
        lemma_failed_hunk(path, lines, newline, hunks, n + 1, e);
    }
}

/// What a file of the given bytes holds after a patch, or why it cannot be applied.
pub open spec fn file_patched(path: Seq<char>, bytes: Seq<u8>, hunks: Seq<HunkView>) -> Result<
    Seq<char>,
    ToolErrorView,
> {
    match edit::file_text(path, bytes, edit::hex(edit::sha256_digest(bytes)), None) {
        Err(e) => Err(e),
        Ok(content) => text_patched(path, content, hunks),
    }
}

/// Applies the hunks of a patch to the text of a file.
pub fn patch_text(path: &str, content: &str, hunks: &Vec<UnifiedHunk>) -> (r: Result<
    String,
    ToolError,
>)
    ensures
        match r {
            Ok(c) => text_patched(path@, content@, hunks@.map_values(|h: UnifiedHunk| h@)) == Ok::<
                Seq<char>,
                ToolErrorView,
            >(c@),
            Err(e) => text_patched(path@, content@, hunks@.map_values(|h: UnifiedHunk| h@))
                == Err::<Seq<char>, ToolErrorView>(e@),
        },
{
    let newline = if text::holds_text(content, "\r\n") {
        NewlineStyle::Crlf
    } else {
        NewlineStyle::Lf
    };
    let lines = text::split_lines_lossless(content);
    match apply_hunks(path, lines, hunks, newline) {
        Ok(out) => Ok(text::concat_strings(out.as_slice())),
        Err(e) => Err(e),
    }
}

/// Applies a file patch to the file at the resolved `path`, which holds `bytes`: the text
/// to write to it.
pub fn apply_unified_file_patch(path: &str, bytes: Vec<u8>, patch: &UnifiedFilePatch) -> (r: Result<
    String,
    ToolError,
>)
    ensures
        match r {
            Ok(c) => file_patched(path@, bytes@, patch@.hunks) == Ok::<Seq<char>, ToolErrorView>(
                c@,
            ),
            Err(e) => file_patched(path@, bytes@, patch@.hunks) == Err::<
                Seq<char>,
                ToolErrorView,
            >(e@),
        },
{
    match edit::read_text_file(path, bytes, None) {
        Err(e) => Err(e),
        Ok(file) => patch_text(path, file.text.as_str(), &patch.hunks),
    }
}

/// Reads a freeform patch, which must change a file.
pub fn parse_patch_freeform(patch: &str) -> (r: Result<Vec<UnifiedFilePatch>, ToolError>)
    ensures
        match r {
            Ok(files) => files@.len() > 0 && patch::unified_patch(patch@) == Ok::<
                Seq<FilePatchView>,
                ToolErrorView,
            >(files@.map_values(|f: UnifiedFilePatch| f@)),
            Err(e) => match patch::unified_patch(patch@) {
                Ok(files) => files.len() == 0 && e@ == ToolErrorView::EmptyPatch,
                Err(cause) => e@ == cause,
            },
        },
{
    match patch::parse_unified_patch(patch) {
        Err(e) => Err(e),
        Ok(files) => if files.len() == 0 {
            Err(ToolError::EmptyPatch)
        } else {
            Ok(files)
        },
    }
}

/// What a freeform patch reports once its files are patched.
pub fn apply_patch_freeform(files: &Vec<UnifiedFilePatch>) -> (r: ToolResult)
    ensures
        r@ == result::success(
            ToolName::ApplyPatchFreeform,
            "applied unified patch to "@ + text::decimal(files@.len()) + " file(s)"@,
            false,
            json::empty_object().with("files"@, JsonView::Unsigned(files@.len())),
        ),
{
    let n: u64 = files.len() as u64;
    let output = text::cat3(
        "applied unified patch to ",
        text::decimal_text(n).as_str(),
        " file(s)",
    );
    ToolResult::success(
        ToolName::ApplyPatchFreeform,
        CappedOutput::complete(output),
    ).with_metadata(Json::object().with("files", Json::Unsigned(n)))
}

// ---------------------------------------------------------------------------
// Structured patches
// ---------------------------------------------------------------------------

/// One operation of a structured patch.
#[derive(Debug)]
pub enum StructuredPatchOperation {
    Edit { path: String, old: String, new: String, expected_hash: Option<String> },
    MultiEdit { path: String, edits: Vec<edit::TextEdit>, expected_hash: Option<String> },
    Rename { from: String, to: String, expected_hash: Option<String> },
}

/// The content of a `StructuredPatchOperation`.
pub enum OperationView {
    Edit { path: Seq<char>, old: Seq<char>, new: Seq<char>, expected_hash: Option<Seq<char>> },
    MultiEdit {
        path: Seq<char>,
        edits: Seq<edit::TextEditView>,
        expected_hash: Option<Seq<char>>,
    },
    Rename { from: Seq<char>, to: Seq<char>, expected_hash: Option<Seq<char>> },
}

impl View for StructuredPatchOperation {
    type V = OperationView;

    open spec fn view(&self) -> OperationView {
        match self {
            StructuredPatchOperation::Edit { path, old, new, expected_hash } => {
                OperationView::Edit {
                    path: path@,
                    old: old@,
                    new: new@,
                    expected_hash: text::opt(*expected_hash),
                }
            },
            StructuredPatchOperation::MultiEdit { path, edits, expected_hash } => {
                OperationView::MultiEdit {
                    path: path@,
                    edits: edit::edit_views(edits@),
                    expected_hash: text::opt(*expected_hash),
                }
            },
            StructuredPatchOperation::Rename { from, to, expected_hash } => {
                OperationView::Rename {
                    from: from@,
                    to: to@,
                    expected_hash: text::opt(*expected_hash),
                }
            },
        }
    }
}

pub open spec fn operation_views(ops: Seq<StructuredPatchOperation>) -> Seq<OperationView> {
    ops.map_values(|o: StructuredPatchOperation| o@)
}

/// Operations that are carried out in order.
#[derive(Debug)]
pub struct StructuredPatch {
    pub operations: Vec<StructuredPatchOperation>,
}

/// What is to be done next with a structured patch.
#[derive(Debug)]
pub enum StructuredStep<'a> {
    /// Carry out this operation.
    Operation(&'a StructuredPatchOperation),
    /// All operations have been carried out.
    Done(ToolResult),
}

/// What a structured patch reports once its operations are carried out.
pub open spec fn structured_report(changed: nat) -> ToolResultView {
    result::success(
        ToolName::ApplyPatchStructured,
        "applied "@ + text::decimal(changed) + " structured patch operation(s)"@,
        false,
        json::empty_object().with("operations"@, JsonView::Unsigned(changed)),
    )
}

/// The step that follows `changed` operations of a patch; a patch must hold one.
pub fn apply_patch_structured<'a>(patch: &'a StructuredPatch, changed: usize) -> (r: Result<
    StructuredStep<'a>,
    ToolError,
>)
    ensures
        match r {
            Ok(StructuredStep::Operation(op)) => changed < patch.operations@.len() && *op
                == patch.operations@[changed as int],
            Ok(StructuredStep::Done(result)) => 0 < patch.operations@.len() <= changed && result@
                == structured_report(changed as nat),
            Err(e) => patch.operations@.len() == 0 && e@ == ToolErrorView::EmptyPatch,
        },
{
    if patch.operations.len() == 0 {
        return Err(ToolError::EmptyPatch);
    }
    if changed < patch.operations.len() {
        return Ok(StructuredStep::Operation(&patch.operations[changed]));
    }
    let n: u64 = changed as u64;
    let output = text::cat3(
        "applied ",
        text::decimal_text(n).as_str(),
        " structured patch operation(s)",
    );
    Ok(
        StructuredStep::Done(
            ToolResult::success(
                ToolName::ApplyPatchStructured,
                CappedOutput::complete(output),
            ).with_metadata(Json::object().with("operations", Json::Unsigned(n))),
        ),
    )
}

/// A file is renamed only if it holds text, and has the hash that is expected, if any.
pub fn check_rename_source(from: &str, bytes: Vec<u8>, expected_hash: Option<&str>) -> (r: Result<
    (),
    ToolError,
>)
    ensures
        match r {
            Ok(_) => edit::file_text(
                from@,
                bytes@,
                edit::hex(edit::sha256_digest(bytes@)),
                edit::opt_view(expected_hash),
            ) is Ok,
            Err(e) => edit::file_text(
                from@,
                bytes@,
                edit::hex(edit::sha256_digest(bytes@)),
                edit::opt_view(expected_hash),
            ) == Err::<Seq<char>, ToolErrorView>(e@),
        },
{
    match edit::read_text_file(from, bytes, expected_hash) {
        Ok(_) => Ok(()),
        Err(e) => Err(e),
    }
}

/// A file is not renamed to a path at which something exists.
pub fn check_rename_target(to: &str, exists: bool) -> (r: Result<(), ToolError>)
    ensures
        match r {
            Ok(_) => !exists,
            Err(e) => exists && e@ == (ToolErrorView::RenameTargetExists { path: to@ }),
        },
{
    if exists {
        Err(ToolError::RenameTargetExists { path: to.to_string() })
    } else {
        Ok(())
    }
}

/// A hunk whose old side stands where it should replaces that side by the new one.
pub proof fn a_matching_hunk_replaces_its_old_side(
    path: Seq<char>,
    before: Seq<Seq<char>>,
    behind: Seq<Seq<char>>,
    hunk: HunkView,
    newline: NewlineStyle,
)
    requires
        hunk.old_start == before.len() + 1,
    ensures
        ({
            let old = side_lines(hunk.lines, Side::Old, newline);
            let new = side_lines(hunk.lines, Side::New, newline);
            hunks_applied(path, before + old + behind, seq![hunk], newline) == Ok::<
                PatchState,
                ToolErrorView,
            >(PatchState { lines: before + new + behind, offset: new.len() - old.len() })
        }),
{
    let old = side_lines(hunk.lines, Side::Old, newline);
    let lines = before + old + behind;
    let n = before.len() as int;
    assert(seq![hunk].drop_last() =~= seq![]);
    assert(hunks_applied(path, lines, seq![], newline) == Ok::<PatchState, ToolErrorView>(
        PatchState { lines, offset: 0 },
    ));
    assert(lines.subrange(n, n + old.len()) =~= old);
    assert(lines.take(n) =~= before);
    assert(lines.skip(n + old.len()) =~= behind);
}

/// A hunk that has been applied, and whose old side no longer stands where it stood, can
/// be applied again: the file stays as it is.
pub proof fn applying_a_hunk_again_changes_nothing(
    path: Seq<char>,
    lines: Seq<Seq<char>>,
    hunk: HunkView,
    newline: NewlineStyle,
    patched: PatchState,
)
    requires
        hunks_applied(path, lines, seq![hunk], newline) == Ok::<PatchState, ToolErrorView>(
            patched,
        ),
        hunk.old_start <= patched.lines.len() + 1,
        !lines_at(
            patched.lines,
            side_lines(hunk.lines, Side::Old, newline),
            hunk.old_start - 1,
        ),
    ensures
        hunks_applied(path, patched.lines, seq![hunk], newline) == Ok::<PatchState, ToolErrorView>(
            patched,
        ),
{
    let old = side_lines(hunk.lines, Side::Old, newline);
    let new = side_lines(hunk.lines, Side::New, newline);
    let start = hunk.old_start - 1;
    assert(seq![hunk].drop_last() =~= seq![]);
    assert(hunks_applied(path, lines, seq![], newline) == Ok::<PatchState, ToolErrorView>(
        PatchState { lines, offset: 0 },
    ));
    assert(hunks_applied(path, patched.lines, seq![], newline) == Ok::<PatchState, ToolErrorView>(
        PatchState { lines: patched.lines, offset: 0 },
    ));
    assert(hunk_applied(path, PatchState { lines, offset: 0 }, hunk, newline) == Ok::<
        PatchState,
        ToolErrorView,
    >(patched));
    if lines_at(lines, old, start) {
        assert(patched.lines.subrange(start, start + new.len()) =~= new);
        assert(lines_at(patched.lines, new, start));
    }
    assert(has_landed(patched.lines, new));
}

// ---------------------------------------------------------------------------
// What hunks do to a file
// ---------------------------------------------------------------------------

/// A file made of stretches that stay, with a part between each two of them: the first
/// `n` parts and the stretches round them.
pub open spec fn woven(stretches: Seq<Seq<Seq<char>>>, parts: Seq<Seq<Seq<char>>>, n: nat) -> Seq<
    Seq<char>,
>
    decreases n,
{
    if n == 0 {
        stretches[0]
    } else {
        woven(stretches, parts, (n - 1) as nat) + parts[n - 1] + stretches[n as int]
    }
}

/// The sides of hunks, one for each.
pub open spec fn sides(hunks: Seq<HunkView>, side: Side, newline: NewlineStyle) -> Seq<
    Seq<Seq<char>>,
> {
    hunks.map_values(|h: HunkView| side_lines(h.lines, side, newline))
}

proof fn lemma_hunk_in_place(
    path: Seq<char>,
    before: Seq<Seq<char>>,
    behind: Seq<Seq<char>>,
    offset: int,
    hunk: HunkView,
    newline: NewlineStyle,
)
    requires
        hunk.old_start - 1 + offset == before.len(),
    ensures
        ({
            let old = side_lines(hunk.lines, Side::Old, newline);
            let new = side_lines(hunk.lines, Side::New, newline);
            let lines = before + (old + behind);
            hunk_applied(path, PatchState { lines, offset }, hunk, newline) == Ok::<
                PatchState,
                ToolErrorView,
            >(
                PatchState {
                    lines: before + new + behind,
                    offset: offset + new.len() - old.len(),
                },
            )
        }),
{
    let old = side_lines(hunk.lines, Side::Old, newline);
    let lines = before + (old + behind);
    let start = before.len() as int;
    assert(lines.subrange(start, start + old.len()) =~= old);
    assert(lines.take(start) =~= before);
    assert(lines.skip(start + old.len()) =~= behind);
}

proof fn lemma_woven_hunks(
    path: Seq<char>,
    stretches: Seq<Seq<Seq<char>>>,
    hunks: Seq<HunkView>,
    newline: NewlineStyle,
    behind: Seq<Seq<char>>,
    n: nat,
)
    requires
        n <= hunks.len(),
        forall|k: int|
            0 <= k < hunks.len() ==> (#[trigger] hunks[k]).old_start == woven(
                stretches,
                sides(hunks, Side::Old, newline),
                k as nat,
            ).len() + 1,
    ensures
        ({
            let old = woven(stretches, sides(hunks, Side::Old, newline), n);
            let new = woven(stretches, sides(hunks, Side::New, newline), n);
            hunks_applied(path, old + behind, hunks.take(n as int), newline) == Ok::<
                PatchState,
                ToolErrorView,
            >(PatchState { lines: new + behind, offset: new.len() - old.len() })
        }),
    decreases n,
{
    let olds = sides(hunks, Side::Old, newline);
    let news = sides(hunks, Side::New, newline);
    if n > 0 {
        let m = (n - 1) as nat;
        let hunk = hunks[m as int];
        let rest = stretches[n as int] + behind;
        let old = woven(stretches, olds, m);
        let new = woven(stretches, news, m);
        assert(olds[m as int] == side_lines(hunk.lines, Side::Old, newline));
        assert(news[m as int] == side_lines(hunk.lines, Side::New, newline));
        lemma_woven_hunks(path, stretches, hunks, newline, olds[m as int] + rest, m);
        lemma_hunk_in_place(path, new, rest, new.len() - old.len(), hunk, newline);
        assert(old + olds[m as int] + stretches[n as int] + behind =~= old + (olds[m as int]
            + rest));
        assert(new + news[m as int] + stretches[n as int] + behind =~= new + news[m as int]
            + rest);
        let list = hunks.take(n as int);
        assert(list.drop_last() =~= hunks.take(m as int));
        assert(list.last() == hunk);
    } else {
        assert(hunks.take(0) =~= seq![]);
    }
}

/// Hunks whose old sides stand in the file one behind the other, each at the line of the
/// file that its header names, replace every old side by its new side and leave the
/// stretches between them as they are, however much longer or shorter the new sides are.
pub proof fn hunks_replace_their_old_sides(
    path: Seq<char>,
    stretches: Seq<Seq<Seq<char>>>,
    hunks: Seq<HunkView>,
    newline: NewlineStyle,
)
    requires
        stretches.len() == hunks.len() + 1,
        forall|k: int|
            0 <= k < hunks.len() ==> (#[trigger] hunks[k]).old_start == woven(
                stretches,
                sides(hunks, Side::Old, newline),
                k as nat,
            ).len() + 1,
    ensures
        ({
            let old = woven(stretches, sides(hunks, Side::Old, newline), hunks.len());
            let new = woven(stretches, sides(hunks, Side::New, newline), hunks.len());
            hunks_applied(path, old, hunks, newline) == Ok::<PatchState, ToolErrorView>(
                PatchState { lines: new, offset: new.len() - old.len() },
            )
        }),
{
    let old = woven(stretches, sides(hunks, Side::Old, newline), hunks.len());
    let new = woven(stretches, sides(hunks, Side::New, newline), hunks.len());
    lemma_woven_hunks(path, stretches, hunks, newline, seq![], hunks.len());
    assert(old + seq![] =~= old);
    assert(new + seq![] =~= new);
    assert(hunks.take(hunks.len() as int) =~= hunks);
}

/// Two hunks at their places in a file both take effect: the second is found where its
/// header says it stands in the file as it was, whatever the first has done to the number
/// of lines before it.
pub proof fn two_hunks_both_take_effect(
    path: Seq<char>,
    before: Seq<Seq<char>>,
    middle: Seq<Seq<char>>,
    behind: Seq<Seq<char>>,
    first: HunkView,
    second: HunkView,
    newline: NewlineStyle,
)
    requires
        first.old_start == before.len() + 1,
        second.old_start == before.len() + side_lines(first.lines, Side::Old, newline).len()
            + middle.len() + 1,
    ensures
        ({
            let old1 = side_lines(first.lines, Side::Old, newline);
            let new1 = side_lines(first.lines, Side::New, newline);
            let old2 = side_lines(second.lines, Side::Old, newline);
            let new2 = side_lines(second.lines, Side::New, newline);
            let r = hunks_applied(
                path,
                before + old1 + middle + old2 + behind,
                seq![first, second],
                newline,
            );
            r is Ok && r->Ok_0.lines == before + new1 + middle + new2 + behind
        }),
{
    let hunks = seq![first, second];
    let stretches = seq![before, middle, behind];
    let olds = sides(hunks, Side::Old, newline);
    let news = sides(hunks, Side::New, newline);
    assert(olds[0] == side_lines(first.lines, Side::Old, newline));
    assert(olds[1] == side_lines(second.lines, Side::Old, newline));
    assert(news[0] == side_lines(first.lines, Side::New, newline));
    assert(news[1] == side_lines(second.lines, Side::New, newline));
    assert(woven(stretches, olds, 0) == before);
    assert(woven(stretches, news, 0) == before);
    assert(woven(stretches, olds, 1) == before + olds[0] + middle);
    assert(woven(stretches, news, 1) == before + news[0] + middle);
    assert(woven(stretches, olds, 2) =~= before + olds[0] + middle + olds[1] + behind);
    assert(woven(stretches, news, 2) =~= before + news[0] + middle + news[1] + behind);
    hunks_replace_their_old_sides(path, stretches, hunks, newline);
}

/// The old side of a hunk is its lines but the added ones, the new side its lines but the
/// removed ones, in their order.
pub proof fn a_side_leaves_out_the_other_sides_lines(lines: Seq<HunkLineView>)
    ensures
        side_lines(lines, Side::Old, NewlineStyle::Lf) == lines.filter(
            |l: HunkLineView| l.kind != HunkLineKind::Add,
        ).map_values(|l: HunkLineView| text::replace(l.text, "\r\n"@, "\n"@)),
        side_lines(lines, Side::New, NewlineStyle::Lf) == lines.filter(
            |l: HunkLineView| l.kind != HunkLineKind::Remove,
        ).map_values(|l: HunkLineView| text::replace(l.text, "\r\n"@, "\n"@)),
        side_lines(lines, Side::Old, NewlineStyle::Crlf) == lines.filter(
            |l: HunkLineView| l.kind != HunkLineKind::Add,
        ).map_values(
            |l: HunkLineView|
                text::replace(text::replace(l.text, "\r\n"@, "\n"@), "\n"@, "\r\n"@),
        ),
        side_lines(lines, Side::New, NewlineStyle::Crlf) == lines.filter(
            |l: HunkLineView| l.kind != HunkLineKind::Remove,
        ).map_values(
            |l: HunkLineView|
                text::replace(text::replace(l.text, "\r\n"@, "\n"@), "\n"@, "\r\n"@),
        ),
    decreases lines.len(),
{
    reveal(Seq::filter);
    if lines.len() > 0 {
        a_side_leaves_out_the_other_sides_lines(lines.drop_last());
        let old = lines.drop_last().filter(|l: HunkLineView| l.kind != HunkLineKind::Add);
        let new = lines.drop_last().filter(|l: HunkLineView| l.kind != HunkLineKind::Remove);
        let unix = |l: HunkLineView| text::replace(l.text, "\r\n"@, "\n"@);
        let dos = |l: HunkLineView|
            text::replace(text::replace(l.text, "\r\n"@, "\n"@), "\n"@, "\r\n"@);
        let l = lines.last();
        assert(old.push(l).map_values(unix) =~= old.map_values(unix).push(unix(l)));
        assert(new.push(l).map_values(unix) =~= new.map_values(unix).push(unix(l)));
        assert(old.push(l).map_values(dos) =~= old.map_values(dos).push(dos(l)));
        assert(new.push(l).map_values(dos) =~= new.map_values(dos).push(dos(l)));
    }
}

/// A hunk whose old side does not stand where it should, and whose new side stands
/// nowhere in the file, is refused, and so is every list of hunks that it begins.
pub proof fn a_hunk_that_fits_nowhere_is_refused(
    path: Seq<char>,
    lines: Seq<Seq<char>>,
    hunks: Seq<HunkView>,
    newline: NewlineStyle,
)
    requires
        hunks.len() > 0,
        ({
            let old = side_lines(hunks[0].lines, Side::Old, newline);
            let new = side_lines(hunks[0].lines, Side::New, newline);
            let at = hunks[0].old_start - 1;
            &&& new.len() > 0
            &&& forall|a: Seq<Seq<char>>, b: Seq<Seq<char>>|
                lines == #[trigger] (a + old + b) ==> a.len() != at
            &&& forall|a: Seq<Seq<char>>, b: Seq<Seq<char>>| lines != #[trigger] (a + new + b)
        }),
    ensures
        hunks_applied(path, lines, hunks, newline) matches Err(
            ToolErrorView::PatchApplyFailed { path: p, .. },
        ) && p == path,
    decreases hunks.len(),
{
    let old = side_lines(hunks[0].lines, Side::Old, newline);
    let new = side_lines(hunks[0].lines, Side::New, newline);
    let at = hunks[0].old_start - 1;
    if hunks.len() > 1 {
        a_hunk_that_fits_nowhere_is_refused(path, lines, hunks.drop_last(), newline);
    } else {
        assert(hunks.drop_last() =~= seq![]);
        assert(hunks_applied(path, lines, seq![], newline) == Ok::<PatchState, ToolErrorView>(
            PatchState { lines, offset: 0 },
        ));
        if lines_at(lines, old, at) {
            let a = lines.take(at);
            let b = lines.skip(at + old.len());
            assert(lines =~= a + old + b);
        }
        if has_landed(lines, new) {
            let i = choose|i: int| lines_at(lines, new, i);
            let a = lines.take(i);
            let b = lines.skip(i + new.len());
            assert(lines =~= a + new + b);
        }
    }
}

/// A structured patch that was applied is reported with the number of its operations.
pub proof fn a_structured_patch_is_reported_with_its_count(changed: nat)
    ensures
        structured_report(changed).name == ToolName::ApplyPatchStructured,
        structured_report(changed).output == "applied "@ + text::decimal(changed)
            + " structured patch operation(s)"@,
        json::field(structured_report(changed).metadata, "operations"@) == Some(
            JsonView::Unsigned(changed),
        ),
{
}

/// A file that holds the old side of a hunk where its header says holds the new side there
/// afterwards, and all its other lines as they were.
pub proof fn a_patched_text_holds_the_new_side(
    path: Seq<char>,
    content: Seq<char>,
    hunk: HunkView,
    before: Seq<Seq<char>>,
    behind: Seq<Seq<char>>,
)
    requires
        hunk.old_start - 1 == before.len(),
        text::full_lines(content) == before + side_lines(
            hunk.lines,
            Side::Old,
            edit::newline_of(content),
        ) + behind,
    ensures
        text_patched(path, content, seq![hunk]) == Ok::<Seq<char>, ToolErrorView>(
            text::concat(
                before + side_lines(hunk.lines, Side::New, edit::newline_of(content)) + behind,
            ),
        ),
{
    let style = edit::newline_of(content);
    let lines = text::full_lines(content);
    lemma_hunk_in_place(path, before, behind, 0, hunk, style);
    assert(lines =~= before + (side_lines(hunk.lines, Side::Old, style) + behind));
    assert(seq![hunk].drop_last() =~= seq![]);
    assert(hunks_applied(path, lines, seq![], style) == Ok::<PatchState, ToolErrorView>(
        PatchState { lines, offset: 0 },
    ));
    assert(seq![hunk].last() == hunk);
}

} // verus!
