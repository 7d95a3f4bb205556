//! The tool `apply_patch`: patches between a begin and an end mark, and operations on
//! lines that were read before.
use vstd::prelude::*;
use vstd::slice::slice_subrange;

use crate::json;
use crate::json::{Json, JsonView};
use crate::text;
use crate::text_laws;
use crate::tools::edit;
use crate::tools::edit::{TextEdit, TextEditView};
use crate::tools::error::{ToolError, ToolErrorView};
use crate::tools::names::ToolName;
use crate::tools::patch;
use crate::tools::result;
use crate::tools::result::{CappedOutput, ToolResult, ToolResultView};

verus! {

// ---------------------------------------------------------------------------
// Lines
// ---------------------------------------------------------------------------

/// Whether the lines `start` to `end` of a text, counted from one and with their line
/// ends, are exactly `old`.
pub open spec fn lines_are(content: Seq<char>, start: nat, end: nat, old: Seq<char>) -> bool {
    let lines = text::full_lines(content);
    1 <= start <= end <= lines.len() && text::concat(lines.subrange(start - 1, end as int)) == old
}

/// A text with `new` in place of the lines `start` to `end`.
pub open spec fn lines_replaced(content: Seq<char>, start: nat, end: nat, new: Seq<char>) -> Seq<
    char,
> {
    let lines = text::full_lines(content);
    text::concat(lines.take(start - 1)) + new + text::concat(lines.skip(end as int))
}

/// What is said of lines that are not what they were taken for.
pub open spec fn mismatch_text(start: nat, end: nat) -> Seq<char> {
    "lines "@ + text::decimal(start) + "-"@ + text::decimal(end) + " do not match the old text"@
}

/// The text with other lines in place of the lines `start` to `end`, which must hold `old`.
pub open spec fn line_updated(
    content: Seq<char>,
    start: nat,
    end: nat,
    old: Seq<char>,
    new: Seq<char>,
) -> Result<Seq<char>, ToolErrorView> {
    if lines_are(content, start, end, old) {
        Ok(lines_replaced(content, start, end, new))
    } else {
        Err(ToolErrorView::InvalidPatch(mismatch_text(start, end)))
    }
}

fn mismatch(start: usize, end: usize) -> (r: String)
    ensures
        r@ == mismatch_text(start as nat, end as nat),
{
    text::cat5(
        "lines ",
        text::decimal_text(start as u64).as_str(),
        "-",
        text::decimal_text(end as u64).as_str(),
        " do not match the old text",
    )
}

/// The lines with the indices from `from` up to `to`, put together.
fn joined_lines(lines: &Vec<String>, from: usize, to: usize) -> (r: String)
    requires
        from <= to <= lines@.len(),
    ensures
        r@ == text::concat(text::views(lines@).subrange(from as int, to as int)),
{
    let part = slice_subrange(lines.as_slice(), from, to);
    assert(text::views(part@) =~= text::views(lines@).subrange(from as int, to as int));
    text::concat_strings(part)
}

/// Puts `new` in place of the lines `start_line` to `end_line`, which must hold `old`.
pub fn apply_line_update(
    content: &str,
    start_line: usize,
    end_line: usize,
    old: &str,
    new: &str,
) -> (r: Result<String, ToolError>)
    ensures
        match r {
            Ok(c) => line_updated(content@, start_line as nat, end_line as nat, old@, new@) == Ok::<
                Seq<char>,
                ToolErrorView,
            >(c@),
            Err(e) => line_updated(content@, start_line as nat, end_line as nat, old@, new@)
                == Err::<Seq<char>, ToolErrorView>(e@),
        },
{
    let lines = text::split_lines_lossless(content);
    if start_line < 1 || end_line < start_line || end_line > lines.len() {
        return Err(ToolError::InvalidPatch(mismatch(start_line, end_line)));
    }
    let found = joined_lines(&lines, start_line - 1, end_line);
    if !text::same(found.as_str(), old) {
        return Err(ToolError::InvalidPatch(mismatch(start_line, end_line)));
    }
    let before = joined_lines(&lines, 0, start_line - 1);
    let behind = joined_lines(&lines, end_line, lines.len());
    assert(text::views(lines@).subrange(end_line as int, lines@.len() as int) =~= text::views(
        lines@,
    ).skip(end_line as int));
    Ok(text::cat3(before.as_str(), new, behind.as_str()))
}

/// The lines of a text in two parts, each put together, are the text's lines put together.
proof fn lemma_concat_parts(a: Seq<Seq<char>>, b: Seq<Seq<char>>)
    ensures
        text::concat(a + b) == text::concat(a) + text::concat(b),
    decreases b.len(),
{
    if b.len() == 0 {
        assert(a + b =~= a);
        assert(text::concat(a) + text::concat(b) =~= text::concat(a));
    } else {
        lemma_concat_parts(a, b.drop_last());
        assert((a + b).drop_last() =~= a + b.drop_last());
        assert(text::concat(a + b) =~= text::concat(a) + text::concat(b));
    }
}

/// A line update that puts the old lines in their own place changes nothing.
pub proof fn the_same_lines_change_nothing(
    content: Seq<char>,
    start: nat,
    end: nat,
    old: Seq<char>,
)
    requires
        lines_are(content, start, end, old),
    ensures
        line_updated(content, start, end, old, old) == Ok::<Seq<char>, ToolErrorView>(content),
{
    let lines = text::full_lines(content);
    let a = lines.take(start - 1);
    let b = lines.subrange(start - 1, end as int);
    let c = lines.skip(end as int);
    lemma_concat_parts(a, b);
    lemma_concat_parts(a + b, c);
    assert(a + b + c =~= lines);
    text::full_lines_lose_nothing(content);
}

/// A line update keeps what stands before and behind the lines, and puts the new text
/// between: the text is cut in three, and only the middle changes.
pub proof fn a_line_update_changes_its_lines_alone(
    content: Seq<char>,
    start: nat,
    end: nat,
    old: Seq<char>,
    new: Seq<char>,
)
    requires
        lines_are(content, start, end, old),
    ensures
        exists|before: Seq<char>, behind: Seq<char>|
            content == #[trigger] (before + old + behind) && line_updated(
                content,
                start,
                end,
                old,
                new,
            ) == Ok::<Seq<char>, ToolErrorView>(before + new + behind),
{
    the_same_lines_change_nothing(content, start, end, old);
    let lines = text::full_lines(content);
    let before = text::concat(lines.take(start - 1));
    let behind = text::concat(lines.skip(end as int));
    assert(content == before + old + behind);
}

// ---------------------------------------------------------------------------
// Operations
// ---------------------------------------------------------------------------

/// One operation of the tool.
#[derive(Debug)]
pub enum PatchOperation {
    /// Write a file with this content.
    Add { path: String, content: String },
    /// Make these edits in a file.
    Update { path: String, edits: Vec<TextEdit> },
    /// Take a file away.
    Delete { path: String },
    /// Put `new` in place of lines that hold `old`.
    Lines { path: String, start_line: usize, end_line: usize, old: String, new: String },
}

/// The content of a `PatchOperation`.
pub enum PatchOperationView {
    Add { path: Seq<char>, content: Seq<char> },
    Update { path: Seq<char>, edits: Seq<TextEditView> },
    Delete { path: Seq<char> },
    Lines { path: Seq<char>, start_line: nat, end_line: nat, old: Seq<char>, new: Seq<char> },
}

impl View for PatchOperation {
    type V = PatchOperationView;

    open spec fn view(&self) -> PatchOperationView {
        match self {
            PatchOperation::Add { path, content } => PatchOperationView::Add {
                path: path@,
                content: content@,
            },
            PatchOperation::Update { path, edits } => PatchOperationView::Update {
                path: path@,
                edits: edit::edit_views(edits@),
            },
            PatchOperation::Delete { path } => PatchOperationView::Delete { path: path@ },
            PatchOperation::Lines { path, start_line, end_line, old, new } => {
                PatchOperationView::Lines {
                    path: path@,
                    start_line: *start_line as nat,
                    end_line: *end_line as nat,
                    old: old@,
                    new: new@,
                }
            },
        }
    }
}

pub open spec fn patch_operation_views(ops: Seq<PatchOperation>) -> Seq<PatchOperationView> {
    ops.map_values(|o: PatchOperation| o@)
}

/// What a file of the given bytes holds after an update of its lines. The old and the new
/// text are taken with the line ends of the file.
pub open spec fn file_lines_updated(
    path: Seq<char>,
    bytes: Seq<u8>,
    start: nat,
    end: nat,
    old: Seq<char>,
    new: Seq<char>,
) -> Result<Seq<char>, ToolErrorView> {
    match edit::file_text(path, bytes, edit::hex(edit::sha256_digest(bytes)), None) {
        Err(e) => Err(e),
        Ok(content) => {
            let newline = edit::newline_of(content);
            let found = edit::with_newlines(old, newline);
            if lines_are(content, start, end, found) {
                Ok(lines_replaced(content, start, end, edit::with_newlines(new, newline)))
            } else {
                Err(ToolErrorView::PatchApplyFailed { path, message: mismatch_text(start, end) })
            }
        },
    }
}

/// Updates lines of the file at the resolved `path`, which holds `bytes`: the text to
/// write to it.
pub fn update_file_lines(
    path: &str,
    bytes: Vec<u8>,
    start_line: usize,
    end_line: usize,
    old: &str,
    new: &str,
) -> (r: Result<String, ToolError>)
    ensures
        match r {
            Ok(c) => file_lines_updated(
                path@,
                bytes@,
                start_line as nat,
                end_line as nat,
                old@,
                new@,
            ) == Ok::<Seq<char>, ToolErrorView>(c@),
            Err(e) => file_lines_updated(
                path@,
                bytes@,
                start_line as nat,
                end_line as nat,
                old@,
                new@,
            ) == Err::<Seq<char>, ToolErrorView>(e@),
        },
{
    let file = match edit::read_text_file(path, bytes, None) {
        Err(e) => {
            return Err(e);
        },
        Ok(file) => file,
    };
    let found = edit::normalize_edit_text(old, file.newline);
    let put = edit::normalize_edit_text(new, file.newline);
    match apply_line_update(file.text.as_str(), start_line, end_line, found.as_str(), put.as_str()) {
        Ok(c) => Ok(c),
        Err(_) => Err(
            ToolError::PatchApplyFailed {
                path: path.to_string(),
                message: mismatch(start_line, end_line),
            },
        ),
    }
}

/// Edits the file at the resolved `path`, which holds `bytes`: the text to write to it.
pub fn update_file(path: &str, bytes: Vec<u8>, edits: &[TextEdit]) -> (r: Result<
    String,
    ToolError,
>)
    ensures
        match r {
            Ok(c) => edit::file_edited(
                path@,
                bytes@,
                edit::hex(edit::sha256_digest(bytes@)),
                edit::edit_views(edits@),
                None,
            ) == Ok::<Seq<char>, ToolErrorView>(c@),
            Err(e) => edit::file_edited(
                path@,
                bytes@,
                edit::hex(edit::sha256_digest(bytes@)),
                edit::edit_views(edits@),
                None,
            ) == Err::<Seq<char>, ToolErrorView>(e@),
        },
{
    let actual_hash = edit::sha256_hex(bytes.as_slice());
    edit::edit_hashed_file(path, bytes, actual_hash.as_str(), edits, None)
}

/// What is to be done next with a patch.
#[derive(Debug)]
pub enum PatchStep<'a> {
    /// Carry out this operation.
    Operation(&'a PatchOperation),
    /// All operations have been carried out.
    Done(ToolResult),
}

/// What the tool reports once its operations are carried out.
pub open spec fn patch_report(changed: nat) -> ToolResultView {
    result::success(
        ToolName::ApplyPatch,
        "applied "@ + text::decimal(changed) + " patch operation(s)"@,
        false,
        json::empty_object().with("operations"@, JsonView::Unsigned(changed)),
    )
}

/// The step that follows `changed` operations of a patch; a patch must hold one.
pub fn apply_patch<'a>(operations: &'a Vec<PatchOperation>, changed: usize) -> (r: Result<
    PatchStep<'a>,
    ToolError,
>)
    ensures
        match r {
            Ok(PatchStep::Operation(op)) => changed < operations@.len() && *op
                == operations@[changed as int],
            Ok(PatchStep::Done(result)) => 0 < operations@.len() <= changed && result@
                == patch_report(changed as nat),
            Err(e) => operations@.len() == 0 && e@ == ToolErrorView::EmptyPatch,
        },
{
    if operations.len() == 0 {
        return Err(ToolError::EmptyPatch);
    }
    if changed < operations.len() {
        return Ok(PatchStep::Operation(&operations[changed]));
    }
    let n: u64 = changed as u64;
    let output = text::cat3("applied ", text::decimal_text(n).as_str(), " patch operation(s)");
    Ok(
        PatchStep::Done(
            ToolResult::success(
                ToolName::ApplyPatch,
                CappedOutput::complete(output),
            ).with_metadata(Json::object().with("operations", Json::Unsigned(n))),
        ),
    )
}

// ---------------------------------------------------------------------------
// Patches between marks
// ---------------------------------------------------------------------------

pub open spec fn invalid<T>(message: Seq<char>) -> Result<T, ToolErrorView> {
    Err(ToolErrorView::InvalidPatch(message))
}

/// A line that starts with three stars and a blank opens or ends a section.
pub open spec fn is_mark(line: Seq<char>) -> bool {
    text::starts_with(line, "*** "@)
}

/// Where the section body that starts at line `i` ends.
pub open spec fn section_end(lines: Seq<Seq<char>>, i: int) -> int
    decreases lines.len() - i,
{
    if i < 0 || i >= lines.len() || is_mark(lines[i]) {
        i
    } else {
        section_end(lines, i + 1)
    }
}

/// The content of an added file: each line of the section stands behind a plus sign.
pub open spec fn added_content(body: Seq<Seq<char>>) -> Result<Seq<char>, ToolErrorView>
    decreases body.len(),
{
    if body.len() == 0 {
        Ok(seq![])
    } else {
        match added_content(body.drop_last()) {
            Err(e) => Err(e),
            Ok(before) => {
                let line = body.last();
                if line.len() > 0 && line[0] == '+' {
                    Ok(before + line.skip(1).push('\n'))
                } else {
                    invalid("added line must start with +: "@ + line)
                }
            },
        }
    }
}

/// The edits of an updated file. A line that starts with two at signs opens an edit;
/// each other line belongs to its old side, its new side or both.
pub open spec fn section_edits(body: Seq<Seq<char>>) -> Result<Seq<TextEditView>, ToolErrorView>
    decreases body.len(),
{
    if body.len() == 0 {
        Ok(seq![])
    } else {
        match section_edits(body.drop_last()) {
            Err(e) => Err(e),
            Ok(before) => edits_with_line(before, body.last()),
        }
    }
}

pub open spec fn no_edit() -> TextEditView {
    TextEditView { old: seq![], new: seq![] }
}

/// The edits of a section, with one more line of it.
pub open spec fn edits_with_line(before: Seq<TextEditView>, line: Seq<char>) -> Result<
    Seq<TextEditView>,
    ToolErrorView,
> {
    if text::starts_with(line, "@@"@) {
        Ok(before.push(no_edit()))
    } else {
        let done = if before.len() == 0 {
            before
        } else {
            before.drop_last()
        };
        let last = if before.len() == 0 {
            no_edit()
        } else {
            before.last()
        };
        if line.len() == 0 {
            Ok(done.push(TextEditView { old: last.old.push('\n'), new: last.new.push('\n') }))
        } else {
            let shown = line.skip(1).push('\n');
            if line[0] == ' ' {
                Ok(done.push(TextEditView { old: last.old + shown, new: last.new + shown }))
            } else if line[0] == '-' {
                Ok(done.push(TextEditView { old: last.old + shown, new: last.new }))
            } else if line[0] == '+' {
                Ok(done.push(TextEditView { old: last.old, new: last.new + shown }))
            } else {
                invalid("invalid hunk line: "@ + line)
            }
        }
    }
}

/// The path behind the prefix of a mark.
pub open spec fn marked_path(line: Seq<char>, prefix: Seq<char>) -> Seq<char> {
    text::trimmed(line.skip(prefix.len() as int))
}

/// The path in a mark that has the given prefix; it must name a file.
pub open spec fn file_path(mark: Seq<char>, prefix: Seq<char>) -> Result<Seq<char>, ToolErrorView> {
    let path = marked_path(mark, prefix);
    if path.len() == 0 || path == "/dev/null"@ {
        invalid("patch names no file: "@ + mark)
    } else {
        Ok(path)
    }
}

/// The operation that the section with the given mark and body denotes.
pub open spec fn section(mark: Seq<char>, body: Seq<Seq<char>>) -> Result<
    PatchOperationView,
    ToolErrorView,
> {
    if text::starts_with(mark, "*** Add File: "@) {
        match (file_path(mark, "*** Add File: "@), added_content(body)) {
            (Err(e), _) => Err(e),
            (_, Err(e)) => Err(e),
            (Ok(path), Ok(content)) => Ok(PatchOperationView::Add { path, content }),
        }
    } else if text::starts_with(mark, "*** Update File: "@) {
        match (file_path(mark, "*** Update File: "@), section_edits(body)) {
            (Err(e), _) => Err(e),
            (_, Err(e)) => Err(e),
            (Ok(path), Ok(edits)) => Ok(PatchOperationView::Update { path, edits }),
        }
    } else if text::starts_with(mark, "*** Delete File: "@) && body.len() == 0 {
        match file_path(mark, "*** Delete File: "@) {
            Err(e) => Err(e),
            Ok(path) => Ok(PatchOperationView::Delete { path }),
        }
    } else {
        invalid("unexpected line in patch: "@ + mark)
    }
}

/// The path of the file that an operation changes.
pub open spec fn operation_path(op: PatchOperationView) -> Seq<char> {
    match op {
        PatchOperationView::Add { path, .. } => path,
        PatchOperationView::Update { path, .. } => path,
        PatchOperationView::Delete { path } => path,
        PatchOperationView::Lines { path, .. } => path,
    }
}

pub proof fn lemma_section_end(lines: Seq<Seq<char>>, i: int)
    requires
        0 <= i <= lines.len(),
    ensures
        i <= section_end(lines, i) <= lines.len(),
    decreases lines.len() - i,
{
    if i < lines.len() && !is_mark(lines[i]) {
        lemma_section_end(lines, i + 1);
    }
}

/// The operations of the sections from line `i` on, up to the end mark.
pub open spec fn sections(lines: Seq<Seq<char>>, i: int) -> Result<
    Seq<PatchOperationView>,
    ToolErrorView,
>
    decreases lines.len() - i,
{
    if i < 0 || i >= lines.len() {
        invalid("patch must end with *** End Patch"@)
    } else if text::trimmed(lines[i]) == "*** End Patch"@ {
        Ok(seq![])
    } else {
        let end = section_end(lines, i + 1);
        match section(lines[i], lines.subrange(i + 1, end)) {
            Err(e) => Err(e),
            Ok(op) => {
                proof {
                    lemma_section_end(lines, i + 1);
                }
                patch::prepend(seq![op], sections(lines, end))
            },
        }
    }
}

/// The operations of a patch between its begin and its end mark.
pub open spec fn marked_patch(patch: Seq<char>) -> Result<Seq<PatchOperationView>, ToolErrorView> {
    let lines = text::lines(patch);
    if lines.len() == 0 || text::trimmed(lines[0]) != "*** Begin Patch"@ {
        invalid("patch must start with *** Begin Patch"@)
    } else {
        sections(lines, 1)
    }
}

fn behind_first(line: &String) -> (r: (Option<char>, String))
    ensures
        match r.0 {
            Some(c) => line@.len() > 0 && c == line@[0] && r.1@ == line@.skip(1).push('\n'),
            None => line@.len() == 0,
        },
{
    let cs = text::chars_of(line.as_str());
    if cs.len() == 0 {
        return (None, String::new());
    }
    let mut rest = text::string_of(slice_subrange(cs.as_slice(), 1, cs.len()));
    assert(rest@ =~= line@.skip(1));
    rest.push('\n');
    (Some(cs[0]), rest)
}

/// Reads the content of an added file from the lines `from` up to `to`.
fn parse_added(lines: &Vec<String>, from: usize, to: usize) -> (r: Result<String, ToolError>)
    requires
        from <= to <= lines@.len(),
    ensures
        match r {
            Ok(c) => added_content(text::views(lines@).subrange(from as int, to as int)) == Ok::<
                Seq<char>,
                ToolErrorView,
            >(c@),
            Err(e) => added_content(text::views(lines@).subrange(from as int, to as int)) == Err::<
                Seq<char>,
                ToolErrorView,
            >(e@),
        },
{
    let ghost body = text::views(lines@).subrange(from as int, to as int);
    let mut content = String::new();
    let mut i: usize = from;
    assert(body.take(0) =~= seq![]);
    assert(content@ =~= seq![]);
    while i < to
        invariant
            from <= i <= to <= lines@.len(),
            body == text::views(lines@).subrange(from as int, to as int),
            added_content(body.take(i - from)) == Ok::<Seq<char>, ToolErrorView>(content@),
        decreases to - i,
    {
        let ghost n = i - from;
        assert(body.take(n + 1).drop_last() =~= body.take(n));
        assert(body.take(n + 1).last() == lines@[i as int]@);
        let (first, rest) = behind_first(&lines[i]);
        if first == Some('+') {
            content.push_str(rest.as_str());
        } else {
            let e = ToolError::InvalidPatch(
                text::cat2("added line must start with +: ", lines[i].as_str()),
            );
            proof {
                lemma_bad_content(body, n + 1, e@);
            }
            return Err(e);
        }
        i += 1;
    }
    assert(body.take(to - from) =~= body);
    Ok(content)
}

proof fn lemma_bad_content(body: Seq<Seq<char>>, n: int, e: ToolErrorView)
    requires
        0 <= n <= body.len(),
        added_content(body.take(n)) == Err::<Seq<char>, ToolErrorView>(e),
    ensures
        added_content(body) == Err::<Seq<char>, ToolErrorView>(e),
    decreases body.len() - n,
{
    if n == body.len() {
        assert(body.take(n) =~= body);
    } else {
        assert(body.take(n + 1).drop_last() =~= body.take(n));
        lemma_bad_content(body, n + 1, e);
    }
}

/// Adds a line of a section to the edits of the section.
fn add_line(edits: &mut Vec<TextEdit>, line: &String) -> (r: Result<(), ToolError>)
    ensures
        match r {
            Ok(_) => edits_with_line(edit::edit_views(old(edits)@), line@) == Ok::<
                Seq<TextEditView>,
                ToolErrorView,
            >(edit::edit_views(final(edits)@)),
            Err(e) => edits_with_line(edit::edit_views(old(edits)@), line@) == Err::<
                Seq<TextEditView>,
                ToolErrorView,
            >(e@),
        },
{
    let ghost before = edit::edit_views(edits@);
    if text::has_prefix(line.as_str(), "@@") {
        let opened = TextEdit { old: String::new(), new: String::new() };
        assert(opened@.old =~= seq![] && opened@.new =~= seq![]);
        edits.push(opened);
        assert(edit::edit_views(edits@) =~= before.push(no_edit()));
        return Ok(());
    }
    let (first, shown) = behind_first(line);
    let (in_old, in_new) = match first {
        None => (true, true),
        Some(c) => if c == ' ' {
            (true, true)
        } else if c == '-' {
            (true, false)
        } else if c == '+' {
            (false, true)
        } else {
            return Err(ToolError::InvalidPatch(text::cat2("invalid hunk line: ", line.as_str())));
        },
    };
    let last = edits.pop();
    let mut last = match last {
        Some(last) => last,
        None => TextEdit { old: String::new(), new: String::new() },
    };
    let ghost done = edit::edit_views(edits@);
    let ghost start = last@;
    proof {
        if before.len() == 0 {
            assert(done =~= before);
            assert(start.old =~= seq![] && start.new =~= seq![]);
        } else {
            assert(done =~= before.drop_last());
            assert(start == before.last());
        }
    }
    match first {
        None => {
            last.old.push('\n');
            last.new.push('\n');
        },
        Some(_) => {
            if in_old {
                last.old.push_str(shown.as_str());
            }
            if in_new {
                last.new.push_str(shown.as_str());
            }
        },
    }
    let ghost put = last@;
    edits.push(last);
    assert(edit::edit_views(edits@) =~= done.push(put));
    Ok(())
}

/// Reads the edits of an updated file from the lines `from` up to `to`.
fn parse_edits(lines: &Vec<String>, from: usize, to: usize) -> (r: Result<Vec<TextEdit>, ToolError>)
    requires
        from <= to <= lines@.len(),
    ensures
        match r {
            Ok(edits) => section_edits(text::views(lines@).subrange(from as int, to as int))
                == Ok::<Seq<TextEditView>, ToolErrorView>(edit::edit_views(edits@)),
            Err(e) => section_edits(text::views(lines@).subrange(from as int, to as int)) == Err::<
                Seq<TextEditView>,
                ToolErrorView,
            >(e@),
        },
{
    let ghost body = text::views(lines@).subrange(from as int, to as int);
    let mut edits: Vec<TextEdit> = Vec::new();
    let mut i: usize = from;
    assert(body.take(0) =~= seq![]);
    assert(edit::edit_views(edits@) =~= seq![]);
    while i < to
        invariant
            from <= i <= to <= lines@.len(),
            body == text::views(lines@).subrange(from as int, to as int),
            section_edits(body.take(i - from)) == Ok::<Seq<TextEditView>, ToolErrorView>(
                edit::edit_views(edits@),
            ),
        decreases to - i,
    {
        let ghost n = i - from;
        assert(body.take(n + 1).drop_last() =~= body.take(n));
        assert(body.take(n + 1).last() == lines@[i as int]@);
        match add_line(&mut edits, &lines[i]) {
            Ok(_) => {},
            Err(e) => {
                proof {
                    lemma_bad_edits(body, n + 1, e@);
                }
                return Err(e);
            },
        }
        i += 1;
    }
    assert(body.take(to - from) =~= body);
    Ok(edits)
}

proof fn lemma_bad_edits(body: Seq<Seq<char>>, n: int, e: ToolErrorView)
    requires
        0 <= n <= body.len(),
        section_edits(body.take(n)) == Err::<Seq<TextEditView>, ToolErrorView>(e),
    ensures
        section_edits(body) == Err::<Seq<TextEditView>, ToolErrorView>(e),
    decreases body.len() - n,
{
    if n == body.len() {
        assert(body.take(n) =~= body);
    } else {
        assert(body.take(n + 1).drop_last() =~= body.take(n));
        lemma_bad_edits(body, n + 1, e);
    }
}

/// Where the section body that starts at line `start` ends.
fn find_section_end(lines: &Vec<String>, start: usize) -> (r: usize)
    requires
        start <= lines@.len(),
    ensures
        r == section_end(text::views(lines@), start as int),
        start <= r <= lines@.len(),
{
    let ghost all = text::views(lines@);
    let mut i: usize = start;
    while i < lines.len() && !text::has_prefix(lines[i].as_str(), "*** ")
        invariant
            start <= i <= lines@.len(),
            all == text::views(lines@),
            section_end(all, i as int) == section_end(all, start as int),
        decreases lines@.len() - i,
    {
        i += 1;
    }
    i
}

/// The path in the rest of a mark, which must name a file.
fn check_path(mark: &str, rest: &str) -> (r: Result<String, ToolError>)
    ensures
        match r {
            Ok(path) => path@ == text::trimmed(rest@) && path@.len() > 0 && path@ != "/dev/null"@,
            Err(e) => (text::trimmed(rest@).len() == 0 || text::trimmed(rest@) == "/dev/null"@)
                && e@ == ToolErrorView::InvalidPatch("patch names no file: "@ + mark@),
        },
{
    let path = text::trim(rest);
    if text::is_blank_len(&path) || text::same(path.as_str(), "/dev/null") {
        return Err(ToolError::InvalidPatch(text::cat2("patch names no file: ", mark)));
    }
    Ok(path)
}

/// Reads the section whose mark is line `i` and whose body ends at line `end`.
fn parse_section(lines: &Vec<String>, i: usize, end: usize) -> (r: Result<
    PatchOperation,
    ToolError,
>)
    requires
        i < end <= lines@.len(),
    ensures
        match r {
            Ok(op) => section(
                lines@[i as int]@,
                text::views(lines@).subrange(i + 1, end as int),
            ) == Ok::<PatchOperationView, ToolErrorView>(op@),
            Err(e) => section(
                lines@[i as int]@,
                text::views(lines@).subrange(i + 1, end as int),
            ) == Err::<PatchOperationView, ToolErrorView>(e@),
        },
{
    let mark = lines[i].as_str();
    if let Some(rest) = text::strip_prefix(mark, "*** Add File: ") {
        let path = match check_path(mark, rest.as_str()) {
            Ok(path) => path,
            Err(e) => {
                return Err(e);
            },
        };
        return match parse_added(lines, i + 1, end) {
            Ok(content) => Ok(PatchOperation::Add { path, content }),
            Err(e) => Err(e),
        };
    }
    if let Some(rest) = text::strip_prefix(mark, "*** Update File: ") {
        let path = match check_path(mark, rest.as_str()) {
            Ok(path) => path,
            Err(e) => {
                return Err(e);
            },
        };
        return match parse_edits(lines, i + 1, end) {
            Ok(edits) => Ok(PatchOperation::Update { path, edits }),
            Err(e) => Err(e),
        };
    }
    if end == i + 1 {
        if let Some(rest) = text::strip_prefix(mark, "*** Delete File: ") {
            return match check_path(mark, rest.as_str()) {
                Ok(path) => Ok(PatchOperation::Delete { path }),
                Err(e) => Err(e),
            };
        }
    }
    Err(ToolError::InvalidPatch(text::cat2("unexpected line in patch: ", mark)))
}

/// Reads a patch between its begin and its end mark.
pub fn parse_marked_patch(patch: &str) -> (r: Result<Vec<PatchOperation>, ToolError>)
    ensures
        match r {
            Ok(ops) => marked_patch(patch@) == Ok::<Seq<PatchOperationView>, ToolErrorView>(
                patch_operation_views(ops@),
            ),
            Err(e) => marked_patch(patch@) == Err::<Seq<PatchOperationView>, ToolErrorView>(e@),
        },
{
    let lines = text::lines_of(patch);
    let ghost all = text::views(lines@);
    let begins = if lines.len() == 0 {
        false
    } else {
        let first = text::trim(lines[0].as_str());
        text::same(first.as_str(), "*** Begin Patch")
    };
    if !begins {
        return Err(ToolError::InvalidPatch("patch must start with *** Begin Patch".to_string()));
    }
    let mut ops: Vec<PatchOperation> = Vec::new();
    let mut i: usize = 1;
    proof {
        if let Ok(x) = sections(all, 1) {
            assert(patch_operation_views(ops@) + x =~= x);
        }
    }
    while i < lines.len()
        invariant
            1 <= i <= lines@.len(),
            all == text::views(lines@),
            marked_patch(patch@) == sections(all, 1),
            patch::prepend(patch_operation_views(ops@), sections(all, i as int)) == sections(
                all,
                1,
            ),
        decreases lines@.len() - i,
    {
        let ghost read = patch_operation_views(ops@);
        let shown = text::trim(lines[i].as_str());
        if text::same(shown.as_str(), "*** End Patch") {
            assert(read + seq![] =~= read);
            return Ok(ops);
        }
        let end = find_section_end(&lines, i + 1);
        match parse_section(&lines, i, end) {
            Err(e) => {
                return Err(e);
            },
            Ok(op) => {
                let ghost rest = sections(all, end as int);
                let ghost shown_op = op@;
                ops.push(op);
                i = end;
                proof {
                    let now = patch_operation_views(ops@);
                    assert(now =~= read.push(shown_op));
                    if let Ok(x) = rest {
                        assert(read + (seq![shown_op] + x) =~= now + x);
                    }
                }
            },
        }
    }
    Err(ToolError::InvalidPatch("patch must end with *** End Patch".to_string()))
}

// ---------------------------------------------------------------------------
// What holds of patches between marks
// ---------------------------------------------------------------------------

/// Lines with a line feed behind each.
pub open spec fn ended(lines: Seq<Seq<char>>) -> Seq<Seq<char>> {
    lines.map_values(|l: Seq<char>| l.push('\n'))
}

/// Lines with a character before each.
pub open spec fn headed(c: char, lines: Seq<Seq<char>>) -> Seq<Seq<char>> {
    lines.map_values(|l: Seq<char>| seq![c] + l)
}

proof fn lemma_added(lines: Seq<Seq<char>>)
    ensures
        added_content(headed('+', lines)) == Ok::<Seq<char>, ToolErrorView>(
            text::concat(ended(lines)),
        ),
    decreases lines.len(),
{
    let body = headed('+', lines);
    if lines.len() > 0 {
        lemma_added(lines.drop_last());
        assert(body.drop_last() =~= headed('+', lines.drop_last()));
        assert(ended(lines).drop_last() =~= ended(lines.drop_last()));
        assert(body.last().skip(1) =~= lines.last());
    }
}

proof fn lemma_removed(lines: Seq<Seq<char>>)
    ensures
        section_edits(seq!["@@"@] + headed('-', lines)) == Ok::<Seq<TextEditView>, ToolErrorView>(
            seq![TextEditView { old: text::concat(ended(lines)), new: seq![] }],
        ),
    decreases lines.len(),
{
    let body = seq!["@@"@] + headed('-', lines);
    reveal_strlit("@@");
    if lines.len() == 0 {
        assert(body.drop_last() =~= seq![]);
        assert(body.last() == "@@"@);
        assert("@@"@.subrange(0, 2) =~= "@@"@);
        assert(section_edits(seq![]) == Ok::<Seq<TextEditView>, ToolErrorView>(seq![]));
        assert(Seq::<TextEditView>::empty().push(no_edit()) =~= seq![no_edit()]);
    } else {
        lemma_removed(lines.drop_last());
        let line = body.last();
        assert(body.drop_last() =~= seq!["@@"@] + headed('-', lines.drop_last()));
        assert(line =~= seq!['-'] + lines.last());
        assert(line.skip(1) =~= lines.last());
        lemma_opens_no_edit(line);
        let before = TextEditView { old: text::concat(ended(lines.drop_last())), new: seq![] };
        assert(seq![before].drop_last() =~= seq![]);
        assert(ended(lines).drop_last() =~= ended(lines.drop_last()));
        let now = TextEditView { old: text::concat(ended(lines)), new: seq![] };
        assert(Seq::<TextEditView>::empty().push(now) =~= seq![now]);
    }
}

proof fn lemma_opens_no_edit(line: Seq<char>)
    requires
        line.len() > 0,
        line[0] != '@',
    ensures
        !text::starts_with(line, "@@"@),
{
    reveal_strlit("@@");
    if text::starts_with(line, "@@"@) {
        assert(line.subrange(0, 2)[0] == line[0]);
    }
}

/// A hunk of removed and added lines is read as the edit that replaces the ones by the
/// others.
pub proof fn a_hunk_is_read_as_an_edit(removed: Seq<Seq<char>>, added: Seq<Seq<char>>)
    ensures
        section_edits(seq!["@@"@] + headed('-', removed) + headed('+', added)) == Ok::<
            Seq<TextEditView>,
            ToolErrorView,
        >(
            seq![
                TextEditView {
                    old: text::concat(ended(removed)),
                    new: text::concat(ended(added)),
                },
            ],
        ),
    decreases added.len(),
{
    let start = seq!["@@"@] + headed('-', removed);
    let body = start + headed('+', added);
    if added.len() == 0 {
        lemma_removed(removed);
        assert(body =~= start);
    } else {
        a_hunk_is_read_as_an_edit(removed, added.drop_last());
        let line = body.last();
        assert(body.drop_last() =~= start + headed('+', added.drop_last()));
        assert(line =~= seq!['+'] + added.last());
        assert(line.skip(1) =~= added.last());
        lemma_opens_no_edit(line);
        let before = TextEditView {
            old: text::concat(ended(removed)),
            new: text::concat(ended(added.drop_last())),
        };
        assert(seq![before].drop_last() =~= seq![]);
        assert(ended(added).drop_last() =~= ended(added.drop_last()));
        let now = TextEditView {
            old: text::concat(ended(removed)),
            new: text::concat(ended(added)),
        };
        assert(Seq::<TextEditView>::empty().push(now) =~= seq![now]);
    }
}

/// The patch that adds a file with the given lines.
pub open spec fn adding_patch(path: Seq<char>, lines: Seq<Seq<char>>) -> Seq<char> {
    text::join(
        seq!["*** Begin Patch"@, "*** Add File: "@ + path] + headed('+', lines).push(
            "*** End Patch"@,
        ),
        "\n"@,
    )
}

proof fn lemma_body_of_added(parts: Seq<Seq<char>>, lines: Seq<Seq<char>>, i: int)
    requires
        parts.len() == lines.len() + 3,
        parts.last() == "*** End Patch"@,
        forall|k: int| 2 <= k < parts.len() - 1 ==> #[trigger] parts[k] == seq!['+'] + lines[k - 2],
        2 <= i < parts.len(),
    ensures
        section_end(parts, i) == parts.len() - 1,
    decreases parts.len() - i,
{
    reveal_strlit("*** ");
    reveal_strlit("*** End Patch");
    if i == parts.len() - 1 {
        assert("*** End Patch"@.subrange(0, 4) =~= "*** "@);
    } else {
        let line = parts[i];
        assert(line[0] == '+');
        if is_mark(line) {
            assert(line.subrange(0, 4)[0] == line[0]);
        }
        lemma_body_of_added(parts, lines, i + 1);
    }
}

proof fn lemma_trimmed_stays(s: Seq<char>)
    requires
        s.len() > 0,
        !text::is_space(s[0]),
        !text::is_space(s.last()),
    ensures
        text::trimmed(s) == s,
{
}

/// A patch that adds a file is read as what it says: the path, and the lines with a line
/// feed behind each.
pub proof fn an_added_file_is_read_from_its_patch(path: Seq<char>, lines: Seq<Seq<char>>)
    requires
        path.len() > 0,
        path != "/dev/null"@,
        !text::is_space(path[0]),
        !text::is_space(path.last()),
        text::one_line(path),
        forall|i: int| 0 <= i < lines.len() ==> text::one_line(#[trigger] lines[i]),
    ensures
        marked_patch(adding_patch(path, lines)) == Ok::<Seq<PatchOperationView>, ToolErrorView>(
            seq![PatchOperationView::Add { path, content: text::concat(ended(lines)) }],
        ),
{
    reveal_strlit("*** Begin Patch");
    reveal_strlit("*** Add File: ");
    reveal_strlit("*** End Patch");
    let first = "*** Begin Patch"@;
    let mark = "*** Add File: "@ + path;
    let last = "*** End Patch"@;
    let parts = seq![first, mark] + headed('+', lines).push(last);
    let n = parts.len() as int;
    assert(parts[0] == first && parts[1] == mark && parts[n - 1] == last);
    assert forall|i: int| 2 <= i < n - 1 implies #[trigger] parts[i] == seq!['+'] + lines[i - 2] by {
        assert(parts[i] == headed('+', lines)[i - 2]);
    }
    assert forall|i: int| 0 <= i < n implies text::one_line(#[trigger] parts[i])
        && parts[i].len() > 0 by {
        if i == 1 {
            assert forall|k: int| 0 <= k < mark.len() implies #[trigger] mark[k] != '\n' && mark[k]
                != '\r' by {
                if k < 14 {
                    assert(mark[k] == "*** Add File: "@[k]);
                } else {
                    assert(mark[k] == path[k - 14]);
                }
            }
        } else if 2 <= i < n - 1 {
            let line = lines[i - 2];
            let part = parts[i];
            assert(part == seq!['+'] + line);
            assert(text::one_line(line));
            assert forall|k: int| 0 <= k < part.len() implies #[trigger] part[k] != '\n' && part[k]
                != '\r' by {
                if k > 0 {
                    assert(part[k] == line[k - 1]);
                }
            }
        }
    }
    text::joined_lines_come_apart(parts);
    lemma_trimmed_stays(first);
    lemma_trimmed_stays(last);
    assert(mark.last() == path.last());
    lemma_trimmed_stays(mark);
    assert(mark[4] == 'A' && last[4] == 'E');
    lemma_body_of_added(parts, lines, 2);
    assert(mark.subrange(0, 14) =~= "*** Add File: "@);
    assert(mark.skip(14) =~= path);
    lemma_trimmed_stays(path);
    assert(parts.subrange(2, n - 1) =~= headed('+', lines));
    lemma_added(lines);
    let op = PatchOperationView::Add { path, content: text::concat(ended(lines)) };
    assert(section(mark, parts.subrange(2, n - 1)) == Ok::<PatchOperationView, ToolErrorView>(op));
    assert(sections(parts, n - 1) == Ok::<Seq<PatchOperationView>, ToolErrorView>(seq![]));
    assert(seq![op] + Seq::<PatchOperationView>::empty() =~= seq![op]);
    assert(sections(parts, 1) == Ok::<Seq<PatchOperationView>, ToolErrorView>(seq![op]));
}

// ---------------------------------------------------------------------------
// Where lines are replaced, and what a patch is made of
// ---------------------------------------------------------------------------

/// Lines are counted from one and both ends of a range belong to it. Where the lines of the
/// range hold the old text, the new text takes their place and all other lines stay.
pub proof fn the_named_lines_are_replaced(
    before: Seq<Seq<char>>,
    named: Seq<Seq<char>>,
    behind: Seq<Seq<char>>,
    new: Seq<char>,
)
    requires
        named.len() > 0,
        forall|i: int|
            0 <= i < (before + named + behind).len() ==> text::one_line(
                #[trigger] (before + named + behind)[i],
            ),
    ensures
        ({
            let content = text::concat(ended(before + named + behind));
            let old = text::concat(ended(named));
            line_updated(
                content,
                before.len() + 1,
                before.len() + named.len(),
                old,
                new,
            ) == Ok::<Seq<char>, ToolErrorView>(
                text::concat(ended(before)) + new + text::concat(ended(behind)),
            )
        }),
{
    let all = before + named + behind;
    let lines = ended(all);
    let end = seq!['\n'];
    assert(text_laws::with_ends(all, end) =~= lines) by {
        assert forall|i: int| 0 <= i < all.len() implies #[trigger] lines[i] == all[i] + end by {
            assert(all[i].push('\n') =~= all[i] + end);
        }
    }
    text_laws::lines_come_apart(all, end, seq![]);
    let a = before.len() as int;
    let b = a + named.len();
    assert(lines.subrange(a, b) =~= ended(named));
    assert(lines.take(a) =~= ended(before));
    assert(lines.skip(b) =~= ended(behind));
}

/// Lines that do not hold the old text, or that the file does not have, are not replaced.
pub proof fn other_lines_are_not_replaced(
    content: Seq<char>,
    start: nat,
    end: nat,
    old: Seq<char>,
    new: Seq<char>,
)
    ensures
        start == 0 || end < start || end > text::full_lines(content).len() ==> line_updated(
            content,
            start,
            end,
            old,
            new,
        ) is Err,
        1 <= start <= end <= text::full_lines(content).len() && text::concat(
            text::full_lines(content).subrange(start - 1, end as int),
        ) != old ==> line_updated(content, start, end, old, new) == Err::<
            Seq<char>,
            ToolErrorView,
        >(
            ToolErrorView::InvalidPatch(
                "lines "@ + text::decimal(start) + "-"@ + text::decimal(end)
                    + " do not match the old text"@,
            ),
        ),
{
}

/// The lines of an update of a file add to the two sides of the edit that they belong to: a
/// kept line to both, a removed one to the old text, an added one to the new text; a line
/// that begins with two at signs begins another edit.
pub proof fn lines_of_an_update_add_to_their_sides(
    body: Seq<Seq<char>>,
    done: Seq<TextEditView>,
    last: TextEditView,
    line: Seq<char>,
)
    requires
        section_edits(body) == Ok::<Seq<TextEditView>, ToolErrorView>(done.push(last)),
    ensures
        section_edits(body.push(" "@ + line)) == Ok::<Seq<TextEditView>, ToolErrorView>(
            done.push(
                TextEditView { old: last.old + line + "\n"@, new: last.new + line + "\n"@ },
            ),
        ),
        section_edits(body.push("-"@ + line)) == Ok::<Seq<TextEditView>, ToolErrorView>(
            done.push(TextEditView { old: last.old + line + "\n"@, new: last.new }),
        ),
        section_edits(body.push("+"@ + line)) == Ok::<Seq<TextEditView>, ToolErrorView>(
            done.push(TextEditView { old: last.old, new: last.new + line + "\n"@ }),
        ),
        section_edits(body.push(""@)) == Ok::<Seq<TextEditView>, ToolErrorView>(
            done.push(TextEditView { old: last.old + "\n"@, new: last.new + "\n"@ }),
        ),
        section_edits(body.push("@@"@ + line)) == Ok::<Seq<TextEditView>, ToolErrorView>(
            done.push(last).push(TextEditView { old: seq![], new: seq![] }),
        ),
{
    reveal_strlit(" ");
    reveal_strlit("-");
    reveal_strlit("+");
    reveal_strlit("\n");
    reveal_strlit("");
    reveal_strlit("@@");
    lemma_update_line(body, done, last, ' ', line);
    lemma_update_line(body, done, last, '-', line);
    lemma_update_line(body, done, last, '+', line);
    assert(" "@ + line =~= seq![' '] + line);
    assert("-"@ + line =~= seq!['-'] + line);
    assert("+"@ + line =~= seq!['+'] + line);
    assert(line + "\n"@ =~= line.push('\n'));
    assert(last.old + line + "\n"@ =~= last.old + line.push('\n'));
    assert(last.new + line + "\n"@ =~= last.new + line.push('\n'));
    let blank = body.push(""@);
    assert(blank.drop_last() =~= body);
    assert(!text::starts_with(""@, "@@"@));
    assert(done.push(last).drop_last() =~= done);
    assert(last.old.push('\n') =~= last.old + "\n"@);
    assert(last.new.push('\n') =~= last.new + "\n"@);
    let opens = body.push("@@"@ + line);
    assert(opens.drop_last() =~= body);
    assert(("@@"@ + line).subrange(0, 2) =~= "@@"@);
}

proof fn lemma_update_line(
    body: Seq<Seq<char>>,
    done: Seq<TextEditView>,
    last: TextEditView,
    c: char,
    line: Seq<char>,
)
    requires
        section_edits(body) == Ok::<Seq<TextEditView>, ToolErrorView>(done.push(last)),
        c == ' ' || c == '-' || c == '+',
    ensures
        section_edits(body.push(seq![c] + line)) == Ok::<Seq<TextEditView>, ToolErrorView>(
            done.push(
                TextEditView {
                    old: if c == '+' {
                        last.old
                    } else {
                        last.old + line.push('\n')
                    },
                    new: if c == '-' {
                        last.new
                    } else {
                        last.new + line.push('\n')
                    },
                },
            ),
        ),
{
    let raw = seq![c] + line;
    let more = body.push(raw);
    reveal_strlit("@@");
    assert(more.drop_last() =~= body);
    assert(!text::starts_with(raw, "@@"@)) by {
        if text::starts_with(raw, "@@"@) {
            assert(raw.subrange(0, 2)[0] == '@');
        }
    }
    assert(raw.skip(1) =~= line);
    assert(done.push(last).drop_last() =~= done);
}

/// The lines of the sections of a patch, each a mark and the lines behind it.
pub open spec fn section_lines(parts: Seq<(Seq<char>, Seq<Seq<char>>)>) -> Seq<Seq<char>>
    decreases parts.len(),
{
    if parts.len() == 0 {
        seq![]
    } else {
        seq![parts[0].0] + parts[0].1 + section_lines(parts.skip(1))
    }
}

proof fn lemma_section_end_at(lines: Seq<Seq<char>>, i: int, j: int)
    requires
        0 <= i <= j < lines.len(),
        forall|k: int| i <= k < j ==> !is_mark(#[trigger] lines[k]),
        is_mark(lines[j]),
    ensures
        section_end(lines, i) == j,
    decreases j - i,
{
    if i < j {
        assert(!is_mark(lines[i]));
        lemma_section_end_at(lines, i + 1, j);
    }
}

/// The sections of a patch are read one after the other, each up to the next line that
/// begins with three stars, until the end of the patch.
pub proof fn sections_are_read_in_turn(
    before: Seq<Seq<char>>,
    parts: Seq<(Seq<char>, Seq<Seq<char>>)>,
    ops: Seq<PatchOperationView>,
    behind: Seq<Seq<char>>,
)
    requires
        parts.len() == ops.len(),
        forall|k: int|
            0 <= k < parts.len() ==> text::starts_with((#[trigger] parts[k]).0, "*** "@)
                && text::trimmed(parts[k].0) != "*** End Patch"@ && section(
                parts[k].0,
                parts[k].1,
            ) == Ok::<PatchOperationView, ToolErrorView>(ops[k]),
        forall|k: int, l: int|
            0 <= k < parts.len() && 0 <= l < parts[k].1.len() ==> !text::starts_with(
                #[trigger] parts[k].1[l],
                "*** "@,
            ),
    ensures
        sections(
            before + section_lines(parts) + seq!["*** End Patch"@] + behind,
            before.len() as int,
        ) == Ok::<Seq<PatchOperationView>, ToolErrorView>(ops),
    decreases parts.len(),
{
    let lines = before + section_lines(parts) + seq!["*** End Patch"@] + behind;
    let i = before.len() as int;
    reveal_strlit("*** End Patch");
    reveal_strlit("*** ");
    if parts.len() == 0 {
        assert(lines[i] == "*** End Patch"@);
        let mark = "*** End Patch"@;
        text_laws::trimming_takes_the_white_space_at_the_ends(seq![], mark, seq![]);
        assert(seq![] + mark + seq![] =~= mark);
        assert(ops =~= seq![]);
    } else {
        let mark = parts[0].0;
        let body = parts[0].1;
        let rest = parts.skip(1);
        let head = before + (seq![mark] + body);
        assert forall|k: int| 0 <= k < rest.len() implies text::starts_with(
            (#[trigger] rest[k]).0,
            "*** "@,
        ) && text::trimmed(rest[k].0) != "*** End Patch"@ && section(rest[k].0, rest[k].1) == Ok::<
            PatchOperationView,
            ToolErrorView,
        >(ops.skip(1)[k]) by {
            assert(text::starts_with(parts[k + 1].0, "*** "@));
        }
        assert forall|k: int, l: int| 0 <= k < rest.len() && 0 <= l < rest[k].1.len() implies
            !text::starts_with(#[trigger] rest[k].1[l], "*** "@) by {
            assert(!text::starts_with(parts[k + 1].1[l], "*** "@));
        }
        sections_are_read_in_turn(head, rest, ops.skip(1), behind);
        assert(lines =~= head + section_lines(rest) + seq!["*** End Patch"@] + behind);
        let j = head.len() as int;
        assert(lines[i] == mark);
        assert(text::starts_with(parts[0].0, "*** "@));
        assert forall|k: int| i + 1 <= k < j implies !is_mark(#[trigger] lines[k]) by {
            assert(lines[k] == parts[0].1[k - i - 1]);
        }
        assert(is_mark(lines[j])) by {
            if rest.len() > 0 {
                assert(lines[j] == rest[0].0);
                assert(text::starts_with(parts[1].0, "*** "@));
            } else {
                assert(lines[j] == "*** End Patch"@);
                assert("*** End Patch"@.subrange(0, 4) =~= "*** "@);
            }
        }
        lemma_section_end_at(lines, i + 1, j);
        assert(lines.subrange(i + 1, j) =~= body);
        assert(seq![ops[0]] + ops.skip(1) =~= ops);
    }
}

/// A section takes its path from its mark, without the white space round it. An added file
/// has the content that the section writes, a deleted one has nothing behind its mark, and
/// an updated one the edits of its lines; no section names the null device.
pub proof fn a_section_is_read_by_its_mark(path: Seq<char>, body: Seq<Seq<char>>)
    requires
        path.len() > 0,
        text_laws::tight(path),
        path != "/dev/null"@,
    ensures
        match added_content(body) {
            Ok(content) => section("*** Add File: "@ + path, body) == Ok::<
                PatchOperationView,
                ToolErrorView,
            >(PatchOperationView::Add { path, content }),
            Err(_) => section("*** Add File: "@ + path, body) is Err,
        },
        match section_edits(body) {
            Ok(edits) => section("*** Update File: "@ + path, body) == Ok::<
                PatchOperationView,
                ToolErrorView,
            >(PatchOperationView::Update { path, edits }),
            Err(_) => section("*** Update File: "@ + path, body) is Err,
        },
        section("*** Delete File: "@ + path, seq![]) == Ok::<PatchOperationView, ToolErrorView>(
            PatchOperationView::Delete { path },
        ),
        section("*** Add File: "@ + "/dev/null"@, body) is Err,
{
    reveal_strlit("*** Add File: ");
    reveal_strlit("*** Update File: ");
    reveal_strlit("*** Delete File: ");
    reveal_strlit("/dev/null");
    lemma_marked("*** Add File: "@, path);
    lemma_marked("*** Update File: "@, path);
    lemma_marked("*** Delete File: "@, path);
    lemma_marked("*** Add File: "@, "/dev/null"@);
    let add = "*** Add File: "@ + path;
    let update = "*** Update File: "@ + path;
    let delete = "*** Delete File: "@ + path;
    assert(add[4] == 'A' && update[4] == 'U' && delete[4] == 'D');
    assert forall|s: Seq<char>| #[trigger] text::starts_with(s, "*** Add File: "@) implies s[4]
        == 'A' by {
        assert(s.subrange(0, "*** Add File: "@.len() as int)[4] == s[4]);
    }
    assert forall|s: Seq<char>| #[trigger] text::starts_with(s, "*** Update File: "@) implies s[4]
        == 'U' by {
        assert(s.subrange(0, "*** Update File: "@.len() as int)[4] == s[4]);
    }
}

proof fn lemma_marked(mark: Seq<char>, path: Seq<char>)
    requires
        text_laws::tight(path),
    ensures
        text::starts_with(mark + path, mark),
        marked_path(mark + path, mark) == path,
{
    assert((mark + path).subrange(0, mark.len() as int) =~= mark);
    assert((mark + path).skip(mark.len() as int) =~= path);
    text_laws::trimming_takes_the_white_space_at_the_ends(seq![], path, seq![]);
    assert(seq![] + path + seq![] =~= path);
}

/// A patch that was applied is reported with the number of its operations.
pub proof fn a_patch_is_reported_with_its_count(changed: nat)
    ensures
        patch_report(changed).name == ToolName::ApplyPatch,
        patch_report(changed).output == "applied "@ + text::decimal(changed)
            + " patch operation(s)"@,
        json::field(patch_report(changed).metadata, "operations"@) == Some(
            JsonView::Unsigned(changed),
        ),
{
}

/// Lines of a file are replaced exactly if they are still the given ones, with the line ends
/// of the file; otherwise the file is refused and the error names it.
pub proof fn only_the_lines_that_were_seen_are_replaced(
    path: Seq<char>,
    bytes: Seq<u8>,
    start: nat,
    end: nat,
    old: Seq<char>,
    new: Seq<char>,
    content: Seq<char>,
)
    requires
        edit::file_text(path, bytes, edit::hex(edit::sha256_digest(bytes)), None) == Ok::<
            Seq<char>,
            ToolErrorView,
        >(content),
    ensures
        ({
            let style = edit::newline_of(content);
            let fits = lines_are(content, start, end, edit::with_newlines(old, style));
            let updated = file_lines_updated(path, bytes, start, end, old, new);
            &&& fits ==> updated == Ok::<Seq<char>, ToolErrorView>(
                lines_replaced(content, start, end, edit::with_newlines(new, style)),
            )
            &&& !fits ==> (updated matches Err(ToolErrorView::PatchApplyFailed { path: p, .. })
                && p == path)
        }),
{
}

} // verus!
