use vstd::prelude::*;

use crate::text;
use crate::text_laws;
use crate::text::CharClass;
use crate::tools::edit;
use crate::tools::edit::NewlineStyle;
use crate::tools::error::{ToolError, ToolErrorView};

verus! {

// ---------------------------------------------------------------------------
// Unified diffs
// ---------------------------------------------------------------------------

/// What a line of a hunk says.
#[derive(Debug, Clone, Copy, PartialEq, Eq, Structural)]
pub enum HunkLineKind {
    Context,
    Remove,
    Add,
}

/// A line of a hunk, with a line feed at its end.
#[derive(Debug)]
pub struct HunkLine {
    pub kind: HunkLineKind,
    pub text: String,
}

/// A hunk: where it starts in the old file, counted from one, and its lines.
#[derive(Debug)]
pub struct UnifiedHunk {
    pub old_start: usize,
    pub lines: Vec<HunkLine>,
}

/// The hunks for one file.
#[derive(Debug)]
pub struct UnifiedFilePatch {
    pub path: String,
    pub hunks: Vec<UnifiedHunk>,
}

pub struct HunkLineView {
    pub kind: HunkLineKind,
    pub text: Seq<char>,
}

pub struct HunkView {
    pub old_start: nat,
    pub lines: Seq<HunkLineView>,
}

pub struct FilePatchView {
    pub path: Seq<char>,
    pub hunks: Seq<HunkView>,
}

impl View for HunkLine {
    type V = HunkLineView;

    open spec fn view(&self) -> HunkLineView {
        HunkLineView { kind: self.kind, text: self.text@ }
    }
}

impl View for UnifiedHunk {
    type V = HunkView;

    open spec fn view(&self) -> HunkView {
        HunkView {
            old_start: self.old_start as nat,
            lines: self.lines@.map_values(|l: HunkLine| l@),
        }
    }
}

impl View for UnifiedFilePatch {
    type V = FilePatchView;

    open spec fn view(&self) -> FilePatchView {
        FilePatchView { path: self.path@, hunks: self.hunks@.map_values(|h: UnifiedHunk| h@) }
    }
}

/// `items` before those that were read behind them.
pub open spec fn prepend<T>(
    items: Seq<T>,
    rest: Result<Seq<T>, ToolErrorView>,
) -> Result<Seq<T>, ToolErrorView> {
    match rest {
        Ok(more) => Ok(items + more),
        Err(e) => Err(e),
    }
}

pub open spec fn is_file_header(line: Seq<char>) -> bool {
    text::starts_with(line, "--- "@)
}

pub open spec fn is_hunk_header(line: Seq<char>) -> bool {
    text::starts_with(line, "@@ "@)
}

pub open spec fn is_end_note(line: Seq<char>) -> bool {
    line == "\\ No newline at end of file"@
}

/// The line of a hunk that a line of the patch denotes.
pub open spec fn hunk_line(raw: Seq<char>) -> Result<HunkLineView, ToolErrorView> {
    if raw.len() > 0 && raw[0] == ' ' {
        Ok(HunkLineView { kind: HunkLineKind::Context, text: raw.skip(1).push('\n') })
    } else if raw.len() > 0 && raw[0] == '-' {
        Ok(HunkLineView { kind: HunkLineKind::Remove, text: raw.skip(1).push('\n') })
    } else if raw.len() > 0 && raw[0] == '+' {
        Ok(HunkLineView { kind: HunkLineKind::Add, text: raw.skip(1).push('\n') })
    } else {
        Err(ToolErrorView::InvalidPatch("invalid hunk line: "@ + raw))
    }
}

/// Where the hunk body that starts at line `i` ends: at the next header, or with the patch.
pub open spec fn body_end(lines: Seq<Seq<char>>, i: int) -> int
    decreases lines.len() - i,
{
    if i < 0 || i >= lines.len() || is_hunk_header(lines[i]) || is_file_header(lines[i]) {
        i
    } else {
        body_end(lines, i + 1)
    }
}

/// Where the hunks of a file, which are read from line `i` on, end.
pub open spec fn file_end(lines: Seq<Seq<char>>, i: int) -> int
    decreases lines.len() - i,
{
    if i < 0 || i >= lines.len() || is_file_header(lines[i]) {
        i
    } else {
        file_end(lines, i + 1)
    }
}

/// The hunk lines from line `i` on, up to the next header.
pub open spec fn hunk_body(lines: Seq<Seq<char>>, i: int) -> Result<
    Seq<HunkLineView>,
    ToolErrorView,
>
    decreases lines.len() - i,
{
    if i < 0 || i >= lines.len() || is_hunk_header(lines[i]) || is_file_header(lines[i]) {
        Ok(seq![])
    } else if is_end_note(lines[i]) {
        hunk_body(lines, i + 1)
    } else {
        match hunk_line(lines[i]) {
            Ok(line) => prepend(seq![line], hunk_body(lines, i + 1)),
            Err(e) => Err(e),
        }
    }
}

/// The first word of a hunk header that starts with a minus sign.
pub open spec fn old_range(words: Seq<Seq<char>>) -> Option<Seq<char>>
    decreases words.len(),
{
    if words.len() == 0 {
        None
    } else if words[0].len() > 0 && words[0][0] == '-' {
        Some(words[0])
    } else {
        old_range(words.skip(1))
    }
}

/// The line of the old file at which a hunk starts, as its header says.
pub open spec fn hunk_old_start(header: Seq<char>) -> Result<nat, ToolErrorView> {
    match old_range(text::words(header)) {
        None => Err(ToolErrorView::InvalidPatch("missing old range in hunk "@ + header)),
        Some(word) => {
            let range = text::trim_start(word, CharClass::Just('-'));
            let start = text::split(range, CharClass::Just(','))[0];
            match text::parse_unsigned(start, usize::MAX as nat) {
                Some(n) => Ok(n),
                None => Err(ToolErrorView::InvalidPatch("invalid old range in hunk "@ + header)),
            }
        },
    }
}

pub proof fn lemma_body_end(lines: Seq<Seq<char>>, i: int)
    requires
        0 <= i <= lines.len(),
    ensures
        i <= body_end(lines, i) <= lines.len(),
    decreases lines.len() - i,
{
    if i < lines.len() && !is_hunk_header(lines[i]) && !is_file_header(lines[i]) {
        lemma_body_end(lines, i + 1);
    }
}

pub proof fn lemma_file_end(lines: Seq<Seq<char>>, i: int)
    requires
        0 <= i <= lines.len(),
    ensures
        i <= file_end(lines, i) <= lines.len(),
    decreases lines.len() - i,
{
    if i < lines.len() && !is_file_header(lines[i]) {
        lemma_file_end(lines, i + 1);
    }
}

/// The hunks from line `i` on, up to the next file.
pub open spec fn file_hunks(lines: Seq<Seq<char>>, i: int) -> Result<Seq<HunkView>, ToolErrorView>
    decreases lines.len() - i,
{
    if i < 0 || i >= lines.len() || is_file_header(lines[i]) {
        Ok(seq![])
    } else if !is_hunk_header(lines[i]) {
        file_hunks(lines, i + 1)
    } else {
        match hunk_old_start(lines[i]) {
            Err(e) => Err(e),
            Ok(old_start) => match hunk_body(lines, i + 1) {
                Err(e) => Err(e),
                Ok(body) => {
                    proof {
                        lemma_body_end(lines, i + 1);
                    }
                    prepend(
                        seq![HunkView { old_start, lines: body }],
                        file_hunks(lines, body_end(lines, i + 1)),
                    )
                },
            },
        }
    }
}

/// The path that the header of a file names, without the `a/` or `b/` before it.
pub open spec fn patch_path(raw: Seq<char>) -> Result<Seq<char>, ToolErrorView> {
    let words = text::words(raw);
    let word = if words.len() > 0 {
        words[0]
    } else {
        raw
    };
    let path = if text::starts_with(word, "a/"@) || text::starts_with(word, "b/"@) {
        word.skip(2)
    } else {
        word
    };
    if path == "/dev/null"@ || path.len() == 0 {
        Err(
            ToolErrorView::InvalidPatch(
                "freeform patches currently require an existing file path"@,
            ),
        )
    } else {
        Ok(path)
    }
}

/// The path in the second line of a file's header.
pub open spec fn header_path(line: Seq<char>) -> Result<Seq<char>, ToolErrorView> {
    patch_path(text::trimmed(text::trim_prefixes(line, "+++ "@)))
}

/// The file patches from line `i` on.
pub open spec fn patch_files(lines: Seq<Seq<char>>, i: int) -> Result<
    Seq<FilePatchView>,
    ToolErrorView,
>
    decreases lines.len() - i,
{
    if i < 0 || i >= lines.len() {
        Ok(seq![])
    } else if !is_file_header(lines[i]) {
        patch_files(lines, i + 1)
    } else if i + 1 >= lines.len() || !text::starts_with(lines[i + 1], "+++ "@) {
        Err(ToolErrorView::InvalidPatch("missing +++ file header"@))
    } else {
        match header_path(lines[i + 1]) {
            Err(e) => Err(e),
            Ok(path) => match file_hunks(lines, i + 2) {
                Err(e) => Err(e),
                Ok(hunks) => if hunks.len() == 0 {
                    Err(ToolErrorView::InvalidPatch("file patch for "@ + path + " has no hunks"@))
                } else {
                    proof {
                        lemma_file_end(lines, i + 2);
                    }
                    prepend(
                        seq![FilePatchView { path, hunks }],
                        patch_files(lines, file_end(lines, i + 2)),
                    )
                },
            },
        }
    }
}

/// The file patches that a unified diff holds.
pub open spec fn unified_patch(patch: Seq<char>) -> Result<Seq<FilePatchView>, ToolErrorView> {
    patch_files(text::lines(patch), 0)
}

// ---------------------------------------------------------------------------
// Reading a unified diff
// ---------------------------------------------------------------------------

fn parse_hunk_line(raw: &String) -> (r: Result<HunkLine, ToolError>)
    ensures
        match r {
            Ok(line) => hunk_line(raw@) == Ok::<HunkLineView, ToolErrorView>(line@),
            Err(e) => hunk_line(raw@) == Err::<HunkLineView, ToolErrorView>(e@),
        },
{
    let cs = text::chars_of(raw.as_str());
    let kind = if cs.len() > 0 && cs[0] == ' ' {
        HunkLineKind::Context
    } else if cs.len() > 0 && cs[0] == '-' {
        HunkLineKind::Remove
    } else if cs.len() > 0 && cs[0] == '+' {
        HunkLineKind::Add
    } else {
        return Err(ToolError::InvalidPatch(text::cat2("invalid hunk line: ", raw.as_str())));
    };
    let mut line = text::string_of(vstd::slice::slice_subrange(cs.as_slice(), 1, cs.len()));
    assert(line@ =~= raw@.skip(1));
    line.push('\n');
    Ok(HunkLine { kind, text: line })
}

fn header_at(lines: &Vec<String>, i: usize) -> (r: (bool, bool))
    requires
        i < lines@.len(),
    ensures
        r.0 == is_file_header(lines@[i as int]@),
        r.1 == is_hunk_header(lines@[i as int]@),
{
    (text::has_prefix(lines[i].as_str(), "--- "), text::has_prefix(lines[i].as_str(), "@@ "))
}

/// Reads the hunk lines from line `start` on; returns them and where they end.
fn parse_hunk_body(lines: &Vec<String>, start: usize) -> (r: Result<
    (Vec<HunkLine>, usize),
    ToolError,
>)
    requires
        start <= lines@.len(),
    ensures
        match r {
            Ok((body, end)) => hunk_body(text::views(lines@), start as int) == Ok::<
                Seq<HunkLineView>,
                ToolErrorView,
            >(body@.map_values(|l: HunkLine| l@)) && end == body_end(
                text::views(lines@),
                start as int,
            ) && start <= end <= lines@.len(),
            Err(e) => hunk_body(text::views(lines@), start as int) == Err::<
                Seq<HunkLineView>,
                ToolErrorView,
            >(e@),
        },
{
    let ghost all = text::views(lines@);
    let mut body: Vec<HunkLine> = Vec::new();
    let mut i: usize = start;
    assert(prepend(body@.map_values(|l: HunkLine| l@), hunk_body(all, i as int)) == hunk_body(all, start as int)) by {
        if let Ok(x) = hunk_body(all, i as int) {
            assert(body@.map_values(|l: HunkLine| l@) + x =~= x);
        }
    }
    loop
        invariant_except_break
            prepend(body@.map_values(|l: HunkLine| l@), hunk_body(all, i as int)) == hunk_body(
                all,
                start as int,
            ),
        invariant
            start <= i <= lines@.len(),
            all == text::views(lines@),
            body_end(all, i as int) == body_end(all, start as int),
        ensures
            start <= i <= lines@.len(),
            i == body_end(all, start as int),
            hunk_body(all, start as int) == Ok::<Seq<HunkLineView>, ToolErrorView>(
                body@.map_values(|l: HunkLine| l@),
            ),
        decreases lines@.len() - i,
    {
        let ghost read = body@.map_values(|l: HunkLine| l@);
        assert(read + seq![] =~= read);
        if i >= lines.len() {
            break;
        }
        let (file, hunk) = header_at(lines, i);
        if file || hunk {
            break;
        }
        if text::same(lines[i].as_str(), "\\ No newline at end of file") {
            i += 1;
            continue;
        }
        match parse_hunk_line(&lines[i]) {
            Err(e) => {
                return Err(e);
            },
            Ok(line) => {
                let ghost rest = hunk_body(all, i + 1);
                body.push(line);
                i += 1;
                proof {
                    let now = body@.map_values(|l: HunkLine| l@);
                    assert(now =~= read.push(line@));
                    if let Ok(x) = rest {
                        assert(read + (seq![line@] + x) =~= now + x);
                    }
                }
            },
        }
    }
    Ok((body, i))
}

fn find_old_range(words: &Vec<String>) -> (r: Option<usize>)
    ensures
        match r {
            Some(i) => i < words@.len() && old_range(text::views(words@)) == Some(
                words@[i as int]@,
            ),
            None => old_range(text::views(words@)) is None,
        },
{
    let ghost all = text::views(words@);
    let mut i: usize = 0;
    assert(all.skip(0) =~= all);
    while i < words.len()
        invariant
            i <= words@.len(),
            all == text::views(words@),
            old_range(all) == old_range(all.skip(i as int)),
        decreases words@.len() - i,
    {
        assert(all.skip(i as int).skip(1) =~= all.skip(i + 1));
        let cs = text::chars_of(words[i].as_str());
        if cs.len() > 0 && cs[0] == '-' {
            return Some(i);
        }
        i += 1;
    }
    None
}

/// The line of the old file at which a hunk starts.
pub fn parse_hunk_old_start(header: &str) -> (r: Result<usize, ToolError>)
    ensures
        match r {
            Ok(n) => hunk_old_start(header@) == Ok::<nat, ToolErrorView>(n as nat),
            Err(e) => hunk_old_start(header@) == Err::<nat, ToolErrorView>(e@),
        },
{
    let words = text::split_whitespace(header);
    match find_old_range(&words) {
        None => Err(ToolError::InvalidPatch(text::cat2("missing old range in hunk ", header))),
        Some(i) => {
            let range = text::trim_start_class(words[i].as_str(), CharClass::Just('-'));
            let parts = text::split_class(range.as_str(), CharClass::Just(','));
            assert(text::views(parts@)[0] == parts@[0]@);
            match text::parse_usize(parts[0].as_str()) {
                Some(n) => Ok(n),
                None => Err(
                    ToolError::InvalidPatch(text::cat2("invalid old range in hunk ", header)),
                ),
            }
        },
    }
}

/// The path that the header of a file names.
pub fn parse_patch_path(raw: &str) -> (r: Result<String, ToolError>)
    ensures
        match r {
            Ok(p) => patch_path(raw@) == Ok::<Seq<char>, ToolErrorView>(p@),
            Err(e) => patch_path(raw@) == Err::<Seq<char>, ToolErrorView>(e@),
        },
{
    proof {
        reveal_strlit("a/");
        reveal_strlit("b/");
    }
    let words = text::split_whitespace(raw);
    let word = if words.len() > 0 {
        assert(text::views(words@)[0] == words@[0]@);
        words[0].clone()
    } else {
        raw.to_string()
    };
    let path = match text::strip_prefix(word.as_str(), "a/") {
        Some(p) => p,
        None => match text::strip_prefix(word.as_str(), "b/") {
            Some(p) => p,
            None => word,
        },
    };
    if text::same(path.as_str(), "/dev/null") || text::is_blank_len(&path) {
        return Err(
            ToolError::InvalidPatch(
                "freeform patches currently require an existing file path".to_string(),
            ),
        );
    }
    Ok(path)
}

/// Reads the hunks of a file from line `start` on; returns them and where they end.
fn parse_file_hunks(lines: &Vec<String>, start: usize) -> (r: Result<
    (Vec<UnifiedHunk>, usize),
    ToolError,
>)
    requires
        start <= lines@.len(),
    ensures
        match r {
            Ok((hunks, end)) => file_hunks(text::views(lines@), start as int) == Ok::<
                Seq<HunkView>,
                ToolErrorView,
            >(hunks@.map_values(|h: UnifiedHunk| h@)) && end == file_end(
                text::views(lines@),
                start as int,
            ) && start <= end <= lines@.len(),
            Err(e) => file_hunks(text::views(lines@), start as int) == Err::<
                Seq<HunkView>,
                ToolErrorView,
            >(e@),
        },
{
    let ghost all = text::views(lines@);
    let mut hunks: Vec<UnifiedHunk> = Vec::new();
    let mut i: usize = start;
    assert(prepend(hunks@.map_values(|h: UnifiedHunk| h@), file_hunks(all, i as int)) == file_hunks(all, start as int)) by {
        if let Ok(x) = file_hunks(all, i as int) {
            assert(hunks@.map_values(|h: UnifiedHunk| h@) + x =~= x);
        }
    }
    loop
        invariant_except_break
            prepend(hunks@.map_values(|h: UnifiedHunk| h@), file_hunks(all, i as int)) == file_hunks(
                all,
                start as int,
            ),
        invariant
            start <= i <= lines@.len(),
            all == text::views(lines@),
            file_end(all, i as int) == file_end(all, start as int),
        ensures
            start <= i <= lines@.len(),
            i == file_end(all, start as int),
            file_hunks(all, start as int) == Ok::<Seq<HunkView>, ToolErrorView>(
                hunks@.map_values(|h: UnifiedHunk| h@),
            ),
        decreases lines@.len() - i,
    {
        let ghost read = hunks@.map_values(|h: UnifiedHunk| h@);
        assert(read + seq![] =~= read);
        if i >= lines.len() {
            break;
        }
        let (file, hunk) = header_at(lines, i);
        if file {
            break;
        }
        if !hunk {
            i += 1;
            continue;
        }
        let old_start: usize = match parse_hunk_old_start(lines[i].as_str()) {
            Ok(n) => n,
            Err(e) => {
                return Err(e);
            },
        };
        match parse_hunk_body(lines, i + 1) {
            Err(e) => {
                return Err(e);
            },
            Ok((body, end)) => {
                let ghost rest = file_hunks(all, end as int);
                proof {
                    lemma_file_end_skips_body(all, i + 1);
                }
                let h = UnifiedHunk { old_start, lines: body };
                hunks.push(h);
                proof {
                    let now = hunks@.map_values(|h: UnifiedHunk| h@);
                    assert(now =~= read.push(h@));
                    if let Ok(x) = rest {
                        assert(read + (seq![h@] + x) =~= now + x);
                    }
                }
                i = end;
            },
        }
    }
    Ok((hunks, i))
}

/// The hunks of a file do not end within a hunk body.
proof fn lemma_file_end_skips_body(lines: Seq<Seq<char>>, i: int)
    requires
        0 <= i <= lines.len(),
    ensures
        file_end(lines, body_end(lines, i)) == file_end(lines, i),
    decreases lines.len() - i,
{
    if i < lines.len() && !is_hunk_header(lines[i]) && !is_file_header(lines[i]) {
        lemma_file_end_skips_body(lines, i + 1);
    }
}

/// Reads a unified diff.
pub fn parse_unified_patch(patch: &str) -> (r: Result<Vec<UnifiedFilePatch>, ToolError>)
    ensures
        match r {
            Ok(files) => unified_patch(patch@) == Ok::<Seq<FilePatchView>, ToolErrorView>(
                files@.map_values(|f: UnifiedFilePatch| f@),
            ),
            Err(e) => unified_patch(patch@) == Err::<Seq<FilePatchView>, ToolErrorView>(e@),
        },
{
    let lines = text::lines_of(patch);
    let ghost all = text::views(lines@);
    let mut files: Vec<UnifiedFilePatch> = Vec::new();
    let mut i: usize = 0;
    assert(prepend(files@.map_values(|f: UnifiedFilePatch| f@), patch_files(all, 0)) == patch_files(all, 0)) by {
        if let Ok(x) = patch_files(all, 0) {
            assert(files@.map_values(|f: UnifiedFilePatch| f@) + x =~= x);
        }
    }
    loop
        invariant_except_break
            prepend(files@.map_values(|f: UnifiedFilePatch| f@), patch_files(all, i as int))
                == patch_files(all, 0),
        invariant
            i <= lines@.len(),
            all == text::views(lines@),
            all == text::lines(patch@),
        ensures
            patch_files(all, 0) == Ok::<Seq<FilePatchView>, ToolErrorView>(
                files@.map_values(|f: UnifiedFilePatch| f@),
            ),
        decreases lines@.len() - i,
    {
        let ghost read = files@.map_values(|f: UnifiedFilePatch| f@);
        assert(read + seq![] =~= read);
        if i >= lines.len() {
            break;
        }
        let (file, _hunk) = header_at(&lines, i);
        if !file {
            i += 1;
            continue;
        }
        if i + 1 >= lines.len() || !text::has_prefix(lines[i + 1].as_str(), "+++ ") {
            return Err(ToolError::InvalidPatch("missing +++ file header".to_string()));
        }
        let named = text::trim_start_matches(lines[i + 1].as_str(), "+++ ");
        let trimmed = text::trim(named.as_str());
        let path = match parse_patch_path(trimmed.as_str()) {
            Ok(p) => p,
            Err(e) => {
                return Err(e);
            },
        };
        match parse_file_hunks(&lines, i + 2) {
            Err(e) => {
                return Err(e);
            },
            Ok((hunks, end)) => {
                if hunks.len() == 0 {
                    return Err(
                        ToolError::InvalidPatch(
                            text::cat3("file patch for ", path.as_str(), " has no hunks"),
                        ),
                    );
                }
                let ghost rest = patch_files(all, end as int);
                let f = UnifiedFilePatch { path, hunks };
                files.push(f);
                proof {
                    let now = files@.map_values(|f: UnifiedFilePatch| f@);
                    assert(now =~= read.push(f@));
                    if let Ok(x) = rest {
                        assert(read + (seq![f@] + x) =~= now + x);
                    }
                }
                i = end;
            },
        }
    }
    Ok(files)
}

// ---------------------------------------------------------------------------
// Patches are read as they are written
// ---------------------------------------------------------------------------

/// Whether a line of a hunk can be written: it ends with its one line feed, and a removed
/// line must not look like the header of a file.
pub open spec fn can_be_written(line: HunkLineView) -> bool {
    &&& line.text.len() > 0
    &&& line.text.last() == '\n'
    &&& text::one_line(line.text.drop_last())
    &&& line.kind == HunkLineKind::Remove ==> !text::starts_with(line.text, "-- "@)
}

/// A line of a hunk as it is written: a blank, a minus or a plus, and the line.
pub open spec fn written_line(line: HunkLineView) -> Seq<char> {
    (match line.kind {
        HunkLineKind::Context => " "@,
        HunkLineKind::Remove => "-"@,
        HunkLineKind::Add => "+"@,
    }) + line.text.drop_last()
}

/// A hunk as it is written; `count` is how many lines it has, and `rest` what follows.
pub open spec fn written_hunk(hunk: HunkView, count: Seq<char>, rest: Seq<char>) -> Seq<
    Seq<char>,
> {
    seq!["@@ -"@ + text::decimal(hunk.old_start) + ","@ + count + " "@ + rest]
        + hunk.lines.map_values(|l: HunkLineView| written_line(l))
}

/// Hunks as they are written.
pub open spec fn written_hunks(
    hunks: Seq<HunkView>,
    counts: Seq<Seq<char>>,
    rests: Seq<Seq<char>>,
) -> Seq<Seq<char>>
    decreases hunks.len(),
{
    if hunks.len() == 0 {
        seq![]
    } else {
        written_hunk(hunks[0], counts[0], rests[0]) + written_hunks(
            hunks.skip(1),
            counts.skip(1),
            rests.skip(1),
        )
    }
}

proof fn lemma_written_line(line: HunkLineView)
    requires
        can_be_written(line),
    ensures
        hunk_line(written_line(line)) == Ok::<HunkLineView, ToolErrorView>(line),
        !is_hunk_header(written_line(line)),
        !is_file_header(written_line(line)),
        !is_end_note(written_line(line)),
        text::one_line(written_line(line)),
{
    reveal_strlit(" ");
    reveal_strlit("-");
    reveal_strlit("+");
    reveal_strlit("@@ ");
    reveal_strlit("--- ");
    reveal_strlit("-- ");
    reveal_strlit("\\ No newline at end of file");
    let raw = written_line(line);
    let body = line.text.drop_last();
    assert(raw.skip(1) =~= body);
    assert(body.push('\n') =~= line.text);
    assert forall|i: int| 0 <= i < raw.len() implies #[trigger] raw[i] != '\n' && raw[i]
        != '\r' by {
        if i > 0 {
            assert(raw[i] == body[i - 1]);
        }
    }
    if is_hunk_header(raw) {
        assert(raw.subrange(0, 3)[0] == '@');
    }
    if is_file_header(raw) {
        assert(raw.subrange(0, 4)[0] == '-');
        assert(raw[0] == '-');
        assert(line.kind == HunkLineKind::Remove);
        assert(line.text.subrange(0, 3) =~= "-- "@) by {
            assert(raw.subrange(0, 4)[1] == raw[1]);
            assert(raw.subrange(0, 4)[2] == raw[2]);
            assert(raw.subrange(0, 4)[3] == raw[3]);
            assert(line.text[0] == raw[1] && line.text[1] == raw[2] && line.text[2] == raw[3]);
        }
        assert(text::starts_with(line.text, "-- "@));
    }
}

proof fn lemma_written_body(lines: Seq<Seq<char>>, i: int, body: Seq<HunkLineView>)
    requires
        0 <= i,
        i + body.len() <= lines.len(),
        forall|k: int|
            0 <= k < body.len() ==> can_be_written(#[trigger] body[k]) && lines[i + k]
                == written_line(body[k]),
        i + body.len() == lines.len() || is_hunk_header(lines[i + body.len()]) || is_file_header(
            lines[i + body.len()],
        ),
    ensures
        hunk_body(lines, i) == Ok::<Seq<HunkLineView>, ToolErrorView>(body),
        body_end(lines, i) == i + body.len(),
    decreases body.len(),
{
    if body.len() == 0 {
        assert(body =~= seq![]);
    } else {
        let rest = body.skip(1);
        assert(can_be_written(body[0]) && lines[i + 0] == written_line(body[0]));
        lemma_written_line(body[0]);
        assert forall|k: int| 0 <= k < rest.len() implies can_be_written(#[trigger] rest[k])
            && lines[i + 1 + k] == written_line(rest[k]) by {
            assert(can_be_written(body[k + 1]));
        }
        lemma_written_body(lines, i + 1, rest);
        assert(seq![body[0]] + rest =~= body);
    }
}

/// The header of a hunk tells the line at which it starts.
pub proof fn a_header_tells_its_start(start: nat, count: Seq<char>, rest: Seq<char>)
    requires
        start <= usize::MAX,
        text::free_of(count, CharClass::Space),
    ensures
        hunk_old_start("@@ -"@ + text::decimal(start) + ","@ + count + " "@ + rest) == Ok::<
            nat,
            ToolErrorView,
        >(start),
{
    let header = "@@ -"@ + text::decimal(start) + ","@ + count + " "@ + rest;
    let digits = text::decimal(start);
    let word = seq!['-'] + digits + seq![','] + count;
    let comma = CharClass::Just(',');
    reveal_strlit("@@ -");
    reveal_strlit(",");
    reveal_strlit(" ");
    text_laws::numbers_are_read_back(start, usize::MAX as nat);
    assert forall|i: int| 0 <= i < digits.len() implies 0x30 <= (#[trigger] digits[i]) as u32
        && digits[i] as u32 <= 0x39 by {
        assert(text::is_digit(digits[i]));
    }
    let at = seq!['@', '@'];
    assert(text::free_of(at, CharClass::Space));
    assert forall|i: int| 0 <= i < word.len() implies !CharClass::Space.has(
        #[trigger] word[i],
    ) by {
        if 1 <= i < 1 + digits.len() {
            assert(word[i] == digits[i - 1]);
        } else if i >= 2 + digits.len() {
            assert(word[i] == count[i - 2 - digits.len()]);
            assert(!CharClass::Space.has(count[i - 2 - digits.len()]));
        }
    }
    assert(header =~= at.push(' ') + (word.push(' ') + rest));
    text::words_come_apart(at, ' ', word.push(' ') + rest);
    text::words_come_apart(word, ' ', rest);
    text::a_text_without_spaces_is_one_word(at);
    text::a_text_without_spaces_is_one_word(word);
    let words = text::words(header);
    assert(words =~= seq![at, word] + text::words(rest));
    assert(words.skip(1)[0] == word);
    reveal_with_fuel(old_range, 2);
    assert(old_range(words) == Some(word));
    let range = digits + seq![','] + count;
    assert(word.skip(1) =~= range);
    assert(range[0] == digits[0]);
    reveal_with_fuel(text::trim_start, 2);
    assert(text::trim_start(word, CharClass::Just('-')) == range);
    text::pieces_come_apart(digits, ',', count, comma);
    assert(digits.push(',') + count =~= range);
    assert(text::free_of(digits, comma)) by {
        assert forall|i: int| 0 <= i < digits.len() implies !comma.has(#[trigger] digits[i]) by {
            assert(digits[i] as u32 >= 0x30);
        }
    }
    text::a_text_without_breaks_is_one_piece(digits, comma);
    assert(text::split(range, comma)[0] == digits);
}

/// Whether hunks can be written with these counts.
pub open spec fn hunks_can_be_written(
    hunks: Seq<HunkView>,
    counts: Seq<Seq<char>>,
    rests: Seq<Seq<char>>,
) -> bool {
    &&& counts.len() == hunks.len()
    &&& rests.len() == hunks.len()
    &&& forall|k: int|
        0 <= k < hunks.len() ==> (#[trigger] hunks[k]).old_start <= usize::MAX && text::free_of(
            counts[k],
            CharClass::Space,
        ) && text::one_line(rests[k])
    &&& forall|k: int, l: int|
        0 <= k < hunks.len() && 0 <= l < hunks[k].lines.len() ==> can_be_written(
            #[trigger] hunks[k].lines[l],
        )
}

proof fn lemma_written_hunks(
    before: Seq<Seq<char>>,
    hunks: Seq<HunkView>,
    counts: Seq<Seq<char>>,
    rests: Seq<Seq<char>>,
)
    requires
        hunks_can_be_written(hunks, counts, rests),
    ensures
        file_hunks(before + written_hunks(hunks, counts, rests), before.len() as int) == Ok::<
            Seq<HunkView>,
            ToolErrorView,
        >(hunks),
        file_end(before + written_hunks(hunks, counts, rests), before.len() as int) == (before
            + written_hunks(hunks, counts, rests)).len(),
    decreases hunks.len(),
{
    let lines = before + written_hunks(hunks, counts, rests);
    let i = before.len() as int;
    if hunks.len() == 0 {
        assert(hunks =~= seq![]);
    } else {
        let hunk = hunks[0];
        let more = hunks.skip(1);
        let own = written_hunk(hunk, counts[0], rests[0]);
        let head = before + own;
        let j = head.len() as int;
        assert(hunks[0].old_start <= usize::MAX);
        assert forall|k: int| 0 <= k < more.len() implies (#[trigger] more[k]).old_start
            <= usize::MAX && text::free_of(counts.skip(1)[k], CharClass::Space) && text::one_line(
            rests.skip(1)[k],
        ) by {
            assert(hunks[k + 1].old_start <= usize::MAX);
        }
        assert forall|k: int, l: int|
            0 <= k < more.len() && 0 <= l < more[k].lines.len() implies can_be_written(
            #[trigger] more[k].lines[l],
        ) by {
            assert(can_be_written(hunks[k + 1].lines[l]));
        }
        lemma_written_hunks(head, more, counts.skip(1), rests.skip(1));
        assert(lines =~= head + written_hunks(more, counts.skip(1), rests.skip(1)));
        let header = "@@ -"@ + text::decimal(hunk.old_start) + ","@ + counts[0] + " "@ + rests[0];
        assert(lines[i] == header);
        a_header_tells_its_start(hunk.old_start, counts[0], rests[0]);
        lemma_header_shape(hunk.old_start, counts[0], rests[0]);
        assert forall|k: int| 0 <= k < hunk.lines.len() implies can_be_written(
            #[trigger] hunk.lines[k],
        ) && lines[i + 1 + k] == written_line(hunk.lines[k]) by {
            assert(can_be_written(hunks[0].lines[k]));
            assert(lines[i + 1 + k] == own[1 + k]);
        }
        if j < lines.len() {
            assert(more.len() > 0);
            assert(lines[j] == "@@ -"@ + text::decimal(more[0].old_start) + ","@ + counts.skip(
                1,
            )[0] + " "@ + rests.skip(1)[0]);
            lemma_header_shape(more[0].old_start, counts.skip(1)[0], rests.skip(1)[0]);
        }
        lemma_written_body(lines, i + 1, hunk.lines);
        assert forall|k: int| i <= k < j implies !is_file_header(#[trigger] lines[k]) by {
            if k > i {
                assert(can_be_written(hunk.lines[k - i - 1]));
                lemma_written_line(hunk.lines[k - i - 1]);
                assert(lines[i + 1 + (k - i - 1)] == written_line(hunk.lines[k - i - 1]));
            }
        }
        lemma_skips_body(lines, i, j);
        assert(seq![hunk] + more =~= hunks);
    }
}

proof fn lemma_skips_body(lines: Seq<Seq<char>>, i: int, j: int)
    requires
        0 <= i <= j <= lines.len(),
        forall|k: int| i <= k < j ==> !is_file_header(#[trigger] lines[k]),
    ensures
        file_end(lines, i) == file_end(lines, j),
    decreases j - i,
{
    if i < j {
        assert(!is_file_header(lines[i]));
        lemma_skips_body(lines, i + 1, j);
    }
}

proof fn lemma_header_shape(start: nat, count: Seq<char>, rest: Seq<char>)
    ensures
        ({
            let header = "@@ -"@ + text::decimal(start) + ","@ + count + " "@ + rest;
            is_hunk_header(header) && !is_file_header(header)
        }),
{
    let header = "@@ -"@ + text::decimal(start) + ","@ + count + " "@ + rest;
    reveal_strlit("@@ -");
    reveal_strlit("@@ ");
    reveal_strlit("--- ");
    assert(header.subrange(0, 3) =~= "@@ "@);
    if is_file_header(header) {
        assert(header.subrange(0, 4)[0] == '-');
    }
}

/// A patch of one file is read as it is written: with the path behind the plus signs and
/// every hunk with its start and its lines.
pub proof fn a_written_patch_is_read_back(
    path: Seq<char>,
    hunks: Seq<HunkView>,
    counts: Seq<Seq<char>>,
    rests: Seq<Seq<char>>,
)
    requires
        path.len() > 0,
        path != "/dev/null"@,
        text::free_of(path, CharClass::Space),
        hunks.len() > 0,
        hunks_can_be_written(hunks, counts, rests),
    ensures
        unified_patch(
            text::concat(
                text_laws::with_ends(
                    seq!["--- a/"@ + path, "+++ b/"@ + path] + written_hunks(
                        hunks,
                        counts,
                        rests,
                    ),
                    "\n"@,
                ),
            ),
        ) == Ok::<Seq<FilePatchView>, ToolErrorView>(seq![FilePatchView { path, hunks }]),
{
    let head = seq!["--- a/"@ + path, "+++ b/"@ + path];
    let lines = head + written_hunks(hunks, counts, rests);
    reveal_strlit("--- a/");
    reveal_strlit("+++ b/");
    reveal_strlit("--- ");
    reveal_strlit("+++ ");
    reveal_strlit("\n");
    reveal_strlit("a/");
    reveal_strlit("b/");
    assert("\n"@ =~= seq!['\n']);
    lemma_written_hunks(head, hunks, counts, rests);
    assert(text::one_line(path)) by {
        assert forall|i: int| 0 <= i < path.len() implies #[trigger] path[i] != '\n' && path[i]
            != '\r' by {
            assert(!CharClass::Space.has(path[i]));
        }
    }
    lemma_written_one_line(hunks, counts, rests);
    assert forall|i: int| 0 <= i < lines.len() implies text::one_line(#[trigger] lines[i]) by {
        if i >= 2 {
            assert(lines[i] == written_hunks(hunks, counts, rests)[i - 2]);
        }
    }
    text_laws::lines_come_apart(lines, seq!['\n'], seq![]);
    let first = lines[0];
    let second = lines[1];
    assert(first.subrange(0, 4) =~= "--- "@);
    assert(second.subrange(0, 4) =~= "+++ "@);
    let raw = seq!['b', '/'] + path;
    assert(second.skip(4) =~= raw);
    assert(!text::starts_with(raw, "+++ "@)) by {
        if text::starts_with(raw, "+++ "@) {
            assert(raw.subrange(0, 4)[0] == '+');
        }
    }
    reveal_with_fuel(text::trim_prefixes, 2);
    assert(text::trim_prefixes(second, "+++ "@) == raw);
    assert forall|i: int| 0 <= i < raw.len() implies !CharClass::Space.has(#[trigger] raw[i]) by {
        if i >= 2 {
            assert(!CharClass::Space.has(path[i - 2]));
        }
    }
    assert(!CharClass::Space.has(raw[raw.len() - 1]));
    text_laws::trimming_takes_the_white_space_at_the_ends(seq![], raw, seq![]);
    assert(seq![] + raw + seq![] =~= raw);
    text::a_text_without_spaces_is_one_word(raw);
    assert(raw.subrange(0, 2) =~= "b/"@);
    assert(raw.skip(2) =~= path);
    assert(header_path(second) == Ok::<Seq<char>, ToolErrorView>(path));
    assert(patch_files(lines, lines.len() as int) == Ok::<Seq<FilePatchView>, ToolErrorView>(
        seq![],
    ));
    assert(seq![FilePatchView { path, hunks }] + seq![] =~= seq![FilePatchView { path, hunks }]);
}

proof fn lemma_written_one_line(
    hunks: Seq<HunkView>,
    counts: Seq<Seq<char>>,
    rests: Seq<Seq<char>>,
)
    requires
        hunks_can_be_written(hunks, counts, rests),
    ensures
        forall|i: int|
            0 <= i < written_hunks(hunks, counts, rests).len() ==> text::one_line(
                #[trigger] written_hunks(hunks, counts, rests)[i],
            ),
    decreases hunks.len(),
{
    if hunks.len() > 0 {
        let hunk = hunks[0];
        let more = hunks.skip(1);
        let own = written_hunk(hunk, counts[0], rests[0]);
        let others = written_hunks(more, counts.skip(1), rests.skip(1));
        let all = written_hunks(hunks, counts, rests);
        assert(hunks[0].old_start <= usize::MAX);
        assert forall|k: int| 0 <= k < more.len() implies (#[trigger] more[k]).old_start
            <= usize::MAX && text::free_of(counts.skip(1)[k], CharClass::Space) && text::one_line(
            rests.skip(1)[k],
        ) by {
            assert(hunks[k + 1].old_start <= usize::MAX);
        }
        assert forall|k: int, l: int|
            0 <= k < more.len() && 0 <= l < more[k].lines.len() implies can_be_written(
            #[trigger] more[k].lines[l],
        ) by {
            assert(can_be_written(hunks[k + 1].lines[l]));
        }
        lemma_written_one_line(more, counts.skip(1), rests.skip(1));
        assert forall|i: int| 0 <= i < all.len() implies text::one_line(#[trigger] all[i]) by {
            if i == 0 {
                lemma_header_one_line(hunk.old_start, counts[0], rests[0]);
            } else if i < own.len() {
                assert(can_be_written(hunks[0].lines[i - 1]));
                lemma_written_line(hunk.lines[i - 1]);
                assert(all[i] == own[i]);
            } else {
                assert(all[i] == others[i - own.len()]);
            }
        }
    }
}

proof fn lemma_header_one_line(start: nat, count: Seq<char>, rest: Seq<char>)
    requires
        text::free_of(count, CharClass::Space),
        text::one_line(rest),
        start <= usize::MAX,
    ensures
        text::one_line("@@ -"@ + text::decimal(start) + ","@ + count + " "@ + rest),
{
    let digits = text::decimal(start);
    let header = "@@ -"@ + digits + ","@ + count + " "@ + rest;
    reveal_strlit("@@ -");
    reveal_strlit(",");
    reveal_strlit(" ");
    text_laws::numbers_are_read_back(start, usize::MAX as nat);
    assert forall|i: int| 0 <= i < header.len() implies #[trigger] header[i] != '\n' && header[i]
        != '\r' by {
        let a = 4 + digits.len();
        let b = a + 1 + count.len();
        if 4 <= i < a {
            assert(header[i] == digits[i - 4]);
            assert(text::is_digit(digits[i - 4]));
        } else if a < i < b {
            assert(header[i] == count[i - a - 1]);
            assert(!CharClass::Space.has(count[i - a - 1]));
        } else if i > b {
            assert(header[i] == rest[i - b - 1]);
        }
    }
}

} // verus!
