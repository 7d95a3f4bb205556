//! What the tools that read, list, write and search files give back.
use vstd::prelude::*;

use crate::json;
use crate::json::{Json, JsonView};
use crate::order;
use crate::text;
use crate::text_laws;
use crate::tools::error::{ToolError, ToolErrorView};
use crate::tools::names::ToolName;
use crate::tools::paths;
use crate::tools::result;
use crate::tools::result::{CappedOutput, ToolResult, ToolResultView};
use crate::wildcard;

verus! {

/// How many bytes of output a call gives back.
pub const DEFAULT_OUTPUT_LIMIT_BYTES: usize = 65536;

/// How many lines a search gives back.
pub const DEFAULT_GREP_MATCH_LIMIT: usize = 100;

/// How many files a search by name gives back.
pub const DEFAULT_GLOB_MATCH_LIMIT: usize = 100;

/// How long a page may take to load.
pub const WEB_FETCH_TIMEOUT_SECS: u64 = 30;

// ---------------------------------------------------------------------------
// Reading and writing
// ---------------------------------------------------------------------------

/// The result of reading the file at `path`.
pub open spec fn file_read(root: Seq<char>, path: Seq<char>, content: Seq<char>, limit: nat)
    -> ToolResultView {
    result::success(
        ToolName::ReadFile,
        text::capped(content, limit),
        text::byte_len(content) > limit,
        json::empty_object()
            .with("path"@, JsonView::Text(paths::shown(root, path)))
            .with("bytes"@, JsonView::Unsigned(text::byte_len(content))),
    )
}

/// The result of reading the file at the resolved `path`, which holds `content`.
pub fn read_file(root: &str, path: &str, content: String, limit: usize) -> (r: ToolResult)
    ensures
        r@ == file_read(root@, path@, content@, limit as nat),
{
    let bytes: u64 = text::byte_len_of(content.as_str()) as u64;
    let shown = paths::relative_path(root, path);
    ToolResult::success(ToolName::ReadFile, result::cap_output(content, limit)).with_metadata(
        Json::object()
            .with("path", Json::text(shown.as_str()))
            .with("bytes", Json::Unsigned(bytes)),
    )
}

pub open spec fn opt_number(n: Option<usize>) -> Option<nat> {
    match n {
        Some(k) => Some(k as nat),
        None => None,
    }
}

/// The lines of a text from the first to the last that is asked for, counted from one: all
/// of them, where nothing is asked for.
pub open spec fn line_range(content: Seq<char>, first: Option<nat>, last: Option<nat>) -> Seq<char> {
    let lines = text::full_lines(content);
    let from = match first {
        Some(n) if n > 0 => n - 1,
        _ => 0,
    };
    let to = match last {
        Some(n) if n < lines.len() => n as int,
        _ => lines.len() as int,
    };
    if from < to {
        text::concat(lines.subrange(from, to))
    } else {
        seq![]
    }
}

/// The result of reading lines of the file at `path`.
pub open spec fn file_lines_read(
    root: Seq<char>,
    path: Seq<char>,
    content: Seq<char>,
    first: Option<nat>,
    last: Option<nat>,
    limit: nat,
) -> ToolResultView {
    let shown = line_range(content, first, last);
    ToolResultView {
        output: text::capped(shown, limit),
        truncated: text::byte_len(shown) > limit,
        ..file_read(root, path, content, limit)
    }
}

/// The lines from the first to the last that is asked for.
pub fn lines_from_to(content: &str, first: Option<usize>, last: Option<usize>) -> (r: String)
    ensures
        r@ == line_range(content@, opt_number(first), opt_number(last)),
{
    let lines = text::split_lines_lossless(content);
    let ghost all = text::full_lines(content@);
    assert(all == text::views(lines@));
    let from: usize = match first {
        Some(n) => if n > 0 {
            n - 1
        } else {
            0
        },
        None => 0,
    };
    let to: usize = match last {
        Some(n) => if n < lines.len() {
            n
        } else {
            lines.len()
        },
        None => lines.len(),
    };
    if from < to {
        let part = vstd::slice::slice_subrange(lines.as_slice(), from, to);
        assert(text::views(part@) =~= all.subrange(from as int, to as int));
        text::concat_strings(part)
    } else {
        let none = String::new();
        assert(none@ =~= seq![]);
        none
    }
}

/// The result of reading the lines from the first to the last that is asked for of the
/// file at the resolved `path`, which holds `content`.
pub fn read_file_lines(
    root: &str,
    path: &str,
    content: String,
    first: Option<usize>,
    last: Option<usize>,
    limit: usize,
) -> (r: ToolResult)
    ensures
        r@ == file_lines_read(
            root@,
            path@,
            content@,
            opt_number(first),
            opt_number(last),
            limit as nat,
        ),
{
    let shown = lines_from_to(content.as_str(), first, last);
    let capped = result::cap_output(shown, limit);
    let whole = read_file(root, path, content, limit);
    ToolResult { output: capped.text, truncated: capped.truncated, ..whole }
}

/// Without a range the whole file is read.
pub proof fn no_range_reads_the_whole_file(
    root: Seq<char>,
    path: Seq<char>,
    content: Seq<char>,
    limit: nat,
)
    ensures
        file_lines_read(root, path, content, None, None, limit) == file_read(
            root,
            path,
            content,
            limit,
        ),
{
    let lines = text::full_lines(content);
    text::full_lines_lose_nothing(content);
    assert(lines.subrange(0, lines.len() as int) =~= lines);
    if lines.len() == 0 {
        assert(content =~= seq![]);
    }
}

/// The bytes of a stored output that are read: from `start` on, and at most `limit`.
pub open spec fn blob_range(len: nat, start: nat, limit: nat) -> (nat, nat) {
    let from = if start <= len {
        start
    } else {
        len
    };
    let to = if from + limit <= len {
        from + limit
    } else {
        len
    };
    (from, to)
}

/// The result of reading a range of a stored output.
pub open spec fn blob_read(blob_id: Seq<char>, bytes: Seq<u8>, start: nat, limit: nat)
    -> ToolResultView {
    let (from, to) = blob_range(bytes.len(), start, limit);
    result::success(
        ToolName::ReadBlob,
        "blob "@ + blob_id + " bytes "@ + text::decimal(from) + ".."@ + text::decimal(to) + " of "@
            + text::decimal(bytes.len()) + "\n"@ + text::lossy_text(
            bytes.subrange(from as int, to as int),
        ),
        to < bytes.len(),
        json::empty_object()
            .with("blob_id"@, JsonView::Text(blob_id))
            .with("start_byte"@, JsonView::Unsigned(from))
            .with("end_byte"@, JsonView::Unsigned(to))
            .with("truncated"@, JsonView::Bool(to < bytes.len())),
    )
}

/// The result of reading at most `limit_bytes` bytes, from `start_byte` on, of the stored
/// output `blob_id`, which holds `bytes`.
pub fn read_blob(blob_id: &str, bytes: &Vec<u8>, start_byte: usize, limit_bytes: usize) -> (r:
    ToolResult)
    ensures
        r@ == blob_read(blob_id@, bytes@, start_byte as nat, limit_bytes as nat),
{
    let total: usize = bytes.len();
    let from: usize = if start_byte <= total {
        start_byte
    } else {
        total
    };
    let to: usize = if limit_bytes <= total - from {
        from + limit_bytes
    } else {
        total
    };
    let shown = text::lossy_of(vstd::slice::slice_subrange(bytes.as_slice(), from, to));
    let from_text = text::decimal_text(from as u64);
    let to_text = text::decimal_text(to as u64);
    let mut output = text::cat5("blob ", blob_id, " bytes ", from_text.as_str(), "..");
    output.push_str(to_text.as_str());
    output.push_str(" of ");
    output.push_str(text::decimal_text(total as u64).as_str());
    output.push_str("\n");
    output.push_str(shown.as_str());
    let cut = to < total;
    ToolResult::success(
        ToolName::ReadBlob,
        CappedOutput { text: output, truncated: cut },
    ).with_metadata(
        Json::object()
            .with("blob_id", Json::text(blob_id))
            .with("start_byte", Json::Unsigned(from as u64))
            .with("end_byte", Json::Unsigned(to as u64))
            .with("truncated", Json::Bool(cut)),
    )
}

/// Ranges that follow one another cover a stored output: the next range starts where one
/// ends, and a range that is not cut reaches the end.
pub proof fn blob_ranges_follow_one_another(len: nat, start: nat, limit: nat)
    requires
        start <= len,
    ensures
        ({
            let (from, to) = blob_range(len, start, limit);
            &&& from == start
            &&& from <= to <= len
            &&& to - from <= limit
            &&& blob_range(len, to, limit).0 == to
            &&& limit > 0 && to < len ==> to > from
            &&& to < len ==> to - from == limit
        }),
{
}

/// The result of writing `content` to the file at `path`.
pub open spec fn file_written(root: Seq<char>, path: Seq<char>, content: Seq<char>)
    -> ToolResultView {
    result::success(
        ToolName::WriteFile,
        "wrote "@ + path,
        false,
        json::empty_object()
            .with("path"@, JsonView::Text(paths::shown(root, path)))
            .with("bytes"@, JsonView::Unsigned(text::byte_len(content))),
    )
}

/// The result of writing `content` to the file at the resolved `path`.
pub fn write_file(root: &str, path: &str, content: &str) -> (r: ToolResult)
    ensures
        r@ == file_written(root@, path@, content@),
{
    let bytes: u64 = text::byte_len_of(content) as u64;
    let shown = paths::relative_path(root, path);
    ToolResult::success(
        ToolName::WriteFile,
        CappedOutput::complete(text::cat2("wrote ", path)),
    ).with_metadata(
        Json::object()
            .with("path", Json::text(shown.as_str()))
            .with("bytes", Json::Unsigned(bytes)),
    )
}

/// An entry of a directory.
#[derive(Debug)]
pub struct DirEntry {
    pub name: String,
    pub is_dir: bool,
}

/// An entry as it is listed: a directory has a slash behind its name.
pub open spec fn listed(e: DirEntry) -> Seq<char> {
    if e.is_dir {
        e.name@.push('/')
    } else {
        e.name@
    }
}

/// The result of listing the directory at `path`.
pub open spec fn dir_listed(root: Seq<char>, path: Seq<char>, entries: Seq<DirEntry>)
    -> ToolResultView {
    let names = order::sorted(entries.map_values(|e: DirEntry| listed(e)));
    result::success(
        ToolName::ListDir,
        if entries.len() == 0 {
            "No entries found"@
        } else {
            text::join(names, "\n"@)
        },
        false,
        json::empty_object()
            .with("path"@, JsonView::Text(paths::shown(root, path)))
            .with("entries"@, JsonView::Unsigned(entries.len())),
    )
}

/// The result of listing the resolved `path`, which must be a directory.
pub fn list_dir(root: &str, path: &str, is_dir: bool, entries: &Vec<DirEntry>) -> (r: Result<
    ToolResult,
    ToolError,
>)
    ensures
        match r {
            Ok(result) => is_dir && result@ == dir_listed(root@, path@, entries@),
            Err(e) => !is_dir && e@ == (ToolErrorView::NotDirectory { path: path@ }),
        },
{
    if !is_dir {
        return Err(ToolError::NotDirectory { path: path.to_string() });
    }
    let mut names: Vec<String> = Vec::new();
    let mut i: usize = 0;
    while i < entries.len()
        invariant
            i <= entries@.len(),
            names@.len() == i,
            forall|k: int| 0 <= k < i ==> (#[trigger] names@[k])@ == listed(entries@[k]),
        decreases entries@.len() - i,
    {
        let mut name = entries[i].name.clone();
        if entries[i].is_dir {
            name.push('/');
        }
        names.push(name);
        i += 1;
    }
    assert(text::views(names@) =~= entries@.map_values(|e: DirEntry| listed(e)));
    let sorted = order::sort(names.as_slice());
    let output = if entries.len() == 0 {
        "No entries found".to_string()
    } else {
        text::join_strings(sorted.as_slice(), "\n")
    };
    let shown = paths::relative_path(root, path);
    let count: u64 = entries.len() as u64;
    Ok(
        ToolResult::success(ToolName::ListDir, CappedOutput::complete(output)).with_metadata(
            Json::object()
                .with("path", Json::text(shown.as_str()))
                .with("entries", Json::Unsigned(count)),
        ),
    )
}

// ---------------------------------------------------------------------------
// Searching text
// ---------------------------------------------------------------------------

/// What a search has found so far.
#[derive(Debug)]
pub struct GrepState {
    pub output: String,
    pub matches: usize,
}

/// The content of a `GrepState`.
pub struct GrepView {
    pub output: Seq<char>,
    pub matches: nat,
}

impl View for GrepState {
    type V = GrepView;

    open spec fn view(&self) -> GrepView {
        GrepView { output: self.output@, matches: self.matches as nat }
    }
}

/// The line that reports a match.
pub open spec fn match_line(shown: Seq<char>, number: nat, line: Seq<char>) -> Seq<char> {
    shown + ":"@ + text::decimal(number) + ":"@ + line + "\n"@
}

/// Whether a line is what a search for a pattern looks for, given whether the pattern
/// matches it as a regular expression: it is where it holds the pattern as plain text, too.
pub open spec fn is_hit(line: Seq<char>, pattern: Seq<char>, regex: Option<bool>) -> bool {
    text::contains(line, pattern) || regex == Some(true)
}

/// Which of the lines a search for a pattern looks for.
pub open spec fn line_hits(lines: Seq<Seq<char>>, pattern: Seq<char>) -> Seq<bool> {
    lines.map_values(|line: Seq<char>| is_hit(line, pattern, text::regex_matches(pattern, line)))
}

/// What a search has found behind the first `n` lines of a file, `hits` of which are what
/// it looks for. It takes no further line once it has found `limit`, except that a file
/// that is entered is looked at until its first match.
pub open spec fn grepped(
    before: GrepView,
    shown: Seq<char>,
    lines: Seq<Seq<char>>,
    hits: Seq<bool>,
    limit: nat,
    n: int,
) -> GrepView
    decreases n,
{
    if n <= 0 {
        before
    } else {
        let found = grepped(before, shown, lines, hits, limit, n - 1);
        if hits[n - 1] && (found.matches == before.matches || found.matches < limit) {
            GrepView {
                output: found.output + match_line(shown, n as nat, lines[n - 1]),
                matches: found.matches + 1,
            }
        } else {
            found
        }
    }
}

/// What a search has found behind a file.
pub open spec fn file_grepped(
    before: GrepView,
    shown: Seq<char>,
    content: Seq<char>,
    pattern: Seq<char>,
    limit: nat,
) -> GrepView {
    let lines = text::lines(content);
    grepped(before, shown, lines, line_hits(lines, pattern), limit, lines.len() as int)
}

/// Whether a search has found as much as it gives back.
pub fn grep_is_full(state: &GrepState, limit: usize) -> (r: bool)
    ensures
        r == (state@.matches >= limit),
{
    state.matches >= limit
}

proof fn lemma_grep_stops(
    before: GrepView,
    shown: Seq<char>,
    lines: Seq<Seq<char>>,
    hits: Seq<bool>,
    limit: nat,
    n: int,
    m: int,
)
    requires
        0 <= n <= m,
        grepped(before, shown, lines, hits, limit, n).matches != before.matches,
        grepped(before, shown, lines, hits, limit, n).matches >= limit,
    ensures
        grepped(before, shown, lines, hits, limit, m) == grepped(
            before,
            shown,
            lines,
            hits,
            limit,
            n,
        ),
    decreases m - n,
{
    if n < m {
        lemma_grep_stops(before, shown, lines, hits, limit, n, m - 1);
    }
}

/// Whether a line is what a search looks for, given whether the pattern matches it as a
/// regular expression.
pub fn line_is_hit(line: &str, pattern: &str, regex: Option<bool>) -> (r: bool)
    ensures
        r == is_hit(line@, pattern@, regex),
{
    text::holds_text(line, pattern) || match regex {
        Some(matched) => matched,
        None => false,
    }
}

/// Takes the lines of a file, shown as `shown`, that are hits.
pub fn grep_lines(
    state: GrepState,
    shown: &str,
    lines: &Vec<String>,
    hits: &Vec<bool>,
    limit: usize,
) -> (r: GrepState)
    requires
        hits@.len() == lines@.len(),
        state.matches + lines@.len() <= usize::MAX,
    ensures
        r@ == grepped(
            state@,
            shown@,
            text::views(lines@),
            hits@,
            limit as nat,
            lines@.len() as int,
        ),
{
    let ghost all = text::views(lines@);
    let ghost first = state@;
    let mut output = state.output;
    let mut matches: usize = state.matches;
    let mut i: usize = 0;
    while i < lines.len()
        invariant
            i <= lines@.len(),
            hits@.len() == lines@.len(),
            all == text::views(lines@),
            first.matches + lines@.len() <= usize::MAX,
            first.matches <= matches <= first.matches + i,
            (GrepView { output: output@, matches: matches as nat }) == grepped(
                first,
                shown@,
                all,
                hits@,
                limit as nat,
                i as int,
            ),
            matches == first.matches || matches < limit,
            first == state@,
        decreases lines@.len() - i,
    {
        assert(all[i as int] == lines@[i as int]@);
        if hits[i] {
            let number = text::decimal_text(i as u64 + 1);
            let mut line = text::cat5(shown, ":", number.as_str(), ":", lines[i].as_str());
            line.push_str("\n");
            output.push_str(line.as_str());
            matches += 1;
            if matches >= limit {
                proof {
                    lemma_grep_stops(
                        first,
                        shown@,
                        all,
                        hits@,
                        limit as nat,
                        i + 1,
                        all.len() as int,
                    );
                }
                return GrepState { output, matches };
            }
        }
        i += 1;
    }
    GrepState { output, matches }
}

/// Searches a file, shown as `shown`, for lines that hold the pattern or that it matches
/// as a regular expression.
pub fn grep_file(state: GrepState, shown: &str, content: &str, pattern: &str, limit: usize) -> (r:
    GrepState)
    requires
        state.matches + text::lines(content@).len() <= usize::MAX,
    ensures
        r@ == file_grepped(state@, shown@, content@, pattern@, limit as nat),
{
    let lines = text::lines_of(content);
    let ghost wanted = line_hits(text::lines(content@), pattern@);
    let mut hits: Vec<bool> = Vec::new();
    let mut i: usize = 0;
    while i < lines.len()
        invariant
            i <= lines@.len(),
            text::views(lines@) == text::lines(content@),
            wanted == line_hits(text::lines(content@), pattern@),
            hits@ == wanted.take(i as int),
        decreases lines@.len() - i,
    {
        let line = lines[i].as_str();
        assert(text::views(lines@)[i as int] == line@);
        let regex = text::regex_match(pattern, line);
        let hit = line_is_hit(line, pattern, regex);
        hits.push(hit);
        assert(wanted.take(i + 1) =~= wanted.take(i as int).push(hit));
        i += 1;
    }
    assert(wanted.take(i as int) =~= wanted);
    grep_lines(state, shown, &lines, &hits, limit)
}

/// The result of a search.
pub open spec fn grep_result(pattern: Seq<char>, found: GrepView, limit: nat) -> ToolResultView {
    result::success(
        ToolName::Grep,
        text::capped(found.output, limit),
        text::byte_len(found.output) > limit,
        json::empty_object()
            .with("pattern"@, JsonView::Text(pattern))
            .with("matches"@, JsonView::Unsigned(found.matches)),
    )
}

/// The result of a search that has found `state`.
pub fn grep(pattern: &str, state: GrepState, output_limit: usize) -> (r: ToolResult)
    ensures
        r@ == grep_result(pattern@, state@, output_limit as nat),
{
    let matches: u64 = state.matches as u64;
    ToolResult::success(
        ToolName::Grep,
        result::cap_output(state.output, output_limit),
    ).with_metadata(
        Json::object()
            .with("pattern", Json::text(pattern))
            .with("matches", Json::Unsigned(matches)),
    )
}

proof fn lemma_grep_bound(
    before: GrepView,
    shown: Seq<char>,
    lines: Seq<Seq<char>>,
    hits: Seq<bool>,
    limit: nat,
    n: int,
)
    ensures
        before.matches <= grepped(before, shown, lines, hits, limit, n).matches,
        before.matches < limit ==> grepped(before, shown, lines, hits, limit, n).matches
            <= limit,
    decreases n,
{
    if n > 0 {
        lemma_grep_bound(before, shown, lines, hits, limit, n - 1);
    }
}

/// A search that goes on only while it is not full never gives back more lines than its
/// limit.
pub proof fn a_search_keeps_to_its_limit(
    before: GrepView,
    shown: Seq<char>,
    content: Seq<char>,
    pattern: Seq<char>,
    limit: nat,
)
    requires
        before.matches < limit,
    ensures
        before.matches <= file_grepped(before, shown, content, pattern, limit).matches <= limit,
{
    let lines = text::lines(content);
    lemma_grep_bound(
        before,
        shown,
        lines,
        line_hits(lines, pattern),
        limit,
        lines.len() as int,
    );
}

// ---------------------------------------------------------------------------
// Searching names
// ---------------------------------------------------------------------------

/// A pattern must not be blank.
pub fn check_glob_pattern(pattern: &str) -> (r: Result<(), ToolError>)
    ensures
        match r {
            Ok(_) => text::trimmed(pattern@).len() > 0,
            Err(e) => text::trimmed(pattern@).len() == 0 && e@ == ToolErrorView::InvalidPattern(
                pattern@,
            ),
        },
{
    let t = text::trim(pattern);
    if text::is_blank_len(&t) {
        Err(ToolError::InvalidPattern(pattern.to_string()))
    } else {
        Ok(())
    }
}

/// Where a search starts: at the directory, or in the directory of the file, that is
/// named.
pub fn glob_search_root(workspace_root: &str, path: &str, is_dir: bool) -> (r: String)
    ensures
        r@ == (if is_dir {
            path@
        } else {
            match paths::parent(path@) {
                Some(dir) => dir,
                None => workspace_root@,
            }
        }),
{
    if is_dir {
        path.to_string()
    } else {
        match paths::parent_of(path) {
            Some(dir) => dir,
            None => workspace_root.to_string(),
        }
    }
}

/// The name under which a file is matched.
pub open spec fn glob_name(root: Seq<char>, path: Seq<char>) -> Seq<char> {
    text::replace(paths::shown(root, path), "\\"@, "/"@)
}

/// The names found so far, with that of one more file where it matches.
pub open spec fn globbed(
    found: Seq<Seq<char>>,
    root: Seq<char>,
    path: Seq<char>,
    pattern: Seq<char>,
) -> Seq<Seq<char>> {
    if wildcard::wild(pattern, glob_name(root, path)) {
        found.push(glob_name(root, path))
    } else {
        found
    }
}

/// Whether as many files have been found as a search gives back.
pub fn glob_is_full(found: &Vec<String>) -> (r: bool)
    ensures
        r == (found@.len() >= DEFAULT_GLOB_MATCH_LIMIT),
{
    found.len() >= DEFAULT_GLOB_MATCH_LIMIT
}

/// Notes the file at `path` where its name matches the pattern.
pub fn glob_file(found: &mut Vec<String>, root: &str, path: &str, pattern: &str)
    ensures
        text::views(final(found)@) == globbed(text::views(old(found)@), root@, path@, pattern@),
{
    proof {
        reveal_strlit("\\");
    }
    let shown = paths::relative_path(root, path);
    let name = text::replace_text(shown.as_str(), "\\", "/");
    if wildcard::wildcard_match(pattern, name.as_str()) {
        let ghost before = text::views(found@);
        let ghost n = name@;
        found.push(name);
        assert(text::views(found@) =~= before.push(n));
    }
}

/// What a search says where it may have left files out.
pub open spec fn glob_note() -> Seq<char> {
    "(Results truncated: showing first 100 matches.)"@
}

/// The result of a search by name below `search_root`.
pub open spec fn glob_result(
    root: Seq<char>,
    search_root: Seq<char>,
    pattern: Seq<char>,
    found: Seq<Seq<char>>,
) -> ToolResultView {
    let names = order::sorted(found);
    result::success(
        ToolName::Glob,
        if found.len() == 0 {
            "No files found"@
        } else if found.len() >= DEFAULT_GLOB_MATCH_LIMIT {
            text::join(names.push(glob_note()), "\n"@)
        } else {
            text::join(names, "\n"@)
        },
        false,
        json::empty_object()
            .with("pattern"@, JsonView::Text(pattern))
            .with("path"@, JsonView::Text(paths::shown(root, search_root)))
            .with("matches"@, JsonView::Unsigned(found.len())),
    )
}

/// The result of a search by name that has found the given files.
pub fn glob(root: &str, search_root: &str, pattern: &str, found: &Vec<String>) -> (r: ToolResult)
    ensures
        r@ == glob_result(root@, search_root@, pattern@, text::views(found@)),
{
    let mut names = order::sort(found.as_slice());
    let ghost sorted = text::views(names@);
    if found.len() >= DEFAULT_GLOB_MATCH_LIMIT {
        names.push("(Results truncated: showing first 100 matches.)".to_string());
        assert(text::views(names@) =~= sorted.push(glob_note()));
    }
    let output = if found.len() == 0 {
        "No files found".to_string()
    } else {
        text::join_strings(names.as_slice(), "\n")
    };
    let shown = paths::relative_path(root, search_root);
    let matches: u64 = found.len() as u64;
    ToolResult::success(ToolName::Glob, CappedOutput::complete(output)).with_metadata(
        Json::object()
            .with("pattern", Json::text(pattern))
            .with("path", Json::text(shown.as_str()))
            .with("matches", Json::Unsigned(matches)),
    )
}

// ---------------------------------------------------------------------------
// Pages and tasks
// ---------------------------------------------------------------------------

/// The URL that is fetched, if it is one of the web.
pub open spec fn web_url(url: Seq<char>) -> Result<Seq<char>, ToolErrorView> {
    let u = text::trimmed(url);
    if text::starts_with(u, "http://"@) || text::starts_with(u, "https://"@) {
        Ok(u)
    } else {
        Err(ToolErrorView::InvalidUrl(u))
    }
}

/// The URL that is fetched.
pub fn check_web_url(url: &str) -> (r: Result<String, ToolError>)
    ensures
        match r {
            Ok(u) => web_url(url@) == Ok::<Seq<char>, ToolErrorView>(u@),
            Err(e) => web_url(url@) == Err::<Seq<char>, ToolErrorView>(e@),
        },
{
    let u = text::trim(url);
    if text::has_prefix(u.as_str(), "http://") || text::has_prefix(u.as_str(), "https://") {
        Ok(u)
    } else {
        Err(ToolError::InvalidUrl(u))
    }
}

/// The result of fetching a page that was answered with a status, shown as `status`.
pub open spec fn page_fetched(
    url: Seq<char>,
    status: Seq<char>,
    code: nat,
    body: Seq<char>,
    limit: nat,
) -> ToolResultView {
    let output = "status: "@ + status + "\nurl: "@ + url + "\n\n"@ + body;
    result::success(
        ToolName::WebFetch,
        text::capped(output, limit),
        text::byte_len(output) > limit,
        json::empty_object()
            .with("url"@, JsonView::Text(url))
            .with("status"@, JsonView::Unsigned(code)),
    )
}

/// The result of fetching the checked URL: what it was answered with, or that it failed.
pub fn web_fetch(url: &str, reply: Result<(String, u16, String), String>, limit: usize) -> (r:
    Result<ToolResult, ToolError>)
    ensures
        match (r, reply) {
            (Ok(result), Ok((status, code, body))) => result@ == page_fetched(
                url@,
                status@,
                code as nat,
                body@,
                limit as nat,
            ),
            (Err(e), Err(message)) => e@ == (ToolErrorView::WebFetchFailed {
                url: url@,
                message: message@,
            }),
            _ => false,
        },
{
    match reply {
        Err(message) => Err(ToolError::WebFetchFailed { url: url.to_string(), message }),
        Ok((status, code, body)) => {
            let mut output = text::cat5("status: ", status.as_str(), "\nurl: ", url, "\n\n");
            output.push_str(body.as_str());
            Ok(
                ToolResult::success(
                    ToolName::WebFetch,
                    result::cap_output(output, limit),
                ).with_metadata(
                    Json::object()
                        .with("url", Json::text(url))
                        .with("status", Json::Unsigned(code as u64)),
                ),
            )
        },
    }
}

/// A task of the agent's list.
#[derive(Debug)]
pub struct TodoItem {
    pub content: String,
    pub status: String,
}

/// The content of a `TodoItem`.
pub struct TodoView {
    pub content: Seq<char>,
    pub status: Seq<char>,
}

impl View for TodoItem {
    type V = TodoView;

    open spec fn view(&self) -> TodoView {
        TodoView { content: self.content@, status: self.status@ }
    }
}

/// The line of a task, which is numbered from one.
pub open spec fn todo_line(index: int, todo: TodoView) -> Seq<char> {
    text::decimal((index + 1) as nat) + ". ["@ + todo.status + "] "@ + todo.content
}

/// How many tasks have a status.
pub open spec fn with_todo_status(todos: Seq<TodoView>, status: Seq<char>) -> nat
    decreases todos.len(),
{
    if todos.len() == 0 {
        0
    } else {
        with_todo_status(todos.drop_last(), status) + (if todos.last().status == status {
            1nat
        } else {
            0nat
        })
    }
}

/// The result of noting a list of tasks.
pub open spec fn todos_written(todos: Seq<TodoView>) -> ToolResultView {
    result::success(
        ToolName::TodoWrite,
        text::join(Seq::new(todos.len(), |i: int| todo_line(i, todos[i])), "\n"@),
        false,
        json::empty_object()
            .with("items"@, JsonView::Unsigned(todos.len()))
            .with("pending"@, JsonView::Unsigned(with_todo_status(todos, "pending"@)))
            .with("in_progress"@, JsonView::Unsigned(with_todo_status(todos, "in_progress"@)))
            .with("completed"@, JsonView::Unsigned(with_todo_status(todos, "completed"@))),
    )
}

pub open spec fn todo_views(todos: Seq<TodoItem>) -> Seq<TodoView> {
    todos.map_values(|t: TodoItem| t@)
}

fn count_status(todos: &[TodoItem], status: &str) -> (n: u64)
    ensures
        n == with_todo_status(todo_views(todos@), status@),
{
    let ghost all = todo_views(todos@);
    let mut n: u64 = 0;
    let mut i: usize = 0;
    while i < todos.len()
        invariant
            i <= todos@.len(),
            n <= i,
            all == todo_views(todos@),
            n == with_todo_status(all.take(i as int), status@),
        decreases todos@.len() - i,
    {
        assert(all.take(i + 1).drop_last() =~= all.take(i as int));
        assert(all.take(i + 1).last() == todos@[i as int]@);
        if text::same(todos[i].status.as_str(), status) {
            n += 1;
        }
        i += 1;
    }
    assert(all.take(i as int) =~= all);
    n
}

/// Notes the tasks of a list, which must hold one.
pub fn todo_write(todos: &[TodoItem]) -> (r: Result<ToolResult, ToolError>)
    ensures
        match r {
            Ok(result) => todos@.len() > 0 && result@ == todos_written(todo_views(todos@)),
            Err(e) => todos@.len() == 0 && e@ == ToolErrorView::EmptyTodoList,
        },
{
    if todos.len() == 0 {
        return Err(ToolError::EmptyTodoList);
    }
    let ghost all = todo_views(todos@);
    let mut lines: Vec<String> = Vec::new();
    let mut i: usize = 0;
    while i < todos.len()
        invariant
            i <= todos@.len(),
            lines@.len() == i,
            all == todo_views(todos@),
            forall|k: int| 0 <= k < i ==> (#[trigger] lines@[k])@ == todo_line(k, all[k]),
        decreases todos@.len() - i,
    {
        let number = text::decimal_text(i as u64 + 1);
        lines.push(
            text::cat5(
                number.as_str(),
                ". [",
                todos[i].status.as_str(),
                "] ",
                todos[i].content.as_str(),
            ),
        );
        i += 1;
    }
    assert(text::views(lines@) =~= Seq::new(all.len(), |i: int| todo_line(i, all[i])));
    let output = text::join_strings(lines.as_slice(), "\n");
    Ok(
        ToolResult::success(ToolName::TodoWrite, CappedOutput::complete(output)).with_metadata(
            Json::object()
                .with("items", Json::Unsigned(todos.len() as u64))
                .with("pending", Json::Unsigned(count_status(todos, "pending")))
                .with("in_progress", Json::Unsigned(count_status(todos, "in_progress")))
                .with("completed", Json::Unsigned(count_status(todos, "completed"))),
        ),
    )
}

// ---------------------------------------------------------------------------
// What the tools on files tell
// ---------------------------------------------------------------------------

/// Reading gives back the content, as much of it as fits, and tells how long it is.
pub proof fn reading_gives_the_content(
    root: Seq<char>,
    path: Seq<char>,
    content: Seq<char>,
    limit: nat,
)
    ensures
        ({
            let r = file_read(root, path, content, limit);
            &&& r.output.is_prefix_of(content)
            &&& text::byte_len(content) <= limit ==> r.output == content && !r.truncated
            &&& text::byte_len(content) > limit ==> r.truncated && text::byte_len(r.output) <= limit
            &&& json::text_field(r.metadata, "path"@) == Some(paths::shown(root, path))
            &&& json::unsigned_field(r.metadata, "bytes"@) == Some(text::byte_len(content))
            &&& r.exit_code == Some(0i32)
        }),
{
    result::capping_keeps_the_longest_prefix(content, limit);
    reveal_strlit("path");
    reveal_strlit("bytes");
    assert("path"@.len() != "bytes"@.len());
}

/// Lines are counted from one, and both ends of a range belong to it: what is read up to a
/// line and what is read from the next one on are the whole file. A range that starts
/// behind the file, or ends before it starts, is empty.
pub proof fn ranges_of_lines_fit_together(content: Seq<char>, n: nat, m: nat)
    ensures
        line_range(content, None, Some(n)) + line_range(content, Some(n + 1), None) == content,
        1 <= n <= m <= text::full_lines(content).len() ==> line_range(content, Some(n), Some(m))
            == text::concat(text::full_lines(content).subrange(n - 1, m as int)),
        1 <= n <= text::full_lines(content).len() ==> line_range(content, Some(n), Some(n))
            == text::full_lines(content)[n - 1],
        n > m ==> line_range(content, Some(n), Some(m)) == Seq::<char>::empty(),
        n > text::full_lines(content).len() ==> line_range(content, Some(n), None) == Seq::<
            char,
        >::empty(),
        line_range(content, Some(0), None) == content,
{
    let lines = text::full_lines(content);
    text::full_lines_lose_nothing(content);
    assert(lines.subrange(0, lines.len() as int) =~= lines);
    let cut = if n < lines.len() {
        n as int
    } else {
        lines.len() as int
    };
    text_laws::lemma_concat_add(lines.subrange(0, cut), lines.subrange(cut, lines.len() as int));
    assert(lines.subrange(0, cut) + lines.subrange(cut, lines.len() as int) =~= lines);
    assert(lines.subrange(0, 0) =~= seq![]);
    assert(lines.subrange(lines.len() as int, lines.len() as int) =~= seq![]);
    if lines.len() == 0 {
        assert(content =~= seq![]);
    }
    assert(line_range(content, None, Some(n)) =~= text::concat(lines.subrange(0, cut)));
    assert(line_range(content, Some(n + 1), None) =~= text::concat(
        lines.subrange(cut, lines.len() as int),
    ));
    if 1 <= n <= lines.len() {
        let one = lines.subrange(n - 1, n as int);
        assert(one =~= seq![lines[n - 1]]);
        text_laws::lemma_concat_one(lines[n - 1]);
    }
    assert(line_range(content, Some(0), None) =~= content);
}

/// A stored output is given back byte by byte: ranges that follow one another give all of
/// it, and it is told which bytes were given and whether more follow.
pub proof fn stored_bytes_are_given_as_asked(
    blob_id: Seq<char>,
    bytes: Seq<u8>,
    start: nat,
    limit: nat,
)
    requires
        start <= bytes.len(),
    ensures
        ({
            let to = if start + limit <= bytes.len() {
                start + limit
            } else {
                bytes.len()
            };
            let r = blob_read(blob_id, bytes, start, limit);
            &&& r.output == "blob "@ + blob_id + " bytes "@ + text::decimal(start) + ".."@
                + text::decimal(to) + " of "@ + text::decimal(bytes.len()) + "\n"@
                + text::lossy_text(bytes.subrange(start as int, to as int))
            &&& r.truncated == (start + limit < bytes.len())
            &&& json::text_field(r.metadata, "blob_id"@) == Some(blob_id)
            &&& json::unsigned_field(r.metadata, "start_byte"@) == Some(start)
            &&& json::unsigned_field(r.metadata, "end_byte"@) == Some(to)
            &&& json::bool_field(r.metadata, "truncated"@) == Some(start + limit < bytes.len())
        }),
{
    reveal_strlit("blob_id");
    reveal_strlit("start_byte");
    reveal_strlit("end_byte");
    reveal_strlit("truncated");
    assert("blob_id"@.len() == 7 && "start_byte"@.len() == 10 && "end_byte"@.len() == 8
        && "truncated"@.len() == 9);
}

/// The numbers of the lines that are hits, from zero up.
pub open spec fn hit_lines(hits: Seq<bool>) -> Seq<int>
    decreases hits.len(),
{
    if hits.len() == 0 {
        seq![]
    } else if hits.last() {
        hit_lines(hits.drop_last()).push(hits.len() - 1)
    } else {
        hit_lines(hits.drop_last())
    }
}

proof fn lemma_hits(
    before: GrepView,
    shown: Seq<char>,
    lines: Seq<Seq<char>>,
    hits: Seq<bool>,
    limit: nat,
    n: int,
)
    requires
        0 <= n <= lines.len(),
        hits.len() == lines.len(),
        before.matches + hit_lines(hits.take(n)).len() <= limit,
    ensures
        ({
            let found = grepped(before, shown, lines, hits, limit, n);
            let numbers = hit_lines(hits.take(n));
            &&& found.matches == before.matches + numbers.len()
            &&& found.output == before.output + text::concat(
                numbers.map_values(
                    |i: int|
                        shown + ":"@ + text::decimal((i + 1) as nat) + ":"@ + lines[i] + "\n"@,
                ),
            )
        }),
    decreases n,
{
    let told = |i: int| shown + ":"@ + text::decimal((i + 1) as nat) + ":"@ + lines[i] + "\n"@;
    let numbers = hit_lines(hits.take(n));
    if n > 0 {
        let fewer = hit_lines(hits.take(n - 1));
        assert(hits.take(n).drop_last() =~= hits.take(n - 1));
        lemma_hits(before, shown, lines, hits, limit, n - 1);
        if hits[n - 1] {
            assert(numbers == fewer.push(n - 1));
            assert(numbers.map_values(told).drop_last() =~= fewer.map_values(told));
            assert(numbers.map_values(told).last() == told(n - 1));
            assert(match_line(shown, n as nat, lines[n - 1]) == told(n - 1));
            let found = grepped(before, shown, lines, hits, limit, n - 1);
            assert(found.output + told(n - 1) =~= before.output + text::concat(
                numbers.map_values(told),
            ));
        }
    } else {
        assert(hits.take(0) =~= seq![]);
        assert(numbers.map_values(told) =~= seq![]);
        assert(before.output + text::concat(numbers.map_values(told)) =~= before.output);
    }
}

/// As long as the limit is not reached, a search tells every line that holds the pattern or
/// matches it, in order, with the file and the number of the line, and counts them.
pub proof fn a_search_tells_every_hit(
    before: GrepView,
    shown: Seq<char>,
    content: Seq<char>,
    pattern: Seq<char>,
    limit: nat,
)
    requires
        ({
            let lines = text::lines(content);
            let hits = Seq::new(
                lines.len(),
                |i: int|
                    text::contains(lines[i], pattern) || text::regex_matches(pattern, lines[i])
                        == Some(true),
            );
            before.matches + hit_lines(hits).len() <= limit
        }),
    ensures
        ({
            let lines = text::lines(content);
            let hits = Seq::new(
                lines.len(),
                |i: int|
                    text::contains(lines[i], pattern) || text::regex_matches(pattern, lines[i])
                        == Some(true),
            );
            let found = file_grepped(before, shown, content, pattern, limit);
            &&& found.matches == before.matches + hit_lines(hits).len()
            &&& found.output == before.output + text::concat(
                hit_lines(hits).map_values(
                    |i: int|
                        shown + ":"@ + text::decimal((i + 1) as nat) + ":"@ + lines[i] + "\n"@,
                ),
            )
        }),
{
    let lines = text::lines(content);
    let hits = Seq::new(
        lines.len(),
        |i: int|
            text::contains(lines[i], pattern) || text::regex_matches(pattern, lines[i]) == Some(
                true,
            ),
    );
    assert(line_hits(lines, pattern) =~= hits);
    assert(hits.take(lines.len() as int) =~= hits);
    lemma_hits(before, shown, lines, hits, limit, lines.len() as int);
}

/// What a search tells is what was found, as much of it as fits, with the pattern and the
/// number of matches.
pub proof fn a_search_is_told_with_its_count(pattern: Seq<char>, found: GrepView, limit: nat)
    ensures
        ({
            let r = grep_result(pattern, found, limit);
            &&& r.output.is_prefix_of(found.output)
            &&& text::byte_len(found.output) <= limit ==> r.output == found.output
            &&& r.truncated == (text::byte_len(found.output) > limit)
            &&& json::text_field(r.metadata, "pattern"@) == Some(pattern)
            &&& json::unsigned_field(r.metadata, "matches"@) == Some(found.matches)
        }),
{
    result::capping_keeps_the_longest_prefix(found.output, limit);
    reveal_strlit("pattern");
    reveal_strlit("matches");
    assert("pattern"@[0] != "matches"@[0]);
}

/// A directory is listed in order, one entry to a line and directories with a slash behind
/// their names.
pub proof fn a_directory_is_listed_in_order(
    root: Seq<char>,
    path: Seq<char>,
    entries: Seq<DirEntry>,
)
    ensures
        ({
            let r = dir_listed(root, path, entries);
            let names = Seq::new(
                entries.len(),
                |i: int|
                    if entries[i].is_dir {
                        entries[i].name@ + "/"@
                    } else {
                        entries[i].name@
                    },
            );
            &&& exists|told: Seq<Seq<char>>| #[trigger]
                order::in_order(told) && told.to_multiset() == names.to_multiset() && (
                entries.len() > 0 ==> r.output == text::join(told, "\n"@))
            &&& entries.len() == 0 ==> r.output == "No entries found"@
            &&& !r.truncated
            &&& json::text_field(r.metadata, "path"@) == Some(paths::shown(root, path))
            &&& json::unsigned_field(r.metadata, "entries"@) == Some(entries.len())
        }),
{
    let names = Seq::new(
        entries.len(),
        |i: int|
            if entries[i].is_dir {
                entries[i].name@ + "/"@
            } else {
                entries[i].name@
            },
    );
    reveal_strlit("/");
    assert("/"@ =~= seq!['/']);
    let shown = entries.map_values(|e: DirEntry| listed(e));
    assert forall|i: int| 0 <= i < entries.len() implies shown[i] == names[i] by {
        assert(entries[i].name@.push('/') =~= entries[i].name@ + seq!['/']);
    }
    assert(shown =~= names);
    order::sorting_orders_and_keeps(names);
    assert(order::in_order(order::sorted(names)));
    reveal_strlit("path");
    reveal_strlit("entries");
    assert("path"@.len() != "entries"@.len());
}

/// The files that are found by name are told in order, one to a line; from a hundred on it
/// is said that there may be more.
pub proof fn found_names_are_told_in_order(
    root: Seq<char>,
    search_root: Seq<char>,
    pattern: Seq<char>,
    found: Seq<Seq<char>>,
)
    ensures
        ({
            let r = glob_result(root, search_root, pattern, found);
            &&& found.len() == 0 ==> r.output == "No files found"@
            &&& exists|told: Seq<Seq<char>>| #[trigger]
                order::in_order(told) && told.to_multiset() == found.to_multiset() && (0
                    < found.len() < 100 ==> r.output == text::join(told, "\n"@)) && (found.len()
                    >= 100 ==> r.output == text::join(
                    told.push("(Results truncated: showing first 100 matches.)"@),
                    "\n"@,
                ))
            &&& json::text_field(r.metadata, "pattern"@) == Some(pattern)
            &&& json::text_field(r.metadata, "path"@) == Some(paths::shown(root, search_root))
            &&& json::unsigned_field(r.metadata, "matches"@) == Some(found.len())
        }),
{
    order::sorting_orders_and_keeps(found);
    assert(order::in_order(order::sorted(found)));
    reveal_strlit("pattern");
    reveal_strlit("path");
    reveal_strlit("matches");
    assert("pattern"@[0] != "matches"@[0]);
    assert("path"@.len() == 4 && "pattern"@.len() == 7);
}

/// A file is found by name exactly when its path, as it is shown and with slashes, matches
/// the pattern; what was found before stays.
pub proof fn names_are_found_by_their_pattern(
    found: Seq<Seq<char>>,
    root: Seq<char>,
    path: Seq<char>,
    pattern: Seq<char>,
)
    ensures
        ({
            let name = text::replace(paths::shown(root, path), "\\"@, "/"@);
            &&& wildcard::wild(pattern, name) ==> globbed(found, root, path, pattern) == found.push(
                name,
            )
            &&& !wildcard::wild(pattern, name) ==> globbed(found, root, path, pattern) == found
        }),
{
}

/// Pages are fetched over the web only: an address must begin with one of two schemes, and
/// is taken without the white space round it.
pub proof fn only_web_addresses_are_fetched(
    blanks: Seq<char>,
    url: Seq<char>,
    more: Seq<char>,
)
    requires
        text_laws::blank(blanks),
        text_laws::blank(more),
        text_laws::tight(url),
    ensures
        "http://"@.is_prefix_of(url) || "https://"@.is_prefix_of(url) <==> web_url(
            blanks + url + more,
        ) is Ok,
        web_url(blanks + url + more) matches Ok(u) ==> u == url,
        web_url(blanks + url + more) matches Err(e) ==> e == ToolErrorView::InvalidUrl(url),
{
    text_laws::trimming_takes_the_white_space_at_the_ends(blanks, url, more);
    lemma_prefix(url, "http://"@);
    lemma_prefix(url, "https://"@);
}

proof fn lemma_prefix(s: Seq<char>, p: Seq<char>)
    ensures
        text::starts_with(s, p) <==> p.is_prefix_of(s),
{
    if text::starts_with(s, p) {
        assert forall|i: int| 0 <= i < p.len() implies p[i] == s[i] by {
            assert(s.subrange(0, p.len() as int)[i] == s[i]);
        }
    }
    if p.is_prefix_of(s) {
        assert(s.subrange(0, p.len() as int) =~= p);
    }
}

/// A page is told with its status and its address before its body, as much of it as fits.
pub proof fn a_page_is_told_with_its_status(
    url: Seq<char>,
    status: Seq<char>,
    code: nat,
    body: Seq<char>,
    limit: nat,
)
    ensures
        ({
            let r = page_fetched(url, status, code, body, limit);
            let whole = "status: "@ + status + "\nurl: "@ + url + "\n\n"@ + body;
            &&& r.output.is_prefix_of(whole)
            &&& text::byte_len(whole) <= limit ==> r.output == whole
            &&& r.truncated == (text::byte_len(whole) > limit)
            &&& json::text_field(r.metadata, "url"@) == Some(url)
            &&& json::unsigned_field(r.metadata, "status"@) == Some(code)
        }),
{
    let whole = "status: "@ + status + "\nurl: "@ + url + "\n\n"@ + body;
    result::capping_keeps_the_longest_prefix(whole, limit);
    reveal_strlit("url");
    reveal_strlit("status");
    assert("url"@.len() != "status"@.len());
}

/// Every item of a list of things to do is told on a line of its own, with its number, its
/// status and its content, and the items of each status are counted.
pub proof fn things_to_do_are_told_one_by_one(todos: Seq<TodoView>)
    ensures
        ({
            let r = todos_written(todos);
            let lines = Seq::new(
                todos.len(),
                |k: int|
                    text::decimal((k + 1) as nat) + ". ["@ + todos[k].status + "] "@
                        + todos[k].content,
            );
            &&& r.output == text::join(lines, "\n"@)
            &&& json::unsigned_field(r.metadata, "items"@) == Some(todos.len())
            &&& json::unsigned_field(r.metadata, "pending"@) == Some(
                todos.filter(|t: TodoView| t.status == "pending"@).len(),
            )
            &&& json::unsigned_field(r.metadata, "in_progress"@) == Some(
                todos.filter(|t: TodoView| t.status == "in_progress"@).len(),
            )
            &&& json::unsigned_field(r.metadata, "completed"@) == Some(
                todos.filter(|t: TodoView| t.status == "completed"@).len(),
            )
        }),
{
    let lines = Seq::new(
        todos.len(),
        |k: int|
            text::decimal((k + 1) as nat) + ". ["@ + todos[k].status + "] "@ + todos[k].content,
    );
    assert(Seq::new(todos.len(), |k: int| todo_line(k, todos[k])) =~= lines);
    lemma_status_count(todos, "pending"@);
    lemma_status_count(todos, "in_progress"@);
    lemma_status_count(todos, "completed"@);
    reveal_strlit("items");
    reveal_strlit("pending");
    reveal_strlit("in_progress");
    reveal_strlit("completed");
    assert("items"@.len() == 5 && "pending"@.len() == 7 && "in_progress"@.len() == 11
        && "completed"@.len() == 9);
}

proof fn lemma_status_count(todos: Seq<TodoView>, status: Seq<char>)
    ensures
        with_todo_status(todos, status) == todos.filter(|t: TodoView| t.status == status).len(),
    decreases todos.len(),
{
    reveal(Seq::filter);
    if todos.len() > 0 {
        lemma_status_count(todos.drop_last(), status);
    }
}

/// What is told of a file that was written names it and says how long it is.
pub proof fn a_written_file_is_told(root: Seq<char>, path: Seq<char>, content: Seq<char>)
    ensures
        ({
            let r = file_written(root, path, content);
            &&& r.output == "wrote "@ + path
            &&& !r.truncated
            &&& json::text_field(r.metadata, "path"@) == Some(paths::shown(root, path))
            &&& json::unsigned_field(r.metadata, "bytes"@) == Some(text::byte_len(content))
        }),
{
    reveal_strlit("path");
    reveal_strlit("bytes");
    assert("path"@.len() != "bytes"@.len());
}

} // verus!
