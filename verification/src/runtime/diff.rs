//! Line diffs of two texts, in the unified form.
use vstd::prelude::*;

use crate::text;

verus! {

#[derive(Debug, Clone, Copy, PartialEq, Eq, Structural)]
pub enum GeneratedDiffLineKind {
    Context,
    Add,
    Remove,
}

/// A line of a diff, with its numbers in the two texts.
#[derive(Debug)]
pub struct GeneratedDiffLine {
    pub kind: GeneratedDiffLineKind,
    pub old_line: Option<u64>,
    pub new_line: Option<u64>,
    pub content: String,
}

/// The content of a `GeneratedDiffLine`.
pub struct DiffLineView {
    pub kind: GeneratedDiffLineKind,
    pub old_line: Option<nat>,
    pub new_line: Option<nat>,
    pub content: Seq<char>,
}

pub open spec fn number(n: Option<u64>) -> Option<nat> {
    match n {
        Some(x) => Some(x as nat),
        None => None,
    }
}

impl View for GeneratedDiffLine {
    type V = DiffLineView;

    open spec fn view(&self) -> DiffLineView {
        DiffLineView {
            kind: self.kind,
            old_line: number(self.old_line),
            new_line: number(self.new_line),
            content: self.content@,
        }
    }
}

pub open spec fn diff_views(lines: Seq<GeneratedDiffLine>) -> Seq<DiffLineView> {
    lines.map_values(|l: GeneratedDiffLine| l@)
}

// ---------------------------------------------------------------------------
// The lines of a diff
// ---------------------------------------------------------------------------

/// How many lines the texts have in common, in order, from line `i` of the old one and
/// line `j` of the new one on.
pub open spec fn common(old: Seq<Seq<char>>, new: Seq<Seq<char>>, i: int, j: int) -> nat
    decreases old.len() - i + new.len() - j,
{
    if i < 0 || j < 0 || i >= old.len() || j >= new.len() {
        0
    } else if old[i] == new[j] {
        common(old, new, i + 1, j + 1) + 1
    } else {
        let a = common(old, new, i + 1, j);
        let b = common(old, new, i, j + 1);
        if a >= b {
            a
        } else {
            b
        }
    }
}

pub open spec fn context_line(old: Seq<Seq<char>>, i: int, j: int) -> DiffLineView {
    DiffLineView {
        kind: GeneratedDiffLineKind::Context,
        old_line: Some((i + 1) as nat),
        new_line: Some((j + 1) as nat),
        content: old[i],
    }
}

pub open spec fn removed_line(old: Seq<Seq<char>>, i: int) -> DiffLineView {
    DiffLineView {
        kind: GeneratedDiffLineKind::Remove,
        old_line: Some((i + 1) as nat),
        new_line: None,
        content: old[i],
    }
}

pub open spec fn added_line(new: Seq<Seq<char>>, j: int) -> DiffLineView {
    DiffLineView {
        kind: GeneratedDiffLineKind::Add,
        old_line: None,
        new_line: Some((j + 1) as nat),
        content: new[j],
    }
}

/// The diff from line `i` of the old text and line `j` of the new one on. A line that
/// stands in both is kept; otherwise the old line goes if that leaves as much in common.
pub open spec fn diff_from(old: Seq<Seq<char>>, new: Seq<Seq<char>>, i: int, j: int) -> Seq<
    DiffLineView,
>
    decreases old.len() - i + new.len() - j,
{
    if i < 0 || j < 0 || i > old.len() || j > new.len() || (i == old.len() && j == new.len()) {
        seq![]
    } else if j >= new.len() {
        seq![removed_line(old, i)] + diff_from(old, new, i + 1, j)
    } else if i >= old.len() {
        seq![added_line(new, j)] + diff_from(old, new, i, j + 1)
    } else if old[i] == new[j] {
        seq![context_line(old, i, j)] + diff_from(old, new, i + 1, j + 1)
    } else if common(old, new, i + 1, j) >= common(old, new, i, j + 1) {
        seq![removed_line(old, i)] + diff_from(old, new, i + 1, j)
    } else {
        seq![added_line(new, j)] + diff_from(old, new, i, j + 1)
    }
}

/// The diff of two texts, line by line.
pub open spec fn diff_lines(before: Seq<char>, after: Seq<char>) -> Seq<DiffLineView> {
    diff_from(text::lines(before), text::lines(after), 0, 0)
}

proof fn lemma_common_bound(old: Seq<Seq<char>>, new: Seq<Seq<char>>, i: int, j: int)
    ensures
        0 <= i <= old.len() ==> common(old, new, i, j) <= old.len() - i,
    decreases old.len() - i + new.len() - j,
{
    if i < 0 || j < 0 || i >= old.len() || j >= new.len() {
    } else {
        lemma_common_bound(old, new, i + 1, j + 1);
        lemma_common_bound(old, new, i + 1, j);
        lemma_common_bound(old, new, i, j + 1);
    }
}

/// Whether a row of the table of common lines is that of line `i` of the old text.
spec fn is_row(row: Seq<usize>, old: Seq<Seq<char>>, new: Seq<Seq<char>>, i: int) -> bool {
    &&& row.len() == new.len() + 1
    &&& forall|j: int| 0 <= j <= new.len() ==> #[trigger] row[j] == common(old, new, i, j)
}

/// One row of the table of common lines, given the row below it.
fn common_row(old: &Vec<String>, new: &Vec<String>, i: usize, below: &Vec<usize>) -> (row: Vec<
    usize,
>)
    requires
        i < old@.len(),
        is_row(below@, text::views(old@), text::views(new@), i + 1),
    ensures
        is_row(row@, text::views(old@), text::views(new@), i as int),
{
    let ghost o = text::views(old@);
    let ghost n = text::views(new@);
    let rows: usize = old.len();
    let width: usize = new.len();
    let mut row: Vec<usize> = vec![0; width];
    row.push(0);
    let mut j: usize = new.len();
    while j > 0
        invariant
            i < rows,
            rows == old@.len(),
            j <= width,
            width == new@.len(),
            o == text::views(old@),
            n == text::views(new@),
            is_row(below@, o, n, i + 1),
            row@.len() == new@.len() + 1,
            forall|k: int|
                j <= k <= new@.len() ==> #[trigger] row@[k] == common(o, n, i as int, k),
        decreases j,
    {
        j -= 1;
        proof {
            lemma_common_bound(o, n, i + 1, j + 1);
        }
        assert(o[i as int] == old@[i as int]@);
        assert(n[j as int] == new@[j as int]@);
        assert(below@[j as int] == common(o, n, i + 1, j as int));
        assert(below@[j + 1] == common(o, n, i + 1, j + 1));
        assert(row@[j + 1] == common(o, n, i as int, j + 1));
        let kept: usize = below[j + 1];
        let value: usize = if text::same(old[i].as_str(), new[j].as_str()) {
            kept + 1
        } else if below[j] >= row[j + 1] {
            below[j]
        } else {
            row[j + 1]
        };
        row.set(j, value);
    }
    row
}

/// The rows of the table of common lines, from the last line of the old text to the
/// first.
fn common_table(old: &Vec<String>, new: &Vec<String>) -> (table: Vec<Vec<usize>>)
    ensures
        table@.len() == old@.len() + 1,
        forall|r: int|
            0 <= r < table@.len() ==> is_row(
                #[trigger] table@[r]@,
                text::views(old@),
                text::views(new@),
                old@.len() - r,
            ),
{
    let ghost o = text::views(old@);
    let ghost n = text::views(new@);
    let width: usize = new.len();
    let total: usize = old.len();
    let mut table: Vec<Vec<usize>> = Vec::new();
    let mut last: Vec<usize> = vec![0; width];
    last.push(0);
    assert(is_row(last@, o, n, total as int));
    table.push(last);
    let mut i: usize = total;
    while i > 0
        invariant
            total == old@.len(),
            i <= total,
            o == text::views(old@),
            n == text::views(new@),
            table@.len() == total - i + 1,
            forall|r: int|
                0 <= r < table@.len() ==> is_row(#[trigger] table@[r]@, o, n, total - r),
        decreases i,
    {
        i -= 1;
        let below: usize = table.len() - 1;
        assert(is_row(table@[below as int]@, o, n, i + 1));
        let row = common_row(old, new, i, &table[below]);
        table.push(row);
    }
    table
}

/// The diff of two texts, line by line.
pub fn generate_diff_lines(before: &str, after: &str) -> (out: Vec<GeneratedDiffLine>)
    ensures
        diff_views(out@) == diff_lines(before@, after@),
{
    let old = text::lines_of(before);
    let new = text::lines_of(after);
    let ghost o = text::lines(before@);
    let ghost n = text::lines(after@);
    assert(old@.len() == o.len());
    assert(new@.len() == n.len());
    let table = common_table(&old, &new);
    let total: usize = old.len();
    let width: usize = new.len();
    let mut out: Vec<GeneratedDiffLine> = Vec::new();
    let mut i: usize = 0;
    let mut j: usize = 0;
    let ghost whole = diff_from(o, n, 0, 0);
    assert(diff_views(out@) + whole =~= whole);
    while i < old.len() || j < new.len()
        invariant
            i <= old@.len(),
            j <= new@.len(),
            width == new@.len(),
            o == text::views(old@),
            n == text::views(new@),
            total == old@.len(),
            table@.len() == total + 1,
            forall|r: int|
                0 <= r < table@.len() ==> is_row(#[trigger] table@[r]@, o, n, total - r),
            diff_views(out@) + diff_from(o, n, i as int, j as int) == whole,
        decreases old@.len() - i + new@.len() - j,
    {
        let ghost done = diff_views(out@);
        let ghost rest = diff_from(o, n, i as int, j as int);
        let keep = i < old.len() && j < new.len() && text::same(old[i].as_str(), new[j].as_str());
        if i < old.len() {
            assert(o[i as int] == old@[i as int]@);
        }
        if j < new.len() {
            assert(n[j as int] == new@[j as int]@);
        }
        if keep {
            let line = GeneratedDiffLine {
                kind: GeneratedDiffLineKind::Context,
                old_line: Some(i as u64 + 1),
                new_line: Some(j as u64 + 1),
                content: old[i].clone(),
            };
            let ghost shown = line@;
            out.push(line);
            proof {
                assert(shown == context_line(o, i as int, j as int));
                let next = diff_from(o, n, i + 1, j + 1);
                assert(rest == seq![shown] + next);
                assert(diff_views(out@) =~= done.push(shown));
                assert(done.push(shown) + next =~= done + rest);
            }
            i += 1;
            j += 1;
            continue;
        }
        let remove = if j >= new.len() {
            true
        } else if i >= old.len() {
            false
        } else {
            let row: usize = total - i;
            assert(is_row(table@[row as int]@, o, n, i as int));
            assert(is_row(table@[row - 1]@, o, n, i + 1));
            assert(table@[row - 1]@[j as int] == common(o, n, i + 1, j as int));
            assert(table@[row as int]@[j + 1] == common(o, n, i as int, j + 1));
            let below: usize = table[row - 1][j];
            let beside: usize = table[row][j + 1];
            below >= beside
        };
        if remove {
            let line = GeneratedDiffLine {
                kind: GeneratedDiffLineKind::Remove,
                old_line: Some(i as u64 + 1),
                new_line: None,
                content: old[i].clone(),
            };
            let ghost shown = line@;
            out.push(line);
            proof {
                assert(shown == removed_line(o, i as int));
                let next = diff_from(o, n, i + 1, j as int);
                assert(rest == seq![shown] + next);
                assert(diff_views(out@) =~= done.push(shown));
                assert(done.push(shown) + next =~= done + rest);
            }
            i += 1;
        } else {
            let line = GeneratedDiffLine {
                kind: GeneratedDiffLineKind::Add,
                old_line: None,
                new_line: Some(j as u64 + 1),
                content: new[j].clone(),
            };
            let ghost shown = line@;
            out.push(line);
            proof {
                assert(shown == added_line(n, j as int));
                let next = diff_from(o, n, i as int, j + 1);
                assert(rest == seq![shown] + next);
                assert(diff_views(out@) =~= done.push(shown));
                assert(done.push(shown) + next =~= done + rest);
            }
            j += 1;
        }
    }
    assert(diff_views(out@) + diff_from(o, n, i as int, j as int) =~= diff_views(out@));
    out
}

// ---------------------------------------------------------------------------
// Hunks
// ---------------------------------------------------------------------------

pub open spec fn is_change(line: DiffLineView) -> bool {
    line.kind != GeneratedDiffLineKind::Context
}

pub open spec fn window_start(i: int, context: nat) -> int {
    if i <= context {
        0
    } else {
        i - context
    }
}

pub open spec fn window_end(i: int, context: nat, len: nat) -> int {
    if i + context + 1 <= len {
        i + context + 1
    } else {
        len as int
    }
}

/// The ranges of lines that hold the changes among the first `n` lines, each with
/// `context` lines around it. Ranges that meet are one.
pub open spec fn hunk_ranges(lines: Seq<DiffLineView>, context: nat, n: int) -> Seq<(int, int)>
    decreases n,
{
    if n <= 0 {
        seq![]
    } else {
        let before = hunk_ranges(lines, context, n - 1);
        let start = window_start(n - 1, context);
        let end = window_end(n - 1, context, lines.len());
        if !is_change(lines[n - 1]) {
            before
        } else if before.len() > 0 && start <= before.last().1 {
            before.drop_last().push((before.last().0, end))
        } else {
            before.push((start, end))
        }
    }
}

pub open spec fn range_views(ranges: Seq<(usize, usize)>) -> Seq<(int, int)> {
    ranges.map_values(|r: (usize, usize)| (r.0 as int, r.1 as int))
}

/// What holds of the ranges of the changes among the first `n` lines.
proof fn lemma_ranges(lines: Seq<DiffLineView>, context: nat, n: int)
    requires
        0 <= n <= lines.len(),
    ensures
        ({
            let ranges = hunk_ranges(lines, context, n);
            &&& forall|k: int|
                0 <= k < ranges.len() ==> 0 <= (#[trigger] ranges[k]).0 < ranges[k].1
                    <= lines.len()
            &&& forall|k: int, l: int|
                0 <= k < l < ranges.len() ==> (#[trigger] ranges[k]).1 < (#[trigger] ranges[l]).0
            &&& forall|i: int|
                0 <= i < n && is_change(#[trigger] lines[i]) ==> exists|k: int|
                    0 <= k < ranges.len() && (#[trigger] ranges[k]).0 <= i < ranges[k].1
            &&& ranges.len() > 0 ==> ranges.last().1 <= window_end(n - 1, context, lines.len())
        }),
    decreases n,
{
    if n > 0 {
        lemma_ranges(lines, context, n - 1);
        let before = hunk_ranges(lines, context, n - 1);
        let ranges = hunk_ranges(lines, context, n);
        let start = window_start(n - 1, context);
        let end = window_end(n - 1, context, lines.len());
        if is_change(lines[n - 1]) {
            let last = ranges.len() - 1;
            if before.len() > 0 && start <= before.last().1 {
                assert(before[before.len() - 1].0 < before[before.len() - 1].1);
                assert forall|k: int, l: int| 0 <= k < l < ranges.len() implies (
                #[trigger] ranges[k]).1 < (#[trigger] ranges[l]).0 by {
                    assert(before[k].1 < before[l].0);
                }
                assert(ranges[last].0 <= n - 1 < ranges[last].1) by {
                    if before.last().0 > n - 1 {
                        lemma_range_starts(lines, context, n - 1);
                    }
                }
            } else {
                assert(ranges[last].0 <= n - 1 < ranges[last].1);
                assert forall|k: int, l: int| 0 <= k < l < ranges.len() implies (
                #[trigger] ranges[k]).1 < (#[trigger] ranges[l]).0 by {
                    if l < before.len() {
                        assert(before[k].1 < before[l].0);
                    } else if k < before.len() - 1 {
                        assert(before[k].1 < before[before.len() - 1].0);
                        assert(before[before.len() - 1].0 < before[before.len() - 1].1);
                    }
                }
            }
            assert forall|i: int|
                0 <= i < n && is_change(#[trigger] lines[i]) implies exists|k: int|
                0 <= k < ranges.len() && (#[trigger] ranges[k]).0 <= i < ranges[k].1 by {
                if i < n - 1 {
                    let k = choose|k: int|
                        0 <= k < before.len() && (#[trigger] before[k]).0 <= i < before[k].1;
                    assert(ranges[k].0 <= i < ranges[k].1);
                } else {
                    assert(ranges[last].0 <= i < ranges[last].1);
                }
            }
        }
    }
}

proof fn lemma_range_starts(lines: Seq<DiffLineView>, context: nat, n: int)
    requires
        0 <= n <= lines.len(),
    ensures
        forall|k: int|
            0 <= k < hunk_ranges(lines, context, n).len() ==> (#[trigger] hunk_ranges(
                lines,
                context,
                n,
            )[k]).0 < n,
    decreases n,
{
    if n > 0 {
        lemma_range_starts(lines, context, n - 1);
        let before = hunk_ranges(lines, context, n - 1);
        assert forall|k: int| 0 <= k < hunk_ranges(lines, context, n).len() implies (
        #[trigger] hunk_ranges(lines, context, n)[k]).0 < n by {
            if k < before.len() {
                assert(before[k].0 < n - 1);
            }
        }
    }
}

/// The ranges of lines that hold the changes, with `context` lines around each.
pub fn diff_hunk_ranges(lines: &Vec<GeneratedDiffLine>, context: usize) -> (out: Vec<
    (usize, usize),
>)
    ensures
        range_views(out@) == hunk_ranges(
            diff_views(lines@),
            context as nat,
            lines@.len() as int,
        ),
{
    let ghost all = diff_views(lines@);
    let total: usize = lines.len();
    let mut out: Vec<(usize, usize)> = Vec::new();
    let mut i: usize = 0;
    assert(range_views(out@) =~= seq![]);
    while i < total
        invariant
            i <= total,
            total == lines@.len(),
            all == diff_views(lines@),
            range_views(out@) == hunk_ranges(all, context as nat, i as int),
        decreases total - i,
    {
        let ghost before = range_views(out@);
        assert(all[i as int] == lines@[i as int]@);
        if lines[i].kind != GeneratedDiffLineKind::Context {
            let start: usize = if i <= context {
                0
            } else {
                i - context
            };
            let end: usize = if context < total - i {
                i + context + 1
            } else {
                total
            };
            let count: usize = out.len();
            if count > 0 && start <= out[count - 1].1 {
                let first: usize = out[count - 1].0;
                out.set(count - 1, (first, end));
                assert(range_views(out@) =~= before.drop_last().push((first as int, end as int)));
            } else {
                out.push((start, end));
                assert(range_views(out@) =~= before.push((start as int, end as int)));
            }
        }
        i += 1;
    }
    out
}

// ---------------------------------------------------------------------------
// The unified form
// ---------------------------------------------------------------------------

/// The first number in a column of a hunk, zero where there is none.
pub open spec fn first_number(column: Seq<Option<nat>>) -> nat
    decreases column.len(),
{
    if column.len() == 0 {
        0
    } else {
        match column[0] {
            Some(n) => n,
            None => first_number(column.skip(1)),
        }
    }
}

/// How many lines of a hunk have a number in a column.
pub open spec fn count_numbers(column: Seq<Option<nat>>) -> nat
    decreases column.len(),
{
    if column.len() == 0 {
        0
    } else {
        count_numbers(column.drop_last()) + (if column.last() is Some {
            1nat
        } else {
            0nat
        })
    }
}

pub open spec fn old_column(hunk: Seq<DiffLineView>) -> Seq<Option<nat>> {
    hunk.map_values(|l: DiffLineView| l.old_line)
}

pub open spec fn new_column(hunk: Seq<DiffLineView>) -> Seq<Option<nat>> {
    hunk.map_values(|l: DiffLineView| l.new_line)
}

pub open spec fn line_mark(kind: GeneratedDiffLineKind) -> char {
    match kind {
        GeneratedDiffLineKind::Context => ' ',
        GeneratedDiffLineKind::Add => '+',
        GeneratedDiffLineKind::Remove => '-',
    }
}

pub open spec fn line_text(line: DiffLineView) -> Seq<char> {
    seq![line_mark(line.kind)] + line.content + seq!['\n']
}

/// The header of a hunk: where it starts and how many lines it has, on either side.
pub open spec fn hunk_header(hunk: Seq<DiffLineView>) -> Seq<char> {
    let old = old_column(hunk);
    let new = new_column(hunk);
    "@@ -"@ + text::decimal(first_number(old)) + ","@ + text::decimal(count_numbers(old)) + " +"@
        + text::decimal(first_number(new)) + ","@ + text::decimal(count_numbers(new)) + " @@\n"@
}

pub open spec fn hunk_text(hunk: Seq<DiffLineView>) -> Seq<char> {
    hunk_header(hunk) + text::concat(hunk.map_values(|l: DiffLineView| line_text(l)))
}

/// How many lines of a kind there are.
pub open spec fn count_kind(lines: Seq<DiffLineView>, kind: GeneratedDiffLineKind) -> nat
    decreases lines.len(),
{
    if lines.len() == 0 {
        0
    } else {
        count_kind(lines.drop_last(), kind) + (if lines.last().kind == kind {
            1nat
        } else {
            0nat
        })
    }
}

/// The unified form of a diff, with three lines of context.
pub open spec fn unified_text(path: Seq<char>, lines: Seq<DiffLineView>) -> Seq<char> {
    let ranges = hunk_ranges(lines, 3, lines.len() as int);
    "--- a/"@ + path + "\n+++ b/"@ + path + "\n"@ + text::concat(
        ranges.map_values(|r: (int, int)| hunk_text(lines.subrange(r.0, r.1))),
    )
}

/// A diff of two versions of a file.
#[derive(Debug)]
pub struct GeneratedDiff {
    pub text: String,
    pub additions: u64,
    pub deletions: u64,
}

fn first_of(lines: &Vec<GeneratedDiffLine>, start: usize, end: usize, old: bool) -> (n: u64)
    requires
        start <= end <= lines@.len(),
    ensures
        n == first_number(
            if old {
                old_column(diff_views(lines@).subrange(start as int, end as int))
            } else {
                new_column(diff_views(lines@).subrange(start as int, end as int))
            },
        ),
{
    let ghost hunk = diff_views(lines@).subrange(start as int, end as int);
    let ghost column = if old {
        old_column(hunk)
    } else {
        new_column(hunk)
    };
    let mut i: usize = start;
    assert(column.skip(0) =~= column);
    while i < end
        invariant
            start <= i <= end <= lines@.len(),
            hunk == diff_views(lines@).subrange(start as int, end as int),
            column == (if old {
                old_column(hunk)
            } else {
                new_column(hunk)
            }),
            first_number(column) == first_number(column.skip(i - start)),
        decreases end - i,
    {
        let n = if old {
            lines[i].old_line
        } else {
            lines[i].new_line
        };
        let ghost rest = column.skip(i - start);
        assert(hunk[i - start] == lines@[i as int]@);
        assert(rest[0] == number(n));
        assert(rest.skip(1) =~= column.skip(i - start + 1));
        match n {
            Some(x) => {
                return x;
            },
            None => {},
        }
        i += 1;
    }
    0
}

fn count_of(lines: &Vec<GeneratedDiffLine>, start: usize, end: usize, old: bool) -> (n: u64)
    requires
        start <= end <= lines@.len(),
    ensures
        n == count_numbers(
            if old {
                old_column(diff_views(lines@).subrange(start as int, end as int))
            } else {
                new_column(diff_views(lines@).subrange(start as int, end as int))
            },
        ),
{
    let ghost hunk = diff_views(lines@).subrange(start as int, end as int);
    let ghost column = if old {
        old_column(hunk)
    } else {
        new_column(hunk)
    };
    let mut count: u64 = 0;
    let mut i: usize = start;
    assert(column.take(0) =~= seq![]);
    while i < end
        invariant
            start <= i <= end <= lines@.len(),
            hunk == diff_views(lines@).subrange(start as int, end as int),
            column == (if old {
                old_column(hunk)
            } else {
                new_column(hunk)
            }),
            count <= i - start,
            count == count_numbers(column.take(i - start)),
        decreases end - i,
    {
        let n = if old {
            lines[i].old_line
        } else {
            lines[i].new_line
        };
        assert(hunk[i - start] == lines@[i as int]@);
        assert(column[i - start] == number(n));
        assert(column.take(i - start + 1).drop_last() =~= column.take(i - start));
        if n.is_some() {
            count += 1;
        }
        i += 1;
    }
    assert(column.take(i - start) =~= column);
    count
}

fn push_hunk(out: &mut String, lines: &Vec<GeneratedDiffLine>, start: usize, end: usize)
    requires
        start <= end <= lines@.len(),
    ensures
        final(out)@ == old(out)@ + hunk_text(
            diff_views(lines@).subrange(start as int, end as int),
        ),
{
    let ghost hunk = diff_views(lines@).subrange(start as int, end as int);
    let ghost texts = hunk.map_values(|l: DiffLineView| line_text(l));
    let old_start = text::decimal_text(first_of(lines, start, end, true));
    let new_start = text::decimal_text(first_of(lines, start, end, false));
    let old_count = text::decimal_text(count_of(lines, start, end, true));
    let new_count = text::decimal_text(count_of(lines, start, end, false));
    let mut header = text::cat5("@@ -", old_start.as_str(), ",", old_count.as_str(), " +");
    header.push_str(new_start.as_str());
    header.push_str(",");
    header.push_str(new_count.as_str());
    header.push_str(" @@\n");
    assert(header@ =~= hunk_header(hunk));
    let ghost first = out@;
    out.push_str(header.as_str());
    let mut i: usize = start;
    assert(texts.take(0) =~= seq![]);
    assert(out@ =~= first + (hunk_header(hunk) + text::concat(texts.take(0))));
    while i < end
        invariant
            start <= i <= end <= lines@.len(),
            hunk == diff_views(lines@).subrange(start as int, end as int),
            texts == hunk.map_values(|l: DiffLineView| line_text(l)),
            out@ == first + (hunk_header(hunk) + text::concat(texts.take(i - start))),
        decreases end - i,
    {
        let ghost before = out@;
        let ghost line = lines@[i as int]@;
        assert(hunk[i - start] == line);
        let mark = match lines[i].kind {
            GeneratedDiffLineKind::Context => ' ',
            GeneratedDiffLineKind::Add => '+',
            GeneratedDiffLineKind::Remove => '-',
        };
        out.push(mark);
        out.push_str(lines[i].content.as_str());
        out.push('\n');
        assert(out@ =~= before + line_text(line));
        assert(texts.take(i - start + 1).drop_last() =~= texts.take(i - start));
        assert(texts.take(i - start + 1).last() == line_text(line));
        assert(out@ =~= first + (hunk_header(hunk) + text::concat(texts.take(i - start + 1))));
        i += 1;
    }
    assert(texts.take(i - start) =~= texts);
}

fn count_lines(lines: &Vec<GeneratedDiffLine>, kind: GeneratedDiffLineKind) -> (n: u64)
    ensures
        n == count_kind(diff_views(lines@), kind),
{
    let ghost all = diff_views(lines@);
    let mut n: u64 = 0;
    let mut i: usize = 0;
    while i < lines.len()
        invariant
            i <= lines@.len(),
            n <= i,
            all == diff_views(lines@),
            n == count_kind(all.take(i as int), kind),
        decreases lines@.len() - i,
    {
        assert(all.take(i + 1).drop_last() =~= all.take(i as int));
        assert(all.take(i + 1).last() == lines@[i as int]@);
        if lines[i].kind == kind {
            n += 1;
        }
        i += 1;
    }
    assert(all.take(i as int) =~= all);
    n
}

/// The diff of two versions of the file at `path`.
pub fn unified_line_diff(path: &str, before: &str, after: &str) -> (r: GeneratedDiff)
    ensures
        r.text@ == unified_text(path@, diff_lines(before@, after@)),
        r.additions == count_kind(diff_lines(before@, after@), GeneratedDiffLineKind::Add),
        r.deletions == count_kind(diff_lines(before@, after@), GeneratedDiffLineKind::Remove),
{
    let lines = generate_diff_lines(before, after);
    let ghost all = diff_views(lines@);
    let additions: u64 = count_lines(&lines, GeneratedDiffLineKind::Add);
    let deletions: u64 = count_lines(&lines, GeneratedDiffLineKind::Remove);
    let ranges = diff_hunk_ranges(&lines, 3);
    let ghost spans = hunk_ranges(all, 3, all.len() as int);
    let ghost texts = spans.map_values(|r: (int, int)| hunk_text(all.subrange(r.0, r.1)));
    proof {
        lemma_ranges(all, 3, all.len() as int);
    }
    let mut out = text::cat5("--- a/", path, "\n+++ b/", path, "\n");
    let ghost head = out@;
    let mut i: usize = 0;
    assert(texts.take(0) =~= seq![]);
    assert(out@ =~= head + text::concat(texts.take(0)));
    while i < ranges.len()
        invariant
            i <= ranges@.len(),
            all == diff_views(lines@),
            spans == range_views(ranges@),
            texts == spans.map_values(|r: (int, int)| hunk_text(all.subrange(r.0, r.1))),
            forall|k: int|
                0 <= k < spans.len() ==> 0 <= (#[trigger] spans[k]).0 < spans[k].1 <= all.len(),
            out@ == head + text::concat(texts.take(i as int)),
        decreases ranges@.len() - i,
    {
        let ghost so_far = out@;
        let (start, end) = ranges[i];
        assert(spans[i as int] == (start as int, end as int));
        push_hunk(&mut out, &lines, start, end);
        assert(texts.take(i + 1).drop_last() =~= texts.take(i as int));
        assert(out@ =~= head + text::concat(texts.take(i + 1)));
        i += 1;
    }
    assert(texts.take(i as int) =~= texts);
    GeneratedDiff { text: out, additions, deletions }
}

// ---------------------------------------------------------------------------
// What a diff tells
// ---------------------------------------------------------------------------

/// The lines that a diff has on one side: all but those of the other side's kind.
pub open spec fn side(lines: Seq<DiffLineView>, other: GeneratedDiffLineKind) -> Seq<Seq<char>>
    decreases lines.len(),
{
    if lines.len() == 0 {
        seq![]
    } else if lines[0].kind == other {
        side(lines.skip(1), other)
    } else {
        seq![lines[0].content] + side(lines.skip(1), other)
    }
}

proof fn lemma_sides(old: Seq<Seq<char>>, new: Seq<Seq<char>>, i: int, j: int)
    requires
        0 <= i <= old.len(),
        0 <= j <= new.len(),
    ensures
        side(diff_from(old, new, i, j), GeneratedDiffLineKind::Add) == old.skip(i),
        side(diff_from(old, new, i, j), GeneratedDiffLineKind::Remove) == new.skip(j),
    decreases old.len() - i + new.len() - j,
{
    let d = diff_from(old, new, i, j);
    if i >= old.len() && j >= new.len() {
        assert(old.skip(i) =~= seq![]);
        assert(new.skip(j) =~= seq![]);
    } else {
        let keep = i < old.len() && j < new.len() && old[i] == new[j];
        let remove = !keep && (j >= new.len() || (i < old.len() && common(old, new, i + 1, j)
            >= common(old, new, i, j + 1)));
        let next_i = if keep || remove {
            i + 1
        } else {
            i
        };
        let next_j = if keep || !remove {
            j + 1
        } else {
            j
        };
        lemma_sides(old, new, next_i, next_j);
        assert(d.skip(1) =~= diff_from(old, new, next_i, next_j));
        if keep || remove {
            assert(seq![old[i]] + old.skip(i + 1) =~= old.skip(i));
        }
        if keep || !remove {
            assert(seq![new[j]] + new.skip(j + 1) =~= new.skip(j));
        }
    }
}

/// A diff tells both texts: without its added lines it is the old one, without its
/// removed lines the new one.
pub proof fn a_diff_holds_both_texts(before: Seq<char>, after: Seq<char>)
    ensures
        side(diff_lines(before, after), GeneratedDiffLineKind::Add) == text::lines(before),
        side(diff_lines(before, after), GeneratedDiffLineKind::Remove) == text::lines(after),
{
    let old = text::lines(before);
    let new = text::lines(after);
    lemma_sides(old, new, 0, 0);
    assert(old.skip(0) =~= old);
    assert(new.skip(0) =~= new);
}

/// Whether the lines of `old` at the indices `a` are, in this order, those of `new` at
/// the indices `b`.
pub open spec fn common_lines(
    old: Seq<Seq<char>>,
    new: Seq<Seq<char>>,
    a: Seq<int>,
    b: Seq<int>,
) -> bool {
    &&& a.len() == b.len()
    &&& forall|k: int, l: int| 0 <= k < l < a.len() ==> #[trigger] a[k] < #[trigger] a[l]
    &&& forall|k: int, l: int| 0 <= k < l < b.len() ==> #[trigger] b[k] < #[trigger] b[l]
    &&& forall|k: int|
        0 <= k < a.len() ==> 0 <= #[trigger] a[k] < old.len() && 0 <= b[k] < new.len()
            && old[a[k]] == new[b[k]]
}

proof fn lemma_most_common(
    old: Seq<Seq<char>>,
    new: Seq<Seq<char>>,
    a: Seq<int>,
    b: Seq<int>,
    i: int,
    j: int,
)
    requires
        common_lines(old, new, a, b),
        0 <= i <= old.len(),
        0 <= j <= new.len(),
        forall|k: int| 0 <= k < a.len() ==> i <= #[trigger] a[k],
        forall|k: int| 0 <= k < b.len() ==> j <= #[trigger] b[k],
    ensures
        a.len() <= common(old, new, i, j),
    decreases old.len() - i + new.len() - j,
{
    if a.len() > 0 {
        assert(i <= a[0] < old.len() && j <= b[0] < new.len());
        if old[i] == new[j] {
            let a2 = a.skip(1);
            let b2 = b.skip(1);
            assert forall|k: int| 0 <= k < a2.len() implies i + 1 <= #[trigger] a2[k] by {
                assert(a[0] < a[k + 1]);
            }
            assert forall|k: int| 0 <= k < b2.len() implies j + 1 <= #[trigger] b2[k] by {
                assert(b[0] < b[k + 1]);
            }
            assert forall|k: int, l: int| 0 <= k < l < a2.len() implies #[trigger] a2[k]
                < #[trigger] a2[l] by {
                assert(a[k + 1] < a[l + 1]);
            }
            assert forall|k: int, l: int| 0 <= k < l < b2.len() implies #[trigger] b2[k]
                < #[trigger] b2[l] by {
                assert(b[k + 1] < b[l + 1]);
            }
            assert forall|k: int| 0 <= k < a2.len() implies 0 <= #[trigger] a2[k] < old.len() && 0
                <= b2[k] < new.len() && old[a2[k]] == new[b2[k]] by {
                assert(0 <= a[k + 1] < old.len());
            }
            lemma_most_common(old, new, a2, b2, i + 1, j + 1);
        } else if a[0] > i {
            assert forall|k: int| 0 <= k < a.len() implies i + 1 <= #[trigger] a[k] by {
                if k > 0 {
                    assert(a[0] < a[k]);
                }
            }
            lemma_most_common(old, new, a, b, i + 1, j);
        } else {
            assert(b[0] > j);
            assert forall|k: int| 0 <= k < b.len() implies j + 1 <= #[trigger] b[k] by {
                if k > 0 {
                    assert(b[0] < b[k]);
                }
            }
            lemma_most_common(old, new, a, b, i, j + 1);
        }
    }
}

proof fn lemma_count_kind_front(lines: Seq<DiffLineView>, kind: GeneratedDiffLineKind)
    requires
        lines.len() > 0,
    ensures
        count_kind(lines, kind) == count_kind(lines.skip(1), kind) + (if lines[0].kind == kind {
            1nat
        } else {
            0nat
        }),
    decreases lines.len(),
{
    if lines.len() == 1 {
        assert(lines.drop_last() =~= seq![]);
        assert(lines.skip(1) =~= seq![]);
    } else {
        lemma_count_kind_front(lines.drop_last(), kind);
        assert(lines.drop_last().skip(1) =~= lines.skip(1).drop_last());
    }
}

proof fn lemma_context_is_common(old: Seq<Seq<char>>, new: Seq<Seq<char>>, i: int, j: int)
    requires
        0 <= i <= old.len(),
        0 <= j <= new.len(),
    ensures
        count_kind(diff_from(old, new, i, j), GeneratedDiffLineKind::Context) == common(
            old,
            new,
            i,
            j,
        ),
    decreases old.len() - i + new.len() - j,
{
    let d = diff_from(old, new, i, j);
    if i >= old.len() && j >= new.len() {
    } else {
        let keep = i < old.len() && j < new.len() && old[i] == new[j];
        let remove = !keep && (j >= new.len() || (i < old.len() && common(old, new, i + 1, j)
            >= common(old, new, i, j + 1)));
        let next_i = if keep || remove {
            i + 1
        } else {
            i
        };
        let next_j = if keep || !remove {
            j + 1
        } else {
            j
        };
        lemma_context_is_common(old, new, next_i, next_j);
        lemma_count_kind_front(d, GeneratedDiffLineKind::Context);
        assert(d.skip(1) =~= diff_from(old, new, next_i, next_j));
    }
}

/// A diff keeps as many lines as it can: no choice of lines that the texts have in
/// common, in order, is larger than its context.
pub proof fn a_diff_keeps_the_most_lines(
    before: Seq<char>,
    after: Seq<char>,
    a: Seq<int>,
    b: Seq<int>,
)
    requires
        common_lines(text::lines(before), text::lines(after), a, b),
    ensures
        a.len() <= count_kind(diff_lines(before, after), GeneratedDiffLineKind::Context),
{
    let old = text::lines(before);
    let new = text::lines(after);
    assert forall|k: int| 0 <= k < b.len() implies 0 <= #[trigger] b[k] by {
        assert(0 <= a[k] < old.len());
    }
    lemma_most_common(old, new, a, b, 0, 0);
    lemma_context_is_common(old, new, 0, 0);
}

/// The hunks of a diff are ranges of its lines, one behind the other, and every change
/// lies in one of them.
pub proof fn hunks_hold_every_change(lines: Seq<DiffLineView>, context: nat)
    ensures
        ({
            let ranges = hunk_ranges(lines, context, lines.len() as int);
            &&& forall|k: int|
                0 <= k < ranges.len() ==> 0 <= (#[trigger] ranges[k]).0 < ranges[k].1
                    <= lines.len()
            &&& forall|k: int, l: int|
                0 <= k < l < ranges.len() ==> (#[trigger] ranges[k]).1 < (#[trigger] ranges[l]).0
            &&& forall|i: int|
                0 <= i < lines.len() && is_change(#[trigger] lines[i]) ==> exists|k: int|
                    0 <= k < ranges.len() && (#[trigger] ranges[k]).0 <= i < ranges[k].1
        }),
{
    lemma_ranges(lines, context, lines.len() as int);
}

// ---------------------------------------------------------------------------
// What the unified form tells
// ---------------------------------------------------------------------------

proof fn lemma_side_add(a: Seq<DiffLineView>, b: Seq<DiffLineView>, other: GeneratedDiffLineKind)
    ensures
        side(a + b, other) == side(a, other) + side(b, other),
    decreases a.len(),
{
    if a.len() == 0 {
        assert(a + b =~= b);
    } else {
        lemma_side_add(a.skip(1), b, other);
        assert((a + b).skip(1) =~= a.skip(1) + b);
    }
}

/// How many of the lines before index `p` of a diff stand in the text that has no lines
/// of the kind `other`.
pub open spec fn ahead(lines: Seq<DiffLineView>, p: int, other: GeneratedDiffLineKind) -> nat {
    side(lines.take(p), other).len()
}

proof fn lemma_numbers(old: Seq<Seq<char>>, new: Seq<Seq<char>>, i: int, j: int, p: int)
    requires
        0 <= i <= old.len(),
        0 <= j <= new.len(),
        0 <= p < diff_from(old, new, i, j).len(),
    ensures
        ({
            let d = diff_from(old, new, i, j);
            let a = i + ahead(d, p, GeneratedDiffLineKind::Add);
            let b = j + ahead(d, p, GeneratedDiffLineKind::Remove);
            &&& d[p].kind == GeneratedDiffLineKind::Add ==> d[p].old_line is None
            &&& d[p].kind == GeneratedDiffLineKind::Remove ==> d[p].new_line is None
            &&& d[p].kind != GeneratedDiffLineKind::Add ==> d[p].old_line == Some((a + 1) as nat)
                && a < old.len() && d[p].content == old[a]
            &&& d[p].kind != GeneratedDiffLineKind::Remove ==> d[p].new_line == Some(
                (b + 1) as nat,
            ) && b < new.len() && d[p].content == new[b]
        }),
    decreases p,
{
    let d = diff_from(old, new, i, j);
    let keep = i < old.len() && j < new.len() && old[i] == new[j];
    let remove = !keep && (j >= new.len() || (i < old.len() && common(old, new, i + 1, j)
        >= common(old, new, i, j + 1)));
    let next_i = if keep || remove {
        i + 1
    } else {
        i
    };
    let next_j = if keep || !remove {
        j + 1
    } else {
        j
    };
    let next = diff_from(old, new, next_i, next_j);
    assert(d.skip(1) =~= next);
    if p == 0 {
        assert(d.take(0) =~= seq![]);
    } else {
        lemma_numbers(old, new, next_i, next_j, p - 1);
        assert(d.take(p)[0] == d[0]);
        assert(d.take(p).skip(1) =~= next.take(p - 1));
        assert(d[p] == next[p - 1]);
    }
}

/// Every line of a diff is numbered as in the texts: a line that is not added has in the
/// old text the number that it is given and stands there behind those before it in the
/// diff, and a line that is not removed likewise in the new text.
pub proof fn diff_lines_are_numbered_as_in_the_texts(before: Seq<char>, after: Seq<char>, p: int)
    requires
        0 <= p < diff_lines(before, after).len(),
    ensures
        ({
            let d = diff_lines(before, after);
            let a = ahead(d, p, GeneratedDiffLineKind::Add) as int;
            let b = ahead(d, p, GeneratedDiffLineKind::Remove) as int;
            &&& d[p].kind == GeneratedDiffLineKind::Add ==> d[p].old_line is None
            &&& d[p].kind == GeneratedDiffLineKind::Remove ==> d[p].new_line is None
            &&& d[p].kind != GeneratedDiffLineKind::Add ==> d[p].old_line == Some((a + 1) as nat)
                && a < text::lines(before).len() && d[p].content == text::lines(before)[a]
            &&& d[p].kind != GeneratedDiffLineKind::Remove ==> d[p].new_line == Some(
                (b + 1) as nat,
            ) && b < text::lines(after).len() && d[p].content == text::lines(after)[b]
        }),
{
    lemma_numbers(text::lines(before), text::lines(after), 0, 0, p);
}

proof fn lemma_ahead_next(lines: Seq<DiffLineView>, p: int, other: GeneratedDiffLineKind)
    requires
        0 <= p < lines.len(),
    ensures
        ahead(lines, p + 1, other) == ahead(lines, p, other) + (if lines[p].kind == other {
            0nat
        } else {
            1nat
        }),
{
    let one = seq![lines[p]];
    assert(lines.take(p + 1) =~= lines.take(p) + one);
    lemma_side_add(lines.take(p), one, other);
    assert(one.skip(1) =~= seq![]);
    assert(side(one.skip(1), other) =~= seq![]);
}

proof fn lemma_first_numbers(before: Seq<char>, after: Seq<char>, s: int, e: int)
    requires
        0 <= s <= e <= diff_lines(before, after).len(),
    ensures
        ({
            let d = diff_lines(before, after);
            let hunk = d.subrange(s, e);
            let add = GeneratedDiffLineKind::Add;
            let remove = GeneratedDiffLineKind::Remove;
            &&& first_number(old_column(hunk)) == (if side(hunk, add).len() == 0 {
                0nat
            } else {
                ahead(d, s, add) + 1
            })
            &&& first_number(new_column(hunk)) == (if side(hunk, remove).len() == 0 {
                0nat
            } else {
                ahead(d, s, remove) + 1
            })
        }),
    decreases e - s,
{
    let d = diff_lines(before, after);
    let hunk = d.subrange(s, e);
    if s < e {
        diff_lines_are_numbered_as_in_the_texts(before, after, s);
        lemma_first_numbers(before, after, s + 1, e);
        lemma_ahead_next(d, s, GeneratedDiffLineKind::Add);
        lemma_ahead_next(d, s, GeneratedDiffLineKind::Remove);
        assert(hunk.skip(1) =~= d.subrange(s + 1, e));
        assert(old_column(hunk).skip(1) =~= old_column(hunk.skip(1)));
        assert(new_column(hunk).skip(1) =~= new_column(hunk.skip(1)));
        assert(hunk[0] == d[s]);
    }
}

proof fn lemma_number_counts(before: Seq<char>, after: Seq<char>, s: int, e: int)
    requires
        0 <= s <= e <= diff_lines(before, after).len(),
    ensures
        ({
            let hunk = diff_lines(before, after).subrange(s, e);
            &&& count_numbers(old_column(hunk)) == side(hunk, GeneratedDiffLineKind::Add).len()
            &&& count_numbers(new_column(hunk)) == side(hunk, GeneratedDiffLineKind::Remove).len()
        }),
    decreases e - s,
{
    let d = diff_lines(before, after);
    let hunk = d.subrange(s, e);
    if s < e {
        diff_lines_are_numbered_as_in_the_texts(before, after, e - 1);
        lemma_number_counts(before, after, s, e - 1);
        let front = d.subrange(s, e - 1);
        let one = seq![d[e - 1]];
        assert(hunk =~= front + one);
        lemma_side_add(front, one, GeneratedDiffLineKind::Add);
        lemma_side_add(front, one, GeneratedDiffLineKind::Remove);
        assert(one.skip(1) =~= seq![]);
        assert(side(one.skip(1), GeneratedDiffLineKind::Add) =~= seq![]);
        assert(side(one.skip(1), GeneratedDiffLineKind::Remove) =~= seq![]);
        assert(old_column(hunk).drop_last() =~= old_column(front));
        assert(new_column(hunk).drop_last() =~= new_column(front));
        assert(hunk.last() == d[e - 1]);
    }
}

proof fn lemma_side_part(lines: Seq<DiffLineView>, s: int, e: int, other: GeneratedDiffLineKind)
    requires
        0 <= s <= e <= lines.len(),
    ensures
        ({
            let n = ahead(lines, s, other) as int;
            let part = side(lines.subrange(s, e), other);
            &&& n + part.len() <= side(lines, other).len()
            &&& side(lines, other).subrange(n, n + part.len()) == part
        }),
{
    let first = lines.take(s);
    let hunk = lines.subrange(s, e);
    let rest = lines.skip(e);
    lemma_side_add(first, hunk, other);
    lemma_side_add(first + hunk, rest, other);
    assert(lines =~= first + hunk + rest);
    let n = side(first, other).len() as int;
    let m = side(hunk, other).len() as int;
    assert(side(lines, other).subrange(n, n + m) =~= side(hunk, other));
}

/// The hunk of the lines from `s` to `e` of a diff, as it is told: where it starts in the
/// old text and how many lines of it stand there, then the same of the new text, then its
/// lines, each behind a blank, a plus or a minus.
pub open spec fn told_hunk(before: Seq<char>, after: Seq<char>, s: int, e: int) -> Seq<char> {
    let d = diff_lines(before, after);
    let hunk = d.subrange(s, e);
    let old = side(hunk, GeneratedDiffLineKind::Add);
    let new = side(hunk, GeneratedDiffLineKind::Remove);
    let old_start = if old.len() == 0 {
        0nat
    } else {
        ahead(d, s, GeneratedDiffLineKind::Add) + 1
    };
    let new_start = if new.len() == 0 {
        0nat
    } else {
        ahead(d, s, GeneratedDiffLineKind::Remove) + 1
    };
    "@@ -"@ + text::decimal(old_start) + ","@ + text::decimal(old.len()) + " +"@ + text::decimal(
        new_start,
    ) + ","@ + text::decimal(new.len()) + " @@\n"@ + text::concat(
        hunk.map_values(
            |l: DiffLineView|
                (if l.kind == GeneratedDiffLineKind::Context {
                    " "@
                } else if l.kind == GeneratedDiffLineKind::Add {
                    "+"@
                } else {
                    "-"@
                }) + l.content + "\n"@,
        ),
    )
}

/// A hunk tells where it stands in both texts. The number behind the minus is that of its
/// first line in the old text and the one behind the plus that of its first line in the
/// new text, zero where it has none. Cut at these numbers and for the counts beside them,
/// the old text gives the kept and the removed lines of the hunk, the new text the kept
/// and the added ones.
pub proof fn a_hunk_tells_where_it_stands(before: Seq<char>, after: Seq<char>, s: int, e: int)
    requires
        0 <= s <= e <= diff_lines(before, after).len(),
    ensures
        ({
            let d = diff_lines(before, after);
            let hunk = d.subrange(s, e);
            let old = side(hunk, GeneratedDiffLineKind::Add);
            let new = side(hunk, GeneratedDiffLineKind::Remove);
            let a = ahead(d, s, GeneratedDiffLineKind::Add) as int;
            let b = ahead(d, s, GeneratedDiffLineKind::Remove) as int;
            &&& hunk_text(hunk) == told_hunk(before, after, s, e)
            &&& a + old.len() <= text::lines(before).len()
            &&& text::lines(before).subrange(a, a + old.len()) == old
            &&& b + new.len() <= text::lines(after).len()
            &&& text::lines(after).subrange(b, b + new.len()) == new
        }),
{
    let d = diff_lines(before, after);
    let hunk = d.subrange(s, e);
    lemma_first_numbers(before, after, s, e);
    lemma_number_counts(before, after, s, e);
    a_diff_holds_both_texts(before, after);
    lemma_side_part(d, s, e, GeneratedDiffLineKind::Add);
    lemma_side_part(d, s, e, GeneratedDiffLineKind::Remove);
    let told = |l: DiffLineView|
        (if l.kind == GeneratedDiffLineKind::Context {
            " "@
        } else if l.kind == GeneratedDiffLineKind::Add {
            "+"@
        } else {
            "-"@
        }) + l.content + "\n"@;
    reveal_strlit(" ");
    reveal_strlit("+");
    reveal_strlit("-");
    reveal_strlit("\n");
    assert forall|l: DiffLineView| #[trigger] line_text(l) == told(l) by {
        assert(line_text(l) =~= told(l));
    }
    assert(hunk.map_values(|l: DiffLineView| line_text(l)) =~= hunk.map_values(told));
    let header = hunk_header(hunk);
    assert(hunk_text(hunk) =~= told_hunk(before, after, s, e));
}

/// Whether a line of a diff lies at most `context` lines from a change.
pub open spec fn near_change(lines: Seq<DiffLineView>, context: nat, i: int) -> bool {
    exists|j: int|
        0 <= j < lines.len() && (#[trigger] lines[j]).kind != GeneratedDiffLineKind::Context && i
            - context <= j <= i + context
}

/// Whether a line lies in one of the ranges.
pub open spec fn covered(ranges: Seq<(int, int)>, i: int) -> bool {
    exists|k: int| 0 <= k < ranges.len() && (#[trigger] ranges[k]).0 <= i < ranges[k].1
}

/// Whether ranges hold the lines near a change and no others, in order, with at least one
/// line between each two of them.
pub open spec fn round_changes(
    lines: Seq<DiffLineView>,
    context: nat,
    ranges: Seq<(int, int)>,
) -> bool {
    &&& forall|k: int|
        0 <= k < ranges.len() ==> 0 <= (#[trigger] ranges[k]).0 < ranges[k].1 <= lines.len()
    &&& forall|k: int, l: int|
        0 <= k < l < ranges.len() ==> (#[trigger] ranges[k]).1 < (#[trigger] ranges[l]).0
    &&& forall|i: int|
        0 <= i < lines.len() ==> (#[trigger] covered(ranges, i) <==> near_change(
            lines,
            context,
            i,
        ))
}

proof fn lemma_covered(lines: Seq<DiffLineView>, context: nat, n: int, i: int)
    requires
        0 <= n <= lines.len(),
        0 <= i < lines.len(),
    ensures
        covered(hunk_ranges(lines, context, n), i) <==> exists|j: int|
            0 <= j < n && (#[trigger] lines[j]).kind != GeneratedDiffLineKind::Context && i
                - context <= j <= i + context,
        forall|k: int|
            0 <= k < hunk_ranges(lines, context, n).len() ==> (#[trigger] hunk_ranges(
                lines,
                context,
                n,
            )[k]).0 <= window_start(n - 1, context),
    decreases n,
{
    if n > 0 {
        lemma_covered(lines, context, n - 1, i);
        lemma_ranges(lines, context, n - 1);
        let before = hunk_ranges(lines, context, n - 1);
        let ranges = hunk_ranges(lines, context, n);
        let start = window_start(n - 1, context);
        let end = window_end(n - 1, context, lines.len());
        let last = ranges.len() - 1;
        let near = exists|j: int|
            0 <= j < n - 1 && (#[trigger] lines[j]).kind != GeneratedDiffLineKind::Context && i
                - context <= j <= i + context;
        let now = exists|j: int|
            0 <= j < n && (#[trigger] lines[j]).kind != GeneratedDiffLineKind::Context && i
                - context <= j <= i + context;
        if is_change(lines[n - 1]) {
            let here = start <= i < end;
            assert(here <==> i - context <= n - 1 <= i + context);
            assert(now <==> near || here) by {
                if here {
                    assert(lines[n - 1].kind != GeneratedDiffLineKind::Context);
                }
            }
            if before.len() > 0 && start <= before.last().1 {
                assert(before[before.len() - 1].0 <= window_start(n - 2, context));
                assert(forall|k: int| 0 <= k < before.len() - 1 ==> ranges[k] == before[k]);
                if covered(before, i) {
                    let k = choose|k: int|
                        0 <= k < before.len() && (#[trigger] before[k]).0 <= i < before[k].1;
                    assert(ranges[k].0 <= i < ranges[k].1);
                }
                if here {
                    assert(ranges[last].0 <= i < ranges[last].1);
                }
                if covered(ranges, i) {
                    let k = choose|k: int|
                        0 <= k < ranges.len() && (#[trigger] ranges[k]).0 <= i < ranges[k].1;
                    if k < last || i < before.last().1 {
                        assert(before[k].0 <= i < before[k].1);
                    }
                }
            } else {
                assert(forall|k: int| 0 <= k < before.len() ==> ranges[k] == before[k]);
                if covered(before, i) {
                    let k = choose|k: int|
                        0 <= k < before.len() && (#[trigger] before[k]).0 <= i < before[k].1;
                    assert(ranges[k].0 <= i < ranges[k].1);
                }
                if here {
                    assert(ranges[last].0 <= i < ranges[last].1);
                }
                if covered(ranges, i) {
                    let k = choose|k: int|
                        0 <= k < ranges.len() && (#[trigger] ranges[k]).0 <= i < ranges[k].1;
                    if k < last {
                        assert(before[k].0 <= i < before[k].1);
                    }
                }
            }
        } else {
            assert(now <==> near);
        }
        assert forall|k: int| 0 <= k < ranges.len() implies (#[trigger] ranges[k]).0
            <= window_start(n - 1, context) by {
            if k < before.len() {
                assert(before[k].0 <= window_start(n - 2, context));
            }
        }
    }
}

/// The hunks of a diff hold the lines that lie near a change, and no others, in order and
/// apart from each other.
pub proof fn hunks_hold_what_is_near_a_change(lines: Seq<DiffLineView>, context: nat)
    ensures
        round_changes(lines, context, hunk_ranges(lines, context, lines.len() as int)),
{
    lemma_ranges(lines, context, lines.len() as int);
    let ranges = hunk_ranges(lines, context, lines.len() as int);
    assert forall|i: int| 0 <= i < lines.len() implies (#[trigger] covered(ranges, i)
        <==> near_change(lines, context, i)) by {
        lemma_covered(lines, context, lines.len() as int, i);
    }
}

/// The unified form of the diff of two texts names the file on both sides and then holds
/// one hunk for every stretch of lines that lie at most three lines from a change, each
/// telling where it stands in both texts.
pub proof fn a_unified_diff_tells_every_change(
    path: Seq<char>,
    before: Seq<char>,
    after: Seq<char>,
)
    ensures
        exists|spans: Seq<(int, int)>|
            #![trigger round_changes(diff_lines(before, after), 3, spans)]
            round_changes(diff_lines(before, after), 3, spans) && unified_text(
                path,
                diff_lines(before, after),
            ) == "--- a/"@ + path + "\n"@ + "+++ b/"@ + path + "\n"@ + text::concat(
                spans.map_values(|r: (int, int)| told_hunk(before, after, r.0, r.1)),
            ),
{
    let d = diff_lines(before, after);
    let spans = hunk_ranges(d, 3, d.len() as int);
    hunks_hold_what_is_near_a_change(d, 3);
    assert(round_changes(d, 3, spans));
    let texts = spans.map_values(|r: (int, int)| hunk_text(d.subrange(r.0, r.1)));
    let told = spans.map_values(|r: (int, int)| told_hunk(before, after, r.0, r.1));
    assert forall|k: int| 0 <= k < spans.len() implies #[trigger] texts[k] == told[k] by {
        a_hunk_tells_where_it_stands(before, after, spans[k].0, spans[k].1);
    }
    assert(texts =~= told);
    reveal_strlit("\n");
    reveal_strlit("+++ b/");
    reveal_strlit("\n+++ b/");
    assert("\n+++ b/"@ =~= "\n"@ + "+++ b/"@);
    let head = "--- a/"@ + path + "\n+++ b/"@ + path + "\n"@;
    assert(head =~= "--- a/"@ + path + "\n"@ + "+++ b/"@ + path + "\n"@);
}

proof fn lemma_side_counts(lines: Seq<DiffLineView>)
    ensures
        count_kind(lines, GeneratedDiffLineKind::Context) + count_kind(
            lines,
            GeneratedDiffLineKind::Remove,
        ) == side(lines, GeneratedDiffLineKind::Add).len(),
        count_kind(lines, GeneratedDiffLineKind::Context) + count_kind(
            lines,
            GeneratedDiffLineKind::Add,
        ) == side(lines, GeneratedDiffLineKind::Remove).len(),
    decreases lines.len(),
{
    if lines.len() > 0 {
        lemma_side_counts(lines.skip(1));
        lemma_count_kind_front(lines, GeneratedDiffLineKind::Context);
        lemma_count_kind_front(lines, GeneratedDiffLineKind::Add);
        lemma_count_kind_front(lines, GeneratedDiffLineKind::Remove);
    }
}

/// The lines that a diff keeps and those that it removes are as many as the old text has,
/// the lines that it keeps and those that it adds as many as the new text has.
pub proof fn the_counts_of_a_diff_add_up(before: Seq<char>, after: Seq<char>)
    ensures
        ({
            let d = diff_lines(before, after);
            let kept = count_kind(d, GeneratedDiffLineKind::Context);
            let added = count_kind(d, GeneratedDiffLineKind::Add);
            let removed = count_kind(d, GeneratedDiffLineKind::Remove);
            &&& kept + removed == text::lines(before).len()
            &&& kept + added == text::lines(after).len()
        }),
{
    a_diff_holds_both_texts(before, after);
    lemma_side_counts(diff_lines(before, after));
}

} // verus!
