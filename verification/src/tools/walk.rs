//! The order in which a search goes through the files below a directory: entry by entry,
//! and into a directory as soon as it is met.
use vstd::prelude::*;

use crate::text;
use crate::tools::error::{ToolError, ToolErrorView};
use crate::tools::files;
use crate::tools::files::{GrepState, GrepView, DEFAULT_GLOB_MATCH_LIMIT};
use crate::tools::paths;

verus! {

/// What stands at a path.
#[derive(Debug)]
pub enum EntryKind {
    Dir,
    File,
    /// Neither a directory nor a file.
    Other,
    /// What stands there cannot be told.
    Failed { source: String },
}

/// Something that a search meets.
#[derive(Debug)]
pub struct WalkEntry {
    pub path: String,
    pub kind: EntryKind,
}

/// The content of an `EntryKind`.
pub enum KindView {
    Dir,
    File,
    Other,
    Failed { source: Seq<char> },
}

/// The content of a `WalkEntry`.
pub struct EntryView {
    pub path: Seq<char>,
    pub kind: KindView,
}

impl View for WalkEntry {
    type V = EntryView;

    open spec fn view(&self) -> EntryView {
        EntryView {
            path: self.path@,
            kind: match self.kind {
                EntryKind::Dir => KindView::Dir,
                EntryKind::File => KindView::File,
                EntryKind::Other => KindView::Other,
                EntryKind::Failed { source } => KindView::Failed { source: source@ },
            },
        }
    }
}

pub open spec fn entry_views(entries: Seq<WalkEntry>) -> Seq<EntryView> {
    entries.map_values(|e: WalkEntry| e@)
}

/// What has to be read next.
#[derive(Debug)]
pub enum WalkStep {
    ReadDir { path: String },
    ReadFile { path: String },
    Done,
}

/// The content of a `WalkStep`.
pub enum WalkStepView {
    ReadDir { path: Seq<char> },
    ReadFile { path: Seq<char> },
    Done,
}

impl View for WalkStep {
    type V = WalkStepView;

    open spec fn view(&self) -> WalkStepView {
        match self {
            WalkStep::ReadDir { path } => WalkStepView::ReadDir { path: path@ },
            WalkStep::ReadFile { path } => WalkStepView::ReadFile { path: path@ },
            WalkStep::Done => WalkStepView::Done,
        }
    }
}

/// What a search has still to meet.
#[derive(Debug)]
pub struct Walk {
    /// The last of these comes next.
    rest: Vec<WalkEntry>,
}

impl View for Walk {
    type V = Seq<EntryView>;

    closed spec fn view(&self) -> Seq<EntryView> {
        entry_views(self.rest@).reverse()
    }
}

/// What is left from the first directory, file or failure on.
pub open spec fn from_next(rest: Seq<EntryView>) -> Seq<EntryView>
    decreases rest.len(),
{
    if rest.len() > 0 && rest[0].kind is Other {
        from_next(rest.drop_first())
    } else {
        rest
    }
}

/// What has to be read next, and what is left behind it. A search that is full, or that has
/// met everything, is done; one that meets a failure ends with it.
pub open spec fn next_step(rest: Seq<EntryView>, full: bool) -> Result<
    (WalkStepView, Seq<EntryView>),
    ToolErrorView,
> {
    let left = from_next(rest);
    if full || left.len() == 0 {
        Ok((WalkStepView::Done, seq![]))
    } else {
        match left[0].kind {
            KindView::Dir => Ok(
                (WalkStepView::ReadDir { path: left[0].path }, left.drop_first()),
            ),
            KindView::Failed { source } => Err(ToolErrorView::Io { path: left[0].path, source }),
            _ => Ok((WalkStepView::ReadFile { path: left[0].path }, left.drop_first())),
        }
    }
}

impl Walk {
    /// A search that starts with a directory.
    pub fn new(dir: &str) -> (r: Walk)
        ensures
            r@ == seq![EntryView { path: dir@, kind: KindView::Dir }],
    {
        let mut rest: Vec<WalkEntry> = Vec::new();
        rest.push(WalkEntry { path: dir.to_string(), kind: EntryKind::Dir });
        let r = Walk { rest };
        assert(r@ =~= seq![EntryView { path: dir@, kind: KindView::Dir }]);
        r
    }

    /// What has to be read next, by a search that may be full.
    pub fn next(&mut self, full: bool) -> (r: Result<WalkStep, ToolError>)
        ensures
            match r {
                Ok(step) => next_step(old(self)@, full) == Ok::<
                    (WalkStepView, Seq<EntryView>),
                    ToolErrorView,
                >((step@, final(self)@)),
                Err(e) => next_step(old(self)@, full) == Err::<
                    (WalkStepView, Seq<EntryView>),
                    ToolErrorView,
                >(e@),
            },
    {
        let ghost before = self@;
        if full {
            self.rest = Vec::new();
            assert(self@ =~= seq![]);
            return Ok(WalkStep::Done);
        }
        while self.rest.len() > 0
            invariant
                from_next(before) == from_next(self@),
                before == old(self)@,
                !full,
            decreases self.rest@.len(),
        {
            let ghost rest = self@;
            let ghost stack = self.rest@;
            let entry = match self.rest.pop() {
                Some(entry) => entry,
                None => {
                    return Ok(WalkStep::Done);
                },
            };
            proof {
                assert(entry_views(stack).last() == entry@);
                assert(rest[0] == entry@);
                assert(self@ =~= rest.drop_first());
            }
            match entry.kind {
                EntryKind::Dir => {
                    return Ok(WalkStep::ReadDir { path: entry.path });
                },
                EntryKind::File => {
                    return Ok(WalkStep::ReadFile { path: entry.path });
                },
                EntryKind::Failed { source } => {
                    return Err(ToolError::io(entry.path.as_str(), source.as_str()));
                },
                EntryKind::Other => {},
            }
        }
        assert(self@ =~= seq![]);
        Ok(WalkStep::Done)
    }

    /// A directory has been read: its entries come before what is left.
    pub fn enter(&mut self, entries: Vec<WalkEntry>)
        ensures
            final(self)@ == entry_views(entries@) + old(self)@,
    {
        let ghost all = entry_views(entries@);
        let ghost before = self@;
        let mut entries = entries;
        while entries.len() > 0
            invariant
                entry_views(entries@) + self@ == all + before,
            decreases entries@.len(),
        {
            let ghost left = entries@;
            let ghost stack = self@;
            match entries.pop() {
                Some(entry) => {
                    let ghost e = entry@;
                    self.rest.push(entry);
                    assert(self@ =~= seq![e] + stack);
                    assert(entry_views(left) =~= entry_views(entries@).push(e));
                    assert(entry_views(entries@) + self@ =~= entry_views(left) + stack);
                },
                None => {},
            }
        }
        assert(entry_views(entries@) + self@ =~= self@);
    }
}

// ---------------------------------------------------------------------------
// Searches
// ---------------------------------------------------------------------------

/// A search for lines.
#[derive(Debug)]
pub struct GrepSearch {
    pub root: String,
    pub pattern: String,
    pub limit: usize,
    pub walk: Walk,
    pub found: GrepState,
}

impl GrepSearch {
    /// A search for lines with the pattern in all files of the workspace.
    pub fn new(root: &str, pattern: &str, limit: usize) -> (r: GrepSearch)
        ensures
            r.root@ == root@,
            r.pattern@ == pattern@,
            r.limit == limit,
            r.walk@ == seq![EntryView { path: root@, kind: KindView::Dir }],
            r.found@ == (GrepView { output: seq![], matches: 0 }),
    {
        let found = GrepState { output: String::new(), matches: 0 };
        assert(found@.output =~= seq![]);
        GrepSearch {
            root: root.to_string(),
            pattern: pattern.to_string(),
            limit,
            walk: Walk::new(root),
            found,
        }
    }

    /// What has to be read next.
    pub fn next(&mut self) -> (r: Result<WalkStep, ToolError>)
        ensures
            final(self).root == old(self).root,
            final(self).pattern == old(self).pattern,
            final(self).limit == old(self).limit,
            final(self).found == old(self).found,
            match r {
                Ok(step) => next_step(
                    old(self).walk@,
                    old(self).found.matches >= old(self).limit,
                ) == Ok::<(WalkStepView, Seq<EntryView>), ToolErrorView>(
                    (step@, final(self).walk@),
                ),
                Err(e) => next_step(old(self).walk@, old(self).found.matches >= old(self).limit)
                    == Err::<(WalkStepView, Seq<EntryView>), ToolErrorView>(e@),
            },
    {
        let full = files::grep_is_full(&self.found, self.limit);
        self.walk.next(full)
    }

    /// A file has been read; one that holds no text is passed over.
    pub fn read(self, path: &str, content: Option<&str>) -> (r: GrepSearch)
        requires
            content matches Some(c) ==> self.found.matches + text::lines(c@).len() <= usize::MAX,
        ensures
            r.root == self.root,
            r.pattern == self.pattern,
            r.limit == self.limit,
            r.walk == self.walk,
            r.found@ == match content {
                Some(c) => files::file_grepped(
                    self.found@,
                    paths::shown(self.root@, path@),
                    c@,
                    self.pattern@,
                    self.limit as nat,
                ),
                None => self.found@,
            },
    {
        match content {
            Some(c) => {
                let shown = paths::relative_path(self.root.as_str(), path);
                let found = files::grep_file(
                    self.found,
                    shown.as_str(),
                    c,
                    self.pattern.as_str(),
                    self.limit,
                );
                GrepSearch { found, ..self }
            },
            None => self,
        }
    }
}

/// A search by name.
#[derive(Debug)]
pub struct GlobSearch {
    pub root: String,
    pub pattern: String,
    pub walk: Walk,
    pub found: Vec<String>,
}

impl GlobSearch {
    /// A search for files with names that match the pattern, below a directory.
    pub fn new(root: &str, search_root: &str, pattern: &str) -> (r: GlobSearch)
        ensures
            r.root@ == root@,
            r.pattern@ == pattern@,
            r.walk@ == seq![EntryView { path: search_root@, kind: KindView::Dir }],
            r.found@.len() == 0,
    {
        GlobSearch {
            root: root.to_string(),
            pattern: pattern.to_string(),
            walk: Walk::new(search_root),
            found: Vec::new(),
        }
    }

    /// What has to be done next. Files are not read, but noted by `met`.
    pub fn next(&mut self) -> (r: Result<WalkStep, ToolError>)
        ensures
            final(self).root == old(self).root,
            final(self).pattern == old(self).pattern,
            final(self).found == old(self).found,
            match r {
                Ok(step) => next_step(
                    old(self).walk@,
                    old(self).found@.len() >= DEFAULT_GLOB_MATCH_LIMIT,
                ) == Ok::<(WalkStepView, Seq<EntryView>), ToolErrorView>(
                    (step@, final(self).walk@),
                ),
                Err(e) => next_step(
                    old(self).walk@,
                    old(self).found@.len() >= DEFAULT_GLOB_MATCH_LIMIT,
                ) == Err::<(WalkStepView, Seq<EntryView>), ToolErrorView>(e@),
            },
    {
        let full = files::glob_is_full(&self.found);
        self.walk.next(full)
    }

    /// A file has been met.
    pub fn met(&mut self, path: &str)
        ensures
            final(self).root == old(self).root,
            final(self).pattern == old(self).pattern,
            final(self).walk == old(self).walk,
            text::views(final(self).found@) == files::globbed(
                text::views(old(self).found@),
                old(self).root@,
                path@,
                old(self).pattern@,
            ),
    {
        files::glob_file(&mut self.found, self.root.as_str(), path, self.pattern.as_str());
    }
}

// ---------------------------------------------------------------------------
// Laws
// ---------------------------------------------------------------------------

/// The files and failures below entries, given what each directory holds, in the order in
/// which a search meets them; directories are entered up to the given depth.
pub open spec fn met_below(
    entries: Seq<EntryView>,
    holds: spec_fn(Seq<char>) -> Seq<EntryView>,
    depth: nat,
) -> Seq<EntryView>
    decreases depth, entries.len(),
{
    if entries.len() == 0 {
        seq![]
    } else {
        let first = entries[0];
        let rest = met_below(entries.drop_first(), holds, depth);
        match first.kind {
            KindView::Other => rest,
            KindView::Dir => if depth == 0 {
                rest
            } else {
                met_below(holds(first.path), holds, (depth - 1) as nat) + rest
            },
            _ => seq![first] + rest,
        }
    }
}

/// What a search meets below the entries in front of others, it meets before what it meets
/// below those.
pub proof fn entries_are_met_in_turn(
    first: Seq<EntryView>,
    others: Seq<EntryView>,
    holds: spec_fn(Seq<char>) -> Seq<EntryView>,
    depth: nat,
)
    ensures
        met_below(first + others, holds, depth) == met_below(first, holds, depth) + met_below(
            others,
            holds,
            depth,
        ),
    decreases first.len(),
{
    if first.len() == 0 {
        assert(first + others =~= others);
        assert(met_below(first, holds, depth) + met_below(others, holds, depth) =~= met_below(
            others,
            holds,
            depth,
        ));
    } else {
        entries_are_met_in_turn(first.drop_first(), others, holds, depth);
        assert((first + others).drop_first() =~= first.drop_first() + others);
        assert((first + others)[0] == first[0]);
        let head = met_below(first.drop_first(), holds, depth);
        let tail = met_below(others, holds, depth);
        assert(seq![first[0]] + (head + tail) =~= (seq![first[0]] + head) + tail);
        if depth > 0 {
            let inner = met_below(holds(first[0].path), holds, (depth - 1) as nat);
            assert(inner + (head + tail) =~= (inner + head) + tail);
        }
    }
}

/// A search that is not full reads the next file that is to be met, or enters the directory
/// in which it lies; nothing that is to be met is passed over.
pub proof fn a_search_passes_nothing_over(
    rest: Seq<EntryView>,
    holds: spec_fn(Seq<char>) -> Seq<EntryView>,
    depth: nat,
)
    ensures
        match next_step(rest, false) {
            Ok((WalkStepView::Done, _)) => met_below(rest, holds, depth) == Seq::<
                EntryView,
            >::empty(),
            Ok((WalkStepView::ReadFile { path }, left)) => met_below(rest, holds, depth) == seq![
                EntryView { path, kind: KindView::File },
            ] + met_below(left, holds, depth),
            Ok((WalkStepView::ReadDir { path }, left)) => depth > 0 ==> met_below(
                rest,
                holds,
                depth,
            ) == met_below(holds(path), holds, (depth - 1) as nat) + met_below(left, holds, depth),
            Err(_) => met_below(rest, holds, depth).len() > 0 && met_below(
                rest,
                holds,
                depth,
            )[0].kind is Failed,
        },
    decreases rest.len(),
{
    if rest.len() > 0 && rest[0].kind is Other {
        a_search_passes_nothing_over(rest.drop_first(), holds, depth);
    }
}

} // verus!
