//! Which file a path of a tool call means. Paths are texts with `/` between their parts.
//! The questions that only the file system can answer are asked one at a time.
use vstd::prelude::*;
use vstd::slice::slice_subrange;

use crate::text;
use crate::text::CharClass;
use crate::tools::error::{ToolError, ToolErrorView};

verus! {

// ---------------------------------------------------------------------------
// Paths
// ---------------------------------------------------------------------------

pub open spec fn is_absolute(path: Seq<char>) -> bool {
    path.len() > 0 && path[0] == '/'
}

/// The names and `..` parts of a path, without the parts that mean the directory itself.
pub open spec fn parts(path: Seq<char>) -> Seq<Seq<char>> {
    named(text::split(path, CharClass::Just('/')))
}

pub open spec fn named(pieces: Seq<Seq<char>>) -> Seq<Seq<char>>
    decreases pieces.len(),
{
    if pieces.len() == 0 {
        seq![]
    } else {
        let before = named(pieces.drop_last());
        if pieces.last().len() == 0 || pieces.last() == "."@ {
            before
        } else {
            before.push(pieces.last())
        }
    }
}

/// Whether the absolute path `path` is `root` or lies below it, part by part.
pub open spec fn inside(root: Seq<char>, path: Seq<char>) -> bool {
    &&& is_absolute(root) == is_absolute(path)
    &&& parts(root).is_prefix_of(parts(path))
}

/// A relative path behind a directory.
pub open spec fn joined(dir: Seq<char>, path: Seq<char>) -> Seq<char> {
    if is_absolute(path) {
        path
    } else if dir.len() == 0 || dir.last() == '/' {
        dir + path
    } else {
        dir + "/"@ + path
    }
}

/// The parts with each `..` taken off together with the part before it; nothing if a `..`
/// has no part before it.
pub open spec fn normalized(ps: Seq<Seq<char>>) -> Option<Seq<Seq<char>>>
    decreases ps.len(),
{
    if ps.len() == 0 {
        Some(seq![])
    } else {
        match normalized(ps.drop_last()) {
            None => None,
            Some(before) => if ps.last() != ".."@ {
                Some(before.push(ps.last()))
            } else if before.len() > 0 {
                Some(before.drop_last())
            } else {
                None
            },
        }
    }
}

/// A path without what follows its last part: separators and parts that mean the
/// directory itself.
pub open spec fn tail_trimmed(path: Seq<char>) -> Seq<char>
    decreases path.len(),
{
    if path.len() > 1 && path.last() == '/' {
        tail_trimmed(path.drop_last())
    } else if path.len() > 1 && path.last() == '.' && path[path.len() - 2] == '/' {
        tail_trimmed(path.drop_last())
    } else {
        path
    }
}

/// The length of a path up to and with its last separator.
pub open spec fn dir_len(path: Seq<char>) -> int
    decreases path.len(),
{
    if path.len() == 0 || path.last() == '/' {
        path.len() as int
    } else {
        dir_len(path.drop_last())
    }
}

/// The directory that a path lies in; the root and the empty path lie in none.
pub open spec fn parent(path: Seq<char>) -> Option<Seq<char>> {
    let t = tail_trimmed(path);
    if t.len() == 0 || t == "/"@ {
        None
    } else {
        Some(tail_trimmed(t.take(dir_len(t))))
    }
}

/// The last part of a path, if it is a name.
pub open spec fn file_name(path: Seq<char>) -> Option<Seq<char>> {
    let t = tail_trimmed(path);
    let name = t.skip(dir_len(t));
    if name.len() == 0 || name == "."@ || name == ".."@ {
        None
    } else {
        Some(name)
    }
}

/// A path as it is shown: relative to the workspace where it lies inside it.
pub open spec fn shown(root: Seq<char>, path: Seq<char>) -> Seq<char> {
    if inside(root, path) {
        text::join(parts(path).skip(parts(root).len() as int), "/"@)
    } else {
        path
    }
}

fn starts_at_root(path: &str) -> (r: bool)
    ensures
        r == is_absolute(path@),
{
    let cs = text::chars_of(path);
    cs.len() > 0 && cs[0] == '/'
}

/// The parts of the path.
pub fn parts_of(path: &str) -> (out: Vec<String>)
    ensures
        text::views(out@) == parts(path@),
{
    let pieces = text::split_class(path, CharClass::Just('/'));
    let ghost all = text::views(pieces@);
    let mut out: Vec<String> = Vec::new();
    let mut i: usize = 0;
    assert(text::views(out@) =~= named(all.take(0)));
    while i < pieces.len()
        invariant
            i <= pieces@.len(),
            all == text::views(pieces@),
            text::views(out@) == named(all.take(i as int)),
        decreases pieces@.len() - i,
    {
        assert(all.take(i + 1).drop_last() =~= all.take(i as int));
        assert(all.take(i + 1).last() == pieces@[i as int]@);
        if !text::is_blank_len(&pieces[i]) && !text::same(pieces[i].as_str(), ".") {
            let ghost before = out@;
            out.push(pieces[i].clone());
            assert(text::views(out@) =~= text::views(before).push(pieces@[i as int]@));
        }
        i += 1;
    }
    assert(all.take(i as int) =~= all);
    out
}

/// Whether the path is the root or lies below it.
pub fn is_inside(root: &str, path: &str) -> (r: bool)
    ensures
        r == inside(root@, path@),
{
    if starts_at_root(root) != starts_at_root(path) {
        return false;
    }
    let a = parts_of(root);
    let b = parts_of(path);
    let ghost x = parts(root@);
    let ghost y = parts(path@);
    if a.len() > b.len() {
        return false;
    }
    let mut i: usize = 0;
    while i < a.len()
        invariant
            i <= a@.len(),
            a@.len() <= b@.len(),
            x == text::views(a@),
            y == text::views(b@),
            x == parts(root@),
            y == parts(path@),
            forall|k: int| 0 <= k < i ==> #[trigger] x[k] == y[k],
        decreases a@.len() - i,
    {
        if !text::same(a[i].as_str(), b[i].as_str()) {
            assert(x[i as int] != y[i as int]);
            assert(y.subrange(0, x.len() as int)[i as int] == y[i as int]);
            return false;
        }
        i += 1;
    }
    assert(y.subrange(0, x.len() as int) =~= x);
    true
}

/// The path behind the directory.
pub fn join_path(dir: &str, path: &str) -> (r: String)
    ensures
        r@ == joined(dir@, path@),
{
    if starts_at_root(path) {
        return path.to_string();
    }
    let cs = text::chars_of(dir);
    if cs.len() == 0 || cs[cs.len() - 1] == '/' {
        text::cat2(dir, path)
    } else {
        text::cat3(dir, "/", path)
    }
}

fn normalize(ps: &Vec<String>) -> (r: Option<Vec<String>>)
    ensures
        match r {
            Some(out) => normalized(text::views(ps@)) == Some(text::views(out@)),
            None => normalized(text::views(ps@)) is None,
        },
{
    let ghost all = text::views(ps@);
    let mut out: Vec<String> = Vec::new();
    let mut i: usize = 0;
    assert(text::views(out@) =~= seq![]);
    while i < ps.len()
        invariant
            i <= ps@.len(),
            all == text::views(ps@),
            normalized(all.take(i as int)) == Some(text::views(out@)),
        decreases ps@.len() - i,
    {
        assert(all.take(i + 1).drop_last() =~= all.take(i as int));
        assert(all.take(i + 1).last() == ps@[i as int]@);
        let ghost before = text::views(out@);
        if !text::same(ps[i].as_str(), "..") {
            out.push(ps[i].clone());
            assert(text::views(out@) =~= before.push(ps@[i as int]@));
        } else if out.len() > 0 {
            out.pop();
            assert(text::views(out@) =~= before.drop_last());
        } else {
            proof {
                lemma_not_normalized(all, i + 1);
            }
            return None;
        }
        i += 1;
    }
    assert(all.take(i as int) =~= all);
    Some(out)
}

proof fn lemma_not_normalized(ps: Seq<Seq<char>>, n: int)
    requires
        0 <= n <= ps.len(),
        normalized(ps.take(n)) is None,
    ensures
        normalized(ps) is None,
    decreases ps.len() - n,
{
    if n == ps.len() {
        assert(ps.take(n) =~= ps);
    } else {
        assert(ps.take(n + 1).drop_last() =~= ps.take(n));
        lemma_not_normalized(ps, n + 1);
    }
}

fn trim_tail(cs: &Vec<char>) -> (n: usize)
    ensures
        n <= cs@.len(),
        cs@.take(n as int) == tail_trimmed(cs@),
{
    let mut n: usize = cs.len();
    assert(cs@.take(n as int) =~= cs@);
    while n > 1 && (cs[n - 1] == '/' || (cs[n - 1] == '.' && cs[n - 2] == '/'))
        invariant
            n <= cs@.len(),
            tail_trimmed(cs@) == tail_trimmed(cs@.take(n as int)),
        decreases n,
    {
        assert(cs@.take(n as int).drop_last() =~= cs@.take(n - 1));
        n -= 1;
    }
    n
}

fn last_separator(cs: &Vec<char>, len: usize) -> (n: usize)
    requires
        len <= cs@.len(),
    ensures
        n <= len,
        n == dir_len(cs@.take(len as int)),
{
    let mut n: usize = len;
    while n > 0 && cs[n - 1] != '/'
        invariant
            n <= len <= cs@.len(),
            dir_len(cs@.take(len as int)) == dir_len(cs@.take(n as int)),
        decreases n,
    {
        assert(cs@.take(n as int).drop_last() =~= cs@.take(n - 1));
        n -= 1;
    }
    n
}

/// The directory that the path lies in.
pub fn parent_of(path: &str) -> (r: Option<String>)
    ensures
        match r {
            Some(p) => parent(path@) == Some(p@),
            None => parent(path@) is None,
        },
{
    proof {
        reveal_strlit("/");
    }
    let cs = text::chars_of(path);
    let n: usize = trim_tail(&cs);
    let ghost t = cs@.take(n as int);
    if n == 0 || (n == 1 && cs[0] == '/') {
        assert(n == 1 ==> t =~= "/"@);
        return None;
    }
    assert(t != "/"@) by {
        if t == "/"@ {
            assert(t.len() == 1 && t[0] == '/');
        }
    }
    let d: usize = last_separator(&cs, n);
    let mut dir: Vec<char> = Vec::new();
    let mut i: usize = 0;
    while i < d
        invariant
            i <= d <= cs@.len(),
            dir@ == cs@.take(i as int),
        decreases d - i,
    {
        dir.push(cs[i]);
        i += 1;
        assert(cs@.take(i as int) =~= cs@.take(i - 1).push(cs@[i - 1]));
    }
    assert(t.take(d as int) =~= cs@.take(d as int));
    let m: usize = trim_tail(&dir);
    let r = text::string_of(slice_subrange(dir.as_slice(), 0, m));
    assert(r@ =~= dir@.take(m as int));
    Some(r)
}

/// The last part of the path, if it is a name.
pub fn file_name_of(path: &str) -> (r: Option<String>)
    ensures
        match r {
            Some(p) => file_name(path@) == Some(p@),
            None => file_name(path@) is None,
        },
{
    let cs = text::chars_of(path);
    let n: usize = trim_tail(&cs);
    let ghost t = cs@.take(n as int);
    let d: usize = last_separator(&cs, n);
    let name = text::string_of(slice_subrange(cs.as_slice(), d, n));
    assert(name@ =~= t.skip(d as int));
    if text::is_blank_len(&name) || text::same(name.as_str(), ".") || text::same(
        name.as_str(),
        "..",
    ) {
        None
    } else {
        Some(name)
    }
}

/// The path as it is shown: relative to the workspace where it lies inside it.
pub fn relative_path(root: &str, path: &str) -> (r: String)
    ensures
        r@ == shown(root@, path@),
{
    if !is_inside(root, path) {
        return path.to_string();
    }
    let a = parts_of(root);
    let b = parts_of(path);
    let ghost y = parts(path@);
    let n: usize = a.len();
    let mut rest: Vec<String> = Vec::new();
    let mut i: usize = n;
    assert(text::views(rest@) =~= y.subrange(n as int, i as int));
    assert(n <= b@.len()) by {
        assert(parts(root@).is_prefix_of(y));
        assert(text::views(a@).len() == a@.len());
        assert(text::views(b@).len() == b@.len());
    }
    while i < b.len()
        invariant
            n <= i <= b@.len(),
            y == text::views(b@),
            text::views(rest@) == y.subrange(n as int, i as int),
        decreases b@.len() - i,
    {
        let ghost before = rest@;
        rest.push(b[i].clone());
        assert(text::views(rest@) =~= text::views(before).push(b@[i as int]@));
        assert(y.subrange(n as int, i + 1) =~= y.subrange(n as int, i as int).push(y[i as int]));
        i += 1;
    }
    assert(y.subrange(n as int, i as int) =~= y.skip(n as int));
    assert(n == parts(root@).len()) by {
        assert(text::views(a@).len() == a@.len());
    }
    text::join_strings(rest.as_slice(), "/")
}

// ---------------------------------------------------------------------------
// Resolving
// ---------------------------------------------------------------------------

pub open spec fn escapes(root: Seq<char>, input: Seq<char>) -> ToolErrorView {
    ToolErrorView::PathEscapesWorkspace { path: input, workspace_root: root }
}

/// The file in the workspace that a relative path means.
pub open spec fn workspace_target(root: Seq<char>, input: Seq<char>) -> Result<
    Seq<char>,
    ToolErrorView,
> {
    match normalized(parts(input)) {
        Some(ps) => Ok(joined(root, text::join(ps, "/"@))),
        None => Err(escapes(root, input)),
    }
}

/// The file in the workspace that the relative path means.
pub fn resolve_workspace_relative_path(root: &str, input: &str) -> (r: Result<String, ToolError>)
    ensures
        match r {
            Ok(p) => workspace_target(root@, input@) == Ok::<Seq<char>, ToolErrorView>(p@),
            Err(e) => workspace_target(root@, input@) == Err::<Seq<char>, ToolErrorView>(e@),
        },
{
    let ps = parts_of(input);
    match normalize(&ps) {
        Some(kept) => Ok(join_path(root, text::join_strings(kept.as_slice(), "/").as_str())),
        None => Err(
            ToolError::PathEscapesWorkspace {
                path: input.to_string(),
                workspace_root: root.to_string(),
            },
        ),
    }
}

/// A call that asks which file a path means.
#[derive(Debug)]
pub struct PathRequest {
    pub workspace_root: String,
    /// Whether paths may lead outside the workspace.
    pub allow_outside: bool,
    pub input: String,
    /// Whether the file is to be written, so that it need not exist.
    pub write: bool,
}

/// The content of a `PathRequest`.
pub struct PathRequestView {
    pub workspace_root: Seq<char>,
    pub allow_outside: bool,
    pub input: Seq<char>,
    pub write: bool,
}

impl View for PathRequest {
    type V = PathRequestView;

    open spec fn view(&self) -> PathRequestView {
        PathRequestView {
            workspace_root: self.workspace_root@,
            allow_outside: self.allow_outside,
            input: self.input@,
            write: self.write,
        }
    }
}

/// What has to be asked of the file system next, and what the answer is for.
#[derive(Debug)]
pub enum PathStep {
    /// Whether the absolute input exists.
    AnchorExists { write: bool },
    /// The canonical form of the input, or of its directory where it does not exist.
    Anchor { write: bool, path: String },
    /// The canonical form of a path that exists.
    Existing { path: String },
    /// Whether the file that is to be written exists.
    TargetExists { path: String },
    /// That the directory of the file that is to be written is there.
    CreateParent { path: String, parent: String },
    /// The canonical form of that directory.
    Parent { path: String, parent: String },
    /// Nothing: this is the file.
    Done { path: String },
}

/// The content of a `PathStep`.
pub enum PathStepView {
    AnchorExists { write: bool },
    Anchor { write: bool, path: Seq<char> },
    Existing { path: Seq<char> },
    TargetExists { path: Seq<char> },
    CreateParent { path: Seq<char>, parent: Seq<char> },
    Parent { path: Seq<char>, parent: Seq<char> },
    Done { path: Seq<char> },
}

impl View for PathStep {
    type V = PathStepView;

    open spec fn view(&self) -> PathStepView {
        match self {
            PathStep::AnchorExists { write } => PathStepView::AnchorExists { write: *write },
            PathStep::Anchor { write, path } => PathStepView::Anchor {
                write: *write,
                path: path@,
            },
            PathStep::Existing { path } => PathStepView::Existing { path: path@ },
            PathStep::TargetExists { path } => PathStepView::TargetExists { path: path@ },
            PathStep::CreateParent { path, parent } => PathStepView::CreateParent {
                path: path@,
                parent: parent@,
            },
            PathStep::Parent { path, parent } => PathStepView::Parent {
                path: path@,
                parent: parent@,
            },
            PathStep::Done { path } => PathStepView::Done { path: path@ },
        }
    }
}

/// What the file system answers.
#[derive(Debug)]
pub enum PathAnswer {
    Exists(bool),
    Canonical(String),
    Created,
    Failed(String),
}

/// The content of a `PathAnswer`.
pub enum PathAnswerView {
    Exists(bool),
    Canonical(Seq<char>),
    Created,
    Failed(Seq<char>),
}

impl View for PathAnswer {
    type V = PathAnswerView;

    open spec fn view(&self) -> PathAnswerView {
        match self {
            PathAnswer::Exists(b) => PathAnswerView::Exists(*b),
            PathAnswer::Canonical(p) => PathAnswerView::Canonical(p@),
            PathAnswer::Created => PathAnswerView::Created,
            PathAnswer::Failed(e) => PathAnswerView::Failed(e@),
        }
    }
}

/// The step that follows once the file in the workspace that is meant is known.
pub open spec fn targeted(write: bool, path: Seq<char>) -> PathStepView {
    if write {
        PathStepView::TargetExists { path }
    } else {
        PathStepView::Existing { path }
    }
}

/// The first step for a path that must lie in the workspace.
pub open spec fn first_confined(root: Seq<char>, input: Seq<char>, write: bool) -> Result<
    PathStepView,
    ToolErrorView,
> {
    if is_absolute(input) {
        Ok(PathStepView::AnchorExists { write })
    } else {
        match workspace_target(root, input) {
            Ok(path) => Ok(targeted(write, path)),
            Err(e) => Err(e),
        }
    }
}

/// The first step of resolving a path.
pub open spec fn first_step(req: PathRequestView) -> Result<PathStepView, ToolErrorView> {
    if req.allow_outside {
        Ok(targeted(req.write, joined(req.workspace_root, req.input)))
    } else {
        first_confined(req.workspace_root, req.input, req.write)
    }
}

/// Whether an answer fits the question that a step asks.
pub open spec fn answers(step: PathStepView, answer: PathAnswerView) -> bool {
    match step {
        PathStepView::AnchorExists { .. } | PathStepView::TargetExists { .. } => answer is Exists,
        PathStepView::Anchor { .. } | PathStepView::Existing { .. } | PathStepView::Parent {
            ..
        } => answer is Canonical || answer is Failed,
        PathStepView::CreateParent { .. } => answer is Created || answer is Failed,
        PathStepView::Done { .. } => false,
    }
}

pub open spec fn with_parent(input: Seq<char>, path: Seq<char>) -> Result<
    PathStepView,
    ToolErrorView,
> {
    match parent(path) {
        Some(dir) => Ok(PathStepView::CreateParent { path, parent: dir }),
        None => Err(ToolErrorView::InvalidPath { path: input }),
    }
}

/// The step that follows an answer.
pub open spec fn next_step(
    req: PathRequestView,
    step: PathStepView,
    answer: PathAnswerView,
) -> Result<PathStepView, ToolErrorView> {
    match (step, answer) {
        (PathStepView::AnchorExists { write }, PathAnswerView::Exists(exists)) => if exists {
            Ok(PathStepView::Anchor { write, path: req.input })
        } else {
            match parent(req.input) {
                Some(dir) => Ok(PathStepView::Anchor { write, path: dir }),
                None => Err(ToolErrorView::InvalidPath { path: req.input }),
            }
        },
        (
            PathStepView::Anchor { write, path },
            PathAnswerView::Canonical(canonical),
        ) => if inside(req.workspace_root, canonical) {
            Ok(targeted(write, req.input))
        } else {
            Err(ToolErrorView::AbsolutePath { path: req.input })
        },
        (
            PathStepView::Existing { path },
            PathAnswerView::Canonical(canonical),
        ) => if req.allow_outside || inside(req.workspace_root, canonical) {
            Ok(PathStepView::Done { path: canonical })
        } else {
            Err(escapes(req.workspace_root, req.input))
        },
        (PathStepView::TargetExists { path }, PathAnswerView::Exists(exists)) => if exists {
            if req.allow_outside {
                Ok(PathStepView::Existing { path })
            } else {
                first_confined(req.workspace_root, req.input, false)
            }
        } else {
            with_parent(req.input, path)
        },
        (PathStepView::CreateParent { path, parent }, PathAnswerView::Created) => Ok(
            PathStepView::Parent { path, parent },
        ),
        (
            PathStepView::Parent { path, parent },
            PathAnswerView::Canonical(canonical),
        ) => if req.allow_outside {
            match file_name(path) {
                Some(name) => Ok(PathStepView::Done { path: joined(canonical, name) }),
                None => Err(ToolErrorView::InvalidPath { path: req.input }),
            }
        } else if inside(req.workspace_root, canonical) {
            Ok(PathStepView::Done { path })
        } else {
            Err(escapes(req.workspace_root, req.input))
        },
        (PathStepView::Anchor { path, .. }, PathAnswerView::Failed(source)) => Err(
            ToolErrorView::Io { path, source },
        ),
        (PathStepView::Existing { path }, PathAnswerView::Failed(source)) => Err(
            ToolErrorView::Io { path, source },
        ),
        (PathStepView::CreateParent { parent, .. }, PathAnswerView::Failed(source)) => Err(
            ToolErrorView::Io { path: parent, source },
        ),
        (PathStepView::Parent { parent, .. }, PathAnswerView::Failed(source)) => Err(
            ToolErrorView::Io { path: parent, source },
        ),
        _ => Ok(step),
    }
}

pub open spec fn step_result(r: Result<PathStep, ToolError>) -> Result<
    PathStepView,
    ToolErrorView,
> {
    match r {
        Ok(step) => Ok(step@),
        Err(e) => Err(e@),
    }
}

fn target(write: bool, path: String) -> (r: PathStep)
    ensures
        r@ == targeted(write, path@),
{
    if write {
        PathStep::TargetExists { path }
    } else {
        PathStep::Existing { path }
    }
}

fn start_confined(root: &str, input: &str, write: bool) -> (r: Result<PathStep, ToolError>)
    ensures
        step_result(r) == first_confined(root@, input@, write),
{
    if starts_at_root(input) {
        return Ok(PathStep::AnchorExists { write });
    }
    match resolve_workspace_relative_path(root, input) {
        Ok(path) => Ok(target(write, path)),
        Err(e) => Err(e),
    }
}

fn invalid_path(input: &str) -> (r: ToolError)
    ensures
        r@ == (ToolErrorView::InvalidPath { path: input@ }),
{
    ToolError::InvalidPath { path: input.to_string() }
}

impl PathRequest {
    fn escape_error(&self) -> (r: ToolError)
        ensures
            r@ == escapes(self@.workspace_root, self@.input),
    {
        ToolError::PathEscapesWorkspace {
            path: self.input.clone(),
            workspace_root: self.workspace_root.clone(),
        }
    }

    /// The first question.
    pub fn start(&self) -> (r: Result<PathStep, ToolError>)
        ensures
            step_result(r) == first_step(self@),
    {
        if self.allow_outside {
            Ok(
                target(
                    self.write,
                    join_path(self.workspace_root.as_str(), self.input.as_str()),
                ),
            )
        } else {
            start_confined(self.workspace_root.as_str(), self.input.as_str(), self.write)
        }
    }

    /// The step that follows the answer to the question of `step`.
    pub fn advance(&self, step: PathStep, answer: PathAnswer) -> (r: Result<PathStep, ToolError>)
        requires
            answers(step@, answer@),
        ensures
            step_result(r) == next_step(self@, step@, answer@),
    {
        match (step, answer) {
            (PathStep::AnchorExists { write }, PathAnswer::Exists(exists)) => if exists {
                Ok(PathStep::Anchor { write, path: self.input.clone() })
            } else {
                match parent_of(self.input.as_str()) {
                    Some(dir) => Ok(PathStep::Anchor { write, path: dir }),
                    None => Err(invalid_path(self.input.as_str())),
                }
            },
            (PathStep::Anchor { write, path: _ }, PathAnswer::Canonical(canonical)) => if is_inside(
                self.workspace_root.as_str(),
                canonical.as_str(),
            ) {
                Ok(target(write, self.input.clone()))
            } else {
                Err(ToolError::AbsolutePath { path: self.input.clone() })
            },
            (PathStep::Existing { path: _ }, PathAnswer::Canonical(canonical)) => if self.allow_outside
                || is_inside(self.workspace_root.as_str(), canonical.as_str()) {
                Ok(PathStep::Done { path: canonical })
            } else {
                Err(self.escape_error())
            },
            (PathStep::TargetExists { path }, PathAnswer::Exists(exists)) => if exists {
                if self.allow_outside {
                    Ok(PathStep::Existing { path })
                } else {
                    start_confined(self.workspace_root.as_str(), self.input.as_str(), false)
                }
            } else {
                match parent_of(path.as_str()) {
                    Some(dir) => Ok(PathStep::CreateParent { path, parent: dir }),
                    None => Err(invalid_path(self.input.as_str())),
                }
            },
            (PathStep::CreateParent { path, parent }, PathAnswer::Created) => Ok(
                PathStep::Parent { path, parent },
            ),
            (PathStep::Parent { path, parent: _ }, PathAnswer::Canonical(canonical)) => if self.allow_outside {
                match file_name_of(path.as_str()) {
                    Some(name) => Ok(
                        PathStep::Done { path: join_path(canonical.as_str(), name.as_str()) },
                    ),
                    None => Err(invalid_path(self.input.as_str())),
                }
            } else if is_inside(self.workspace_root.as_str(), canonical.as_str()) {
                Ok(PathStep::Done { path })
            } else {
                Err(self.escape_error())
            },
            (PathStep::Anchor { write: _, path }, PathAnswer::Failed(source)) => Err(
                ToolError::Io { path, source },
            ),
            (PathStep::Existing { path }, PathAnswer::Failed(source)) => Err(
                ToolError::Io { path, source },
            ),
            (PathStep::CreateParent { path: _, parent }, PathAnswer::Failed(source)) => Err(
                ToolError::Io { path: parent, source },
            ),
            (PathStep::Parent { path: _, parent }, PathAnswer::Failed(source)) => Err(
                ToolError::Io { path: parent, source },
            ),
            (step, _) => Ok(step),
        }
    }
}

// ---------------------------------------------------------------------------
// Confinement
// ---------------------------------------------------------------------------

/// Whether a text can be a part of a path.
pub open spec fn is_part(p: Seq<char>) -> bool {
    p.len() > 0 && p != "."@ && !p.contains('/')
}

pub open spec fn are_parts(ps: Seq<Seq<char>>) -> bool {
    forall|i: int| 0 <= i < ps.len() ==> is_part(#[trigger] ps[i])
}

proof fn lemma_split_at_separator(a: Seq<char>, b: Seq<char>)
    ensures
        text::split(a.push('/') + b, CharClass::Just('/')) == text::split(
            a,
            CharClass::Just('/'),
        ) + text::split(b, CharClass::Just('/')),
    decreases b.len(),
{
    let k = CharClass::Just('/');
    let whole = a.push('/') + b;
    if b.len() == 0 {
        assert(whole =~= a.push('/'));
        assert(a.push('/').drop_last() =~= a);
        assert(text::split(a, k).push(Seq::empty()) =~= text::split(a, k) + seq![Seq::empty()]);
    } else {
        lemma_split_at_separator(a, b.drop_last());
        assert(whole.drop_last() =~= a.push('/') + b.drop_last());
        assert(whole.last() == b.last());
        text::lemma_split_nonempty(b.drop_last(), k);
        let x = text::split(a, k);
        let y = text::split(b.drop_last(), k);
        assert((x + y).last() == y.last());
        assert((x + y).drop_last() =~= x + y.drop_last());
        assert(text::split(whole, k) =~= x + text::split(b, k));
    }
}

proof fn lemma_split_single(p: Seq<char>)
    requires
        !p.contains('/'),
    ensures
        text::split(p, CharClass::Just('/')) == seq![p],
    decreases p.len(),
{
    if p.len() > 0 {
        assert(p[p.len() - 1] != '/');
        assert forall|i: int| 0 <= i < p.drop_last().len() implies p.drop_last()[i] != '/' by {
            assert(p[i] != '/');
        }
        lemma_split_single(p.drop_last());
        assert(p.drop_last().push(p.last()) =~= p);
        assert(text::split(p, CharClass::Just('/')) =~= seq![p]);
    } else {
        assert(p =~= Seq::empty());
    }
}

proof fn lemma_named_concat(x: Seq<Seq<char>>, y: Seq<Seq<char>>)
    ensures
        named(x + y) == named(x) + named(y),
    decreases y.len(),
{
    if y.len() == 0 {
        assert(x + y =~= x);
        assert(named(x) + named(y) =~= named(x));
    } else {
        lemma_named_concat(x, y.drop_last());
        assert((x + y).drop_last() =~= x + y.drop_last());
        assert((x + y).last() == y.last());
        assert(named(x + y) =~= named(x) + named(y));
    }
}

proof fn lemma_parts_behind(a: Seq<char>, b: Seq<char>)
    ensures
        parts(a.push('/') + b) == parts(a) + parts(b),
        parts(a.push('/')) == parts(a),
{
    lemma_split_at_separator(a, b);
    lemma_named_concat(
        text::split(a, CharClass::Just('/')),
        text::split(b, CharClass::Just('/')),
    );
    assert(a.push('/').drop_last() =~= a);
    let pieces = text::split(a, CharClass::Just('/')).push(Seq::empty());
    assert(pieces.drop_last() =~= text::split(a, CharClass::Just('/')));
}

proof fn lemma_parts_joined(ps: Seq<Seq<char>>)
    requires
        are_parts(ps),
    ensures
        parts(text::join(ps, "/"@)) == ps,
        !is_absolute(text::join(ps, "/"@)),
    decreases ps.len(),
{
    reveal_strlit("/");
    let t = text::join(ps, "/"@);
    if ps.len() == 0 {
        reveal_with_fuel(text::split, 2);
        reveal_with_fuel(named, 2);
        assert(seq![Seq::<char>::empty()].drop_last() =~= seq![]);
        assert(parts(t) =~= ps);
    } else if ps.len() == 1 {
        assert(is_part(ps[0]));
        lemma_split_single(ps[0]);
        reveal_with_fuel(named, 2);
        assert(seq![ps[0]].drop_last() =~= seq![]);
        assert(parts(t) =~= ps);
        assert(ps[0].contains(ps[0][0]));
    } else {
        let before = ps.drop_last();
        assert forall|i: int| 0 <= i < before.len() implies is_part(#[trigger] before[i]) by {
            assert(is_part(ps[i]));
        }
        lemma_parts_joined(before);
        assert(is_part(ps[ps.len() - 1]));
        let head = text::join(before, "/"@);
        let last = seq![ps.last()];
        assert(t =~= head.push('/') + ps.last());
        lemma_parts_behind(head, ps.last());
        lemma_split_single(ps.last());
        reveal_with_fuel(named, 2);
        assert(last.drop_last() =~= seq![]);
        assert(parts(ps.last()) =~= last);
        assert(before + last =~= ps);
        if head.len() == 0 {
            assert(head =~= seq![]);
            assert(parts(head) =~= seq![]) by {
                reveal_with_fuel(text::split, 2);
                assert(seq![Seq::<char>::empty()].drop_last() =~= seq![]);
            }
            assert(before.len() == 0);
        } else {
            assert(t[0] == head[0]);
        }
    }
}

proof fn lemma_split_has_no_separator(s: Seq<char>)
    ensures
        forall|i: int|
            0 <= i < text::split(s, CharClass::Just('/')).len() ==> !(#[trigger] text::split(
                s,
                CharClass::Just('/'),
            )[i]).contains('/'),
    decreases s.len(),
{
    let k = CharClass::Just('/');
    let out = text::split(s, k);
    if s.len() > 0 {
        lemma_split_has_no_separator(s.drop_last());
        text::lemma_split_nonempty(s.drop_last(), k);
        let before = text::split(s.drop_last(), k);
        assert forall|i: int| 0 <= i < out.len() implies !(#[trigger] out[i]).contains('/') by {
            if k.has(s.last()) {
                if i < before.len() {
                    assert(out[i] == before[i]);
                }
            } else if i < before.len() - 1 {
                assert(out[i] == before[i]);
            } else {
                let piece = before[before.len() - 1];
                assert(!piece.contains('/'));
                assert(out[i] == piece.push(s.last()));
                assert forall|j: int| 0 <= j < out[i].len() implies out[i][j] != '/' by {
                    if j < piece.len() {
                        assert(piece[j] != '/');
                    }
                }
            }
        }
    }
}

proof fn lemma_named_are_parts(pieces: Seq<Seq<char>>)
    requires
        forall|i: int| 0 <= i < pieces.len() ==> !(#[trigger] pieces[i]).contains('/'),
    ensures
        are_parts(named(pieces)),
    decreases pieces.len(),
{
    if pieces.len() > 0 {
        let before = pieces.drop_last();
        assert forall|i: int| 0 <= i < before.len() implies !(#[trigger] before[i]).contains(
            '/',
        ) by {
            assert(before[i] == pieces[i]);
        }
        lemma_named_are_parts(before);
        assert(!pieces[pieces.len() - 1].contains('/'));
    }
}

proof fn lemma_normalized(ps: Seq<Seq<char>>)
    requires
        are_parts(ps),
    ensures
        match normalized(ps) {
            Some(out) => are_parts(out) && forall|i: int|
                0 <= i < out.len() ==> #[trigger] out[i] != ".."@,
            None => true,
        },
    decreases ps.len(),
{
    if ps.len() > 0 {
        let before = ps.drop_last();
        assert forall|i: int| 0 <= i < before.len() implies is_part(#[trigger] before[i]) by {
            assert(is_part(ps[i]));
        }
        lemma_normalized(before);
        assert(is_part(ps[ps.len() - 1]));
        match normalized(before) {
            Some(b) => {
                if ps.last() != ".."@ {
                    assert forall|i: int| 0 <= i < b.push(ps.last()).len() implies is_part(
                        #[trigger] b.push(ps.last())[i],
                    ) by {
                        if i < b.len() {
                            assert(is_part(b[i]));
                        }
                    }
                } else if b.len() > 0 {
                    assert forall|i: int| 0 <= i < b.drop_last().len() implies is_part(
                        #[trigger] b.drop_last()[i],
                    ) by {
                        assert(is_part(b[i]));
                    }
                }
            },
            None => {},
        }
    }
}

/// A relative path that is not refused means a file in the workspace: what stands behind
/// the parts of the root are names, with no `..` among them.
pub proof fn relative_paths_stay_in_the_workspace(root: Seq<char>, input: Seq<char>)
    ensures
        match workspace_target(root, input) {
            Ok(path) => {
                &&& inside(root, path)
                &&& forall|i: int|
                    parts(root).len() <= i < parts(path).len() ==> #[trigger] parts(path)[i]
                        != ".."@
            },
            Err(e) => e == escapes(root, input),
        },
{
    lemma_split_has_no_separator(input);
    lemma_named_are_parts(text::split(input, CharClass::Just('/')));
    lemma_normalized(parts(input));
    if let Some(ps) = normalized(parts(input)) {
        reveal_strlit("/");
        lemma_parts_joined(ps);
        let rest = text::join(ps, "/"@);
        let path = joined(root, rest);
        if root.len() == 0 {
            assert(path =~= rest);
            assert(parts(root) =~= seq![]) by {
                reveal_with_fuel(text::split, 2);
                reveal_with_fuel(named, 2);
                assert(seq![Seq::<char>::empty()].drop_last() =~= seq![]);
            }
            assert(parts(root) + ps =~= ps);
        } else if root.last() == '/' {
            let dir = root.drop_last();
            assert(dir.push('/') =~= root);
            lemma_parts_behind(dir, rest);
        } else {
            assert(path =~= root.push('/') + rest);
            lemma_parts_behind(root, rest);
        }
        let all = parts(root) + ps;
        assert(parts(path) == all);
        assert(all.subrange(0, parts(root).len() as int) =~= parts(root));
        assert forall|i: int| parts(root).len() <= i < all.len() implies #[trigger] all[i]
            != ".."@ by {
            assert(all[i] == ps[i - parts(root).len()]);
        }
        if root.len() > 0 {
            assert(path[0] == root[0]);
        }
    }
}

/// Where paths may not lead outside, a path is resolved only after the file system has
/// given a canonical form that lies in the workspace: that of the file itself, or that of
/// the directory in which a new file is to be made.
pub proof fn resolved_paths_are_checked(
    req: PathRequestView,
    step: PathStepView,
    answer: PathAnswerView,
    path: Seq<char>,
)
    requires
        !req.allow_outside,
        answers(step, answer),
        next_step(req, step, answer) == Ok::<PathStepView, ToolErrorView>(
            PathStepView::Done { path },
        ),
    ensures
        answer matches PathAnswerView::Canonical(canonical) && inside(
            req.workspace_root,
            canonical,
        ) && (step matches PathStepView::Parent { path: p, .. } && p == path || path == canonical),
{
}

// ---------------------------------------------------------------------------
// How paths are put together and taken apart
// ---------------------------------------------------------------------------

/// A part and the two dots behind it cancel each other, wherever they stand; a path that
/// begins with two dots leads out of where it starts, whatever follows.
pub proof fn two_dots_take_a_part_back(
    a: Seq<Seq<char>>,
    p: Seq<char>,
    b: Seq<Seq<char>>,
)
    requires
        p != ".."@,
    ensures
        normalized(a + seq![p, ".."@] + b) == normalized(a + b),
        normalized(seq![".."@] + b) is None,
        (forall|i: int| 0 <= i < b.len() ==> #[trigger] b[i] != ".."@) ==> normalized(b) == Some(b),
    decreases b.len(),
{
    let two = seq![p, ".."@];
    if b.len() == 0 {
        assert(a + b =~= a);
        assert(a + two + b =~= a.push(p).push(".."@));
        assert(a.push(p).push(".."@).drop_last() =~= a.push(p));
        assert(a.push(p).drop_last() =~= a);
        assert(a.push(p).last() == p);
        assert(a.push(p).push(".."@).last() == ".."@);
        reveal_with_fuel(normalized, 3);
        if let Some(before) = normalized(a) {
            assert(before.push(p).drop_last() =~= before);
        }
        assert(seq![".."@] + b =~= seq![".."@]);
        assert(seq![".."@].drop_last() =~= seq![]);
        assert(normalized(seq![".."@].drop_last()) == Some(Seq::<Seq<char>>::empty()));
        assert(b =~= seq![]);
    } else {
        let front = b.drop_last();
        two_dots_take_a_part_back(a, p, front);
        assert((a + two + b).drop_last() =~= a + two + front);
        assert((a + b).drop_last() =~= a + front);
        assert((seq![".."@] + b).drop_last() =~= seq![".."@] + front);
        if forall|i: int| 0 <= i < b.len() ==> #[trigger] b[i] != ".."@ {
            assert forall|i: int| 0 <= i < front.len() implies #[trigger] front[i] != ".."@ by {
                assert(b[i] != ".."@);
            }
            assert(b[b.len() - 1] != ".."@);
            assert(front.push(b.last()) =~= b);
        }
    }
}

/// A path is shown without the root in which it lies: what a relative path was joined to is
/// taken away again. A path that lies elsewhere is shown as it is.
pub proof fn what_was_joined_is_shown(root: Seq<char>, ps: Seq<Seq<char>>)
    requires
        root.len() > 0,
        are_parts(ps),
    ensures
        shown(root, joined(root, text::join(ps, "/"@))) == text::join(ps, "/"@),
        inside(root, joined(root, text::join(ps, "/"@))),
        is_absolute(joined(root, text::join(ps, "/"@))) == is_absolute(root),
{
    reveal_strlit("/");
    let rest = text::join(ps, "/"@);
    let path = joined(root, rest);
    lemma_parts_joined(ps);
    if root.last() == '/' {
        let dir = root.drop_last();
        assert(dir.push('/') =~= root);
        lemma_parts_behind(dir, rest);
    } else {
        assert(path =~= root.push('/') + rest);
        lemma_parts_behind(root, rest);
    }
    assert(path[0] == root[0]);
    let all = parts(root) + ps;
    assert(all.subrange(0, parts(root).len() as int) =~= parts(root));
    assert(all.skip(parts(root).len() as int) =~= ps);
}

/// An absolute path stays as it is wherever it is joined to; any other one is put behind the
/// directory, with one slash between them.
pub proof fn joining_puts_a_path_behind_a_directory(dir: Seq<char>, path: Seq<char>)
    ensures
        path.len() > 0 && path[0] == '/' ==> joined(dir, path) == path,
        (path.len() == 0 || path[0] != '/') && dir.len() > 0 && dir.last() != '/' ==> joined(
            dir,
            path,
        ) == dir.push('/') + path,
        (path.len() == 0 || path[0] != '/') && dir.len() > 0 && dir.last() == '/' ==> joined(
            dir,
            path,
        ) == dir + path,
{
    reveal_strlit("/");
    assert(dir + "/"@ + path =~= dir.push('/') + path);
}

/// A file lies in the directory that its path names before the last slash, under the name
/// behind it.
pub proof fn a_path_is_a_directory_and_a_name(dir: Seq<char>, name: Seq<char>)
    requires
        dir.len() > 0,
        dir.last() != '/',
        dir.last() != '.',
        is_part(name),
        name != ".."@,
    ensures
        parent(dir.push('/') + name) == Some(dir),
        file_name(dir.push('/') + name) == Some(name),
        !name.contains('.') ==> parent(name) == Some(Seq::<char>::empty()),
{
    let path = dir.push('/') + name;
    reveal_strlit(".");
    reveal_strlit("/");
    assert(path.last() == name.last());
    assert(name.last() != '/') by {
        if name.last() == '/' {
            assert(name[name.len() - 1] == '/');
        }
    }
    if path.last() == '.' && path[path.len() - 2] == '/' {
        if name.len() == 1 {
            assert(name =~= "."@);
        } else {
            assert(name[name.len() - 2] == '/');
        }
    }
    assert(tail_trimmed(path) == path);
    lemma_dir_len(dir.push('/'), name);
    let n = dir.len() + 1int;
    assert(path.take(n) =~= dir.push('/'));
    assert(path.skip(n) =~= name);
    assert(dir.push('/').drop_last() =~= dir);
    reveal_with_fuel(tail_trimmed, 2);
    assert(tail_trimmed(dir.push('/')) == dir);
    assert(path.len() >= 2);
    if !name.contains('.') {
        assert(name.last() != '.') by {
            if name.last() == '.' {
                assert(name[name.len() - 1] == '.');
            }
        }
        assert(tail_trimmed(name) == name);
        lemma_dir_len(seq![], name);
        assert(seq![] + name =~= name);
        assert(name.take(0) =~= seq![]);
        if name =~= "/"@ {
            assert(name[0] == '/');
        }
    }
}

proof fn lemma_dir_len(dir: Seq<char>, name: Seq<char>)
    requires
        !name.contains('/'),
        dir.len() == 0 || dir.last() == '/',
    ensures
        dir_len(dir + name) == dir.len(),
    decreases name.len(),
{
    let path = dir + name;
    if name.len() == 0 {
        assert(path =~= dir);
    } else {
        assert(path.last() == name[name.len() - 1]);
        assert(!name.drop_last().contains('/')) by {
            if name.drop_last().contains('/') {
                let i = choose|i: int|
                    0 <= i < name.drop_last().len() && name.drop_last()[i] == '/';
                assert(name[i] == '/');
            }
        }
        lemma_dir_len(dir, name.drop_last());
        assert(path.drop_last() =~= dir + name.drop_last());
    }
}

/// How a path is looked up. Where paths may lead outside, it is taken behind the workspace
/// as it is. Otherwise a relative path is refused at once when its dots lead out of the
/// workspace, and an absolute one must turn out to lie in it.
pub proof fn how_a_path_is_looked_up(req: PathRequestView)
    ensures
        req.allow_outside && !req.write ==> first_step(req) == Ok::<PathStepView, ToolErrorView>(
            PathStepView::Existing { path: joined(req.workspace_root, req.input) },
        ),
        req.allow_outside && req.write ==> first_step(req) == Ok::<PathStepView, ToolErrorView>(
            PathStepView::TargetExists { path: joined(req.workspace_root, req.input) },
        ),
        !req.allow_outside && req.input.len() > 0 && req.input[0] == '/' ==> first_step(req)
            == Ok::<PathStepView, ToolErrorView>(PathStepView::AnchorExists { write: req.write }),
        !req.allow_outside && (req.input.len() == 0 || req.input[0] != '/') && normalized(
            parts(req.input),
        ) is None ==> first_step(req) == Err::<PathStepView, ToolErrorView>(
            ToolErrorView::PathEscapesWorkspace {
                path: req.input,
                workspace_root: req.workspace_root,
            },
        ),
        !req.allow_outside && (req.input.len() == 0 || req.input[0] != '/') ==> (normalized(
            parts(req.input),
        ) matches Some(ps) ==> first_step(req) == Ok::<PathStepView, ToolErrorView>(
            if req.write {
                PathStepView::TargetExists {
                    path: joined(req.workspace_root, text::join(ps, "/"@)),
                }
            } else {
                PathStepView::Existing { path: joined(req.workspace_root, text::join(ps, "/"@)) }
            },
        )),
{
}

/// What the file system answers decides how a path is looked up further: a canonical form
/// outside the workspace is refused, unless paths may lead outside, and so is every failure.
pub proof fn what_an_answer_decides(
    req: PathRequestView,
    path: Seq<char>,
    dir: Seq<char>,
    canonical: Seq<char>,
    write: bool,
    source: Seq<char>,
)
    ensures
        !req.allow_outside && !inside(req.workspace_root, canonical) ==> {
            &&& next_step(
                req,
                PathStepView::Existing { path },
                PathAnswerView::Canonical(canonical),
            ) is Err
            &&& next_step(
                req,
                PathStepView::Parent { path, parent: dir },
                PathAnswerView::Canonical(canonical),
            ) is Err
            &&& next_step(
                req,
                PathStepView::Anchor { write, path },
                PathAnswerView::Canonical(canonical),
            ) == Err::<PathStepView, ToolErrorView>(
                ToolErrorView::AbsolutePath { path: req.input },
            )
        },
        req.allow_outside || inside(req.workspace_root, canonical) ==> next_step(
            req,
            PathStepView::Existing { path },
            PathAnswerView::Canonical(canonical),
        ) == Ok::<PathStepView, ToolErrorView>(PathStepView::Done { path: canonical }),
        next_step(req, PathStepView::Existing { path }, PathAnswerView::Failed(source)) == Err::<
            PathStepView,
            ToolErrorView,
        >(ToolErrorView::Io { path, source }),
        next_step(
            req,
            PathStepView::CreateParent { path, parent: dir },
            PathAnswerView::Created,
        ) == Ok::<PathStepView, ToolErrorView>(PathStepView::Parent { path, parent: dir }),
        next_step(
            req,
            PathStepView::CreateParent { path, parent: dir },
            PathAnswerView::Failed(source),
        ) == Err::<PathStepView, ToolErrorView>(ToolErrorView::Io { path: dir, source }),
{
}

} // verus!
