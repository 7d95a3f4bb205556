//! Terminals: what they show, and how they are kept apart.
use vstd::prelude::*;

use crate::text;

verus! {

/// Identifies a terminal.
#[derive(Debug, Clone, Copy, PartialEq, Eq, Structural, Hash)]
pub struct TerminalId(pub u64);

impl TerminalId {
    pub fn value(self) -> (r: u64)
        ensures
            r == self.0,
    {
        self.0
    }
}

/// How many rows and columns a terminal has.
#[derive(Debug, Clone, Copy, PartialEq, Eq, Structural)]
pub struct TerminalSize {
    pub rows: u16,
    pub cols: u16,
}

/// The most columns that a screen can have.
pub const MAX_COLS: u16 = 65527;

impl TerminalSize {
    /// The size with at least one row and one column.
    pub fn new(rows: u16, cols: u16) -> (r: TerminalSize)
        ensures
            r.rows == if rows == 0 {
                1
            } else {
                rows
            },
            r.cols == if cols == 0 {
                1
            } else {
                cols
            },
    {
        TerminalSize {
            rows: if rows == 0 {
                1
            } else {
                rows
            },
            cols: if cols == 0 {
                1
            } else {
                cols
            },
        }
    }

    /// Whether a screen can have this size.
    pub open spec fn fits(self) -> bool {
        self.rows > 0 && 0 < self.cols <= MAX_COLS
    }

    /// Whether a screen can have this size.
    pub fn is_usable(self) -> (r: bool)
        ensures
            r == self.fits(),
    {
        self.rows > 0 && self.cols > 0 && self.cols <= MAX_COLS
    }
}

impl Default for TerminalSize {
    fn default() -> (r: TerminalSize)
        ensures
            r == (TerminalSize { rows: 24, cols: 80 }),
    {
        TerminalSize { rows: 24, cols: 80 }
    }
}

/// What a terminal shows.
#[derive(Debug)]
pub struct TerminalSnapshot {
    pub id: TerminalId,
    pub size: TerminalSize,
    pub cursor_row: u16,
    pub cursor_col: u16,
    pub screen_rows: Vec<String>,
    pub contents: String,
    pub raw_output: String,
    pub is_running: bool,
    pub exit_code: Option<u32>,
}

/// The content of a `TerminalSnapshot`.
pub struct SnapshotView {
    pub id: TerminalId,
    pub size: TerminalSize,
    pub cursor: (u16, u16),
    pub screen_rows: Seq<Seq<char>>,
    pub contents: Seq<char>,
    pub raw_output: Seq<char>,
    pub is_running: bool,
    pub exit_code: Option<u32>,
}

impl View for TerminalSnapshot {
    type V = SnapshotView;

    open spec fn view(&self) -> SnapshotView {
        SnapshotView {
            id: self.id,
            size: self.size,
            cursor: (self.cursor_row, self.cursor_col),
            screen_rows: text::views(self.screen_rows@),
            contents: self.contents@,
            raw_output: self.raw_output@,
            is_running: self.is_running,
            exit_code: self.exit_code,
        }
    }
}

/// How a terminal is to be started.
#[derive(Debug)]
pub struct SpawnTerminalRequest {
    pub workspace: String,
    pub shell: Option<String>,
    pub size: TerminalSize,
    pub scrollback: usize,
}

impl SpawnTerminalRequest {
    /// A terminal of the usual size in a workspace.
    pub fn new(workspace: &str) -> (r: SpawnTerminalRequest)
        ensures
            r.workspace@ == workspace@,
            r.shell is None,
            r.size == (TerminalSize { rows: 24, cols: 80 }),
            r.scrollback == 1000,
    {
        SpawnTerminalRequest {
            workspace: workspace.to_string(),
            shell: None,
            size: TerminalSize { rows: 24, cols: 80 },
            scrollback: 1000,
        }
    }
}

/// The shell that is started: the one that is asked for, that of the environment, or the
/// standard one.
pub open spec fn shell_of(asked: Option<Seq<char>>, env: Option<Seq<char>>) -> Seq<char> {
    match asked {
        Some(s) => s,
        None => match env {
            Some(e) => e,
            None => "/bin/sh"@,
        },
    }
}

/// The shell that is started.
pub fn choose_shell(asked: Option<String>, env: Option<&str>) -> (r: String)
    ensures
        r@ == shell_of(
            text::opt(asked),
            match env {
                Some(e) => Some(e@),
                None => None,
            },
        ),
{
    match asked {
        Some(s) => s,
        None => match env {
            Some(e) => e.to_string(),
            None => "/bin/sh".to_string(),
        },
    }
}

// ---------------------------------------------------------------------------
// Errors
// ---------------------------------------------------------------------------

/// What can go wrong with a terminal. Errors from elsewhere are told as texts.
#[derive(Debug)]
pub enum TerminalError {
    WorkspaceIo { path: String, source: String },
    WorkspaceNotDirectory { path: String },
    OpenPty { source: String },
    SpawnShell { workspace: String, source: String },
    PtyIo { source: String },
    WriteFailed { source: String },
    ResizeFailed { source: String },
    WaitFailed { source: String },
    UnknownTerminal { id: TerminalId },
    StatePoisoned,
}

/// The content of a `TerminalError`.
pub enum TerminalErrorView {
    WorkspaceIo { path: Seq<char>, source: Seq<char> },
    WorkspaceNotDirectory { path: Seq<char> },
    OpenPty { source: Seq<char> },
    SpawnShell { workspace: Seq<char>, source: Seq<char> },
    PtyIo { source: Seq<char> },
    WriteFailed { source: Seq<char> },
    ResizeFailed { source: Seq<char> },
    WaitFailed { source: Seq<char> },
    UnknownTerminal { id: TerminalId },
    StatePoisoned,
}

impl View for TerminalError {
    type V = TerminalErrorView;

    open spec fn view(&self) -> TerminalErrorView {
        match self {
            TerminalError::WorkspaceIo { path, source } => TerminalErrorView::WorkspaceIo {
                path: path@,
                source: source@,
            },
            TerminalError::WorkspaceNotDirectory { path } =>
                TerminalErrorView::WorkspaceNotDirectory { path: path@ },
            TerminalError::OpenPty { source } => TerminalErrorView::OpenPty { source: source@ },
            TerminalError::SpawnShell { workspace, source } => TerminalErrorView::SpawnShell {
                workspace: workspace@,
                source: source@,
            },
            TerminalError::PtyIo { source } => TerminalErrorView::PtyIo { source: source@ },
            TerminalError::WriteFailed { source } => TerminalErrorView::WriteFailed {
                source: source@,
            },
            TerminalError::ResizeFailed { source } => TerminalErrorView::ResizeFailed {
                source: source@,
            },
            TerminalError::WaitFailed { source } => TerminalErrorView::WaitFailed {
                source: source@,
            },
            TerminalError::UnknownTerminal { id } => TerminalErrorView::UnknownTerminal {
                id: *id,
            },
            TerminalError::StatePoisoned => TerminalErrorView::StatePoisoned,
        }
    }
}

/// How an error is told.
pub open spec fn error_text(e: TerminalErrorView) -> Seq<char> {
    match e {
        TerminalErrorView::WorkspaceIo { path, source } => "failed to inspect workspace "@ + path
            + ": "@ + source,
        TerminalErrorView::WorkspaceNotDirectory { path } => "workspace is not a directory: "@
            + path,
        TerminalErrorView::OpenPty { source } => "failed to open PTY: "@ + source,
        TerminalErrorView::SpawnShell { workspace, source } => "failed to spawn shell in "@
            + workspace + ": "@ + source,
        TerminalErrorView::PtyIo { source } => "PTY I/O setup failed: "@ + source,
        TerminalErrorView::WriteFailed { source } => "failed to write to PTY: "@ + source,
        TerminalErrorView::ResizeFailed { source } => "failed to resize PTY: "@ + source,
        TerminalErrorView::WaitFailed { source } => "failed to wait for PTY child: "@ + source,
        TerminalErrorView::UnknownTerminal { id } => "unknown terminal id: "@ + text::decimal(
            id.0 as nat,
        ),
        TerminalErrorView::StatePoisoned => "terminal state lock was poisoned"@,
    }
}

impl TerminalError {
    /// How the error is told.
    pub fn message(&self) -> (r: String)
        ensures
            r@ == error_text(self@),
    {
        match self {
            TerminalError::WorkspaceIo { path, source } => text::cat4(
                "failed to inspect workspace ",
                path.as_str(),
                ": ",
                source.as_str(),
            ),
            TerminalError::WorkspaceNotDirectory { path } => text::cat2(
                "workspace is not a directory: ",
                path.as_str(),
            ),
            TerminalError::OpenPty { source } => text::cat2(
                "failed to open PTY: ",
                source.as_str(),
            ),
            TerminalError::SpawnShell { workspace, source } => text::cat4(
                "failed to spawn shell in ",
                workspace.as_str(),
                ": ",
                source.as_str(),
            ),
            TerminalError::PtyIo { source } => text::cat2(
                "PTY I/O setup failed: ",
                source.as_str(),
            ),
            TerminalError::WriteFailed { source } => text::cat2(
                "failed to write to PTY: ",
                source.as_str(),
            ),
            TerminalError::ResizeFailed { source } => text::cat2(
                "failed to resize PTY: ",
                source.as_str(),
            ),
            TerminalError::WaitFailed { source } => text::cat2(
                "failed to wait for PTY child: ",
                source.as_str(),
            ),
            TerminalError::UnknownTerminal { id } => text::cat2(
                "unknown terminal id: ",
                text::decimal_text(id.0).as_str(),
            ),
            TerminalError::StatePoisoned => "terminal state lock was poisoned".to_string(),
        }
    }
}

/// The directory in which a terminal starts, given whether the path is a directory and
/// what it is called in full.
pub fn canonical_workspace(
    path: &str,
    is_dir: Result<bool, String>,
    canonical: Result<String, String>,
) -> (r: Result<String, TerminalError>)
    ensures
        match r {
            Ok(p) => is_dir == Ok::<bool, String>(true) && (canonical matches Ok(c) && p@ == c@),
            Err(e) => match is_dir {
                Err(source) => e@ == (TerminalErrorView::WorkspaceIo {
                    path: path@,
                    source: source@,
                }),
                Ok(dir) => if dir {
                    canonical matches Err(source) && e@ == (TerminalErrorView::WorkspaceIo {
                        path: path@,
                        source: source@,
                    })
                } else {
                    e@ == (TerminalErrorView::WorkspaceNotDirectory { path: path@ })
                },
            },
        },
{
    match is_dir {
        Err(source) => Err(TerminalError::WorkspaceIo { path: path.to_string(), source }),
        Ok(dir) => {
            if !dir {
                return Err(TerminalError::WorkspaceNotDirectory { path: path.to_string() });
            }
            match canonical {
                Ok(p) => Ok(p),
                Err(source) => Err(
                    TerminalError::WorkspaceIo { path: path.to_string(), source },
                ),
            }
        },
    }
}

// ---------------------------------------------------------------------------
// Screens
// ---------------------------------------------------------------------------

/// What has been done with a screen.
pub enum ScreenStep {
    /// It was made, with so many rows, columns, and rows that are kept above it.
    Made(u16, u16, usize),
    /// It was sent bytes.
    Sent(Seq<u8>),
    /// It was given so many rows and columns.
    Resized(u16, u16),
}

/// How many columns a screen has after what was done with it.
pub open spec fn columns(steps: Seq<ScreenStep>) -> u16
    decreases steps.len(),
{
    if steps.len() == 0 {
        0
    } else {
        match steps.last() {
            ScreenStep::Made(_, cols, _) => cols,
            ScreenStep::Resized(_, cols) => cols,
            ScreenStep::Sent(_) => columns(steps.drop_last()),
        }
    }
}

/// All bytes that a screen was sent.
pub open spec fn sent(steps: Seq<ScreenStep>) -> Seq<u8>
    decreases steps.len(),
{
    if steps.len() == 0 {
        seq![]
    } else {
        match steps.last() {
            ScreenStep::Sent(bytes) => sent(steps.drop_last()) + bytes,
            _ => sent(steps.drop_last()),
        }
    }
}

/// Whether the bytes from an index on complete the character U+FE0F, which makes the
/// character before it as wide as two columns.
pub open spec fn widens(bytes: Seq<u8>, from: nat) -> bool {
    exists|i: int|
        from <= i < bytes.len() && 2 <= i && bytes[i - 2] == 0xEF && bytes[i - 1] == 0xB8
            && #[trigger] bytes[i] == 0x8F
}

/// Whether a screen with so many columns, which was sent bytes before, can show the others:
/// in a single column there is no place for a character that becomes wider.
pub open spec fn showable(cols: u16, before: Seq<u8>, bytes: Seq<u8>) -> bool {
    cols != 1 || !widens(before + bytes, before.len())
}

/// A screen: a `vt100::Parser`, which interprets what a program writes to its terminal.
#[verifier::external_body]
pub struct TerminalScreen {
    parser: vt100::Parser,
}

/// What has been done with a screen, in order.
pub uninterp spec fn screen_steps(screen: TerminalScreen) -> Seq<ScreenStep>;

/// The text of each row of a screen, up to so many columns, after what was done with it.
pub uninterp spec fn shown_rows(steps: Seq<ScreenStep>, width: u16) -> Seq<Seq<char>>;

/// The text of a screen after what was done with it.
pub uninterp spec fn shown_text(steps: Seq<ScreenStep>) -> Seq<char>;

/// The row and the column of the cursor after what was done with a screen.
pub uninterp spec fn shown_cursor(steps: Seq<ScreenStep>) -> (u16, u16);

/// `vt100::Parser::new`: a screen with which nothing has been done. The parser takes no
/// sizes without rows or columns, nor so many columns that a column behind them runs over.
#[verifier::external_body]
fn new_screen(size: TerminalSize, scrollback: usize) -> (r: TerminalScreen)
    requires
        size.fits(),
    ensures
        screen_steps(r) == seq![ScreenStep::Made(size.rows, size.cols, scrollback)],
{
    TerminalScreen { parser: vt100::Parser::new(size.rows, size.cols, scrollback) }
}

/// `vt100::Parser::process`: the screen after bytes have been sent to it. The parser does not
/// take a character in a single column that is made wider.
#[verifier::external_body]
fn send_bytes(screen: &mut TerminalScreen, bytes: &[u8])
    requires
        showable(
            columns(screen_steps(*old(screen))),
            sent(screen_steps(*old(screen))),
            bytes@,
        ),
    ensures
        screen_steps(*final(screen)) == screen_steps(*old(screen)).push(ScreenStep::Sent(bytes@)),
{
    screen.parser.process(bytes)
}

/// `vt100::Screen::set_size`: the screen with another size.
#[verifier::external_body]
fn set_size(screen: &mut TerminalScreen, size: TerminalSize)
    requires
        size.fits(),
    ensures
        screen_steps(*final(screen)) == screen_steps(*old(screen)).push(
            ScreenStep::Resized(size.rows, size.cols),
        ),
{
    screen.parser.screen_mut().set_size(size.rows, size.cols)
}

/// `vt100::Screen::rows`, from the first column on: the text of each row.
#[verifier::external_body]
fn rows_of(screen: &TerminalScreen, width: u16) -> (r: Vec<String>)
    ensures
        text::views(r@) == shown_rows(screen_steps(*screen), width),
{
    screen.parser.screen().rows(0, width).collect()
}

/// `vt100::Screen::contents`: the text of the screen.
#[verifier::external_body]
fn contents_of(screen: &TerminalScreen) -> (r: String)
    ensures
        r@ == shown_text(screen_steps(*screen)),
{
    screen.parser.screen().contents()
}

/// `vt100::Screen::cursor_position`: the row and the column of the cursor.
#[verifier::external_body]
fn cursor_of(screen: &TerminalScreen) -> (r: (u16, u16))
    ensures
        r == shown_cursor(screen_steps(*screen)),
{
    screen.parser.screen().cursor_position()
}

/// A terminal: its screen, all that its program has written, and whether it runs.
pub struct TerminalState {
    screen: TerminalScreen,
    size: TerminalSize,
    raw_output: Vec<u8>,
    is_running: bool,
    exit_code: Option<u32>,
}

/// The content of a `TerminalState`.
pub struct StateView {
    pub steps: Seq<ScreenStep>,
    pub size: TerminalSize,
    pub raw_output: Seq<u8>,
    pub is_running: bool,
    pub exit_code: Option<u32>,
}

impl StateView {
    /// What holds of a terminal at every time: its size and its output are those of its screen.
    pub open spec fn valid(self) -> bool {
        columns(self.steps) == self.size.cols && sent(self.steps) == self.raw_output
    }
}

impl View for TerminalState {
    type V = StateView;

    closed spec fn view(&self) -> StateView {
        StateView {
            steps: screen_steps(self.screen),
            size: self.size,
            raw_output: self.raw_output@,
            is_running: self.is_running,
            exit_code: self.exit_code,
        }
    }
}

/// A terminal that has just started.
pub open spec fn started(size: TerminalSize, scrollback: usize) -> StateView {
    StateView {
        steps: seq![ScreenStep::Made(size.rows, size.cols, scrollback)],
        size,
        raw_output: seq![],
        is_running: true,
        exit_code: None,
    }
}

/// The terminal after its program has written.
pub open spec fn written(state: StateView, bytes: Seq<u8>) -> StateView {
    StateView {
        steps: state.steps.push(ScreenStep::Sent(bytes)),
        raw_output: state.raw_output + bytes,
        ..state
    }
}

/// The terminal with another size.
pub open spec fn resized(state: StateView, size: TerminalSize) -> StateView {
    StateView {
        steps: state.steps.push(ScreenStep::Resized(size.rows, size.cols)),
        size,
        ..state
    }
}

/// The terminal after its program has ended, with a code where one is known.
pub open spec fn exited(state: StateView, code: Option<u32>) -> StateView {
    StateView { is_running: false, exit_code: code, ..state }
}

/// The terminal after its program has closed its output.
pub open spec fn silent(state: StateView) -> StateView {
    StateView { is_running: false, ..state }
}

/// The byte at an index of `bytes`, or, below zero, that far before the end of `before`.
spec fn earlier(before: Seq<u8>, bytes: Seq<u8>, i: int) -> Option<u8> {
    if i >= 0 {
        Some(bytes[i])
    } else if before.len() + i >= 0 {
        Some(before[before.len() + i])
    } else {
        None
    }
}

/// The byte at a place in `bytes`, or in `before` where the place is one of its last two.
fn byte_at(before: &[u8], bytes: &[u8], i: usize, back: usize) -> (r: Option<u8>)
    requires
        i < bytes@.len(),
        1 <= back <= 2,
    ensures
        r == earlier(before@, bytes@, i - back),
{
    if i >= back {
        Some(bytes[i - back])
    } else if before.len() >= back - i {
        Some(before[before.len() - (back - i)])
    } else {
        None
    }
}

/// Whether the bytes complete the character U+FE0F, given what came before them.
fn completes_selector(before: &[u8], bytes: &[u8]) -> (r: bool)
    ensures
        r == widens(before@ + bytes@, before@.len()),
{
    let ghost all = before@ + bytes@;
    let mut i: usize = 0;
    while i < bytes.len()
        invariant
            i <= bytes@.len(),
            all == before@ + bytes@,
            forall|k: int|
                before@.len() <= k < before@.len() + i ==> !(2 <= k && all[k - 2] == 0xEF
                    && all[k - 1] == 0xB8 && #[trigger] all[k] == 0x8F),
        decreases bytes@.len() - i,
    {
        let ghost k = before@.len() + i as int;
        assert(all[k] == bytes@[i as int]);
        let first = byte_at(before, bytes, i, 2);
        let second = byte_at(before, bytes, i, 1);
        assert(k >= 2 ==> first == Some(all[k - 2]));
        assert(k >= 1 ==> second == Some(all[k - 1]));
        match (first, second) {
            (Some(a), Some(b)) => {
                if a == 0xEF && b == 0xB8 && bytes[i] == 0x8F {
                    return true;
                }
            },
            _ => {},
        }
        i += 1;
    }
    false
}

/// What a terminal shows.
pub open spec fn shown(state: StateView, id: TerminalId) -> SnapshotView {
    SnapshotView {
        id,
        size: state.size,
        cursor: shown_cursor(state.steps),
        screen_rows: shown_rows(state.steps, state.size.cols),
        contents: shown_text(state.steps),
        raw_output: text::lossy_text(state.raw_output),
        is_running: state.is_running,
        exit_code: state.exit_code,
    }
}

proof fn lemma_valid(state: StateView, size: TerminalSize, scrollback: usize, bytes: Seq<u8>)
    ensures
        started(size, scrollback).valid(),
        state.valid() ==> written(state, bytes).valid(),
        state.valid() ==> resized(state, size).valid(),
{
    let made = ScreenStep::Made(size.rows, size.cols, scrollback);
    assert(seq![made].drop_last() =~= seq![]);
    assert(sent(seq![made].drop_last()) =~= seq![]);
    assert(state.steps.push(ScreenStep::Sent(bytes)).drop_last() =~= state.steps);
    let changed = ScreenStep::Resized(size.rows, size.cols);
    assert(state.steps.push(changed).drop_last() =~= state.steps);
}

impl TerminalState {
    /// A terminal that has just started.
    pub fn new(size: TerminalSize, scrollback: usize) -> (r: TerminalState)
        requires
            size.fits(),
        ensures
            r@ == started(size, scrollback),
            r@.valid(),
    {
        proof {
            lemma_valid(started(size, scrollback), size, scrollback, seq![]);
        }
        let r = TerminalState {
            screen: new_screen(size, scrollback),
            size,
            raw_output: Vec::new(),
            is_running: true,
            exit_code: None,
        };
        assert(r@.raw_output =~= seq![]);
        r
    }

    /// Whether the screen can show what the program has written.
    pub fn takes(&self, bytes: &[u8]) -> (r: bool)
        ensures
            r == showable(self@.size.cols, self@.raw_output, bytes@),
    {
        self.size.cols != 1 || !completes_selector(self.raw_output.as_slice(), bytes)
    }

    /// The program has written.
    pub fn process(&mut self, bytes: &[u8])
        requires
            old(self)@.valid(),
            showable(old(self)@.size.cols, old(self)@.raw_output, bytes@),
        ensures
            final(self)@ == written(old(self)@, bytes@),
            final(self)@.valid(),
    {
        proof {
            lemma_valid(self@, self.size, 0, bytes@);
        }
        let ghost before = self.raw_output@;
        self.raw_output.extend_from_slice(bytes);
        assert(self.raw_output@ =~= before + bytes@);
        send_bytes(&mut self.screen, bytes);
    }

    /// The terminal gets another size.
    pub fn resize(&mut self, size: TerminalSize)
        requires
            size.fits(),
        ensures
            final(self)@ == resized(old(self)@, size),
            old(self)@.valid() ==> final(self)@.valid(),
    {
        proof {
            lemma_valid(self@, size, 0, seq![]);
        }
        self.size = size;
        set_size(&mut self.screen, size);
    }

    /// The program has ended, with a code where one is known.
    pub fn exit(&mut self, code: Option<u32>)
        ensures
            final(self)@ == exited(old(self)@, code),
            old(self)@.valid() ==> final(self)@.valid(),
    {
        self.is_running = false;
        self.exit_code = code;
    }

    /// The program has closed its output.
    pub fn close(&mut self)
        ensures
            final(self)@ == silent(old(self)@),
            old(self)@.valid() ==> final(self)@.valid(),
    {
        self.is_running = false;
    }

    /// What the terminal shows.
    pub fn snapshot(&self, id: TerminalId) -> (r: TerminalSnapshot)
        ensures
            r@ == shown(self@, id),
    {
        let (cursor_row, cursor_col) = cursor_of(&self.screen);
        TerminalSnapshot {
            id,
            size: self.size,
            cursor_row,
            cursor_col,
            screen_rows: rows_of(&self.screen, self.size.cols),
            contents: contents_of(&self.screen),
            raw_output: text::lossy_of(self.raw_output.as_slice()),
            is_running: self.is_running,
            exit_code: self.exit_code,
        }
    }
}

// ---------------------------------------------------------------------------
// Terminals
// ---------------------------------------------------------------------------

struct Entry {
    id: u64,
    state: TerminalState,
}

/// The terminals that there are.
pub struct PtyManager {
    next_id: u64,
    entries: Vec<Entry>,
}

closed spec fn entry_map(entries: Seq<Entry>) -> Map<u64, StateView>
    decreases entries.len(),
{
    if entries.len() == 0 {
        Map::empty()
    } else {
        entry_map(entries.drop_last()).insert(entries.last().id, entries.last().state@)
    }
}

impl View for PtyManager {
    type V = Map<u64, StateView>;

    closed spec fn view(&self) -> Map<u64, StateView> {
        entry_map(self.entries@)
    }
}

/// The terminal with an id, or that there is none.
pub open spec fn found(terminals: Map<u64, StateView>, id: TerminalId) -> Result<
    StateView,
    TerminalErrorView,
> {
    if terminals.dom().contains(id.0) {
        Ok(terminals[id.0])
    } else {
        Err(TerminalErrorView::UnknownTerminal { id })
    }
}

proof fn lemma_entry_map(entries: Seq<Entry>, i: int)
    requires
        0 <= i < entries.len(),
        forall|a: int, b: int| 0 <= a < b < entries.len() ==> entries[a].id != entries[b].id,
    ensures
        entry_map(entries).dom().contains(entries[i].id),
        entry_map(entries)[entries[i].id] == entries[i].state@,
    decreases entries.len(),
{
    if i < entries.len() - 1 {
        let shorter = entries.drop_last();
        assert forall|a: int, b: int| 0 <= a < b < shorter.len() implies shorter[a].id
            != shorter[b].id by {
            assert(entries[a].id != entries[b].id);
        }
        lemma_entry_map(shorter, i);
        assert(entries[i].id != entries[entries.len() - 1].id);
    }
}

proof fn lemma_no_entry(entries: Seq<Entry>, id: u64)
    requires
        forall|a: int| 0 <= a < entries.len() ==> (#[trigger] entries[a]).id != id,
    ensures
        !entry_map(entries).dom().contains(id),
    decreases entries.len(),
{
    if entries.len() > 0 {
        let shorter = entries.drop_last();
        assert forall|a: int| 0 <= a < shorter.len() implies (#[trigger] shorter[a]).id != id by {
            assert(entries[a].id != id);
        }
        lemma_no_entry(shorter, id);
        assert(entries[entries.len() - 1].id != id);
    }
}

proof fn lemma_removed(entries: Seq<Entry>, i: int)
    requires
        0 <= i < entries.len(),
        forall|a: int, b: int| 0 <= a < b < entries.len() ==> entries[a].id != entries[b].id,
    ensures
        entry_map(entries.remove(i)) == entry_map(entries).remove(entries[i].id),
    decreases entries.len(),
{
    let id = entries[i].id;
    let shorter = entries.drop_last();
    if i == entries.len() - 1 {
        assert(entries.remove(i) =~= shorter);
        assert forall|a: int| 0 <= a < shorter.len() implies (#[trigger] shorter[a]).id != id by {
            assert(entries[a].id != entries[i].id);
        }
        lemma_no_entry(shorter, id);
        assert(entry_map(shorter) =~= entry_map(entries).remove(id));
    } else {
        assert forall|a: int, b: int| 0 <= a < b < shorter.len() implies shorter[a].id
            != shorter[b].id by {
            assert(entries[a].id != entries[b].id);
        }
        lemma_removed(shorter, i);
        assert(entries.remove(i).drop_last() =~= shorter.remove(i));
        assert(entries.remove(i).last() == entries.last());
        assert(entries[i].id != entries[entries.len() - 1].id);
        assert(entry_map(entries.remove(i)) =~= entry_map(entries).remove(id));
    }
}

impl Default for PtyManager {
    fn default() -> (r: PtyManager)
        ensures
            r.valid(),
            r@ == Map::<u64, StateView>::empty(),
            r.next() == 0,
    {
        PtyManager { next_id: 0, entries: Vec::new() }
    }
}

impl PtyManager {
    /// What holds of the terminals at every time: ids are not given twice.
    pub closed spec fn valid(self) -> bool {
        &&& forall|a: int, b: int|
            0 <= a < b < self.entries@.len() ==> self.entries@[a].id != self.entries@[b].id
        &&& forall|a: int|
            0 <= a < self.entries@.len() ==> (#[trigger] self.entries@[a]).id < self.next_id
        &&& forall|a: int|
            0 <= a < self.entries@.len() ==> (#[trigger] self.entries@[a]).state@.valid()
    }

    /// The id that the next terminal gets.
    pub closed spec fn next(self) -> u64 {
        self.next_id
    }

    /// No terminals.
    pub fn new() -> (r: PtyManager)
        ensures
            r.valid(),
            r@ == Map::<u64, StateView>::empty(),
            r.next() == 1,
    {
        PtyManager { next_id: 1, entries: Vec::new() }
    }

    /// The id of a terminal that is about to be started. It is not given again, whether or not
    /// the terminal starts.
    pub fn reserve(&mut self) -> (r: TerminalId)
        requires
            old(self).valid(),
            old(self).next() < u64::MAX,
        ensures
            final(self).valid(),
            r.0 == old(self).next(),
            final(self).next() == old(self).next() + 1,
            final(self)@ == old(self)@,
            !old(self)@.dom().contains(r.0),
    {
        let id: u64 = self.next_id;
        proof {
            lemma_no_entry(self.entries@, id);
        }
        self.next_id = id + 1;
        TerminalId(id)
    }

    /// A terminal has started under an id that was reserved for it.
    pub fn insert(&mut self, id: TerminalId, size: TerminalSize, scrollback: usize)
        requires
            old(self).valid(),
            id.0 < old(self).next(),
            !old(self)@.dom().contains(id.0),
            size.fits(),
        ensures
            final(self).valid(),
            final(self).next() == old(self).next(),
            final(self)@ == old(self)@.insert(id.0, started(size, scrollback)),
    {
        let ghost before = self.entries@;
        proof {
            assert forall|a: int| 0 <= a < before.len() implies (#[trigger] before[a]).id
                != id.0 by {
                lemma_entry_map(before, a);
            }
        }
        self.entries.push(Entry { id: id.0, state: TerminalState::new(size, scrollback) });
        assert(self.entries@.drop_last() =~= before);
    }

    fn position(&self, id: TerminalId) -> (r: Option<usize>)
        requires
            self.valid(),
        ensures
            match r {
                Some(i) => i < self.entries@.len() && self.entries@[i as int].id == id.0
                    && found(self@, id) == Ok::<StateView, TerminalErrorView>(
                    self.entries@[i as int].state@,
                ),
                None => found(self@, id) == Err::<StateView, TerminalErrorView>(
                    TerminalErrorView::UnknownTerminal { id },
                ),
            },
    {
        let mut i: usize = 0;
        while i < self.entries.len()
            invariant
                i <= self.entries@.len(),
                self.valid(),
                forall|a: int| 0 <= a < i ==> (#[trigger] self.entries@[a]).id != id.0,
            decreases self.entries@.len() - i,
        {
            if self.entries[i].id == id.0 {
                proof {
                    lemma_entry_map(self.entries@, i as int);
                }
                return Some(i);
            }
            i += 1;
        }
        proof {
            lemma_no_entry(self.entries@, id.0);
        }
        None
    }

    fn take(&mut self, id: TerminalId) -> (r: Result<TerminalState, TerminalError>)
        requires
            old(self).valid(),
        ensures
            final(self).valid(),
            final(self).next() == old(self).next(),
            match r {
                Ok(state) => found(old(self)@, id) == Ok::<StateView, TerminalErrorView>(state@)
                    && state@.valid() && id.0 < final(self).next() && final(self)@ == old(self)@.remove(id.0),
                Err(e) => found(old(self)@, id) == Err::<StateView, TerminalErrorView>(e@)
                    && final(self)@ == old(self)@,
            },
    {
        match self.position(id) {
            Some(i) => {
                let ghost before = self.entries@;
                proof {
                    lemma_removed(before, i as int);
                }
                let entry = self.entries.remove(i);
                assert(self.entries@ =~= before.remove(i as int));
                Ok(entry.state)
            },
            None => Err(TerminalError::UnknownTerminal { id }),
        }
    }

    fn put(&mut self, id: TerminalId, state: TerminalState)
        requires
            old(self).valid(),
            id.0 < old(self).next(),
            !old(self)@.dom().contains(id.0),
            state@.valid(),
        ensures
            final(self).valid(),
            final(self).next() == old(self).next(),
            final(self)@ == old(self)@.insert(id.0, state@),
    {
        let ghost before = self.entries@;
        proof {
            assert forall|a: int| 0 <= a < before.len() implies (#[trigger] before[a]).id
                != id.0 by {
                lemma_entry_map(before, a);
            }
        }
        self.entries.push(Entry { id: id.0, state });
        assert(self.entries@.drop_last() =~= before);
    }

    /// Whether the screen of a terminal, if there is one, can show what its program has
    /// written.
    pub fn takes(&self, id: TerminalId, bytes: &[u8]) -> (r: bool)
        requires
            self.valid(),
        ensures
            r == (found(self@, id) matches Ok(state) ==> showable(
                state.size.cols,
                state.raw_output,
                bytes@,
            )),
    {
        match self.position(id) {
            Some(i) => self.entries[i].state.takes(bytes),
            None => true,
        }
    }

    /// The program of a terminal has written.
    pub fn process(&mut self, id: TerminalId, bytes: &[u8]) -> (r: Result<(), TerminalError>)
        requires
            old(self).valid(),
            found(old(self)@, id) matches Ok(state) ==> showable(
                state.size.cols,
                state.raw_output,
                bytes@,
            ),
        ensures
            final(self).valid(),
            final(self).next() == old(self).next(),
            match r {
                Ok(_) => found(old(self)@, id) matches Ok(state) && final(self)@
                    == old(self)@.insert(id.0, written(state, bytes@)),
                Err(e) => found(old(self)@, id) == Err::<StateView, TerminalErrorView>(e@)
                    && final(self)@ == old(self)@,
            },
    {
        match self.take(id) {
            Ok(state) => {
                let mut state = state;
                state.process(bytes);
                self.put(id, state);
                assert(self@ =~= old(self)@.insert(id.0, state@));
                Ok(())
            },
            Err(e) => Err(e),
        }
    }

    /// A terminal gets another size.
    pub fn resize(&mut self, id: TerminalId, size: TerminalSize) -> (r: Result<(), TerminalError>)
        requires
            old(self).valid(),
            size.fits(),
        ensures
            final(self).valid(),
            final(self).next() == old(self).next(),
            match r {
                Ok(_) => found(old(self)@, id) matches Ok(state) && final(self)@
                    == old(self)@.insert(id.0, resized(state, size)),
                Err(e) => found(old(self)@, id) == Err::<StateView, TerminalErrorView>(e@)
                    && final(self)@ == old(self)@,
            },
    {
        match self.take(id) {
            Ok(state) => {
                let mut state = state;
                state.resize(size);
                self.put(id, state);
                assert(self@ =~= old(self)@.insert(id.0, state@));
                Ok(())
            },
            Err(e) => Err(e),
        }
    }

    /// What came of asking whether a terminal's program has ended: its code, if it has.
    pub fn try_wait(&mut self, id: TerminalId, code: Option<u32>) -> (r: Result<
        Option<u32>,
        TerminalError,
    >)
        requires
            old(self).valid(),
        ensures
            final(self).valid(),
            final(self).next() == old(self).next(),
            match r {
                Ok(c) => c == code && (found(old(self)@, id) matches Ok(state) && final(self)@
                    == match code {
                    Some(_) => old(self)@.insert(id.0, exited(state, code)),
                    None => old(self)@,
                }),
                Err(e) => found(old(self)@, id) == Err::<StateView, TerminalErrorView>(e@)
                    && final(self)@ == old(self)@,
            },
    {
        if code.is_none() {
            return match self.position(id) {
                Some(_) => Ok(None),
                None => Err(TerminalError::UnknownTerminal { id }),
            };
        }
        match self.take(id) {
            Ok(state) => {
                let mut state = state;
                state.exit(code);
                self.put(id, state);
                assert(self@ =~= old(self)@.insert(id.0, state@));
                Ok(code)
            },
            Err(e) => Err(e),
        }
    }

    /// The program of a terminal has closed its output.
    pub fn close(&mut self, id: TerminalId) -> (r: Result<(), TerminalError>)
        requires
            old(self).valid(),
        ensures
            final(self).valid(),
            final(self).next() == old(self).next(),
            match r {
                Ok(_) => found(old(self)@, id) matches Ok(state) && final(self)@
                    == old(self)@.insert(id.0, silent(state)),
                Err(e) => found(old(self)@, id) == Err::<StateView, TerminalErrorView>(e@)
                    && final(self)@ == old(self)@,
            },
    {
        match self.take(id) {
            Ok(state) => {
                let mut state = state;
                state.close();
                self.put(id, state);
                assert(self@ =~= old(self)@.insert(id.0, state@));
                Ok(())
            },
            Err(e) => Err(e),
        }
    }

    /// What a terminal shows.
    pub fn snapshot(&self, id: TerminalId) -> (r: Result<TerminalSnapshot, TerminalError>)
        requires
            self.valid(),
        ensures
            match r {
                Ok(s) => found(self@, id) matches Ok(state) && s@ == shown(state, id),
                Err(e) => found(self@, id) == Err::<StateView, TerminalErrorView>(e@),
            },
    {
        match self.position(id) {
            Some(i) => Ok(self.entries[i].state.snapshot(id)),
            None => Err(TerminalError::UnknownTerminal { id }),
        }
    }

    /// A terminal is forgotten.
    pub fn kill(&mut self, id: TerminalId) -> (r: Result<(), TerminalError>)
        requires
            old(self).valid(),
        ensures
            final(self).valid(),
            final(self).next() == old(self).next(),
            match r {
                Ok(_) => found(old(self)@, id) is Ok && final(self)@ == old(self)@.remove(id.0),
                Err(e) => found(old(self)@, id) == Err::<StateView, TerminalErrorView>(e@)
                    && final(self)@ == old(self)@,
            },
    {
        match self.take(id) {
            Ok(_) => Ok(()),
            Err(e) => Err(e),
        }
    }

    /// The ids of all terminals, each once.
    pub fn ids(&self) -> (r: Vec<TerminalId>)
        requires
            self.valid(),
        ensures
            r@.no_duplicates(),
            forall|id: u64| self@.dom().contains(id) <==> #[trigger] r@.contains(TerminalId(id)),
    {
        let mut r: Vec<TerminalId> = Vec::new();
        let mut i: usize = 0;
        while i < self.entries.len()
            invariant
                i <= self.entries@.len(),
                self.valid(),
                r@.len() == i,
                forall|a: int| 0 <= a < i ==> (#[trigger] r@[a]).0 == self.entries@[a].id,
            decreases self.entries@.len() - i,
        {
            r.push(TerminalId(self.entries[i].id));
            i += 1;
        }
        proof {
            let entries = self.entries@;
            assert forall|id: u64| self@.dom().contains(id) <==> #[trigger] r@.contains(
                TerminalId(id),
            ) by {
                if r@.contains(TerminalId(id)) {
                    let a = choose|a: int| 0 <= a < r@.len() && r@[a] == TerminalId(id);
                    assert(r@[a].0 == entries[a].id);
                    lemma_entry_map(entries, a);
                } else {
                    assert forall|a: int| 0 <= a < entries.len() implies (#[trigger] entries[a]).id
                        != id by {
                        assert(r@[a].0 == entries[a].id);
                        assert(r@[a] != TerminalId(id));
                    }
                    lemma_no_entry(entries, id);
                }
            }
            assert forall|a: int, b: int| 0 <= a < r@.len() && 0 <= b < r@.len() && a
                != b implies r@[a] != r@[b] by {
                assert(r@[a].0 == entries[a].id);
                assert(r@[b].0 == entries[b].id);
                if a < b {
                    assert(entries[a].id != entries[b].id);
                } else {
                    assert(entries[b].id != entries[a].id);
                }
            }
        }
        r
    }
}

// ---------------------------------------------------------------------------
// Laws
// ---------------------------------------------------------------------------

/// Nothing that a program writes is lost, however it is cut into pieces: the raw output of
/// a terminal is all that was written, in order.
pub proof fn raw_output_keeps_everything(state: StateView, a: Seq<u8>, b: Seq<u8>)
    ensures
        written(written(state, a), b).raw_output == written(state, a + b).raw_output,
        written(state, a).raw_output == state.raw_output + a,
{
    assert(written(written(state, a), b).raw_output =~= written(state, a + b).raw_output);
}

/// What a terminal shows has the size that it was given last, and a terminal that runs has
/// no exit code until one is told.
pub proof fn snapshots_show_the_last_size(
    state: StateView,
    size: TerminalSize,
    bytes: Seq<u8>,
    id: TerminalId,
)
    ensures
        shown(resized(state, size), id).size == size,
        shown(written(resized(state, size), bytes), id).size == size,
        shown(written(state, bytes), id).exit_code == state.exit_code,
{
}

/// A terminal runs the shell that is asked for, or else the one of the environment, or else
/// the plain one.
pub proof fn the_shell_is_the_one_asked_for(asked: Seq<char>, env: Seq<char>)
    ensures
        shell_of(Some(asked), Some(env)) == asked,
        shell_of(Some(asked), None) == asked,
        shell_of(None, Some(env)) == env,
        shell_of(None, None) == "/bin/sh"@,
{
}

/// A terminal runs from its start until it is known to have ended; its size is the last that
/// it was given, and neither changes what it has written.
pub proof fn a_terminal_runs_until_it_ends(
    size: TerminalSize,
    other: TerminalSize,
    scrollback: usize,
    state: StateView,
    code: Option<u32>,
    bytes: Seq<u8>,
)
    ensures
        started(size, scrollback).is_running && started(size, scrollback).exit_code is None
            && started(size, scrollback).size == size && started(size, scrollback).raw_output.len()
            == 0,
        !exited(state, code).is_running && exited(state, code).exit_code == code,
        !silent(state).is_running && silent(state).exit_code == state.exit_code,
        exited(state, code).raw_output == state.raw_output && exited(state, code).size
            == state.size,
        resized(state, other).size == other && resized(state, other).raw_output
            == state.raw_output && resized(state, other).is_running == state.is_running,
        written(state, bytes).raw_output == state.raw_output + bytes && written(state, bytes).size
            == state.size && written(state, bytes).is_running == state.is_running,
        columns(resized(state, other).steps) == other.cols,
        sent(written(state, bytes).steps) == sent(state.steps) + bytes,
        sent(resized(state, other).steps) == sent(state.steps),
{
    assert(resized(state, other).steps.drop_last() =~= state.steps);
    assert(written(state, bytes).steps.drop_last() =~= state.steps);
}

/// A snapshot shows the terminal that was asked for as it is, and a terminal that does not
/// exist is an error that names it.
pub proof fn a_snapshot_shows_the_terminal_asked_for(
    terminals: Map<u64, StateView>,
    id: TerminalId,
)
    ensures
        terminals.dom().contains(id.0) ==> found(terminals, id) == Ok::<
            StateView,
            TerminalErrorView,
        >(terminals[id.0]),
        !terminals.dom().contains(id.0) ==> found(terminals, id) == Err::<
            StateView,
            TerminalErrorView,
        >(TerminalErrorView::UnknownTerminal { id }),
        terminals.dom().contains(id.0) ==> ({
            let s = terminals[id.0];
            let v = shown(s, id);
            &&& v.id == id
            &&& v.size == s.size
            &&& v.raw_output == text::lossy_text(s.raw_output)
            &&& v.is_running == s.is_running
            &&& v.exit_code == s.exit_code
        }),
{
}

/// An error of a terminal tells what failed, where, and why.
pub proof fn errors_tell_what_failed(path: Seq<char>, source: Seq<char>, id: TerminalId)
    ensures
        error_text(TerminalErrorView::WorkspaceIo { path, source })
            == "failed to inspect workspace "@ + path + ": "@ + source,
        error_text(TerminalErrorView::WorkspaceNotDirectory { path })
            == "workspace is not a directory: "@ + path,
        error_text(TerminalErrorView::OpenPty { source }) == "failed to open PTY: "@ + source,
        error_text(TerminalErrorView::SpawnShell { workspace: path, source })
            == "failed to spawn shell in "@ + path + ": "@ + source,
        error_text(TerminalErrorView::PtyIo { source }) == "PTY I/O setup failed: "@ + source,
        error_text(TerminalErrorView::WriteFailed { source }) == "failed to write to PTY: "@
            + source,
        error_text(TerminalErrorView::ResizeFailed { source }) == "failed to resize PTY: "@
            + source,
        error_text(TerminalErrorView::WaitFailed { source }) == "failed to wait for PTY child: "@
            + source,
        error_text(TerminalErrorView::UnknownTerminal { id }) == "unknown terminal id: "@
            + text::decimal(id.0 as nat),
        error_text(TerminalErrorView::StatePoisoned) == "terminal state lock was poisoned"@,
{
}

} // verus!
