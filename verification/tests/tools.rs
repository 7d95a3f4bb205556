use std::collections::{BTreeMap, BTreeSet};

use inductor::json::{self, Json};
use inductor::sandbox::{Platform, SandboxPolicy};
use inductor::tools::apply::{
    apply_patch_freeform, apply_patch_structured, apply_unified_file_patch, check_rename_source,
    check_rename_target, parse_patch_freeform, StructuredPatch, StructuredPatchOperation, StructuredStep,
};
use inductor::tools::background::{
    bash, bash_cancellable_until, bash_kill, bash_wait, combined_output, must_wait,
    BackgroundCommandStatus, BashOutcome, CommandRegistry,
};
use inductor::tools::edit::{
    edit_file, hashes_equal, multi_edit, read_text_file, sha256_hex, NewlineStyle, TextEdit,
};
use inductor::tools::error::{format_duration, format_partial_output, ToolError};
use inductor::tools::files::{
    check_glob_pattern, check_web_url, glob, glob_file, glob_is_full, glob_search_root, grep,
    grep_file, grep_is_full, grep_lines, line_is_hit, lines_from_to, list_dir, read_file,
    read_file_lines, todo_write, web_fetch, write_file, DirEntry, GrepState, TodoItem,
};
use inductor::tools::line_patch::{apply_line_update, update_file_lines};
use inductor::tools::names::{tool_definitions, tool_list, tool_names, tool_prompt_docs, ToolName};
use inductor::tools::patch::{parse_hunk_old_start, parse_unified_patch, HunkLineKind};
use inductor::tools::paths::{
    file_name_of, is_inside, join_path, parent_of, relative_path, PathAnswer, PathStep,
};
use inductor::tools::result::{cap_output, ToolResult};
use inductor::tools::runtime::{ToolRuntime, WorkspaceFacts};
use inductor::tools::walk::{EntryKind, GlobSearch, GrepSearch, WalkEntry, WalkStep};

/// A file system in memory.
struct Disk {
    dirs: BTreeSet<String>,
    files: BTreeMap<String, String>,
}

/// The path without dots.
fn plain(path: &str) -> String {
    let mut parts: Vec<&str> = Vec::new();
    for part in path.split('/') {
        match part {
            "" | "." => {}
            ".." => {
                parts.pop();
            }
            _ => parts.push(part),
        }
    }
    format!("/{}", parts.join("/"))
}

impl Disk {
    fn new() -> Disk {
        let mut disk = Disk {
            dirs: BTreeSet::new(),
            files: BTreeMap::new(),
        };
        disk.make_dir("/ws");
        disk.make_dir("/tmp");
        disk
    }

    fn make_dir(&mut self, path: &str) {
        let mut at = String::new();
        self.dirs.insert("/".to_string());
        for part in plain(path).split('/').filter(|part| !part.is_empty()) {
            at.push('/');
            at.push_str(part);
            self.dirs.insert(at.clone());
        }
    }

    fn write(&mut self, path: &str, content: &str) {
        let path = plain(path);
        if let Some(parent) = parent_of(&path) {
            self.make_dir(&parent);
        }
        self.files.insert(path, content.to_string());
    }

    fn has(&self, path: &str) -> bool {
        let path = plain(path);
        self.dirs.contains(&path) || self.files.contains_key(&path)
    }

    fn canonical(&self, path: &str) -> PathAnswer {
        if self.has(path) {
            PathAnswer::Canonical(plain(path))
        } else {
            PathAnswer::Failed("no such file".to_string())
        }
    }

    /// The file that a path means.
    fn resolve(
        &mut self,
        runtime: &ToolRuntime,
        input: &str,
        write: bool,
    ) -> Result<String, ToolError> {
        let request = runtime.path_request(input, write);
        let mut step = request.start()?;
        loop {
            let answer = match &step {
                PathStep::AnchorExists { .. } => PathAnswer::Exists(self.has(input)),
                PathStep::Anchor { path, .. } => self.canonical(path),
                PathStep::Existing { path } => self.canonical(path),
                PathStep::TargetExists { path } => PathAnswer::Exists(self.has(path)),
                PathStep::CreateParent { parent, .. } => {
                    let parent = parent.clone();
                    self.make_dir(&parent);
                    PathAnswer::Created
                }
                PathStep::Parent { parent, .. } => self.canonical(parent),
                PathStep::Done { path } => return Ok(path.clone()),
            };
            step = request.advance(step, answer)?;
        }
    }

    fn read_file(&mut self, runtime: &ToolRuntime, input: &str) -> Result<ToolResult, ToolError> {
        let path = self.resolve(runtime, input, false)?;
        let content = self.files[&path].clone();
        Ok(read_file(
            runtime.workspace_root(),
            &path,
            content,
            runtime.output_limit_bytes(),
        ))
    }

    fn write_file(
        &mut self,
        runtime: &ToolRuntime,
        input: &str,
        content: &str,
    ) -> Result<ToolResult, ToolError> {
        let path = self.resolve(runtime, input, true)?;
        self.files.insert(path.clone(), content.to_string());
        Ok(write_file(runtime.workspace_root(), &path, content))
    }

    fn edit_file(
        &mut self,
        path: &str,
        old: &str,
        new: &str,
        expected_hash: Option<&str>,
    ) -> Result<ToolResult, ToolError> {
        let bytes = self.files[path].clone().into_bytes();
        let outcome = edit_file(path, path, bytes, old, new, expected_hash)?;
        self.files.insert(path.to_string(), outcome.content);
        Ok(outcome.result)
    }

    fn rename(
        &mut self,
        from: &str,
        to: &str,
        expected_hash: Option<&str>,
    ) -> Result<(), ToolError> {
        let bytes = self.files[from].clone().into_bytes();
        check_rename_source(from, bytes, expected_hash)?;
        check_rename_target(to, self.has(to))?;
        let content = self.files.remove(from).unwrap();
        self.files.insert(to.to_string(), content);
        Ok(())
    }

    fn apply_structured(&mut self, patch: &StructuredPatch) -> Result<ToolResult, ToolError> {
        let mut changed = 0;
        loop {
            match apply_patch_structured(patch, changed)? {
                StructuredStep::Done(result) => return Ok(result),
                StructuredStep::Operation(StructuredPatchOperation::Edit {
                    path,
                    old,
                    new,
                    expected_hash,
                }) => {
                    self.edit_file(path, old, new, expected_hash.as_deref())?;
                }
                StructuredStep::Operation(StructuredPatchOperation::MultiEdit {
                    path,
                    edits,
                    expected_hash,
                }) => {
                    let bytes = self.files[path].clone().into_bytes();
                    let outcome = multi_edit(path, path, bytes, edits, expected_hash.as_deref())?;
                    self.files.insert(path.clone(), outcome.content);
                }
                StructuredStep::Operation(StructuredPatchOperation::Rename {
                    from,
                    to,
                    expected_hash,
                }) => {
                    self.rename(from, to, expected_hash.as_deref())?;
                }
            }
            changed += 1;
        }
    }

    fn apply_freeform(&mut self, patch: &str) -> Result<ToolResult, ToolError> {
        let files = parse_patch_freeform(patch)?;
        for file in &files {
            let bytes = self.files[&file.path].clone().into_bytes();
            let content = apply_unified_file_patch(&file.path, bytes, file)?;
            self.files.insert(file.path.clone(), content);
        }
        Ok(apply_patch_freeform(&files))
    }
}

fn facts(root: &str) -> WorkspaceFacts {
    WorkspaceFacts {
        is_dir: Ok(true),
        canonical: Ok(root.to_string()),
    }
}

fn runtime() -> ToolRuntime {
    ToolRuntime::new("/ws", facts("/ws")).unwrap()
}

fn text_of(metadata: &Json, name: &str) -> String {
    metadata.get_str(name).unwrap().to_string()
}

fn number_of(metadata: &Json, name: &str) -> u64 {
    metadata.get_u64(name).unwrap()
}

#[test]
fn read_file_reads_workspace_relative_file() {
    let mut disk = Disk::new();
    disk.write("/ws/hello.txt", "hello");

    let result = disk.read_file(&runtime(), "hello.txt").unwrap();

    assert_eq!(result.name, ToolName::ReadFile);
    assert_eq!(result.output, "hello");
    assert_eq!(text_of(&result.metadata, "path"), "hello.txt");
    assert_eq!(number_of(&result.metadata, "bytes"), 5);
}

#[test]
fn list_dir_returns_sorted_entries_and_marks_directories() {
    let entries = vec![
        DirEntry {
            name: "src".to_string(),
            is_dir: true,
        },
        DirEntry {
            name: "Cargo.toml".to_string(),
            is_dir: false,
        },
    ];

    let result = list_dir("/ws", "/ws", true, &entries).unwrap();

    assert_eq!(result.name, ToolName::ListDir);
    assert_eq!(result.output, "Cargo.toml\nsrc/");
    assert_eq!(number_of(&result.metadata, "entries"), 2);
    assert!(matches!(
        list_dir("/ws", "/ws/hello.txt", false, &entries),
        Err(ToolError::NotDirectory { .. })
    ));
}

#[test]
fn glob_matches_workspace_relative_paths() {
    let mut found = Vec::new();
    for path in ["/ws/src/lib.rs", "/ws/src/bin/main.rs", "/ws/README.md"] {
        glob_file(&mut found, "/ws", path, "src/*.rs");
    }

    let result = glob("/ws", "/ws", "src/*.rs", &found);

    assert_eq!(result.name, ToolName::Glob);
    assert!(result.output.contains("src/lib.rs"));
    assert!(result.output.contains("src/bin/main.rs"));
    assert!(!result.output.contains("README.md"));
    assert_eq!(text_of(&result.metadata, "pattern"), "src/*.rs");
    assert_eq!(number_of(&result.metadata, "matches"), 2);
}

#[test]
fn todo_write_formats_task_list() {
    let result = todo_write(&[TodoItem {
        content: "Add glob tool".to_string(),
        status: "completed".to_string(),
    }])
    .unwrap();

    assert_eq!(result.name, ToolName::TodoWrite);
    assert_eq!(result.output, "1. [completed] Add glob tool");
    assert_eq!(number_of(&result.metadata, "items"), 1);
    assert_eq!(number_of(&result.metadata, "completed"), 1);
    assert!(matches!(todo_write(&[]), Err(ToolError::EmptyTodoList)));
}

#[test]
fn web_fetch_rejects_non_http_urls() {
    let error = check_web_url("file:///tmp/nope").unwrap_err();

    assert!(matches!(error, ToolError::InvalidUrl(_)));
}

#[test]
fn write_file_refuses_parent_escape() {
    let error = Disk::new()
        .write_file(&runtime(), "../outside.txt", "nope")
        .unwrap_err();

    assert!(matches!(error, ToolError::PathEscapesWorkspace { .. }));
}

#[test]
fn write_file_creates_missing_parent_dirs() {
    let mut disk = Disk::new();

    disk.write_file(&runtime(), "todo-app/backend/package.json", "{}")
        .unwrap();

    assert_eq!(disk.files["/ws/todo-app/backend/package.json"], "{}");
}

#[test]
fn write_file_refuses_absolute_paths() {
    let error = Disk::new()
        .write_file(&runtime(), "/tmp/outside.txt", "nope")
        .unwrap_err();

    assert!(matches!(error, ToolError::AbsolutePath { .. }));
}

#[test]
fn approved_runtime_allows_absolute_path_outside_workspace() {
    let mut disk = Disk::new();
    disk.write("/other/memory.md", "remember this");
    let runtime = runtime();

    let locked = disk.read_file(&runtime, "/other/memory.md").unwrap_err();
    assert!(matches!(locked, ToolError::AbsolutePath { .. }));

    let approved = runtime.approved_outside_access();
    let result = disk.read_file(&approved, "/other/memory.md").unwrap();

    assert_eq!(result.output, "remember this");
    assert_eq!(text_of(&result.metadata, "path"), "/other/memory.md");
}

#[test]
fn unrestricted_runtime_allows_reads_and_writes_outside_workspace() {
    let mut disk = Disk::new();
    disk.write("/other/memory.md", "remember this");

    let runtime = ToolRuntime::unrestricted("/ws", facts("/ws")).unwrap();
    let read = disk.read_file(&runtime, "/other/memory.md").unwrap();
    assert_eq!(read.output, "remember this");

    disk.write_file(&runtime, "/other/notes/new.md", "new memory")
        .unwrap();
    assert_eq!(disk.files["/other/notes/new.md"], "new memory");
}

#[test]
fn read_file_accepts_absolute_path_inside_workspace() {
    let mut disk = Disk::new();
    disk.write("/ws/CONTEXT.md", "context");

    let result = disk.read_file(&runtime(), "/ws/CONTEXT.md").unwrap();

    assert_eq!(result.output, "context");
    assert_eq!(text_of(&result.metadata, "path"), "CONTEXT.md");
}

#[test]
fn write_file_accepts_new_absolute_path_inside_workspace() {
    let mut disk = Disk::new();

    disk.write_file(&runtime(), "/ws/new.md", "new").unwrap();

    assert_eq!(disk.files["/ws/new.md"], "new");
}

#[test]
fn write_file_creates_file_inside_workspace() {
    let mut disk = Disk::new();

    let result = disk.write_file(&runtime(), "nested.txt", "hello").unwrap();

    assert_eq!(result.name, ToolName::WriteFile);
    assert_eq!(disk.files["/ws/nested.txt"], "hello");
}

#[test]
fn grep_returns_matching_lines_with_relative_paths() {
    let state = GrepState {
        output: String::new(),
        matches: 0,
    };
    let shown = relative_path("/ws", "/ws/src/lib.rs");

    let state = grep_file(state, &shown, "one\nneedle\nthree", "needle", 100);
    let result = grep("needle", state, 65536);

    assert_eq!(result.name, ToolName::Grep);
    assert_eq!(result.output, "src/lib.rs:2:needle\n");
}

#[test]
fn a_search_stops_at_its_limit() {
    let state = GrepState {
        output: String::new(),
        matches: 0,
    };
    let state = grep_file(state, "a", "x\nx\nx\n", "x", 2);
    assert_eq!(state.output, "a:1:x\na:2:x\n");
    assert!(grep_is_full(&state, 2));
    assert!(!grep_is_full(&state, 3));
}

#[test]
fn a_blank_pattern_finds_nothing() {
    assert!(matches!(check_glob_pattern("  "), Err(ToolError::InvalidPattern(_))));
    assert!(check_glob_pattern("*.rs").is_ok());
    let result = glob("/ws", "/ws/src", "*.rs", &Vec::new());
    assert_eq!(result.output, "No files found");
    assert_eq!(text_of(&result.metadata, "path"), "src");
    assert_eq!(glob_search_root("/ws", "/ws/src/lib.rs", false), "/ws/src");
    assert_eq!(glob_search_root("/ws", "/ws/src", true), "/ws/src");
}

#[test]
fn many_matches_are_truncated() {
    let mut found = Vec::new();
    for i in 0..150 {
        if glob_is_full(&found) {
            break;
        }
        glob_file(&mut found, "/ws", &format!("/ws/f{i}.rs"), "*.rs");
    }
    assert_eq!(found.len(), 100);
    let result = glob("/ws", "/ws", "*.rs", &found);
    assert!(result
        .output
        .ends_with("\n(Results truncated: showing first 100 matches.)"));
    assert_eq!(number_of(&result.metadata, "matches"), 100);
}

#[test]
fn bash_runs_inside_workspace() {
    let output = combined_output(b"/ws\ndone", b"");
    let result = bash("pwd && printf done", output, Some(0), 65536);

    assert_eq!(result.name, ToolName::Bash);
    assert_eq!(result.exit_code, Some(0));
    assert!(result.output.contains("/ws"));
    assert!(result.output.contains("done"));
}

#[test]
fn bash_reports_nonzero_exit_code() {
    let result = bash("exit 7", combined_output(b"", b""), Some(7), 65536);

    assert_eq!(result.exit_code, Some(7));
}

fn checkpointed(registry: &mut CommandRegistry, output: &str) -> String {
    let error = bash_cancellable_until(
        registry,
        "printf partial; sleep 1; printf done",
        Some(30),
        BashOutcome::Checkpoint,
        output.to_string(),
        65536,
    )
    .unwrap_err();
    match error {
        ToolError::CommandCheckpoint {
            command_id,
            output: shown,
            ..
        } => {
            assert!(shown.contains(output));
            command_id
        }
        other => panic!("expected checkpoint, got {other:?}"),
    }
}

#[test]
fn bash_wait_returns_final_output_after_checkpoint() {
    let mut registry = CommandRegistry::new();
    let id = checkpointed(&mut registry, "partial");
    assert!(must_wait(&registry, &id).unwrap());

    registry.set_status(&id, BackgroundCommandStatus::Completed { exit_code: Some(0) });
    assert!(!must_wait(&registry, &id).unwrap());
    let result = bash_wait(&mut registry, &id, 1, 2, "partialdone".to_string(), 65536).unwrap();

    assert_eq!(result.name, ToolName::BashWait);
    assert_eq!(result.exit_code, Some(0));
    assert!(result.output.contains("Final output"));
    assert!(result.output.contains("partialdone"));
    assert!(matches!(
        must_wait(&registry, &id),
        Err(ToolError::UnknownBackgroundCommand { .. })
    ));
}

#[test]
fn bash_checkpoint_does_not_interrupt_command() {
    let mut registry = CommandRegistry::new();
    let id = checkpointed(&mut registry, "partial");

    let result = bash_wait(&mut registry, &id, 60, 30, "partial".to_string(), 65536).unwrap();
    assert_eq!(result.name, ToolName::BashWait);
    assert!(result.output.contains("NOT killed"));
    assert!(must_wait(&registry, &id).unwrap());

    registry.set_status(&id, BackgroundCommandStatus::Completed { exit_code: Some(0) });
    let result = bash_wait(&mut registry, &id, 61, 0, "partial".to_string(), 65536).unwrap();
    assert!(result.output.contains("Final output"));
    assert!(result.output.contains("partial"));
}

#[test]
fn bash_kill_stops_checkpointed_command_tree() {
    let mut registry = CommandRegistry::new();
    let id = checkpointed(&mut registry, "start");

    assert!(matches!(
        bash_kill(&mut registry, &id, true, 5, String::new(), 65536),
        Err(ToolError::CommandKillTimedOut { .. })
    ));
    registry.set_status(&id, BackgroundCommandStatus::Killed { exit_code: None });
    let result = bash_kill(&mut registry, &id, false, 5, "start".to_string(), 65536).unwrap();

    assert_eq!(result.name, ToolName::BashKill);
    assert!(result.output.contains("killed"));
    assert!(result.output.contains("start"));
}

#[test]
fn commands_get_ids_of_their_own() {
    let mut registry = CommandRegistry::new();
    assert_eq!(registry.enter("true"), "bash-1");
    assert_eq!(registry.enter("true"), "bash-2");
    registry.remove_background_command("bash-1");
    assert_eq!(registry.enter("true"), "bash-3");
    assert_eq!(registry.background_command("bash-2").unwrap().command, "true");
    assert!(registry.background_command("bash-1").is_err());
}

#[test]
fn commands_can_fail_and_be_cancelled() {
    let mut registry = CommandRegistry::new();
    let failed = bash_cancellable_until(
        &mut registry,
        "true",
        None,
        BashOutcome::Failed {
            source: "no shell".to_string(),
        },
        String::new(),
        65536,
    );
    assert!(matches!(failed, Err(ToolError::CommandSpawnFailed { .. })));
    let cancelled = bash_cancellable_until(
        &mut registry,
        "true",
        None,
        BashOutcome::Cancelled,
        String::new(),
        65536,
    );
    assert!(matches!(cancelled, Err(ToolError::CommandCancelled { .. })));
}

#[test]
fn output_cap_preserves_utf8_boundaries() {
    let capped = cap_output("aaébb".to_string(), 4);

    assert_eq!(capped.text, "aaé");
    assert!(capped.truncated);
    assert!(!cap_output("aaé".to_string(), 4).truncated);
    assert_eq!(cap_output("aaé".to_string(), 3).text, "aa");
}

#[test]
fn edit_file_replaces_one_exact_match() {
    let mut disk = Disk::new();
    disk.write("/ws/main.rs", "fn main() {\n    todo!();\n}\n");

    let result = disk
        .edit_file("/ws/main.rs", "todo!();", "println!(\"hi\");", None)
        .unwrap();

    assert_eq!(result.name, ToolName::EditFile);
    assert_eq!(
        disk.files["/ws/main.rs"],
        "fn main() {\n    println!(\"hi\");\n}\n"
    );
}

#[test]
fn edit_file_preserves_crlf_line_endings() {
    let mut disk = Disk::new();
    disk.write("/ws/file.txt", "one\r\ntwo\r\nthree\r\n");

    disk.edit_file("/ws/file.txt", "two\n", "TWO\n", None).unwrap();

    assert_eq!(disk.files["/ws/file.txt"], "one\r\nTWO\r\nthree\r\n");
}

#[test]
fn edit_file_preserves_missing_trailing_newline() {
    let mut disk = Disk::new();
    disk.write("/ws/file.txt", "one\ntwo");

    disk.edit_file("/ws/file.txt", "two", "TWO", None).unwrap();

    assert_eq!(disk.files["/ws/file.txt"], "one\nTWO");
}

#[test]
fn edit_file_rejects_non_unique_match() {
    let mut disk = Disk::new();
    disk.write("/ws/file.txt", "x\nx\n");

    let error = disk.edit_file("/ws/file.txt", "x", "y", None).unwrap_err();

    assert!(matches!(error, ToolError::EditTargetNotUnique { count: 2, .. }));
}

#[test]
fn edit_file_is_idempotent_when_replacement_already_exists() {
    let mut disk = Disk::new();
    disk.write("/ws/file.txt", "new\n");

    disk.edit_file("/ws/file.txt", "old", "new", None).unwrap();

    assert_eq!(disk.files["/ws/file.txt"], "new\n");
}

#[test]
fn edit_file_rejects_binary_file() {
    let error = edit_file(
        "/ws/file.bin",
        "file.bin",
        b"abc\0def".to_vec(),
        "abc",
        "xyz",
        None,
    )
    .unwrap_err();

    assert!(matches!(error, ToolError::BinaryFile { .. }));
    assert!(matches!(
        read_text_file("/ws/file.bin", vec![0xff, 0xfe], None),
        Err(ToolError::BinaryFile { .. })
    ));
}

#[test]
fn edit_file_rejects_stale_expected_hash() {
    let mut disk = Disk::new();
    disk.write("/ws/file.txt", "current");

    let error = disk
        .edit_file("/ws/file.txt", "current", "new", Some(&sha256_hex(b"old")))
        .unwrap_err();

    assert!(matches!(error, ToolError::StaleFile { .. }));
    disk.edit_file("/ws/file.txt", "current", "new", Some(&sha256_hex(b"current")))
        .unwrap();
}

#[test]
fn edits_can_be_empty_or_without_target() {
    let mut disk = Disk::new();
    disk.write("/ws/file.txt", "current");
    assert!(matches!(
        disk.edit_file("/ws/file.txt", "", "new", None),
        Err(ToolError::EmptyEdit)
    ));
    assert!(matches!(
        disk.edit_file("/ws/file.txt", "absent", "new", None),
        Err(ToolError::EditTargetNotFound { .. })
    ));
    assert!(matches!(
        multi_edit("/ws/file.txt", "file.txt", b"x".to_vec(), &[], None),
        Err(ToolError::EmptyEdit)
    ));
}

#[test]
fn hashes_are_sha256_in_hex() {
    assert_eq!(
        sha256_hex(b"abc"),
        "ba7816bf8f01cfea414140de5dae2223b00361a396177a9cb410ff61f20015ad"
    );
    assert!(hashes_equal("ABCDEF", "abcdef"));
    assert!(!hashes_equal("abcdef", "abcdee"));
}

#[test]
fn line_ends_of_a_file_are_told_apart() {
    let file = read_text_file("a", b"x\r\ny".to_vec(), None).unwrap();
    assert_eq!(file.newline, NewlineStyle::Crlf);
    let file = read_text_file("a", b"x\ny".to_vec(), None).unwrap();
    assert_eq!(file.newline, NewlineStyle::Lf);
}

#[test]
fn multi_edit_applies_edits_in_order() {
    let edits = vec![
        TextEdit::new("alpha", "ALPHA"),
        TextEdit::new("gamma", "GAMMA"),
    ];

    let outcome = multi_edit(
        "/ws/file.txt",
        "file.txt",
        b"alpha\nbeta\ngamma\n".to_vec(),
        &edits,
        None,
    )
    .unwrap();

    assert_eq!(outcome.content, "ALPHA\nbeta\nGAMMA\n");
    assert_eq!(outcome.result.name, ToolName::MultiEdit);
}

#[test]
fn structured_patch_renames_and_rejects_existing_target() {
    let mut disk = Disk::new();
    disk.write("/ws/from.txt", "body");
    disk.write("/ws/to.txt", "collision");
    let patch = StructuredPatch {
        operations: vec![StructuredPatchOperation::Rename {
            from: "/ws/from.txt".to_string(),
            to: "/ws/to.txt".to_string(),
            expected_hash: None,
        }],
    };

    let error = disk.apply_structured(&patch).unwrap_err();

    assert!(matches!(error, ToolError::RenameTargetExists { .. }));
    assert!(disk.has("/ws/from.txt"));
}

#[test]
fn structured_patch_applies_edit_and_rename() {
    let mut disk = Disk::new();
    disk.write("/ws/file.txt", "hello\n");
    let expected_hash = sha256_hex(b"hello\n");
    let patch = StructuredPatch {
        operations: vec![
            StructuredPatchOperation::Edit {
                path: "/ws/file.txt".to_string(),
                old: "hello".to_string(),
                new: "hi".to_string(),
                expected_hash: Some(expected_hash),
            },
            StructuredPatchOperation::Rename {
                from: "/ws/file.txt".to_string(),
                to: "/ws/renamed.txt".to_string(),
                expected_hash: None,
            },
        ],
    };

    let result = disk.apply_structured(&patch).unwrap();

    assert!(!disk.has("/ws/file.txt"));
    assert_eq!(disk.files["/ws/renamed.txt"], "hi\n");
    assert_eq!(number_of(&result.metadata, "operations"), 2);
    let nothing = StructuredPatch {
        operations: Vec::new(),
    };
    assert!(matches!(
        disk.apply_structured(&nothing),
        Err(ToolError::EmptyPatch)
    ));
}

const PATCH: &str = "\
--- a/file.txt
+++ b/file.txt
@@ -1,3 +1,3 @@
 one
-two
+TWO
 three
";

#[test]
fn freeform_patch_applies_unified_diff() {
    let mut disk = Disk::new();
    disk.files.insert("file.txt".to_string(), "one\ntwo\nthree\n".to_string());

    let result = disk.apply_freeform(PATCH).unwrap();

    assert_eq!(disk.files["file.txt"], "one\nTWO\nthree\n");
    assert_eq!(result.output, "applied unified patch to 1 file(s)");
}

#[test]
fn freeform_patch_is_idempotent_when_hunk_already_applied() {
    let mut disk = Disk::new();
    disk.files.insert("file.txt".to_string(), "one\nTWO\nthree\n".to_string());

    disk.apply_freeform(PATCH).unwrap();

    assert_eq!(disk.files["file.txt"], "one\nTWO\nthree\n");
}

#[test]
fn patches_are_taken_apart() {
    let files = parse_unified_patch(PATCH).unwrap();
    assert_eq!(files.len(), 1);
    assert_eq!(files[0].path, "file.txt");
    assert_eq!(files[0].hunks[0].old_start, 1);
    let kinds: Vec<HunkLineKind> = files[0].hunks[0].lines.iter().map(|line| line.kind).collect();
    assert_eq!(
        kinds,
        vec![
            HunkLineKind::Context,
            HunkLineKind::Remove,
            HunkLineKind::Add,
            HunkLineKind::Context,
        ]
    );
    assert_eq!(parse_hunk_old_start("@@ -12,3 +14,3 @@").unwrap(), 12);
    assert!(matches!(
        parse_hunk_old_start("@@ nonsense @@"),
        Err(ToolError::InvalidPatch(_))
    ));
    assert!(matches!(
        parse_patch_freeform("nothing to do"),
        Err(ToolError::EmptyPatch)
    ));
}

#[test]
fn a_hunk_without_its_lines_is_refused() {
    let mut disk = Disk::new();
    disk.files.insert("file.txt".to_string(), "other\n".to_string());

    let error = disk.apply_freeform(PATCH).unwrap_err();

    assert!(matches!(error, ToolError::PatchApplyFailed { .. }));
}

#[test]
fn paths_are_taken_apart() {
    assert!(is_inside("/ws", "/ws/src"));
    assert!(!is_inside("/ws", "/wsx"));
    assert_eq!(join_path("/ws", "src"), "/ws/src");
    assert_eq!(join_path("/ws", "/etc"), "/etc");
    assert_eq!(parent_of("/ws/src").as_deref(), Some("/ws"));
    assert_eq!(file_name_of("/ws/src").as_deref(), Some("src"));
    assert_eq!(relative_path("/ws", "/ws/src/lib.rs"), "src/lib.rs");
    assert_eq!(relative_path("/ws", "/etc/hosts"), "/etc/hosts");
}

#[test]
fn links_that_lead_out_are_refused() {
    let request = runtime().path_request("link.txt", false);
    let step = request.start().unwrap();
    assert!(matches!(&step, PathStep::Existing { .. }));
    let error = request
        .advance(step, PathAnswer::Canonical("/etc/passwd".to_string()))
        .unwrap_err();
    assert!(matches!(error, ToolError::PathEscapesWorkspace { .. }));
}

#[test]
fn a_workspace_is_a_directory() {
    let error = ToolRuntime::new(
        "/ws/file",
        WorkspaceFacts {
            is_dir: Ok(false),
            canonical: Ok("/ws/file".to_string()),
        },
    )
    .unwrap_err();
    assert!(matches!(error, ToolError::WorkspaceNotDirectory { .. }));
    let error = ToolRuntime::new(
        "/ws",
        WorkspaceFacts {
            is_dir: Err("no such file".to_string()),
            canonical: Ok("/ws".to_string()),
        },
    )
    .unwrap_err();
    assert!(matches!(error, ToolError::WorkspaceIo { .. }));
}

#[test]
fn a_sandboxed_runtime_confines_commands() {
    let runtime = ToolRuntime::sandboxed("/ws/.", facts("/ws"), Some("/tmp")).unwrap();
    let (program, args) = runtime
        .sandbox()
        .wrap_shell_command(Platform::MacOs, "echo hi > inside.txt");
    assert_eq!(program, "sandbox-exec");
    assert!(args[1].contains("(subpath \"/ws\")"));
    assert!(!runtime.approved_outside_access().sandbox().is_enforced(Platform::MacOs));

    let open = SandboxPolicy::Restricted {
        write_roots: vec!["/".to_string()],
        deny_network: false,
    };
    let runtime = ToolRuntime::with_sandbox("/ws", facts("/ws"), open).unwrap();
    assert!(runtime.sandbox().is_enforced(Platform::MacOs));
    assert_eq!(runtime.grep_match_limit(), 100);
}

#[test]
fn web_replies_are_shown() {
    assert_eq!(check_web_url(" https://example.test ").unwrap(), "https://example.test");
    let reply = Ok(("200 OK".to_string(), 200, "hello".to_string()));
    let result = web_fetch("https://example.test", reply, 65536).unwrap();
    assert_eq!(result.name, ToolName::WebFetch);
    assert_eq!(result.output, "status: 200 OK\nurl: https://example.test\n\nhello");
    assert_eq!(number_of(&result.metadata, "status"), 200);
    let failed = web_fetch("https://example.test", Err("timed out".to_string()), 65536);
    assert!(matches!(failed, Err(ToolError::WebFetchFailed { .. })));
}

#[test]
fn a_search_takes_regular_expressions() {
    let state = GrepState { output: String::new(), matches: 0 };
    let state = grep_file(state, "a.txt", "foo1\nbar\nfoo[0-9]\n", "foo[0-9]", 100);
    assert_eq!(state.output, "a.txt:1:foo1\na.txt:3:foo[0-9]\n");
    assert_eq!(state.matches, 2);
    let state = GrepState { output: String::new(), matches: 0 };
    let state = grep_file(state, "a.txt", "x(\ny\n", "x(", 100);
    assert_eq!(state.output, "a.txt:1:x(\n");
    assert!(line_is_hit("abc", "z", Some(true)));
    assert!(!line_is_hit("abc", "z", Some(false)));
    assert!(!line_is_hit("abc", "z", None));
    let state = GrepState { output: String::new(), matches: 0 };
    let lines = vec!["a".to_string(), "b".to_string(), "c".to_string()];
    let state = grep_lines(state, "f", &lines, &vec![false, true, true], 1);
    assert_eq!(state.output, "f:2:b\n");
}

#[test]
fn lines_are_updated_where_they_are_what_they_were_taken_for() {
    let content = "one\ntwo\nthree\n";
    assert_eq!(
        apply_line_update(content, 2, 2, "two\n", "TWO\n").unwrap(),
        "one\nTWO\nthree\n"
    );
    assert_eq!(apply_line_update(content, 1, 3, content, "").unwrap(), "");
    assert_eq!(
        apply_line_update("a\nb", 2, 2, "b", "c").unwrap(),
        "a\nc"
    );
    for (start, end, old) in [(2, 2, "two"), (0, 1, "one\n"), (3, 2, ""), (3, 4, "three\n")] {
        match apply_line_update(content, start, end, old, "x") {
            Err(ToolError::InvalidPatch(message)) => {
                assert_eq!(message, format!("lines {start}-{end} do not match the old text"));
            }
            other => panic!("{other:?}"),
        }
    }
    assert_eq!(
        update_file_lines("a", b"one\r\ntwo\r\n".to_vec(), 1, 1, "one\n", "ONE\n").unwrap(),
        "ONE\r\ntwo\r\n"
    );
    assert!(matches!(
        update_file_lines("a", b"one\n".to_vec(), 1, 1, "two\n", "x"),
        Err(ToolError::PatchApplyFailed { path, message })
            if path == "a" && message == "lines 1-1 do not match the old text"
    ));
    assert!(matches!(
        update_file_lines("a", vec![0, 1], 1, 1, "two\n", "x"),
        Err(ToolError::BinaryFile { .. })
    ));
}

#[test]
fn only_text_with_the_expected_hash_is_renamed() {
    let hash = sha256_hex(b"text");
    assert!(check_rename_source("a", b"text".to_vec(), None).is_ok());
    assert!(check_rename_source("a", b"text".to_vec(), Some(&hash)).is_ok());
    assert!(matches!(
        check_rename_source("a", vec![0], None),
        Err(ToolError::BinaryFile { path }) if path == "a"
    ));
    assert!(matches!(
        check_rename_source("a", b"other".to_vec(), Some(&hash)),
        Err(ToolError::StaleFile { .. })
    ));
    assert!(matches!(
        check_rename_target("b", true),
        Err(ToolError::RenameTargetExists { path }) if path == "b"
    ));
}

#[test]
fn a_range_of_lines_is_read() {
    let text = "one\ntwo\nthree";
    assert_eq!(lines_from_to(text, Some(2), Some(2)), "two\n");
    assert_eq!(lines_from_to(text, Some(2), None), "two\nthree");
    assert_eq!(lines_from_to(text, None, Some(1)), "one\n");
    assert_eq!(lines_from_to(text, Some(0), Some(9)), text);
    assert_eq!(lines_from_to(text, Some(3), Some(2)), "");
    assert_eq!(lines_from_to(text, Some(4), None), "");
    let result = read_file_lines("/ws", "/ws/a.txt", text.to_string(), Some(3), None, 4);
    assert_eq!(result.output, "thre");
    assert!(result.truncated);
    assert_eq!(number_of(&result.metadata, "bytes"), 13);
}

#[test]
fn each_tool_is_documented_in_a_line() {
    let docs = tool_prompt_docs();
    let lines: Vec<&str> = docs.lines().collect();
    let definitions = tool_definitions();
    assert_eq!(lines.len(), definitions.len());
    for (line, definition) in lines.iter().zip(&definitions) {
        let start = format!("- {} ", definition.name.as_str());
        assert!(line.starts_with(&format!("{start}{{")));
        let schema = json::parse(&line[start.len()..]).unwrap();
        assert_eq!(schema.to_text(), definition.input_schema.to_text());
    }
    assert!(!docs.ends_with('\n'));
}

#[test]
fn every_tool_has_a_name_and_a_schema() {
    let names = tool_names();
    assert_eq!(names.len(), tool_list().len());
    for definition in tool_definitions() {
        assert!(names.contains(&definition.name.as_str().to_string()));
        assert_eq!(definition.input_schema.get_str("type"), Some("object"));
        assert!(tool_prompt_docs().contains(definition.name.as_str()));
    }
    assert_eq!(ToolName::ReadFile.as_str(), "read_file");
    assert_eq!(ToolName::ReadFile.title(), "Read File");
}

#[test]
fn errors_are_told() {
    assert_eq!(format_duration(59), "59s");
    assert_eq!(format_duration(125), "2m 5s");
    assert_eq!(
        format_partial_output(" \n"),
        "No output was captured before the checkpoint."
    );
    let error = ToolError::CommandCancelled {
        command: "echo \"a\"\n".to_string(),
    };
    assert_eq!(error.message(), "command cancelled: \"echo \\\"a\\\"\\n\"");
    assert_eq!(ToolError::EmptyPatch.message(), "patch contains no operations");
    let error = ToolError::FreshReadRequired {
        path: "a.txt".to_string(),
    };
    assert_eq!(
        error.message(),
        "line-aware patch of a.txt requires a fresh read_file: the file was written since it was last read"
    );
}

impl Disk {
    /// What lies in a directory.
    fn entries(&self, dir: &str) -> Vec<WalkEntry> {
        let mut entries = Vec::new();
        for path in self.dirs.iter().chain(self.files.keys()) {
            if path != "/" && parent_of(path).as_deref() == Some(dir) {
                let kind = if self.dirs.contains(path) {
                    EntryKind::Dir
                } else {
                    EntryKind::File
                };
                entries.push(WalkEntry {
                    path: path.clone(),
                    kind,
                });
            }
        }
        entries
    }
}

#[test]
fn a_search_goes_through_all_files() {
    let mut disk = Disk::new();
    disk.write("/ws/src/lib.rs", "one\nneedle\nthree");
    disk.write("/ws/src/deep/more.rs", "needle");
    disk.write("/ws/notes.md", "no\nneedle here");

    let mut search = GrepSearch::new("/ws", "needle", 100);
    loop {
        match search.next().unwrap() {
            WalkStep::ReadDir { path } => search.walk.enter(disk.entries(&path)),
            WalkStep::ReadFile { path } => {
                let content = disk.files[&path].clone();
                search = search.read(&path, Some(&content));
            }
            WalkStep::Done => break,
        }
    }
    let result = grep("needle", search.found, 65536);
    assert_eq!(
        result.output,
        "src/deep/more.rs:1:needle\nsrc/lib.rs:2:needle\nnotes.md:2:needle here\n"
    );
    assert_eq!(number_of(&result.metadata, "matches"), 3);

    let mut search = GlobSearch::new("/ws", "/ws", "src/*.rs");
    loop {
        match search.next().unwrap() {
            WalkStep::ReadDir { path } => search.walk.enter(disk.entries(&path)),
            WalkStep::ReadFile { path } => search.met(&path),
            WalkStep::Done => break,
        }
    }
    let result = glob("/ws", "/ws", "src/*.rs", &search.found);
    assert_eq!(result.output, "src/deep/more.rs\nsrc/lib.rs");
}

#[test]
fn a_search_ends_with_the_first_failure() {
    let mut search = GrepSearch::new("/ws", "needle", 1);
    assert!(matches!(search.next(), Ok(WalkStep::ReadDir { path }) if path == "/ws"));
    search.walk.enter(vec![
        WalkEntry {
            path: "/ws/socket".to_string(),
            kind: EntryKind::Other,
        },
        WalkEntry {
            path: "/ws/gone".to_string(),
            kind: EntryKind::Failed {
                source: "no such file".to_string(),
            },
        },
    ]);
    assert!(matches!(search.next(), Err(ToolError::Io { path, .. }) if path == "/ws/gone"));
}
