use std::collections::{BTreeMap, VecDeque};

use inductor::json::{self, Json};
use inductor::provider::common::{
    ask_questions, format_answers, ProviderToolResponse, QuestionReply,
};
use inductor::runtime::approver::{Approver, AutoApprove, AutoDeny};
use inductor::runtime::call::{
    execute_tool_call, execute_tool_call_cancellable_until, parse_tool_call, ParsedToolCall,
    ToolAction, ToolCallParseError, ToolExecError, READ_BLOB_DEFAULT_BYTES,
};
use inductor::runtime::diff::{diff_hunk_ranges, generate_diff_lines, unified_line_diff};
use inductor::runtime::events::{QuestionAnswer, SessionEvent};
use inductor::runtime::local::{
    format_elapsed, tool_progress, ApprovalRequest, LocalAction, LocalAttempt, LocalRun,
    LocalToolRunStatus,
};
use inductor::runtime::prompt::{
    advertised_tool_names_for_hooks, generic_tools_preamble, parse_multimodal_prompt, prepare,
    request_metadata, ContextMessage, HarnessConfig, ImageAttachment, MessagePart, PluginHooks,
    PreparedContext, PromptComposer, PromptRuntimeConfig, ProviderFamily, SystemEnvironment,
};
use inductor::runtime::risk::{classify, is_mutating_tool_name, AllowStore, PermissionService};
use inductor::runtime::session::{Role, SessionState, TranscriptMessage};
use inductor::runtime::targets::{
    diagnostic, get_outside_path, patch, resolve_workspace_path, sandbox_denied_result, summarize_patch,
    tool_target_paths, workspace_relative_key, ToolHashCache, ToolTarget,
};
use inductor::runtime::turn::{Turn, TurnAction};
use inductor::runtime::types::{
    AllowRule, AllowRuleKind, ApprovalPolicy, PermissionDecision, PermissionRequestId, RiskFlag,
    SessionId, SessionStatus, StopReason, ToolCallId,
};
use inductor::textmap::TextMap;
use inductor::tools::background::{
    bash as bash_result, bash_cancellable_until, bash_wait, BackgroundCommandStatus, BashOutcome,
    CommandRegistry,
};
use inductor::tools::edit::edit_file;
use inductor::tools::error::ToolError;
use inductor::tools::files::{read_blob, read_file, read_file_lines, write_file};
use inductor::tools::line_patch::{
    apply_patch, update_file, update_file_lines, PatchOperation, PatchStep,
};
use inductor::tools::names::{tool_definitions, ToolName};
use inductor::tools::result::ToolResult;
use inductor::tools::runtime::{ToolRuntime, WorkspaceFacts};

const SESSION: SessionId = SessionId(11);

fn call(name: &str, input: &str) -> ParsedToolCall {
    ParsedToolCall {
        name: name.to_string(),
        input: json::parse(input).unwrap(),
    }
}

fn bash(command: &str) -> ParsedToolCall {
    ParsedToolCall {
        name: "bash".to_string(),
        input: Json::object().with("command", Json::text(command)),
    }
}

fn write(path: &str) -> ParsedToolCall {
    ParsedToolCall {
        name: "write_file".to_string(),
        input: Json::object()
            .with("path", Json::text(path))
            .with("content", Json::text("x")),
    }
}

#[test]
fn flags_rm_rf() {
    assert!(classify(&bash("rm -rf build")).contains(&RiskFlag::RecursiveRemove));
    assert!(classify(&bash("rm -fr build")).contains(&RiskFlag::RecursiveRemove));
}

#[test]
fn flags_sudo_and_force_push() {
    assert!(classify(&bash("sudo make install")).contains(&RiskFlag::Sudo));
    assert!(classify(&bash("git push --force origin main")).contains(&RiskFlag::GitForcePush));
}

#[test]
fn flags_package_publish() {
    assert!(classify(&bash("cargo publish")).contains(&RiskFlag::PackagePublish));
}

#[test]
fn flags_global_install_as_outside_write() {
    assert!(classify(&bash("cargo install --path crates/agent --bin inductor --force"))
        .contains(&RiskFlag::WriteOutsideWorkspace));
}

#[test]
fn benign_command_has_no_flags() {
    assert!(classify(&bash("ls -la && pwd")).is_empty());
}

#[test]
fn flags_env_and_dotfiles_and_escapes() {
    assert!(classify(&write(".env")).contains(&RiskFlag::EnvFile));
    assert!(classify(&write(".bashrc")).contains(&RiskFlag::Dotfile));
    assert!(classify(&write("/etc/hosts")).contains(&RiskFlag::WriteOutsideWorkspace));
    assert!(classify(&write("../escape.txt")).contains(&RiskFlag::WriteOutsideWorkspace));
}

#[test]
fn benign_write_has_no_flags() {
    assert!(classify(&write("src/main.rs")).is_empty());
}

#[test]
fn commands_are_classified_in_any_case() {
    assert!(classify(&bash("SUDO make install")).contains(&RiskFlag::Sudo));
}

#[test]
fn allow_store_matches_bash_prefix() {
    let mut store = AllowStore::new();
    store.add(AllowRule::new(AllowRuleKind::BashPrefix, "cargo"));

    assert!(store.is_allowed(&bash("cargo test")));
    assert!(!store.is_allowed(&bash("rm -rf /")));
}

#[test]
fn allow_store_matches_tool_name_and_regex() {
    let store = AllowStore::with_rules(vec![
        AllowRule::new(AllowRuleKind::ToolName, "read_file"),
        AllowRule::new(AllowRuleKind::BashRegex, r"^echo\s"),
    ]);

    assert!(store.is_allowed(&call("read_file", "{\"path\":\"a.txt\"}")));
    assert!(store.is_allowed(&bash("echo hi")));
    assert!(!store.is_allowed(&bash("ls")));
}

#[test]
fn a_broken_pattern_allows_nothing() {
    let store = AllowStore::with_rules(vec![AllowRule::new(AllowRuleKind::BashRegex, "(")]);
    assert!(!store.is_allowed(&bash("(")));
}

#[test]
fn rule_for_bash_uses_program_prefix() {
    let rule = AllowStore::rule_for(&bash("cargo test --all"));
    assert_eq!(rule.kind, AllowRuleKind::BashPrefix);
    assert_eq!(rule.value, "cargo");
}

#[test]
fn the_same_rule_is_kept_once() {
    let mut store = AllowStore::new();
    store.add(AllowRule::new(AllowRuleKind::BashPrefix, "cargo"));
    store.add(AllowRule::new(AllowRuleKind::BashPrefix, "cargo"));
    store.add(AllowRule::new(AllowRuleKind::ToolName, "cargo"));
    assert_eq!(store.rules().len(), 2);
}

#[test]
fn parse_tool_call_returns_none_without_envelope() {
    assert!(parse_tool_call("just a plain answer, no tools here").is_none());
}

#[test]
fn parse_tool_call_extracts_name_and_input() {
    let text = "thinking...\n<inductor_tool_call>{\"name\":\"read_file\",\"input\":{\"path\":\"Cargo.toml\"}}</inductor_tool_call>";

    let parsed = parse_tool_call(text).unwrap().unwrap();

    assert_eq!(parsed.name, "read_file");
    assert_eq!(parsed.input.to_text(), "{\"path\":\"Cargo.toml\"}");
}

#[test]
fn parse_tool_call_defaults_missing_input_to_empty_object() {
    let parsed = parse_tool_call("<inductor_tool_call>{\"name\":\"grep\"}</inductor_tool_call>")
        .unwrap()
        .unwrap();

    assert_eq!(parsed.input.to_text(), "{}");
}

#[test]
fn parse_tool_call_reports_unterminated_envelope() {
    let error = parse_tool_call("<inductor_tool_call>{\"name\":\"grep\"}")
        .unwrap()
        .unwrap_err();

    assert!(matches!(error, ToolCallParseError::Unterminated));
}

#[test]
fn parse_tool_call_reports_invalid_json() {
    let error = parse_tool_call("<inductor_tool_call>not json</inductor_tool_call>")
        .unwrap()
        .unwrap_err();

    assert!(matches!(error, ToolCallParseError::InvalidJson(_)));
}

#[test]
fn parse_tool_call_reports_missing_name() {
    let error = parse_tool_call("<inductor_tool_call>{\"input\":{}}</inductor_tool_call>")
        .unwrap()
        .unwrap_err();

    assert!(matches!(error, ToolCallParseError::MissingName));
}

#[test]
fn web_fetch_is_classified_as_network_access() {
    let call = call("web_fetch", "{\"url\":\"https://example.com\"}");

    assert!(classify(&call).contains(&RiskFlag::NetworkAccess));
}

#[test]
fn allow_store_supports_wildcard_tool_rules() {
    let mut allow = AllowStore::new();
    allow.add(AllowRule {
        kind: AllowRuleKind::ToolName,
        value: "web_*".to_string(),
    });

    assert!(allow.is_allowed(&call("web_fetch", "{\"url\":\"https://example.com\"}")));
}

fn test_environment() -> SystemEnvironment {
    SystemEnvironment {
        model: "test-model".to_string(),
        cwd: "/tmp/inductor-workspace".to_string(),
        workspace_root: "/tmp/inductor-workspace".to_string(),
        is_git_repo: true,
        platform: "test-os".to_string(),
        date_utc: "2026-06-12".to_string(),
    }
}

#[test]
fn native_tools_preamble_includes_environment_context() {
    let preamble = PromptComposer::compose(
        ProviderFamily::Codex,
        &test_environment(),
        &PromptRuntimeConfig::new(),
        &PluginHooks::new(),
        None,
    );

    assert!(preamble.contains("<env>"));
    assert!(preamble.contains("Model: test-model"));
    assert!(preamble.contains("Workspace root: /tmp/inductor-workspace"));
    assert!(preamble.contains("Is workspace a git repo: yes"));
    assert!(preamble.contains("Current date (UTC): 2026-06-12"));
}

#[test]
fn effort_prompt_hint_is_added_for_claude() {
    let preamble = PromptComposer::compose(
        ProviderFamily::Claude,
        &test_environment(),
        &PromptRuntimeConfig::new(),
        &PluginHooks::new(),
        Some("Use high reasoning effort.".to_string()),
    );

    assert!(preamble.contains("high reasoning effort"));
}

#[test]
fn generic_providers_are_told_of_the_envelope() {
    let preamble = generic_tools_preamble();
    assert!(preamble.contains("Inductor coding agent"));
    assert!(preamble.contains("<inductor_tool_call>"));
    assert!(preamble.contains("read_file"));
}

fn prepared_context(content: &str) -> PreparedContext {
    PreparedContext {
        prompt: format!("User:\n{content}\n\nAssistant:"),
        messages: vec![ContextMessage {
            role: "User".to_string(),
            content: content.to_string(),
        }],
        token_count: 12,
        original_token_count: 12,
        compacted: false,
        summary: None,
    }
}

fn picture() -> ImageAttachment {
    ImageAttachment {
        path: Some("screen.png".to_string()),
        mime_type: "image/png".to_string(),
        base64_data: "abc123".to_string(),
        width: Some(10),
        height: Some(20),
        file_size: 6,
    }
}

#[test]
fn provider_request_preparer_builds_complete_turn_request() {
    let hooks = PluginHooks::new();
    let system_prompt = PromptComposer::compose(
        ProviderFamily::Codex,
        &test_environment(),
        &PromptRuntimeConfig::new(),
        &hooks,
        None,
    );
    let metadata = request_metadata(
        Json::text("codex"),
        Json::text("high"),
        Json::text("on_request"),
        2,
        &hooks,
    );

    let prepared = prepare(
        SESSION,
        "gpt-5.5",
        system_prompt,
        prepared_context("inspect this image"),
        vec![picture()],
        &hooks,
        metadata,
    );

    assert!(matches!(
        prepared.context_event,
        SessionEvent::ContextPrepared { token_count, .. } if token_count > 0
    ));
    assert_eq!(prepared.request.session_id, SESSION);
    assert_eq!(prepared.request.model, "gpt-5.5");
    assert!(prepared.request.prompt.contains("inspect this image"));
    assert!(prepared.request.system_prompt.as_deref().unwrap().contains("<env>"));
    assert!(prepared.request.tool_names.contains(&"read_file".to_string()));
    assert_eq!(prepared.request.metadata.get_u64("round"), Some(2));
    assert_eq!(prepared.request.metadata.get_str("model_effort"), Some("high"));
    assert_eq!(prepared.request.images.len(), 1);
    assert_eq!(prepared.request.images[0].base64_data, "abc123");
    assert!(prepared.request.messages.iter().any(|message| {
        message.role == "user"
            && message.parts.iter().any(|part| {
                matches!(part, MessagePart::Image { image } if image.base64_data == "abc123")
            })
    }));
}

#[test]
fn provider_request_preparer_uses_canonical_xhigh_effort() {
    let hooks = PluginHooks::default();
    let metadata = request_metadata(
        Json::text("generic"),
        Json::text("xhigh"),
        Json::text("on_request"),
        0,
        &hooks,
    );
    let prepared = prepare(
        SESSION,
        "test-model",
        "system".to_string(),
        prepared_context("think harder"),
        Vec::new(),
        &hooks,
        metadata,
    );
    let effort = prepared.request.metadata.get("model_effort").unwrap();
    assert_eq!(effort.as_str(), Some("xhigh"));
}

#[test]
fn prompt_composer_orders_configured_and_plugin_layers() {
    let prompt = PromptRuntimeConfig::new().with_system_layer("Configured prompt layer.");
    let hooks = PluginHooks::new().with_system_prompt_layer("Plugin prompt layer.");
    let hint = "Use high reasoning effort.".to_string();
    let layers = PromptComposer::layers(
        ProviderFamily::Claude,
        &test_environment(),
        &prompt,
        &hooks,
        Some(hint.clone()),
    );

    assert_eq!(
        layers.iter().map(|layer| layer.name).collect::<Vec<_>>(),
        vec!["base", "environment", "configured", "plugin", "effort"]
    );

    let composed = PromptComposer::compose(
        ProviderFamily::Claude,
        &test_environment(),
        &prompt,
        &hooks,
        Some(hint),
    );
    assert!(composed.contains("Configured prompt layer."));
    assert!(composed.contains("Plugin prompt layer."));
}

#[test]
fn provider_request_preparer_applies_plugin_hooks() {
    let hooks = PluginHooks::new()
        .with_request_metadata("plugin", Json::text("example"))
        .with_advertised_tool("plugin_tool")
        .with_system_prompt_layer("Plugin hook instructions.");
    let system_prompt = PromptComposer::compose(
        ProviderFamily::Generic,
        &test_environment(),
        &PromptRuntimeConfig::new(),
        &hooks,
        None,
    );
    let metadata = request_metadata(
        Json::text("generic"),
        Json::text("medium"),
        Json::text("on_request"),
        0,
        &hooks,
    );

    let prepared = prepare(
        SESSION,
        "test-model",
        system_prompt,
        prepared_context("use a plugin hook"),
        Vec::new(),
        &hooks,
        metadata,
    );

    assert_eq!(prepared.request.metadata.get_str("plugin"), Some("example"));
    assert!(prepared.request.tool_names.contains(&"plugin_tool".to_string()));
    assert!(prepared
        .request
        .system_prompt
        .as_deref()
        .unwrap()
        .contains("Plugin hook instructions."));
    assert_eq!(prepared.request.tool_names, advertised_tool_names_for_hooks(&hooks));
}

#[test]
fn multimodal_prompt_is_split_into_text_and_images() {
    let payload = "{\"text\":\"describe this screenshot\",\"images\":[{\"path\":\"screen.png\",\"mime_type\":\"image/png\",\"base64_data\":\"abc123\",\"width\":10,\"height\":20,\"file_size\":6}]}";
    let parsed = parse_multimodal_prompt(&format!("__MULTIMODAL_MESSAGE__:{payload}"));

    assert_eq!(parsed.text, "describe this screenshot");
    assert_eq!(parsed.images.len(), 1);
    assert_eq!(parsed.images[0].mime_type, "image/png");
}

#[test]
fn plain_prompt_has_no_images() {
    let parsed = parse_multimodal_prompt("hello");

    assert_eq!(parsed.text, "hello");
    assert!(parsed.images.is_empty());
}

#[test]
fn the_default_configuration_asks_about_risky_calls() {
    let config = HarnessConfig::new("test-model");
    assert_eq!(config.approval_policy, ApprovalPolicy::OnRequest);
    assert_eq!(config.max_tool_rounds, 8);
    assert_eq!(config.tool_model_checkpoint_after_secs, 30);
}

#[test]
fn execute_tool_call_dispatches_read_file() {
    let action = execute_tool_call(&call("read_file", "{\"path\":\"hello.txt\"}")).unwrap();

    assert!(matches!(action, ToolAction::ReadFile { path, .. } if path == "hello.txt"));
}

#[test]
fn execute_tool_call_rejects_unknown_tool() {
    assert!(matches!(
        execute_tool_call(&call("delete_everything", "{}")),
        Err(ToolExecError::UnknownTool(_))
    ));
}

#[test]
fn execute_tool_call_requires_string_fields() {
    assert!(matches!(
        execute_tool_call(&call("read_file", "{}")),
        Err(ToolExecError::MissingField { field: "path", .. })
    ));
}

#[test]
fn execute_tool_call_surfaces_workspace_escape() {
    let facts = WorkspaceFacts {
        is_dir: Ok(true),
        canonical: Ok("/ws".to_string()),
    };
    let runtime = ToolRuntime::new("/ws", facts).unwrap();
    let action = execute_tool_call(&call("read_file", r#"{"path":"../secret.txt"}"#)).unwrap();
    let outcome = match action {
        ToolAction::ReadFile { path, .. } => runtime
            .path_request(&path, false)
            .start()
            .map(|_| ())
            .map_err(ToolExecError::Runtime),
        _ => Ok(()),
    };
    assert!(matches!(outcome, Err(ToolExecError::Runtime(_))));
}

#[test]
fn execute_tool_call_dispatches_edit_file() {
    let action = execute_tool_call(&call(
        "edit_file",
        "{\"path\":\"hello.txt\",\"old\":\"world\",\"new\":\"inductor\"}",
    ))
    .unwrap();

    match action {
        ToolAction::EditFile { path, old, new, expected_hash } => {
            let bytes = b"hello world".to_vec();
            let outcome =
                edit_file(&path, &path, bytes, &old, &new, expected_hash.as_deref()).unwrap();
            assert_eq!(outcome.result.name.as_str(), "edit_file");
            assert_eq!(outcome.content, "hello inductor");
        }
        other => panic!("{other:?}"),
    }
}

#[test]
fn execute_tool_call_dispatches_structured_patch() {
    let action = execute_tool_call(&call(
        "apply_patch_structured",
        "{\"operations\":[{\"type\":\"edit\",\"path\":\"hello.txt\",\"old\":\"world\",\"new\":\"inductor\",\"expected_hash\":null}]}",
    ))
    .unwrap();

    assert!(matches!(
        action,
        ToolAction::ApplyPatchStructured { operations } if operations.len() == 1
    ));
}

#[test]
fn waiting_needs_a_turn_that_can_wait() {
    let wait = call("bash_wait", "{\"command_id\":\"bash-1\",\"timeout_secs\":2}");
    assert!(matches!(
        execute_tool_call_cancellable_until(&wait),
        Ok(ToolAction::BashWait { command_id, timeout_secs: 2 }) if command_id == "bash-1"
    ));
    assert!(execute_tool_call(&wait).is_err());
}

#[test]
fn unified_line_diff_keeps_unchanged_lines_as_context() {
    let diff = unified_line_diff(
        "src/main.rs",
        "fn main() {\n    println!(\"old\");\n}\n",
        "fn main() {\n    println!(\"old\");\n    println!(\"new\");\n}\n",
    );

    assert_eq!(diff.additions, 1);
    assert_eq!(diff.deletions, 0);
    assert!(diff.text.contains(" fn main() {"));
    assert!(diff.text.contains("     println!(\"old\");"));
    assert!(diff.text.contains("+    println!(\"new\");"));
    assert!(!diff.text.contains("-fn main() {"));
    assert!(!diff.text.contains("+fn main() {"));
}

#[test]
fn far_changes_stand_in_hunks_of_their_own() {
    let before: String = (0..40).map(|i| format!("line {i}\n")).collect();
    let after = before.replace("line 2\n", "LINE 2\n").replace("line 35\n", "LINE 35\n");
    let lines = generate_diff_lines(&before, &after);
    assert_eq!(lines.len(), 42);
    assert_eq!(diff_hunk_ranges(&lines, 3).len(), 2);
    let diff = unified_line_diff("a.txt", &before, &after);
    assert_eq!((diff.additions, diff.deletions), (2, 2));
    assert_eq!(diff.text.matches("@@ -").count(), 2);
    assert!(diff.text.contains("@@ -1,6 +1,6 @@"));
}

/// What carries the turns of a test out.
struct Bench {
    files: BTreeMap<String, String>,
    commands: CommandRegistry,
    hashes: ToolHashCache,
    permissions: PermissionService,
    state: SessionState,
    config: HarnessConfig,
    /// When a running command is told of, in seconds.
    progress: Vec<u64>,
    seen: Vec<Vec<RiskFlag>>,
    unlocked: Vec<bool>,
    events: Vec<SessionEvent>,
    next: u128,
}

impl Bench {
    fn new(policy: ApprovalPolicy) -> Bench {
        let mut config = HarnessConfig::new("test-model");
        config.approval_policy = policy;
        Bench {
            files: BTreeMap::new(),
            commands: CommandRegistry::new(),
            hashes: ToolHashCache::new(),
            permissions: PermissionService::new(AllowStore::new()),
            state: SessionState::new(SESSION),
            config,
            progress: Vec::new(),
            seen: Vec::new(),
            unlocked: Vec::new(),
            events: Vec::new(),
            next: 100,
        }
    }

    fn fresh(&mut self) -> u128 {
        self.next += 1;
        self.next
    }

    fn execute(&mut self, call: &ParsedToolCall) -> Result<ToolResult, ToolExecError> {
        let action = execute_tool_call_cancellable_until(call)?;
        self.carry_out(action)
    }

    fn carry_out(&mut self, action: ToolAction) -> Result<ToolResult, ToolExecError> {
        match action {
            ToolAction::ReadFile { path, start_line, end_line } => match self.files.get(&path) {
                Some(content) => {
                    let full = format!("/ws/{path}");
                    let content = content.clone();
                    Ok(read_file_lines("/ws", &full, content, start_line, end_line, 65536))
                }
                None => Err(ToolExecError::Runtime(ToolError::Io {
                    path,
                    source: "no such file".to_string(),
                })),
            },
            ToolAction::WriteFile { path, content } => {
                let result = write_file("/ws", &format!("/ws/{path}"), &content);
                self.files.insert(path, content);
                Ok(result)
            }
            ToolAction::EditFile { path, old, new, expected_hash } => {
                let bytes = self.files[&path].clone().into_bytes();
                match edit_file(&path, &path, bytes, &old, &new, expected_hash.as_deref()) {
                    Ok(outcome) => {
                        self.files.insert(path, outcome.content);
                        Ok(outcome.result)
                    }
                    Err(error) => Err(ToolExecError::Runtime(error)),
                }
            }
            ToolAction::ApplyPatch { changes } => {
                self.apply(&changes).map_err(ToolExecError::Runtime)
            }
            ToolAction::Bash { command } if command == "sleep 6; echo done" => {
                Ok(bash_result(&command, "done\n".to_string(), Some(0), 65536))
            }
            ToolAction::Bash { command } if command.contains("sleep") => {
                let output = "partial-output".to_string();
                let outcome = BashOutcome::Checkpoint;
                bash_cancellable_until(&mut self.commands, &command, Some(1), outcome, output, 65536)
                    .map_err(ToolExecError::Runtime)
            }
            ToolAction::Bash { command } => {
                Ok(bash_result(&command, "hi\n".to_string(), Some(0), 65536))
            }
            ToolAction::BashWait { command_id, timeout_secs } => {
                let ended = BackgroundCommandStatus::Completed { exit_code: Some(0) };
                self.commands.set_status(&command_id, ended);
                let output = "partialdone".to_string();
                bash_wait(&mut self.commands, &command_id, 1, timeout_secs, output, 65536)
                    .map_err(ToolExecError::Runtime)
            }
            other => panic!("{other:?}"),
        }
    }

    /// Carries out a patch.
    fn apply(&mut self, changes: &Vec<PatchOperation>) -> Result<ToolResult, ToolError> {
        let mut changed = 0;
        loop {
            match apply_patch(changes, changed)? {
                PatchStep::Done(result) => return Ok(result),
                PatchStep::Operation(PatchOperation::Add { path, content }) => {
                    self.files.insert(path.clone(), content.clone());
                }
                PatchStep::Operation(PatchOperation::Update { path, edits }) => {
                    let bytes = self.files[path].clone().into_bytes();
                    let content = update_file(path, bytes, edits)?;
                    self.files.insert(path.clone(), content);
                }
                PatchStep::Operation(PatchOperation::Delete { path }) => {
                    self.files.remove(path);
                }
                PatchStep::Operation(PatchOperation::Lines {
                    path,
                    start_line,
                    end_line,
                    old,
                    new,
                }) => {
                    let bytes = self.files[path].clone().into_bytes();
                    let content =
                        update_file_lines(path, bytes, *start_line, *end_line, old, new)?;
                    self.files.insert(path.clone(), content);
                }
            }
            changed += 1;
        }
    }

    fn note(&mut self, call: &ParsedToolCall, result: &ToolResult) {
        for path in self.hashes.record_success(call, &result.metadata) {
            let read = self.files.get(&path).map(|content| {
                read_file("/ws", &format!("/ws/{path}"), content.clone(), 65536)
            });
            self.hashes.refresh(&path, read.as_ref().map(|read| &read.metadata));
        }
    }

    fn run_tool<A: Approver>(
        &mut self,
        approver: &A,
        tool_call_id: ToolCallId,
        call: ParsedToolCall,
    ) -> (ProviderToolResponse, LocalToolRunStatus) {
        let shown = self.hashes.model_visible_call(&call);
        let mut keys = TextMap::new();
        for path in tool_target_paths(&shown) {
            if self.files.contains_key(&path) {
                keys.insert(&path, &path);
            }
        }
        let flags = classify(&shown);
        let names = flags.iter().map(|flag| format!("{flag:?}")).collect();
        let targets: Vec<ToolTarget> = tool_target_paths(&shown)
            .into_iter()
            .map(|path| ToolTarget {
                before: self.files.get(&path).cloned(),
                path,
            })
            .collect();
        let run = LocalRun::new(
            SESSION,
            tool_call_id,
            self.config.approval_policy,
            shown.clone(),
            names,
            &targets,
        );
        let id = PermissionRequestId(self.fresh());
        let (mut run, mut step) = run.begin(&mut self.permissions, &mut self.state, id);
        loop {
            self.events.append(&mut step.events);
            let next = match step.action {
                LocalAction::Ask { request } => {
                    self.seen.push(request.risk_flags.clone());
                    let decision = approver.decide(&request);
                    let note = approver.last_message();
                    run.decide(&mut self.permissions, &mut self.state, decision, note)
                }
                LocalAction::Execute { unlocked } => {
                    self.unlocked.push(unlocked);
                    for secs in self.progress.clone() {
                        self.events.push(tool_progress(SESSION, tool_call_id, secs));
                    }
                    let id = PermissionRequestId(self.fresh());
                    let (permissions, state) = (&mut self.permissions, &mut self.state);
                    match run.attempt(permissions, state, &self.hashes, &keys, id) {
                        LocalAttempt::Refused { run, step } => (run, step),
                        LocalAttempt::Run { run, action } => {
                            let outcome = self.carry_out(action);
                            run.finish_execution(
                                &mut self.permissions,
                                &mut self.state,
                                outcome,
                                false,
                                id,
                            )
                        }
                    }
                }
                LocalAction::Complete { result } => {
                    self.note(&shown, &result);
                    let after: Vec<Option<String>> = targets
                        .iter()
                        .map(|target| self.files.get(&target.path).cloned())
                        .collect();
                    let files = patch(&targets, &after);
                    let (additions, deletions) = summarize_patch(&files).unwrap();
                    let reports = targets
                        .iter()
                        .map(|target| {
                            let content = self.files.get(&target.path).map(|s| s.as_str());
                            diagnostic(&target.path, content.is_some(), content)
                        })
                        .collect();
                    let inline = result.output.clone();
                    run.complete(
                        &self.permissions,
                        &mut self.state,
                        result,
                        inline,
                        files,
                        additions,
                        deletions,
                        reports,
                    )
                }
                LocalAction::Abort { error } => panic!("{error:?}"),
                LocalAction::Done { response, status } => return (response, status),
            };
            run = next.0;
            step = next.1;
        }
    }

    /// Runs a turn. Each reply of the provider is a text and how its stream ends.
    fn run_turn<A: Approver>(
        &mut self,
        approver: &A,
        prompt: &str,
        replies: Vec<Result<(&str, StreamEnd), &str>>,
    ) {
        let mut replies: VecDeque<_> = replies.into();
        let mut stream: VecDeque<SessionEvent> = VecDeque::new();
        let mut end = StreamEnd::Result;
        let (mut turn, mut step) = Turn::begin(&mut self.state, prompt, false);
        loop {
            self.events.append(&mut step.events);
            let next = match step.action {
                TurnAction::StartProvider { .. } => match replies.pop_front().unwrap() {
                    Ok((text, how)) => {
                        stream.push_back(SessionEvent::TextDelta {
                            session_id: SESSION,
                            text: text.to_string(),
                        });
                        if let StreamEnd::Result = how {
                            stream.push_back(SessionEvent::Result {
                                session_id: SESSION,
                                stop_reason: StopReason::EndTurn,
                            });
                        }
                        end = how;
                        turn.provider_start(&self.state, None)
                    }
                    Err(message) => turn.provider_start(&self.state, Some(message.to_string())),
                },
                TurnAction::NextEvent => match stream.pop_front() {
                    Some(event) => {
                        let id = ToolCallId(self.fresh());
                        turn.hear(&mut self.state, event, false, id)
                    }
                    None => {
                        let error = match end {
                            StreamEnd::Failed(message) => Some(message.to_string()),
                            _ => None,
                        };
                        turn.stream_end(&self.state, error)
                    }
                },
                TurnAction::AskQuestions { .. } => panic!("no questions here"),
                TurnAction::RunTool { tool_call_id, call } => {
                    let (response, status) = self.run_tool(approver, tool_call_id, call);
                    turn.tool_run(&self.state, response, status, false)
                }
                TurnAction::Finished => return,
            };
            turn = next.0;
            step = next.1;
        }
    }

    fn any(&self, test: impl Fn(&SessionEvent) -> bool) -> bool {
        self.events.iter().any(test)
    }

    fn results(&self) -> usize {
        self.events
            .iter()
            .filter(|event| matches!(event, SessionEvent::ToolCallResult { .. }))
            .count()
    }

    fn ends_with(&self, reason: StopReason) -> bool {
        matches!(
            self.events.last(),
            Some(SessionEvent::Result { stop_reason, .. }) if *stop_reason == reason
        )
    }

    fn asked(&self) -> bool {
        self.any(|event| matches!(event, SessionEvent::PermissionRequest { .. }))
    }

    fn failed(&self, needle: &str) -> bool {
        self.any(|event| {
            matches!(event, SessionEvent::Error { message, .. } if message.contains(needle))
        })
    }
}

#[derive(Clone, Copy)]
enum StreamEnd {
    Result,
    Nothing,
    Failed(&'static str),
}

struct Fixed(PermissionDecision);

impl Approver for Fixed {
    fn decide(&self, _request: &ApprovalRequest) -> PermissionDecision {
        self.0
    }

    fn last_message(&self) -> Option<String> {
        None
    }
}

fn said(text: &str) -> Result<(&str, StreamEnd), &str> {
    Ok((text, StreamEnd::Result))
}

const READ: &str = "Let me read it.\n<inductor_tool_call>{\"name\":\"read_file\",\"input\":{\"path\":\"hello.txt\"}}</inductor_tool_call>";

#[test]
fn loop_executes_tool_then_finishes() {
    let mut bench = Bench::new(ApprovalPolicy::OnRequest);
    bench.files.insert("hello.txt".to_string(), "file body".to_string());

    bench.run_turn(
        &AutoApprove,
        "read hello.txt",
        vec![said(READ), said("The file contains: file body")],
    );

    assert!(bench.any(|event| matches!(
        event,
        SessionEvent::ToolCallResult { output, .. } if output == "file body"
    )));
    assert!(bench.any(|event| matches!(event, SessionEvent::TextStart { .. })));
    assert!(bench.any(|event| matches!(event, SessionEvent::TextEnd { .. })));
    assert!(bench.any(|event| matches!(
        event,
        SessionEvent::ToolInputEnd { input_json, .. }
            if input_json.to_text() == "{\"path\":\"hello.txt\"}"
    )));
    assert!(bench.ends_with(StopReason::EndTurn));
    assert_eq!(bench.state.transcript.len(), 4);
}

#[test]
fn loop_uses_cached_read_hash_instead_of_model_expected_hash() {
    let mut bench = Bench::new(ApprovalPolicy::OnRequest);
    bench.files.insert("hello.txt".to_string(), "hello world".to_string());

    bench.run_turn(
        &AutoApprove,
        "edit hello.txt",
        vec![
            said("Read first.\n<inductor_tool_call>{\"name\":\"read_file\",\"input\":{\"path\":\"hello.txt\"}}</inductor_tool_call>"),
            said("Now edit.\n<inductor_tool_call>{\"name\":\"edit_file\",\"input\":{\"path\":\"hello.txt\",\"old\":\"world\",\"new\":\"inductor\",\"expected_hash\":\"bogus\"}}</inductor_tool_call>"),
            said("Done."),
        ],
    );

    assert_eq!(bench.files["hello.txt"], "hello inductor");
    assert!(bench.any(|event| matches!(
        event,
        SessionEvent::ToolCallResult { output, .. } if output.contains("applied 1 edit")
    )));
    assert!(bench.any(|event| matches!(
        event,
        SessionEvent::ToolCallStart { name, input_json, .. }
            if name == "edit_file"
                && input_json.get("expected_hash").is_none()
                && input_json.get_str("path") == Some("hello.txt")
    )));
    assert!(!bench.any(|event| matches!(
        event,
        SessionEvent::ToolCallError { message, .. } if message.contains("stale edit")
    )));
}

#[test]
fn provider_start_error_becomes_terminal_error_result() {
    let mut bench = Bench::new(ApprovalPolicy::OnRequest);

    bench.run_turn(&AutoApprove, "hello", vec![Err("start boom")]);

    assert!(bench.failed("provider failed to start turn"));
    assert!(bench.failed("start boom"));
    assert!(bench.ends_with(StopReason::Error));
}

#[test]
fn provider_stream_error_becomes_terminal_error_result() {
    let mut bench = Bench::new(ApprovalPolicy::OnRequest);

    bench.run_turn(
        &AutoApprove,
        "hello",
        vec![Ok(("partial answer", StreamEnd::Failed("stream boom")))],
    );

    assert!(bench.any(|event| matches!(
        event,
        SessionEvent::TextEnd { text, .. } if text == "partial answer"
    )));
    assert!(bench.failed("provider stream failed"));
    assert!(bench.failed("stream boom"));
    assert!(bench.ends_with(StopReason::Error));
}

#[test]
fn provider_eof_without_result_becomes_terminal_error_result() {
    let mut bench = Bench::new(ApprovalPolicy::OnRequest);

    bench.run_turn(
        &AutoApprove,
        "hello",
        vec![Ok(("partial answer", StreamEnd::Nothing))],
    );

    assert!(bench.any(|event| matches!(
        event,
        SessionEvent::TextEnd { text, .. } if text == "partial answer"
    )));
    assert!(bench.failed("ended without a terminal result"));
    assert!(bench.ends_with(StopReason::Error));
}

#[test]
fn loop_surfaces_tool_error_and_continues() {
    let mut bench = Bench::new(ApprovalPolicy::OnRequest);

    bench.run_turn(
        &AutoDeny,
        "read ../secret.txt",
        vec![
            said("<inductor_tool_call>{\"name\":\"read_file\",\"input\":{\"path\":\"../secret.txt\"}}</inductor_tool_call>"),
            said("Sorry, that path is outside the workspace."),
        ],
    );

    assert!(bench.asked());
    assert!(bench.any(|event| matches!(event, SessionEvent::ToolCallError { .. })));
    assert!(bench.ends_with(StopReason::EndTurn));
}

#[test]
fn loop_does_not_stop_at_configured_tool_round_limit() {
    let mut bench = Bench::new(ApprovalPolicy::OnRequest);
    bench.config.max_tool_rounds = 1;
    bench.files.insert("loop.txt".to_string(), "x".to_string());
    let repeated = "<inductor_tool_call>{\"name\":\"read_file\",\"input\":{\"path\":\"loop.txt\"}}</inductor_tool_call>";

    bench.run_turn(
        &AutoApprove,
        "loop forever",
        vec![said(repeated), said(repeated), said("done")],
    );

    assert!(bench.ends_with(StopReason::EndTurn));
    assert_eq!(bench.results(), 2);
}

const READ_LINES: &str = "<inductor_tool_call>{\"name\":\"read_file\",\"input\":{\"path\":\"hello.txt\",\"start_line\":1,\"end_line\":3}}</inductor_tool_call>";
const READ_THIRD: &str = "<inductor_tool_call>{\"name\":\"read_file\",\"input\":{\"path\":\"hello.txt\",\"start_line\":3,\"end_line\":3}}</inductor_tool_call>";
const PATCH_SECOND: &str = "<inductor_tool_call>{\"name\":\"apply_patch\",\"input\":{\"operations\":[{\"op\":\"update\",\"path\":\"hello.txt\",\"start_line\":2,\"end_line\":2,\"old\":\"two\\n\",\"new\":\"TWO\\n\"}]}}</inductor_tool_call>";
const PATCH_THIRD: &str = "<inductor_tool_call>{\"name\":\"apply_patch\",\"input\":{\"operations\":[{\"op\":\"update\",\"path\":\"hello.txt\",\"start_line\":3,\"end_line\":3,\"old\":\"three\\n\",\"new\":\"THREE\\n\"}]}}</inductor_tool_call>";

#[test]
fn loop_requires_fresh_read_before_line_patch_after_same_file_write() {
    let mut bench = Bench::new(ApprovalPolicy::OnRequest);
    bench.files.insert("hello.txt".to_string(), "one\ntwo\nthree\n".to_string());

    bench.run_turn(
        &AutoApprove,
        "edit hello.txt",
        vec![said(READ_LINES), said(PATCH_SECOND), said(PATCH_THIRD), said("Done.")],
    );

    assert_eq!(bench.files["hello.txt"], "one\nTWO\nthree\n");
    assert!(bench.any(|event| matches!(
        event,
        SessionEvent::ToolCallError { message, .. }
            if message.contains("requires a fresh read_file")
                && message.contains("hello.txt")
    )));
}

#[test]
fn loop_allows_line_patch_after_fresh_read_following_write() {
    let mut bench = Bench::new(ApprovalPolicy::OnRequest);
    bench.files.insert("hello.txt".to_string(), "one\ntwo\nthree\n".to_string());

    bench.run_turn(
        &AutoApprove,
        "edit hello.txt",
        vec![
            said(READ_LINES),
            said(PATCH_SECOND),
            said(READ_THIRD),
            said(PATCH_THIRD),
            said("Done."),
        ],
    );

    assert_eq!(bench.files["hello.txt"], "one\nTWO\nTHREE\n");
    assert!(bench.any(|event| matches!(
        event,
        SessionEvent::ToolCallResult { output, .. } if output == "three\n"
    )));
    assert!(!bench.any(|event| matches!(
        event,
        SessionEvent::ToolCallError { message, .. }
            if message.contains("requires a fresh read_file")
    )));
}

#[test]
fn execute_tool_call_dispatches_apply_patch() {
    let mut bench = Bench::new(ApprovalPolicy::OnRequest);
    let result = bench
        .execute(&call(
            "apply_patch",
            "{\"patch\":\"*** Begin Patch\\n*** Add File: hello.txt\\n+hello inductor\\n*** End Patch\\n\"}",
        ))
        .unwrap();

    assert_eq!(result.name.as_str(), "apply_patch");
    assert_eq!(bench.files["hello.txt"], "hello inductor\n");
}

#[test]
fn execute_tool_call_dispatches_line_aware_apply_patch() {
    let mut bench = Bench::new(ApprovalPolicy::OnRequest);
    bench.files.insert("hello.txt".to_string(), "same\nsame\nsame\n".to_string());
    let result = bench
        .execute(&call(
            "apply_patch",
            "{\"operations\":[{\"op\":\"update\",\"path\":\"hello.txt\",\"start_line\":2,\"end_line\":2,\"old\":\"same\\n\",\"new\":\"changed\\n\"}]}",
        ))
        .unwrap();

    assert_eq!(result.name.as_str(), "apply_patch");
    assert_eq!(bench.files["hello.txt"], "same\nchanged\nsame\n");
}

#[test]
fn lines_are_inserted_beside_the_old_ones() {
    let mut bench = Bench::new(ApprovalPolicy::OnRequest);
    for (op, expected) in [
        ("insert_before", "one\nnew\ntwo\nthree\n"),
        ("insert_after", "one\ntwo\nnew\nthree\n"),
    ] {
        bench.files.insert("a.txt".to_string(), "one\ntwo\nthree\n".to_string());
        let input = format!(
            "{{\"operations\":[{{\"op\":\"{op}\",\"path\":\"a.txt\",\"start_line\":2,\"end_line\":2,\"old\":\"two\\n\",\"new\":\"new\\n\"}}]}}"
        );
        bench.execute(&call("apply_patch", &input)).unwrap();
        assert_eq!(bench.files["a.txt"], expected);
    }
}

#[test]
fn a_patch_between_marks_updates_and_deletes() {
    let mut bench = Bench::new(ApprovalPolicy::OnRequest);
    bench.files.insert("a.txt".to_string(), "one\ntwo\nthree\n".to_string());
    bench.files.insert("b.txt".to_string(), "gone\n".to_string());
    let patch = "*** Begin Patch\n*** Update File: a.txt\n@@\n one\n-two\n+TWO\n*** Delete File: b.txt\n*** End Patch\n";
    let asked = ParsedToolCall {
        name: "apply_patch".to_string(),
        input: Json::object().with("patch", Json::text(patch)),
    };

    assert_eq!(tool_target_paths(&asked), vec!["a.txt".to_string(), "b.txt".to_string()]);
    let result = bench.execute(&asked).unwrap();

    assert_eq!(result.output, "applied 2 patch operation(s)");
    assert_eq!(bench.files["a.txt"], "one\nTWO\nthree\n");
    assert!(!bench.files.contains_key("b.txt"));
}

#[test]
fn a_patch_that_cannot_be_read_is_refused() {
    let told = |patch: &str| {
        let asked = ParsedToolCall {
            name: "apply_patch".to_string(),
            input: Json::object().with("patch", Json::text(patch)),
        };
        match execute_tool_call(&asked) {
            Err(ToolExecError::Runtime(ToolError::InvalidPatch(message))) => message,
            other => panic!("{other:?}"),
        }
    };
    assert_eq!(told("*** Add File: a\n"), "patch must start with *** Begin Patch");
    assert_eq!(told("*** Begin Patch\n"), "patch must end with *** End Patch");
    assert_eq!(
        told("*** Begin Patch\n*** Add File: a\nx\n*** End Patch"),
        "added line must start with +: x"
    );
    assert_eq!(
        told("*** Begin Patch\n*** Update File: a\n@@\nx\n*** End Patch"),
        "invalid hunk line: x"
    );
    assert_eq!(
        told("*** Begin Patch\n*** Add File:  \n+x\n*** End Patch"),
        "patch names no file: *** Add File:  "
    );
    assert_eq!(
        told("*** Begin Patch\nx\n*** End Patch"),
        "unexpected line in patch: x"
    );
    assert!(matches!(apply_patch(&Vec::new(), 0), Err(ToolError::EmptyPatch)));
    assert!(matches!(
        execute_tool_call(&call("apply_patch", "{}")),
        Err(ToolExecError::MissingField { field: "patch", .. })
    ));
    assert!(matches!(
        execute_tool_call(&call("apply_patch", "{\"operations\":[{\"op\":\"move\"}]}")),
        Err(ToolExecError::MissingField { field: "operations", .. })
    ));
}

#[test]
fn a_patch_is_flagged_by_the_paths_in_its_text() {
    let by_text = call(
        "apply_patch",
        "{\"patch\":\"*** Begin Patch\\n*** Delete File: ../a.txt\\n*** End Patch\"}",
    );
    assert!(classify(&by_text).contains(&RiskFlag::WriteOutsideWorkspace));
    let by_lines = call(
        "apply_patch",
        "{\"operations\":[{\"op\":\"update\",\"path\":\"../a.txt\",\"start_line\":1,\"end_line\":1,\"old\":\"x\",\"new\":\"y\"}]}",
    );
    assert!(classify(&by_lines).is_empty());
    for asked in [by_text, by_lines] {
        assert_eq!(get_outside_path(&asked), None);
        assert_eq!(tool_target_paths(&asked), vec!["../a.txt".to_string()]);
    }
}

#[test]
fn the_cache_keeps_hashes_by_key() {
    let mut cache = ToolHashCache::new();
    let read = Json::object()
        .with("path", Json::text("a.txt"))
        .with("sha256", Json::text("abc"));
    let told = cache.record_success(&call("read_file", "{\"path\":\"a.txt\"}"), &read);
    assert!(told.is_empty());
    assert_eq!(cache.hash_of("a.txt").as_deref(), Some("abc"));

    let edit = call("edit_file", "{\"path\":\"./a.txt\",\"old\":\"x\",\"new\":\"y\",\"expected_hash\":\"bogus\"}");
    let mut keys = TextMap::new();
    keys.insert("./a.txt", "a.txt");
    let guarded = cache.execution_call(&edit, &keys);
    assert_eq!(guarded.input.get_str("expected_hash"), Some("abc"));
    let unknown = cache.execution_call(&edit, &TextMap::new());
    assert_eq!(unknown.input.get_str("expected_hash"), None);

    let told = cache.record_success(&edit, &Json::object());
    assert_eq!(told, vec!["./a.txt".to_string()]);
    assert_eq!(cache.hash_of("a.txt").as_deref(), Some("abc"));
    cache.refresh("a.txt", None);
    assert_eq!(cache.hash_of("a.txt"), None);
    let patch = call("apply_patch", "{\"operations\":[{\"op\":\"update\",\"path\":\"./a.txt\",\"start_line\":1,\"end_line\":1,\"old\":\"x\",\"new\":\"y\"}]}");
    assert!(matches!(
        cache.attempt(&patch, &keys),
        Err(ToolExecError::Runtime(ToolError::FreshReadRequired { path })) if path == "./a.txt"
    ));
    cache.record_read(&read);
    assert!(matches!(
        cache.attempt(&patch, &keys),
        Ok(ToolAction::ApplyPatch { changes }) if changes.len() == 1
    ));
}

#[test]
fn read_blob_tool_returns_bounded_stored_output_slice() {
    let stored = b"0123456789abcdefghijklmnopqrstuvwxyz".to_vec();
    let asked = call("read_blob", "{\"blob_id\":\"b1\",\"start_byte\":10,\"limit_bytes\":5}");
    let result = match execute_tool_call(&asked).unwrap() {
        ToolAction::ReadBlob { blob_id, start_byte, limit_bytes } => {
            read_blob(&blob_id, &stored, start_byte, limit_bytes)
        }
        other => panic!("{other:?}"),
    };

    assert_eq!(result.name, ToolName::ReadBlob);
    assert!(result.output.contains("bytes 10..15"));
    assert!(result.output.ends_with("abcde"));
    assert_eq!(result.metadata.get_u64("start_byte"), Some(10));
    assert_eq!(result.metadata.get_u64("end_byte"), Some(15));
    assert_eq!(result.metadata.get_bool("truncated"), Some(true));

    let rest = read_blob("b1", &stored, 30, 100);
    assert_eq!(rest.output, "blob b1 bytes 30..36 of 36\nuvwxyz");
    assert_eq!(rest.metadata.get_bool("truncated"), Some(false));
    let none = read_blob("b1", &stored, 99, 5);
    assert_eq!(none.output, "blob b1 bytes 36..36 of 36\n");
    assert!(matches!(
        execute_tool_call(&call("read_blob", "{\"blob_id\":\"b1\"}")),
        Ok(ToolAction::ReadBlob { start_byte: 0, limit_bytes: READ_BLOB_DEFAULT_BYTES, .. })
    ));
}

#[test]
fn loop_allows_repeated_identical_tool_calls() {
    let mut bench = Bench::new(ApprovalPolicy::OnRequest);
    bench.files.insert("hello.txt".to_string(), "file body".to_string());

    bench.run_turn(
        &AutoApprove,
        "repeat",
        vec![said(READ), said(READ), said(READ), said(READ), said("done")],
    );

    assert!(bench.ends_with(StopReason::EndTurn));
    assert_eq!(bench.results(), 4);
    assert!(!bench.failed("repeated identical tool call"));
}

#[test]
fn risky_command_pauses_for_approval_and_denial_blocks_it() {
    let mut bench = Bench::new(HarnessConfig::new("test-model").approval_policy);

    bench.run_turn(
        &Fixed(PermissionDecision::Deny),
        "clean the build dir",
        vec![
            said("<inductor_tool_call>{\"name\":\"bash\",\"input\":{\"command\":\"rm -rf build\"}}</inductor_tool_call>"),
            said("Understood, I won't remove it."),
        ],
    );

    assert!(bench.asked());
    assert_eq!(bench.seen.len(), 1);
    assert!(bench.seen[0].contains(&RiskFlag::RecursiveRemove));
    assert!(bench.any(|event| matches!(event, SessionEvent::ToolCallError { .. })));
    assert_eq!(bench.results(), 0);
}

#[test]
fn a_denied_call_is_not_asked_about_again() {
    let mut bench = Bench::new(ApprovalPolicy::OnRequest);
    let risky = "<inductor_tool_call>{\"name\":\"bash\",\"input\":{\"command\":\"rm -rf build\"}}</inductor_tool_call>";

    bench.run_turn(
        &Fixed(PermissionDecision::Deny),
        "clean",
        vec![said(risky), said(risky), said("done")],
    );

    assert_eq!(bench.seen.len(), 1);
    assert_eq!(bench.results(), 0);
    assert!(bench.any(|event| matches!(
        event,
        SessionEvent::ToolCallError { message, .. } if message.contains("denied for this session")
    )));
}

#[test]
fn approved_outside_read_file_executes() {
    let mut bench = Bench::new(ApprovalPolicy::OnRequest);
    bench.files.insert("/other/memory.md".to_string(), "outside memory".to_string());

    bench.run_turn(
        &Fixed(PermissionDecision::Allow),
        "read outside memory",
        vec![
            said("<inductor_tool_call>{\"name\":\"read_file\",\"input\":{\"path\":\"/other/memory.md\"}}</inductor_tool_call>"),
            said("read it"),
        ],
    );

    assert!(bench.asked());
    assert_eq!(bench.unlocked, vec![true]);
    assert!(bench.any(|event| matches!(
        event,
        SessionEvent::ToolCallResult { output, .. } if output.contains("outside memory")
    )));
}

#[test]
fn never_policy_runs_outside_read_without_prompt() {
    let mut bench = Bench::new(ApprovalPolicy::Never);
    bench.files.insert("/other/memory.md".to_string(), "outside memory".to_string());

    bench.run_turn(
        &Fixed(PermissionDecision::Deny),
        "read outside memory",
        vec![
            said("<inductor_tool_call>{\"name\":\"read_file\",\"input\":{\"path\":\"/other/memory.md\"}}</inductor_tool_call>"),
            said("read it"),
        ],
    );

    assert!(!bench.asked());
    assert!(bench.any(|event| matches!(
        event,
        SessionEvent::ToolCallResult { output, .. } if output.contains("outside memory")
    )));
}

#[test]
fn benign_command_does_not_pause_under_on_request() {
    let mut bench = Bench::new(ApprovalPolicy::OnRequest);

    bench.run_turn(
        &Fixed(PermissionDecision::Deny),
        "say hi",
        vec![
            said("<inductor_tool_call>{\"name\":\"bash\",\"input\":{\"command\":\"echo hi\"}}</inductor_tool_call>"),
            said("done"),
        ],
    );

    assert!(bench.seen.is_empty());
    assert_eq!(bench.results(), 1);
}

#[test]
fn permission_request_includes_write_diff_preview() {
    let mut bench = Bench::new(ApprovalPolicy::Mutating);
    bench.files.insert("note.txt".to_string(), "old\n".to_string());

    bench.run_turn(
        &Fixed(PermissionDecision::Deny),
        "replace note",
        vec![
            said("<inductor_tool_call>{\"name\":\"write_file\",\"input\":{\"path\":\"note.txt\",\"content\":\"new\\n\"}}</inductor_tool_call>"),
            said("done"),
        ],
    );

    let preview = bench
        .events
        .iter()
        .find_map(|event| match event {
            SessionEvent::PermissionRequest { input_json, .. } => Some(input_json),
            _ => None,
        })
        .expect("permission request should be emitted");

    assert_eq!(preview.get_str("filepath"), Some("note.txt"));
    assert!(preview.get_str("diff").unwrap().contains("-old"));
    assert!(preview.get_str("diff").unwrap().contains("+new"));
}

#[test]
fn edit_file_emits_patch_event_after_execution() {
    let mut bench = Bench::new(ApprovalPolicy::OnRequest);
    bench.files.insert("note.txt".to_string(), "old\n".to_string());

    bench.run_turn(
        &AutoApprove,
        "edit note",
        vec![
            said("<inductor_tool_call>{\"name\":\"edit_file\",\"input\":{\"path\":\"note.txt\",\"old\":\"old\",\"new\":\"new\"}}</inductor_tool_call>"),
            said("done"),
        ],
    );

    let patch = bench
        .events
        .iter()
        .find_map(|event| match event {
            SessionEvent::Patch { files, .. } => files.first(),
            _ => None,
        })
        .expect("patch event should be emitted");

    assert_eq!(patch.path, "note.txt");
    assert!(patch.diff.as_deref().unwrap().contains("-old"));
    assert!(patch.diff.as_deref().unwrap().contains("+new"));

    let diagnostics = bench
        .events
        .iter()
        .find_map(|event| match event {
            SessionEvent::Diagnostics { reports, .. } => reports.first(),
            _ => None,
        })
        .expect("diagnostics event should be emitted");

    assert_eq!(diagnostics.path, "note.txt");
    assert!(diagnostics.exists);
    assert_eq!(diagnostics.lines, Some(1));
}

#[test]
fn always_policy_pauses_even_for_benign_calls() {
    let mut bench = Bench::new(ApprovalPolicy::Always);
    bench.files.insert("a.txt".to_string(), "x".to_string());

    bench.run_turn(
        &Fixed(PermissionDecision::Allow),
        "read a.txt",
        vec![
            said("<inductor_tool_call>{\"name\":\"read_file\",\"input\":{\"path\":\"a.txt\"}}</inductor_tool_call>"),
            said("ok"),
        ],
    );

    assert_eq!(bench.seen.len(), 1);
    assert_eq!(bench.results(), 1);
}

#[test]
fn allow_always_skips_future_prompts_for_same_program() {
    let mut bench = Bench::new(ApprovalPolicy::OnRequest);

    bench.run_turn(
        &Fixed(PermissionDecision::AllowAlways),
        "run sudo twice",
        vec![
            said("<inductor_tool_call>{\"name\":\"bash\",\"input\":{\"command\":\"sudo echo one\"}}</inductor_tool_call>"),
            said("<inductor_tool_call>{\"name\":\"bash\",\"input\":{\"command\":\"sudo echo two\"}}</inductor_tool_call>"),
            said("all done"),
        ],
    );

    assert_eq!(bench.seen.len(), 1);
    assert!(bench.permissions.rules().iter().any(|rule| rule.value == "sudo"));
}

#[test]
fn an_unreadable_call_is_told_to_the_model() {
    let mut bench = Bench::new(ApprovalPolicy::OnRequest);

    bench.run_turn(
        &AutoApprove,
        "go",
        vec![said("<inductor_tool_call>nonsense</inductor_tool_call>"), said("sorry")],
    );

    assert_eq!(bench.results(), 0);
    assert!(bench.ends_with(StopReason::EndTurn));
    assert!(bench.state.transcript.len() > 2);
}

#[test]
fn long_running_bash_emits_progress_before_result() {
    let mut bench = Bench::new(ApprovalPolicy::Never);
    bench.progress = vec![5];

    bench.run_turn(
        &AutoApprove,
        "run a slow command",
        vec![
            said("<inductor_tool_call>{\"name\":\"bash\",\"input\":{\"command\":\"sleep 6; echo done\"}}</inductor_tool_call>"),
            said("done"),
        ],
    );

    let start_index = bench
        .events
        .iter()
        .position(
            |event| matches!(event, SessionEvent::ToolCallStart { name, .. } if name == "bash"),
        )
        .expect("tool start should be visible before completion");
    let progress_index = bench
        .events
        .iter()
        .position(|event| matches!(event, SessionEvent::ToolCallProgress { message, .. } if message.contains("still running for")))
        .expect("long-running tool should emit stopwatch progress");
    let result_index = bench
        .events
        .iter()
        .position(|event| matches!(event, SessionEvent::ToolCallResult { output, .. } if output.contains("done")))
        .expect("tool should still finish normally");

    assert!(start_index < progress_index);
    assert!(progress_index < result_index);
    assert!(bench.any(|event| matches!(
        event,
        SessionEvent::Status { status: SessionStatus::RunningTools, .. }
    )));
    assert!(bench.any(|event| matches!(
        event,
        SessionEvent::ToolCallProgress { message, .. } if *message == format!("still running for {}", format_elapsed(5))
    )));
}

#[test]
fn mutating_tools_are_known() {
    assert!(is_mutating_tool_name("write_file"));
    assert!(is_mutating_tool_name("bash"));
    assert!(!is_mutating_tool_name("read_file"));
    for definition in tool_definitions() {
        assert_eq!(is_mutating_tool_name(definition.name.as_str()), !definition.read_only);
    }
    assert!(!is_mutating_tool_name("todo_write"));
}

#[test]
fn roles_are_named_and_read() {
    assert_eq!(Role::parse(Role::Tool.label()).unwrap(), Role::Tool);
    let error = Role::parse("nobody").unwrap_err();
    assert!(error.message().contains("nobody"));
    let mut state = SessionState::new(SESSION);
    state.push(Role::User, "read the file");
    assert_eq!(
        state.context_messages(),
        vec![("User".to_string(), "read the file".to_string())]
    );
}

#[test]
fn the_sandbox_is_recognised_by_its_words() {
    let said = "touch: /etc/x: Operation not permitted";
    assert!(sandbox_denied_result(true, "bash", Some(1), said));
    assert!(!sandbox_denied_result(false, "bash", Some(1), said));
    assert!(!sandbox_denied_result(true, "bash", Some(0), said));
    assert!(!sandbox_denied_result(true, "read_file", Some(1), said));
}

#[test]
fn answers_are_listed() {
    let answers = vec![QuestionAnswer {
        question: "Which one?".to_string(),
        answer: "The first".to_string(),
    }];
    let listed = format_answers(&answers);
    assert!(listed.contains("Which one?"));
    assert!(listed.contains("The first"));

    let asked = ToolCallId(4);
    let other = QuestionReply::Answered {
        tool_call_id: ToolCallId(5),
        answers: Vec::new(),
    };
    assert!(ask_questions(asked, other).is_none());
    let closed = ask_questions(asked, QuestionReply::Closed).unwrap();
    assert!(closed.answers.is_empty());
    let own = QuestionReply::Answered {
        tool_call_id: asked,
        answers,
    };
    assert_eq!(ask_questions(asked, own).unwrap().output, listed);
}

#[test]
fn the_users_answers_are_told_to_the_model() {
    let mut state = SessionState::new(SESSION);
    let (turn, _) = Turn::begin(&mut state, "ask me", false);
    let (turn, _) = turn.provider_start(&state, None);
    let text = "<inductor_tool_call>{\"name\":\"ask_questions\",\"input\":{\"questions\":[]}}</inductor_tool_call>";
    let delta = SessionEvent::TextDelta {
        session_id: SESSION,
        text: text.to_string(),
    };
    let (turn, _) = turn.hear(&mut state, delta, false, ToolCallId(1));
    let end = SessionEvent::Result {
        session_id: SESSION,
        stop_reason: StopReason::EndTurn,
    };
    let (turn, step) = turn.hear(&mut state, end, false, ToolCallId(2));
    assert!(matches!(
        step.action,
        TurnAction::AskQuestions { tool_call_id: ToolCallId(2), .. }
    ));
    let (_, step) =
        turn.questions_answer(&mut state, Vec::new(), "no answers".to_string(), false);
    assert!(matches!(&step.action, TurnAction::StartProvider { images } if images.is_empty()));
    assert!(matches!(
        step.events.first(),
        Some(SessionEvent::QuestionsAnswered { tool_call_id: ToolCallId(2), .. })
    ));
    let last = state.transcript.last().unwrap();
    assert_eq!(last.role, Role::Tool);
    assert_eq!(last.content, "no answers");
}

#[test]
fn paths_are_found_in_the_workspace() {
    assert_eq!(resolve_workspace_path("/ws", "src/a.rs").as_deref(), Some("/ws/src/a.rs"));
    assert_eq!(resolve_workspace_path("/ws", "/etc/passwd"), None);
    assert_eq!(resolve_workspace_path("/ws", "../a.rs"), None);
    assert_eq!(workspace_relative_key("/ws", "/ws/src/a.rs").as_deref(), Some("src/a.rs"));
    assert_eq!(workspace_relative_key("/ws", "/ws/a\\b").as_deref(), Some("a/b"));
    assert_eq!(workspace_relative_key("/ws", "/other/a.rs"), None);
}

#[test]
fn a_session_goes_on_from_its_transcript() {
    let transcript = vec![
        TranscriptMessage::new(Role::User, "hello"),
        TranscriptMessage::new(Role::Assistant, "hi"),
    ];
    let mut state = SessionState::with_transcript(SESSION, transcript);
    state.push(Role::User, "go on");
    assert_eq!(state.session_id, SESSION);
    assert_eq!(state.transcript.len(), 3);
    assert_eq!(state.transcript[1].content, "hi");
    assert_eq!(state.transcript[2].role, Role::User);
}

#[test]
fn pictures_go_with_the_first_round() {
    let mut state = SessionState::new(SESSION);
    let prompt = concat_prompt("look", "AAAA");
    let (turn, step) = Turn::begin(&mut state, &prompt, false);
    assert!(matches!(
        &step.action,
        TurnAction::StartProvider { images } if images.len() == 1 && images[0].base64_data == "AAAA"
    ));
    assert_eq!(state.transcript[0].content, "look");
    let (turn, _) = turn.provider_start(&state, None);
    let delta = SessionEvent::TextDelta {
        session_id: SESSION,
        text: "<inductor_tool_call>oops".to_string(),
    };
    let (turn, _) = turn.hear(&mut state, delta, false, ToolCallId(1));
    let end = SessionEvent::Result {
        session_id: SESSION,
        stop_reason: StopReason::EndTurn,
    };
    let (turn, step) = turn.hear(&mut state, end, false, ToolCallId(2));
    assert!(matches!(&step.action, TurnAction::StartProvider { images } if images.is_empty()));
    assert_eq!(turn.round, 1);
    let (_, step) = turn.interrupt(&state);
    assert!(matches!(step.action, TurnAction::Finished));
}

fn concat_prompt(text: &str, data: &str) -> String {
    format!(
        "__MULTIMODAL_MESSAGE__:{{\"text\":\"{text}\",\"images\":[{{\"mime_type\":\"image/png\",\"base64_data\":\"{data}\",\"file_size\":3}}]}}"
    )
}

#[test]
fn execute_tool_call_cancels_bash() {
    let action = execute_tool_call(&bash("sleep 5")).unwrap();
    let mut commands = CommandRegistry::new();
    let outcome = match action {
        ToolAction::Bash { command } => bash_cancellable_until(
            &mut commands,
            &command,
            None,
            BashOutcome::Cancelled,
            String::new(),
            65536,
        )
        .map_err(ToolExecError::Runtime),
        other => panic!("{other:?}"),
    };
    assert!(matches!(
        outcome,
        Err(ToolExecError::Runtime(ToolError::CommandCancelled { command })) if command == "sleep 5"
    ));
}

#[test]
fn bash_checkpoint_returns_partial_output_to_model() {
    let mut bench = Bench::new(ApprovalPolicy::Never);
    bench.run_turn(
        &AutoApprove,
        "run a command that may hang",
        vec![
            said("<inductor_tool_call>{\"name\":\"bash\",\"input\":{\"command\":\"printf partial-output; sleep 5; printf late-output\"}}</inductor_tool_call>"),
            said("I will stop here."),
        ],
    );
    let message = bench
        .events
        .iter()
        .find_map(|event| match event {
            SessionEvent::ToolCallError { message, .. } => Some(message),
            _ => None,
        })
        .unwrap();
    assert!(message.contains("reached the tool checkpoint"));
    assert!(message.contains("command_id: bash-"));
    assert!(message.contains("The command is still running in the background"));
    assert!(message.contains("bash_wait"));
    assert!(message.contains("bash_kill"));
    assert!(message.contains("Partial output captured before the checkpoint"));
    assert!(message.contains("partial-output"));
    assert!(bench.ends_with(StopReason::EndTurn));
}

#[test]
fn native_provider_can_wait_for_checkpointed_bash_final_output() {
    let mut bench = Bench::new(ApprovalPolicy::Never);
    let (turn, _) = Turn::begin(&mut bench.state, "run a command and wait for it", false);
    let (turn, _) = turn.provider_start(&bench.state, None);

    let bash_call = SessionEvent::ToolCallRequested {
        session_id: SESSION,
        tool_call_id: ToolCallId(1),
        name: "bash".to_string(),
        input_json: json::parse("{\"command\":\"printf partial; sleep 1; printf done\"}").unwrap(),
    };
    let (turn, step) = turn.hear(&mut bench.state, bash_call, false, ToolCallId(50));
    let TurnAction::RunTool { tool_call_id, call } = step.action else {
        panic!("a tool runs");
    };
    let (response, status) = bench.run_tool(&AutoApprove, tool_call_id, call);
    let (turn, step) = turn.tool_run(&bench.state, response, status, false);
    let checkpoint = step.response.unwrap();
    assert_eq!(checkpoint.tool_call_id, ToolCallId(1));
    assert!(checkpoint.output.contains("command_id: bash-"));
    let command_id = checkpoint
        .output
        .split("command_id: ")
        .nth(1)
        .and_then(|rest| rest.split_whitespace().next())
        .map(|value| value.trim_end_matches('.').to_string())
        .unwrap();

    let wait_call = SessionEvent::ToolCallRequested {
        session_id: SESSION,
        tool_call_id: ToolCallId(2),
        name: "bash_wait".to_string(),
        input_json: Json::object()
            .with("command_id", Json::text(&command_id))
            .with("timeout_secs", Json::Unsigned(2)),
    };
    let (turn, step) = turn.hear(&mut bench.state, wait_call, false, ToolCallId(51));
    let TurnAction::RunTool { tool_call_id, call } = step.action else {
        panic!("a tool runs");
    };
    let (response, status) = bench.run_tool(&AutoApprove, tool_call_id, call);
    let (turn, step) = turn.tool_run(&bench.state, response, status, false);
    let waited = step.response.unwrap();
    assert_eq!(waited.tool_call_id, ToolCallId(2));
    assert!(!waited.is_error);
    assert!(waited.output.contains("Final output"));
    assert!(waited.output.contains("partialdone"));
    assert!(bench.any(|event| matches!(
        event,
        SessionEvent::ToolCallResult { output, exit_code: Some(0), .. }
            if output.contains("Final output") && output.contains("partialdone")
    )));

    let end = SessionEvent::Result {
        session_id: SESSION,
        stop_reason: StopReason::EndTurn,
    };
    let (_, step) = turn.hear(&mut bench.state, end, false, ToolCallId(52));
    assert!(matches!(
        step.events.last(),
        Some(SessionEvent::Result { stop_reason: StopReason::EndTurn, .. })
    ));
}
