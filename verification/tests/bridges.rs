use inductor::json::{self, Json};
use inductor::provider::bridge::{
    exit_diagnostics, parse_command_line, recent_stderr, tool_definitions_json, BridgeAction,
    BridgeExit, BridgeStep, CallIds, PendingIds, SendOutcome,
};
use inductor::provider::claude::{
    auth_request, auth_unknown, bridge_event_to_session_event,
    bridge_tool_result_to_session_event, check_auth,
    check_auth_line, claude_model_catalog, normalize_claude_model, ClaudeProvider, ClaudeTurn,
};
use inductor::provider::common::ProviderToolResponse;
use inductor::provider::copilot_sdk::{sdk_command, sdk_event_to_session_event, SdkTurn};
use inductor::provider::models::{
    brand_name, extend_models, idle_timeout, read_ids, trim_trailing_slash, vendor_name, ModelInfo,
};
use inductor::runtime::events::SessionEvent;
use inductor::runtime::types::{
    PermissionDecision, PermissionRequestId, SessionId, StopReason, ToolCallId,
};

const SESSION: SessionId = SessionId(5);

fn value(text: &str) -> Json {
    json::parse(text).unwrap()
}

/// The full id of a model.
fn full(rest: &str) -> String {
    format!("{}-{rest}", vendor_name())
}

#[test]
fn the_vendor_is_named_in_ids_and_in_texts() {
    assert_eq!(format!("{}_", vendor_name()), "claude_");
    assert_eq!(format!("{}_", brand_name()), "Claude_");
}

#[test]
fn bridge_text_delta_converts_to_session_event() {
    let value = value("{\"type\":\"text_delta\",\"text\":\"hello\"}");

    let event = bridge_event_to_session_event(SESSION, &value).unwrap();

    assert!(matches!(
        event,
        SessionEvent::TextDelta { text, .. } if text == "hello"
    ));
}

#[test]
fn bridge_empty_text_delta_is_ignored() {
    let value = value("{\"type\":\"text_delta\",\"text\":\"\"}");

    assert!(bridge_event_to_session_event(SESSION, &value).is_none());
}

#[test]
fn bridge_result_converts_to_end_turn() {
    let value = value("{\"type\":\"result\",\"stop_reason\":\"end_turn\"}");

    let event = bridge_event_to_session_event(SESSION, &value).unwrap();

    assert!(matches!(
        event,
        SessionEvent::Result {
            stop_reason: StopReason::EndTurn,
            ..
        }
    ));
}

#[test]
fn bridge_tool_result_error_converts_to_tool_call_error() {
    let mut tool_ids = CallIds::new();
    tool_ids.insert("toolu_error", 9);
    let value = value(
        "{\"type\":\"tool_result\",\"id\":\"toolu_error\",\"output\":\"read_file failed\",\"is_error\":true}",
    );

    let event = bridge_tool_result_to_session_event(SESSION, &value, &mut tool_ids)
        .expect("tool result should map to a session event");

    assert!(tool_ids.is_empty());
    assert!(matches!(
        event,
        SessionEvent::ToolCallError { message, .. } if message == "read_file failed"
    ));
}

#[test]
fn bridge_tool_result_success_converts_to_tool_call_result() {
    let mut tool_ids = CallIds::new();
    tool_ids.insert("toolu_success", 9);
    let value = value(
        "{\"type\":\"tool_result\",\"id\":\"toolu_success\",\"output\":\"file contents\",\"is_error\":false}",
    );

    let event = bridge_tool_result_to_session_event(SESSION, &value, &mut tool_ids)
        .expect("tool result should map to a session event");

    assert!(tool_ids.is_empty());
    assert!(matches!(
        event,
        SessionEvent::ToolCallResult { output, .. } if output == "file contents"
    ));
}

#[test]
fn env_command_parser_splits_command_and_args() {
    let command = parse_command_line("node ./bridge.mjs --flag");

    assert_eq!(command.command, "node");
    assert_eq!(command.args, vec!["./bridge.mjs", "--flag"]);
    assert_eq!(parse_command_line("  ").command, "node");
}

#[test]
fn normalizes_legacy_claude_model_ids_to_sdk_aliases() {
    assert_eq!(normalize_claude_model(""), "sonnet");
    assert_eq!(normalize_claude_model(&full("sonnet-4")), "sonnet");
    assert_eq!(normalize_claude_model(&full("fable-5")), "fable");
    assert_eq!(normalize_claude_model(&full("opus-4.8")), "opus");
    assert_eq!(normalize_claude_model(&full("haiku-3.5")), "haiku");
    assert_eq!(normalize_claude_model("opus"), "opus");
}

#[test]
fn other_model_ids_are_kept() {
    assert_eq!(normalize_claude_model(" fable-5 "), "fable");
    assert_eq!(normalize_claude_model(&full("3-5-haiku-latest")), "haiku");
    assert_eq!(normalize_claude_model("sonnet-4"), "sonnet-4");
    assert_eq!(normalize_claude_model(&full("sonnet-5")), full("sonnet-5"));
}

#[test]
fn claude_model_catalog_includes_subscription_models() {
    let models = claude_model_catalog(None);

    assert!(models.iter().any(|model| model.id == "sonnet"));
    assert!(models.iter().any(|model| model.id == "fable"));
    assert!(models.iter().any(|model| model.id == "opus"));
    assert!(models.iter().any(|model| model.id == "haiku"));
}

#[test]
fn the_environment_adds_models_once() {
    let named = format!("opus, {} ,own,,own", full("opus-4"));
    let models = claude_model_catalog(Some(&named));
    let ids: Vec<&str> = models.iter().map(|model| model.id.as_str()).collect();
    assert_eq!(ids, vec!["sonnet", "fable", "opus", "haiku", "own"]);
    assert_eq!(read_ids(" a ,,b"), vec!["a", "b"]);
    let mut models = vec![ModelInfo::named("a", "A")];
    extend_models(&mut models, &vec!["a".to_string(), "b".to_string()]);
    assert_eq!(models.len(), 2);
    assert_eq!(models[0].display_name, "A");
    assert_eq!(models[1].display_name, "b");
}

#[test]
fn a_provider_has_its_script_or_its_command() {
    let own = ClaudeProvider::with_cwd("/ws".to_string(), None, "/opt/inductor");
    assert_eq!(own.command.command, "node");
    assert_eq!(own.command.args, vec!["/opt/inductor/js/claude_agent_sdk_bridge.mjs"]);
    assert_eq!(own.id(), vendor_name());
    let named = ClaudeProvider::with_cwd("/ws".to_string(), Some("deno run x"), "/opt");
    assert_eq!(named.command.command, "deno");
    let given = ClaudeProvider::with_command("bun", vec!["y".to_string()], "/ws".to_string());
    assert_eq!(given.command.args, vec!["y"]);
    assert_eq!(sdk_command(Some("bun y"), "/opt").command, "bun");
}

#[test]
fn the_environment_sets_how_long_to_wait() {
    assert_eq!(idle_timeout(None), 120);
    assert_eq!(idle_timeout(Some("5")), 5);
    assert_eq!(idle_timeout(Some("soon")), 120);
    assert_eq!(trim_trailing_slash("https://a.test//"), "https://a.test");
}

#[test]
fn logins_are_checked() {
    assert_eq!(auth_request("/ws").get_str("mode"), Some("check_auth"));
    assert_eq!(auth_request("/ws").get_str("cwd"), Some("/ws"));
    let good = check_auth(&value("{\"type\":\"auth_check\",\"ok\":true}")).unwrap();
    assert!(good.ok);
    assert!(check_auth(&value("{\"type\":\"text_delta\"}")).is_none());
    let line = "{\"type\":\"auth_check\",\"ok\":true}";
    assert!(matches!(check_auth_line(line), Ok(Some(found)) if found.ok));
    assert!(matches!(check_auth_line("{}"), Ok(None)));
    assert!(check_auth_line("nonsense").is_err());
    let unknown = auth_unknown(" (exit code 1)");
    assert!(!unknown.ok);
    assert_eq!(
        unknown.error.unwrap(),
        format!(
            "{} Agent SDK bridge exited before reporting auth status (exit code 1)",
            brand_name()
        )
    );
}

#[test]
fn diagnostics_hold_the_end_of_what_was_said() {
    let said = exit_diagnostics(BridgeExit::Code(3), "boom\n");
    assert!(said.contains("3"));
    assert!(said.contains("boom"));
    let long = "x".repeat(20_000);
    assert!(recent_stderr(&long).len() < 20_000);
    assert_eq!(recent_stderr("short"), "short");
}

#[test]
fn only_known_tools_are_described() {
    let tools = tool_definitions_json(&vec!["glob".to_string(), "unheard_of".to_string()]);
    let items = tools.as_array().unwrap();
    assert_eq!(items.len(), 1);
    assert_eq!(items[0].get_str("name"), Some("glob"));
}

#[test]
fn ids_are_kept_until_they_are_removed() {
    let mut ids = PendingIds::new();
    ids.insert(1, "a".to_string());
    ids.insert(2, "b".to_string());
    assert_eq!(ids.len(), 2);
    assert_eq!(ids.remove(1).as_deref(), Some("a"));
    assert_eq!(ids.remove(1), None);
    assert_eq!(ids.len(), 1);
}

fn started() -> ClaudeTurn {
    let (mut turn, step) = ClaudeTurn::begin(SESSION, 30, value("{\"type\":\"request\"}"));
    assert!(matches!(step.action, BridgeAction::Start(_)));
    let step = turn.sent(SendOutcome::Sent);
    assert!(matches!(step.action, BridgeAction::Wait));
    turn
}

fn message_of(step: &BridgeStep) -> &Json {
    match &step.action {
        BridgeAction::Send(message) => message,
        other => panic!("{other:?}"),
    }
}

#[test]
fn a_decision_reaches_the_question() {
    let mut turn = started();
    let step = turn.read_line(
        "{\"type\":\"permission_request\",\"id\":\"p1\",\"tool_name\":\"Bash\"}",
        77,
    );
    assert!(step.events.iter().any(|event| matches!(
        event,
        SessionEvent::PermissionRequest { request_id: PermissionRequestId(77), reason, .. }
            if *reason == format!("{} wants to use Bash", brand_name())
    )));
    let step = turn.decided(
        PermissionRequestId(77),
        PermissionDecision::Allow,
        Json::Null,
    );
    assert_eq!(message_of(&step).get_str("id"), Some("p1"));
    let step = turn.sent(SendOutcome::Sent);
    assert!(matches!(step.action, BridgeAction::Wait));
    let step = turn.decided(PermissionRequestId(77), PermissionDecision::Deny, Json::Null);
    assert!(matches!(step.action, BridgeAction::Wait));
}

#[test]
fn a_turn_goes_on_without_decisions() {
    let mut turn = started();
    assert!(turn.permissions_open);
    let step = turn.permissions_closed();
    assert!(step.events.is_empty());
    assert!(matches!(step.action, BridgeAction::Wait));
    assert!(!turn.permissions_open);
}

#[test]
fn a_result_reaches_the_call() {
    let mut turn = started();
    let step = turn.read_line(
        "{\"type\":\"tool_request\",\"id\":\"t1\",\"name\":\"read_file\",\"input\":{}}",
        78,
    );
    assert!(step.events.iter().any(|event| matches!(
        event,
        SessionEvent::ToolCallRequested { tool_call_id: ToolCallId(78), .. }
    )));
    let step = turn.tool_done(ProviderToolResponse {
        tool_call_id: ToolCallId(78),
        output: "body".to_string(),
        is_error: false,
    });
    assert_eq!(message_of(&step).get_str("id"), Some("t1"));
    assert_eq!(message_of(&step).get_str("output"), Some("body"));
}

#[test]
fn a_turn_ends_with_its_result() {
    let mut turn = started();
    let step = turn.read_line("{\"type\":\"result\",\"stop_reason\":\"end_turn\"}", 1);
    assert!(matches!(step.action, BridgeAction::Finished));
    assert!(matches!(step.events.last(), Some(SessionEvent::Result { .. })));

    let mut turn = started();
    let step = turn.idle();
    assert!(step.cancel);
    assert!(matches!(
        step.events.last(),
        Some(SessionEvent::Error { message, .. }) if message.contains("produced no events for 30 seconds")
    ));

    let mut turn = started();
    assert!(turn.cancelled().cancel);

    let (mut turn, _) = ClaudeTurn::begin(SESSION, 30, Json::Null);
    let step = turn.sent(SendOutcome::NotStarted("no node".to_string()));
    assert!(matches!(step.action, BridgeAction::Fail(error) if error == "no node"));

    let mut turn = started();
    let step = turn.exited(" (exit code 2)");
    assert!(matches!(
        step.events.last(),
        Some(SessionEvent::Error { message, .. }) if message.ends_with("before returning a result (exit code 2)")
    ));
}

#[test]
fn the_sdk_is_told_the_result_of_its_call() {
    let (mut turn, step) = SdkTurn::begin(SESSION, 30, value("{\"type\":\"turn\"}"));
    assert!(matches!(step.action, BridgeAction::Start(_)));
    turn.sent(SendOutcome::Sent);
    let step = turn.read_line(
        "{\"type\":\"tool_request\",\"id\":\"t9\",\"name\":\"glob\",\"input\":{}}",
        4,
    );
    assert!(step.events.iter().any(|event| matches!(
        event,
        SessionEvent::ToolCallRequested { tool_call_id: ToolCallId(4), .. }
    )));
    let step = turn.tool_done(ProviderToolResponse {
        tool_call_id: ToolCallId(4),
        output: "none".to_string(),
        is_error: true,
    });
    assert_eq!(message_of(&step).get_str("id"), Some("t9"));
    turn.sent(SendOutcome::Sent);
    let step = turn.read_line("{\"type\":\"result\"}", 5);
    assert!(matches!(step.action, BridgeAction::Finished));
}

#[test]
fn words_of_the_sdk_become_events() {
    let event = sdk_event_to_session_event(SESSION, &value("{\"type\":\"text_delta\",\"text\":\"hi\"}"));
    assert!(matches!(event, Some(SessionEvent::TextDelta { text, .. }) if text == "hi"));
    let event = sdk_event_to_session_event(SESSION, &value("{\"type\":\"error\"}"));
    assert!(matches!(
        event,
        Some(SessionEvent::Error { message, .. }) if message == "Copilot SDK bridge failed"
    ));
}
