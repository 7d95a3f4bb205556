use inductor::json::{self, Json};
use inductor::provider::auth::{bearer_header, ProviderAuth, ProviderAuthKind};
use inductor::provider::codex::{
    function_call_output_item, parse_response_stream_event_detail, CodexTurn, PendingFunctionCall,
};
use inductor::provider::codex_request::{
    codex_input_messages, codex_model_catalog, normalize_codex_reasoning_effort, request_body,
    responses_url,
};
use inductor::provider::common::ProviderToolResponse;
use inductor::provider::compaction::{
    compact_copilot_messages, copilot_message_has_tool_calls, copilot_messages_token_estimate,
    truncate_chars,
};
use inductor::provider::copilot::{parse_chat_stream_event, PendingAssistantMessage};
use inductor::provider::copilot_request::{
    cached_bearer_token, chat_body_with_messages, copilot_messages, copilot_model_catalog,
    copilot_model_is_chat_capable, list_models, models_answer, normalize_copilot_model, read_token,
    token_answer,
    redact_error_body, service_url, shared_headers, CopilotBearerToken,
};
use inductor::provider::copilot_turn::{ContextLimits, CopilotTurn};
use inductor::provider::http::{
    ChunkOutcome, HttpAction, HttpStep, ResponseOutcome, ToolOutcome,
};
use inductor::provider::models::{brand_name, vendor_name};
use inductor::provider::sse::{
    data_of_event, drain_sse_events, drain_sse_events_at_eof, error_source_chain, ErrorChain,
};
use inductor::runtime::events::SessionEvent;
use inductor::runtime::prompt::{ImageAttachment, ModelMessage, TurnRequest};
use inductor::runtime::types::{SessionId, StopReason, ToolCallId};
use inductor::tools::names::tool_names;

const SESSION: SessionId = SessionId(6);

const SOFT_TOKENS: usize = 200_000;
const HARD_TOKENS: usize = 250_000;

fn value(text: &str) -> Json {
    json::parse(text).unwrap()
}

/// The value inside another one, by member names and indices.
fn at<'a>(value: &'a Json, path: &[&str]) -> &'a Json {
    let mut value = value;
    for step in path {
        value = match step.parse::<usize>() {
            Ok(index) => &value.as_array().unwrap()[index],
            Err(_) => value.get(step).unwrap(),
        };
    }
    value
}

fn text_at<'a>(value: &'a Json, path: &[&str]) -> &'a str {
    at(value, path).as_str().unwrap()
}

fn text_request(prompt: &str) -> TurnRequest {
    TurnRequest {
        session_id: SESSION,
        model: "gpt-test".to_string(),
        prompt: prompt.to_string(),
        system_prompt: None,
        messages: Vec::new(),
        tool_names: Vec::new(),
        metadata: Json::Null,
        images: Vec::new(),
    }
}

fn chat_request(prompt: &str) -> TurnRequest {
    TurnRequest {
        system_prompt: Some("system".to_string()),
        tool_names: tool_names(),
        ..text_request(prompt)
    }
}

fn effort(name: &str) -> Json {
    Json::object().with("model_effort", Json::text(name))
}

/// What a session is told by an event of a response, with the end of the turn.
fn response_events(raw: &str) -> Vec<SessionEvent> {
    let parsed = parse_response_stream_event_detail(SESSION, raw, 40);
    let mut events = parsed.events;
    if parsed.completed {
        events.push(SessionEvent::Result {
            session_id: SESSION,
            stop_reason: StopReason::EndTurn,
        });
    }
    events
}

#[test]
fn request_body_contains_prompt_and_stream_flag() {
    let body = request_body(&text_request("say hello"));

    assert_eq!(body.get_str("model"), Some("gpt-test"));
    assert!(body.get_str("instructions").unwrap().contains("Inductor"));
    assert_eq!(body.get_bool("stream"), Some(true));
    assert_eq!(text_at(&body, &["input", "0", "content", "0", "text"]), "say hello");
}

#[test]
fn request_body_normalizes_unsupported_codex_models() {
    let mut request = text_request("say hello");
    request.model = "gpt-5".to_string();
    let body = request_body(&request);

    assert_eq!(body.get_str("model"), Some("gpt-5.5"));
}

#[test]
fn request_body_serializes_reasoning_effort() {
    let mut request = text_request("think briefly");
    request.metadata = effort("xhigh");
    let body = request_body(&request);

    assert_eq!(text_at(&body, &["reasoning", "effort"]), "xhigh");
}

#[test]
fn request_body_normalizes_reasoning_effort_aliases() {
    for (input, expected) in [
        ("x_high", "xhigh"),
        ("x-high", "xhigh"),
        ("extra high", "xhigh"),
        ("max", "xhigh"),
        ("ultracode", "xhigh"),
        ("minimal", "minimal"),
        ("unknown", "medium"),
    ] {
        let mut request = text_request("think");
        request.metadata = effort(input);
        let body = request_body(&request);
        assert_eq!(text_at(&body, &["reasoning", "effort"]), expected);
    }
}

#[test]
fn request_body_clamps_effort_for_models_with_narrower_support() {
    for (model, input, expected) in [
        ("gpt-5.1", "x_high", "high"),
        ("gpt-5-pro", "medium", "high"),
        ("o3", "minimal", "medium"),
        ("codex-mini-latest", "xhigh", "medium"),
        ("gpt-5.5", "x_high", "xhigh"),
    ] {
        let mut request = text_request("think");
        request.model = model.to_string();
        request.metadata = effort(input);
        let body = request_body(&request);
        assert_eq!(
            text_at(&body, &["reasoning", "effort"]),
            expected,
            "unexpected effort for {model}"
        );
    }
    assert_eq!(normalize_codex_reasoning_effort("gpt-5.5", "low"), "low");
}

#[test]
fn request_body_includes_image_attachments() {
    let mut request = text_request("describe this");
    request.images = vec![ImageAttachment {
        path: Some("screenshot.png".to_string()),
        mime_type: "image/png".to_string(),
        base64_data: "abc123".to_string(),
        width: Some(10),
        height: Some(20),
        file_size: 6,
    }];
    let body = request_body(&request);

    let content = at(&body, &["input", "0", "content"]);
    assert_eq!(text_at(content, &["0", "type"]), "input_text");
    assert_eq!(text_at(content, &["1", "type"]), "input_image");
    assert_eq!(text_at(content, &["1", "image_url"]), "data:image/png;base64,abc123");
}

#[test]
fn request_body_prefers_typed_messages() {
    let mut request = text_request("legacy prompt");
    request.system_prompt = Some("custom instructions".to_string());
    request.messages = vec![ModelMessage::text("user", "typed hello")];

    let body = request_body(&request);

    assert_eq!(body.get_str("instructions"), Some("custom instructions"));
    assert_eq!(text_at(&body, &["input", "0", "role"]), "user");
    assert_eq!(text_at(&body, &["input", "0", "content", "0", "text"]), "typed hello");
}

#[test]
fn request_body_converts_tool_messages_to_valid_codex_input() {
    let mut request = text_request("legacy prompt");
    request.messages = vec![
        ModelMessage::text("assistant", "tool call requested"),
        ModelMessage::text("tool", "read_file result:\nhello"),
    ];

    let body = request_body(&request);

    assert_eq!(text_at(&body, &["input", "0", "role"]), "assistant");
    assert_eq!(text_at(&body, &["input", "0", "content", "0", "type"]), "output_text");
    assert!(at(&body, &["input", "0", "content", "0", "annotations"])
        .as_array()
        .unwrap()
        .is_empty());
    assert_eq!(text_at(&body, &["input", "1", "role"]), "user");
    assert_eq!(text_at(&body, &["input", "1", "content", "0", "type"]), "input_text");
    assert_eq!(
        text_at(&body, &["input", "1", "content", "0", "text"]),
        "Tool:\nread_file result:\nhello"
    );
    assert!(body
        .get_array("input")
        .unwrap()
        .iter()
        .all(|message| message.get_str("role") != Some("tool")));
}

#[test]
fn request_body_preserves_supported_codex_roles() {
    let mut request = text_request("legacy prompt");
    request.messages = vec![
        ModelMessage::text("system", "system context"),
        ModelMessage::text("developer", "developer context"),
        ModelMessage::text("user", "user prompt"),
        ModelMessage::text("assistant", "assistant answer"),
    ];

    let body = request_body(&request);
    let roles = body
        .get_array("input")
        .unwrap()
        .iter()
        .map(|message| message.get_str("role").unwrap())
        .collect::<Vec<_>>();

    assert_eq!(roles, vec!["system", "developer", "user", "assistant"]);
    assert_eq!(text_at(&body, &["input", "0", "content", "0", "type"]), "input_text");
    assert_eq!(text_at(&body, &["input", "1", "content", "0", "type"]), "input_text");
    assert_eq!(text_at(&body, &["input", "2", "content", "0", "type"]), "input_text");
    assert_eq!(text_at(&body, &["input", "3", "content", "0", "type"]), "output_text");
}

#[test]
fn request_body_skips_empty_stored_messages() {
    let mut request = text_request("legacy prompt");
    request.messages = vec![
        ModelMessage::text("user", "resume"),
        ModelMessage::text("assistant", ""),
        ModelMessage::text("assistant", "done"),
    ];

    let body = request_body(&request);
    let input = body.get_array("input").unwrap();

    assert_eq!(input.len(), 2);
    assert_eq!(input[0].get_str("role"), Some("user"));
    assert_eq!(input[1].get_str("role"), Some("assistant"));
    assert_eq!(text_at(&input[1], &["content", "0", "text"]), "done");
}

#[test]
fn request_body_advertises_function_tools() {
    let body = request_body(&text_request("hi"));
    let tools = body.get_array("tools").unwrap();
    let named = |name: &str| tools.iter().any(|tool| tool.get_str("name") == Some(name));
    assert!(named("list_dir"));
    assert!(named("glob"));
    assert!(named("apply_patch"));
    assert!(!named("write_file"));
    assert!(!named("edit_file"));
    assert!(!named("multi_edit"));
    assert!(!named("apply_patch_structured"));
    assert!(named("web_fetch"));
    assert!(named("todo_write"));
    assert!(named("bash"));
    assert_eq!(tools[0].get_str("type"), Some("function"));
    assert!(tools.iter().any(|tool| tool.get_str("type") == Some("web_search")));
    assert!(named("read_blob"));
}

#[test]
fn requests_have_their_address() {
    assert_eq!(responses_url("https://example.test"), "https://example.test/responses");
}

#[test]
fn sse_parser_converts_text_delta() {
    let raw = "event: response.output_text.delta\ndata: {\"type\":\"response.output_text.delta\",\"delta\":\"hello\"}\n";

    let events = response_events(raw);

    assert!(matches!(
        events.first().unwrap(),
        SessionEvent::TextDelta { text, .. } if text == "hello"
    ));
}

#[test]
fn function_call_emits_structured_tool_request() {
    let raw = r#"event: response.output_item.done
data: {"type":"response.output_item.done","item":{"type":"function_call","name":"write_file","call_id":"c1","arguments":"{\"path\":\"a.txt\",\"content\":\"hi\"}"}}
"#;

    let events = response_events(raw);
    assert!(matches!(
        events.first().unwrap(),
        SessionEvent::ToolCallRequested { name, input_json, .. }
            if name == "write_file"
                && input_json.to_text() == "{\"content\":\"hi\",\"path\":\"a.txt\"}"
    ));
    assert_eq!(events.len(), 1);
}

#[test]
fn function_call_detail_sanitizes_response_item_and_retains_call_id() {
    let raw = r#"event: response.output_item.done
data: {"type":"response.output_item.done","item":{"type":"function_call","id":"fc_1","name":"write_file","call_id":"call_1","arguments":"{\"path\":\"a.txt\",\"content\":\"hi\"}"}}
"#;

    let parsed = parse_response_stream_event_detail(SESSION, raw, 41);

    assert_eq!(parsed.output_items.len(), 1);
    assert_eq!(parsed.output_items[0].get_str("type"), Some("function_call"));
    assert!(parsed.output_items[0].get("id").is_none());
    assert_eq!(parsed.function_calls.len(), 1);
    assert_eq!(parsed.function_calls[0].call_id, "call_1");
    assert_eq!(parsed.function_calls[0].name, "write_file");
    assert!(matches!(
        parsed.events.first().unwrap(),
        SessionEvent::ToolCallRequested { tool_call_id, .. }
            if tool_call_id == &parsed.function_calls[0].tool_call_id
    ));
}

#[test]
fn reasoning_output_items_are_not_replayed_with_store_false() {
    let raw = r#"event: response.output_item.done
data: {"type":"response.output_item.done","item":{"type":"reasoning","id":"rs_0601405c3a9a119e016a30d89a680c8199a65219609d8df619","summary":[]}}
"#;

    let parsed = parse_response_stream_event_detail(SESSION, raw, 41);

    assert!(parsed.output_items.is_empty());
    assert!(parsed.function_calls.is_empty());
    assert!(parsed.events.is_empty());
}

fn pending() -> PendingFunctionCall {
    PendingFunctionCall {
        tool_call_id: ToolCallId(41),
        call_id: "call_1".to_string(),
        name: "read_file".to_string(),
    }
}

#[test]
fn function_call_output_uses_codex_call_id() {
    let output = function_call_output_item(
        &pending(),
        &ProviderToolResponse {
            tool_call_id: ToolCallId(41),
            output: "file contents".to_string(),
            is_error: false,
        },
    );

    assert_eq!(output.get_str("type"), Some("function_call_output"));
    assert_eq!(output.get_str("call_id"), Some("call_1"));
    assert_eq!(output.get_str("output"), Some("file contents"));
}

#[test]
fn function_call_output_marks_tool_errors() {
    let output = function_call_output_item(
        &pending(),
        &ProviderToolResponse {
            tool_call_id: ToolCallId(41),
            output: "not found".to_string(),
            is_error: true,
        },
    );

    assert_eq!(output.get_str("output"), Some("error: not found"));
}

fn opened() -> ResponseOutcome {
    ResponseOutcome::Opened {
        status: "200 OK".to_string(),
        content_type: Some("text/event-stream".to_string()),
    }
}

fn bytes(text: &str) -> ChunkOutcome {
    ChunkOutcome::Bytes {
        bytes: text.as_bytes().to_vec(),
    }
}

/// The id of the tool call that an event asks for.
fn asked(event: &SessionEvent) -> Option<ToolCallId> {
    match event {
        SessionEvent::ToolCallRequested { tool_call_id, .. } => Some(*tool_call_id),
        _ => None,
    }
}

fn response(id: ToolCallId, output: &str, is_error: bool) -> ToolOutcome {
    ToolOutcome::Done {
        response: ProviderToolResponse {
            tool_call_id: id,
            output: output.to_string(),
            is_error,
        },
    }
}

#[test]
fn stream_turn_continues_after_failed_tool_result() {
    let responses = [
        r#"event: response.output_text.delta
data: {"type":"response.output_text.delta","delta":"checking"}

event: response.output_item.done
data: {"type":"response.output_item.done","item":{"type":"reasoning","id":"rs_0601405c3a9a119e016a30d89a680c8199a65219609d8df619","summary":[]}}

event: response.output_item.done
data: {"type":"response.output_item.done","item":{"type":"function_call","id":"fc_1","name":"list_dir","call_id":"call_1","arguments":"{}"}}

event: response.completed
data: {"type":"response.completed","response":{"usage":{"input_tokens":10,"output_tokens":3}}}

data: [DONE]

"#,
        r#"event: response.output_text.delta
data: {"type":"response.output_text.delta","delta":"continued after failure"}

event: response.completed
data: {"type":"response.completed","response":{"usage":{"input_tokens":12,"output_tokens":4}}}

data: [DONE]

"#,
    ];
    let request = text_request("check all tools");
    let mut requests: Vec<Json> = Vec::new();
    let mut events: Vec<SessionEvent> = Vec::new();
    let mut fresh = 100;
    let mut round = 0;
    let mut sent = false;
    let (mut turn, mut step) = CodexTurn::begin(SESSION, 60, codex_input_messages(&request));
    loop {
        events.append(&mut step.events);
        step = match step.action {
            HttpAction::Request => {
                requests.push(turn.body(&request));
                sent = false;
                turn.answered(opened())
            }
            HttpAction::NextChunk => {
                if sent {
                    turn.read(ChunkOutcome::Ended)
                } else {
                    sent = true;
                    round += 1;
                    turn.read(bytes(responses[round - 1]))
                }
            }
            HttpAction::NextFrame => {
                fresh += 1;
                turn.frame(fresh)
            }
            HttpAction::AwaitTool => {
                let id = events.iter().find_map(asked).unwrap();
                turn.tool(response(id, "list_dir failed", true))
            }
            HttpAction::Fail { error } => panic!("{error}"),
            HttpAction::Finished => break,
        };
    }

    assert!(events.iter().any(|event| matches!(
        event,
        SessionEvent::ToolCallRequested { name, input_json, .. }
            if name == "list_dir" && input_json.to_text() == "{}"
    )));
    assert!(events.iter().any(|event| matches!(
        event,
        SessionEvent::TextDelta { text, .. } if text == "continued after failure"
    )));
    assert!(matches!(events.last(), Some(SessionEvent::Result { .. })));

    assert_eq!(requests.len(), 2);
    assert_eq!(text_at(&requests[0], &["input", "0", "role"]), "user");
    let second = requests[1].get_array("input").unwrap();
    assert!(second.iter().any(|item| {
        item.get_str("type") == Some("function_call")
            && item.get_str("name") == Some("list_dir")
            && item.get_str("call_id") == Some("call_1")
            && item.get("id").is_none()
    }));
    assert!(!second
        .iter()
        .any(|item| item.get_str("type") == Some("reasoning") || item.get_str("id").is_some()));
    let output = second
        .iter()
        .find(|item| item.get_str("type") == Some("function_call_output"))
        .unwrap();
    assert_eq!(output.get_str("call_id"), Some("call_1"));
    assert_eq!(output.get_str("output"), Some("error: list_dir failed"));
}

fn broken() -> ChunkOutcome {
    ChunkOutcome::Failed {
        error: ErrorChain {
            message: "error decoding response body".to_string(),
            causes: vec!["connection reset".to_string()],
        },
    }
}

#[test]
fn a_response_is_asked_for_again_while_nothing_was_seen() {
    let request = text_request("hello");
    let (mut turn, _) = CodexTurn::begin(SESSION, 60, codex_input_messages(&request));
    turn.answered(opened());
    let step = turn.read(broken());
    assert!(matches!(step.action, HttpAction::Request));

    let (mut turn, _) = CodexTurn::begin(SESSION, 60, codex_input_messages(&request));
    turn.answered(opened());
    turn.read(bytes(
        "data: {\"type\":\"response.output_text.delta\",\"delta\":\"hi\"}\n\n",
    ));
    turn.frame(1);
    let step: HttpStep = turn.read(broken());
    assert!(matches!(
        step.action,
        HttpAction::Fail { error }
            if error.contains("stream dropped after partial assistant output")
                && error.contains("connection reset")
    ));
}

#[test]
fn refused_requests_end_the_turn() {
    let request = text_request("hello");
    let (mut turn, _) = CodexTurn::begin(SESSION, 60, codex_input_messages(&request));
    let step = turn.answered(ResponseOutcome::Refused {
        status: "401 Unauthorized".to_string(),
        body: "Bearer secret".to_string(),
    });
    assert!(matches!(step.action, HttpAction::Finished));
    assert!(matches!(
        step.events.last(),
        Some(SessionEvent::Error { message, .. })
            if message.contains("401") && !message.contains("Bearer secret")
    ));
}

#[test]
fn codex_model_catalog_includes_current_subscription_models() {
    let models = codex_model_catalog(None);

    assert!(models.iter().any(|model| model.id == "gpt-5.5"));
    assert!(models.iter().any(|model| model.id == "gpt-5.4"));
    assert!(models.iter().any(|model| model.id == "gpt-5.4-mini"));
    assert!(!models.iter().any(|model| model.id == "gpt-5.3-codex"));
}

#[test]
fn web_search_call_surfaces_for_display_not_execution() {
    let raw = r#"event: response.output_item.done
data: {"type":"response.output_item.done","item":{"type":"web_search_call","action":{"query":"rust async streams"}}}
"#;
    let events = response_events(raw);
    match events.first().unwrap() {
        SessionEvent::ToolCallStart {
            name, input_json, ..
        } => {
            assert_eq!(name, "web_search");
            assert_eq!(input_json.get_str("query"), Some("rust async streams"));
        }
        other => panic!("expected ToolCallStart, got {other:?}"),
    }
}

#[test]
fn sse_parser_converts_completion() {
    let raw = "event: response.completed\ndata: {\"type\":\"response.completed\"}\n";

    let events = response_events(raw);

    assert!(matches!(
        events.last().unwrap(),
        SessionEvent::Result {
            stop_reason: StopReason::EndTurn,
            ..
        }
    ));
}

#[test]
fn completion_detail_does_not_emit_final_result() {
    let raw = "event: response.completed\ndata: {\"type\":\"response.completed\"}\n";

    let parsed = parse_response_stream_event_detail(SESSION, raw, 1);

    assert!(parsed.completed);
    assert!(!parsed
        .events
        .iter()
        .any(|event| matches!(event, SessionEvent::Result { .. })));
}

#[test]
fn sse_parser_extracts_usage_on_completion() {
    let raw = r#"event: response.completed
data: {"type":"response.completed","response":{"usage":{"input_tokens":120,"output_tokens":45,"input_tokens_details":{"cached_tokens":80}}}}
"#;

    let events = response_events(raw);

    assert!(events.iter().any(|event| matches!(
        event,
        SessionEvent::Usage {
            input_tokens: Some(120),
            output_tokens: Some(45),
            cache_read_tokens: Some(80),
            ..
        }
    )));
    assert!(matches!(events.last().unwrap(), SessionEvent::Result { .. }));
}

#[test]
fn auth_header_debug_does_not_expose_secret() {
    let auth = ProviderAuth::new(ProviderAuthKind::SessionToken, "secret-token".to_string());
    let header = bearer_header(&auth).unwrap();

    assert!(header.is_sensitive());
    assert_eq!(header.to_str().unwrap(), "Bearer secret-token");
    assert!(!auth.debug_text().contains("secret-token"));
    let broken = ProviderAuth::new(ProviderAuthKind::ApiKey, "line\nbreak".to_string());
    assert!(bearer_header(&broken).is_none());
}

#[test]
fn provider_auth_debug_redacts_secret() {
    let auth = ProviderAuth::new(
        ProviderAuthKind::SessionToken,
        "secret-provider-token".to_string(),
    );

    let debug = auth.debug_text();

    assert!(debug.contains("ProviderAuth"));
    assert!(debug.contains("SessionToken"));
    assert!(debug.contains("<redacted>"));
    assert!(!debug.contains("secret-provider-token"));
    assert_eq!(auth.expose_secret(), "secret-provider-token");
    assert_eq!(auth.kind(), ProviderAuthKind::SessionToken);
}

#[test]
fn drains_complete_sse_frames_and_keeps_partial_buffer() {
    let mut buffer = "data: one\n\ndata: two".to_string();
    let events = drain_sse_events(&mut buffer);

    assert_eq!(events, vec!["data: one"]);
    assert_eq!(buffer, "data: two");
    assert_eq!(drain_sse_events_at_eof(&mut buffer), vec!["data: two"]);
    assert_eq!(data_of_event("event: x\ndata: one\ndata: two"), "one\ntwo");
}

#[test]
fn a_stream_is_the_same_in_any_pieces() {
    let stream = "data: one\n\n\n\ndata: two\n\ndata: three";
    let mut whole = stream.to_string();
    let expected = drain_sse_events(&mut whole);
    assert_eq!(expected, vec!["data: one", "", "data: two"]);
    for cut in 0..stream.len() {
        let mut buffer = stream[..cut].to_string();
        let mut events = drain_sse_events(&mut buffer);
        buffer.push_str(&stream[cut..]);
        events.extend(drain_sse_events(&mut buffer));
        assert_eq!(events, expected);
        assert_eq!(buffer, whole);
    }
}

#[test]
fn errors_are_told_with_their_causes() {
    let error = ErrorChain {
        message: "outer".to_string(),
        causes: vec!["middle".to_string(), "inner".to_string()],
    };
    let told = error_source_chain(&error);
    assert!(told.contains("middle"));
    assert!(told.contains("inner"));
}

#[test]
fn chat_body_uses_openai_compatible_tools() {
    let request = chat_request("hello");
    let body = chat_body_with_messages(&request, copilot_messages(&request));

    assert_eq!(body.get_str("model"), Some("gpt-test"));
    assert_eq!(body.get_bool("stream"), Some(true));
    assert_eq!(text_at(&body, &["messages", "0", "role"]), "system");
    assert_eq!(text_at(&body, &["messages", "1", "role"]), "user");
    assert_eq!(body.get_str("tool_choice"), Some("auto"));
    assert_eq!(text_at(&body, &["tools", "0", "type"]), "function");
    assert!(at(&body, &["tools", "0", "function", "name"]).as_str().is_some());
}

#[test]
fn chat_body_omits_tool_choice_when_no_tools_are_advertised() {
    let mut request = chat_request("hello");
    request.tool_names = vec!["unknown_tool".to_string()];

    let body = chat_body_with_messages(&request, copilot_messages(&request));

    assert!(body.get("tools").is_none());
    assert!(body.get("tool_choice").is_none());
}

fn chat(role: &str, content: &str) -> Json {
    Json::object()
        .with("role", Json::text(role))
        .with("content", Json::text(content))
}

#[test]
fn oversized_copilot_history_is_compacted_below_soft_limit() {
    let mut messages = vec![chat("system", "system")];
    messages.extend(
        (0..8).map(|index| chat("user", &format!("message {index} {}", "word ".repeat(40_000)))),
    );

    let result = compact_copilot_messages(&mut messages, SOFT_TOKENS, HARD_TOKENS).unwrap();

    assert!(result.is_some());
    assert!(copilot_messages_token_estimate(&messages) <= SOFT_TOKENS);
    assert_eq!(messages[0].get_str("role"), Some("system"));
    assert!(messages.iter().any(|message| {
        message
            .get_str("content")
            .is_some_and(|content| content.contains("Inductor compacted"))
    }));
}

#[test]
fn copilot_compaction_preserves_latest_structured_tool_exchange_when_it_fits() {
    let call = value(
        r#"{"role":"assistant","content":null,"tool_calls":[{"id":"call_1","type":"function","function":{"name":"read_file","arguments":"{\"path\":\"a.txt\"}"}}]}"#,
    );
    let result = value(r#"{"role":"tool","tool_call_id":"call_1","content":"latest result"}"#);
    let mut messages = vec![
        chat("system", "system"),
        chat("user", &"word ".repeat(210_000)),
        call,
        result,
    ];

    compact_copilot_messages(&mut messages, SOFT_TOKENS, HARD_TOKENS).unwrap();

    assert!(messages.iter().any(copilot_message_has_tool_calls));
    assert!(messages.iter().any(|message| message.get_str("role") == Some("tool")));
    assert!(copilot_messages_token_estimate(&messages) <= SOFT_TOKENS);
}

#[test]
fn short_histories_are_left_alone() {
    let mut messages = vec![chat("system", "system"), chat("user", "hi")];
    let result = compact_copilot_messages(&mut messages, SOFT_TOKENS, HARD_TOKENS).unwrap();
    assert!(result.is_none());
    assert_eq!(messages.len(), 2);
    assert!(truncate_chars(&"x".repeat(50), 10).starts_with("xxxxxxxxxx"));
}

const CALL_START: &str = r#"data: {"choices":[{"delta":{"tool_calls":[{"index":0,"id":"call_1","type":"function","function":{"name":"read_file","arguments":"{\"path\""}}]}}]}"#;

#[test]
fn chat_stream_maps_text_and_tool_calls() {
    let mut assistant = PendingAssistantMessage::new(50);

    let text = r#"data: {"choices":[{"delta":{"content":"hi"}}]}"#;
    let parsed = parse_chat_stream_event(SESSION, text, &mut assistant);
    assert_eq!(parsed.events.len(), 1);
    assert!(matches!(
        &parsed.events[0],
        SessionEvent::TextDelta { session_id, text } if *session_id == SESSION && text == "hi"
    ));

    parse_chat_stream_event(SESSION, CALL_START, &mut assistant);
    let call_end = r#"data: {"choices":[{"delta":{"tool_calls":[{"index":0,"function":{"arguments":":\"Cargo.toml\"}"}}]},"finish_reason":"tool_calls"}]}"#;
    let parsed = parse_chat_stream_event(SESSION, call_end, &mut assistant);

    assert!(matches!(
        parsed.events.first(),
        Some(SessionEvent::ToolCallRequested { name, input_json, .. })
            if name == "read_file" && input_json.get_str("path") == Some("Cargo.toml")
    ));
}

#[test]
fn pending_tool_calls_are_emitted_at_stream_end_without_finish_reason() {
    let mut assistant = PendingAssistantMessage::new(50);

    parse_chat_stream_event(SESSION, CALL_START, &mut assistant);
    let call_end = r#"data: {"choices":[{"delta":{"tool_calls":[{"index":0,"function":{"arguments":":\"Cargo.toml\"}"}}]}}]}"#;
    let parsed = parse_chat_stream_event(SESSION, call_end, &mut assistant);
    assert!(parsed.events.is_empty());

    let events = assistant.emit_ready_tool_requests(SESSION);
    assert!(matches!(
        events.first(),
        Some(SessionEvent::ToolCallRequested { name, input_json, .. })
            if name == "read_file" && input_json.get_str("path") == Some("Cargo.toml")
    ));
    assert!(assistant.emit_ready_tool_requests(SESSION).is_empty());
}

#[test]
fn assistant_message_only_includes_requested_complete_tool_calls() {
    let mut assistant = PendingAssistantMessage::new(50);

    let ready = r#"data: {"choices":[{"delta":{"tool_calls":[{"index":0,"id":"call_1","type":"function","function":{"name":"read_file","arguments":"{}"}}]}}]}"#;
    parse_chat_stream_event(SESSION, ready, &mut assistant);
    let incomplete = r#"data: {"choices":[{"delta":{"tool_calls":[{"index":1,"type":"function","function":{"name":"list_dir","arguments":"{}"}}]}}]}"#;
    parse_chat_stream_event(SESSION, incomplete, &mut assistant);
    assistant.emit_ready_tool_requests(SESSION);

    let message = assistant.to_chat_message();
    let tool_calls = message.get_array("tool_calls").unwrap();
    assert_eq!(tool_calls.len(), 1);
    assert_eq!(tool_calls[0].get_str("id"), Some("call_1"));
    assert_eq!(text_at(&tool_calls[0], &["function", "name"]), "read_file");
}

#[test]
fn done_sse_marks_stream_done() {
    let mut assistant = PendingAssistantMessage::new(50);
    let parsed = parse_chat_stream_event(SESSION, "data: [DONE]", &mut assistant);
    assert!(parsed.done);
}

#[test]
fn a_chat_goes_on_with_the_results_of_its_calls() {
    let request = chat_request("hello");
    let limits = ContextLimits {
        soft: SOFT_TOKENS,
        hard: HARD_TOKENS,
    };
    let (mut turn, step) = CopilotTurn::begin(SESSION, 60, limits, copilot_messages(&request));
    assert!(matches!(step.action, HttpAction::Request));
    turn.answered(opened(), 70);
    turn.read(bytes(
        "data: {\"choices\":[{\"delta\":{\"tool_calls\":[{\"index\":0,\"id\":\"call_1\",\"type\":\"function\",\"function\":{\"name\":\"list_dir\",\"arguments\":\"{}\"}}]},\"finish_reason\":\"tool_calls\"}]}\n\ndata: [DONE]\n\n",
    ));
    let mut id = None;
    let mut step = turn.frame();
    loop {
        id = id.or(step.events.iter().find_map(asked));
        match step.action {
            HttpAction::NextFrame => step = turn.frame(),
            HttpAction::NextChunk => step = turn.read(ChunkOutcome::Ended),
            HttpAction::AwaitTool => break,
            other => panic!("{other:?}"),
        }
    }
    let step = turn.tool(response(id.unwrap(), "a.txt", false));
    assert!(matches!(step.action, HttpAction::Request));
    let body = turn.body(&request);
    let messages = body.get_array("messages").unwrap();
    let last = messages.last().unwrap();
    assert_eq!(last.get_str("role"), Some("tool"));
    assert_eq!(last.get_str("tool_call_id"), Some("call_1"));
    assert_eq!(last.get_str("content"), Some("a.txt"));
}

#[test]
fn chats_that_cannot_fit_are_not_sent() {
    let limits = ContextLimits { soft: 4, hard: 6 };
    let messages = vec![chat("system", &"x".repeat(4000))];
    let (_, step) = CopilotTurn::begin(SESSION, 60, limits, messages);
    assert!(!matches!(step.action, HttpAction::Request));
}

#[test]
fn chat_models_are_listed() {
    let answer = value(
        r#"{"data":[{"id":"own","name":"Own","capabilities":["chat"]},{"id":"embed","capabilities":["embeddings"]}]}"#,
    );
    let told = models_answer(true, "200 OK", &answer.to_text(), None).unwrap();
    let models = list_models(&answer, None);
    assert_eq!(told.len(), models.len());
    assert_eq!(told[0].id, models[0].id);
    assert_eq!(
        models_answer(false, "500", "no", None).err().as_deref(),
        Some("copilot model list failed with HTTP 500: no")
    );
    assert!(models_answer(true, "200 OK", "[", None).is_err());
    assert!(models.iter().any(|model| model.id == "own"));
    assert!(!models.iter().any(|model| model.id == "embed"));
    assert!(copilot_model_is_chat_capable(&value("{\"capabilities\":[\"CHAT\"]}")));
    let own = copilot_model_catalog(None);
    assert_eq!(own[1].id, format!("{}-sonnet-4", vendor_name()));
    assert_eq!(own[1].display_name, format!("{} Sonnet 4", brand_name()));
    assert_eq!(normalize_copilot_model("  "), "gpt-4.1");
}

#[test]
fn tokens_are_used_until_they_expire() {
    let token = CopilotBearerToken {
        token: "t".to_string(),
        expires_at: 1000,
    };
    assert_eq!(cached_bearer_token(Some(&token), 100).as_deref(), Some("t"));
    assert_eq!(cached_bearer_token(Some(&token), 1000), None);
    assert_eq!(cached_bearer_token(None, 0), None);
    let read = read_token(&value("{\"token\":\"t\",\"expires_at\":1000}")).unwrap();
    assert_eq!((read.token.as_str(), read.expires_at), ("t", 1000));
    assert!(read_token(&value("{\"token\":\"t\"}")).is_none());
    let read = token_answer(true, "200 OK", "{\"token\":\"t\",\"expires_at\":1000}").unwrap();
    assert_eq!((read.token.as_str(), read.expires_at), ("t", 1000));
    let told = |success: bool, body: &str| token_answer(success, "401 Unauthorized", body).err();
    assert_eq!(told(true, "{}").as_deref(), Some("the answer holds no token"));
    assert_eq!(
        told(false, "no").as_deref(),
        Some("copilot token exchange failed with HTTP 401 Unauthorized: no")
    );
    assert!(told(true, "{").is_some());
    let headers = shared_headers(None, Some("own".to_string()));
    assert!(headers.contains(&("editor-version", "vscode/1.95.0".to_string())));
    assert!(headers.contains(&("copilot-integration-id", "own".to_string())));
    assert_eq!(service_url("https://a.test", "/models"), "https://a.test/models");
    assert!(redact_error_body("Bearer abc").starts_with("Bearer <redacted>"));
}
