use inductor::naming::{
    begin_description, clean_pr_description, clean_title, fallback_pr_description,
    finish_description, finish_name, limit_words, naming_prompt, pr_description_prompt,
    truncate_chars, ModelBasedNamer, NamingStep, ReplyText, SessionNamingConfig,
};
use inductor::runtime::events::SessionEvent;
use inductor::runtime::types::{SessionId, StopReason};

#[test]
fn test_empty_prompts() {
    let namer = ModelBasedNamer::new(SessionNamingConfig::default());
    match namer.begin(&Vec::new()) {
        NamingStep::Named(name) => assert_eq!(name, "New Session"),
        NamingStep::Ask(_) => panic!("no prompt, no question"),
    }
}

#[test]
fn test_disabled_config() {
    let config = SessionNamingConfig {
        enabled: false,
        ..Default::default()
    };
    let namer = ModelBasedNamer::new(config);
    match namer.begin(&vec!["Test prompt".to_string()]) {
        NamingStep::Named(name) => assert_eq!(name, "New Session"),
        NamingStep::Ask(_) => panic!("naming is off"),
    }
}

#[test]
fn limit_words_caps_at_three_words() {
    assert_eq!(limit_words("Fix login refresh bug now", 3), "Fix login refresh");
    assert_eq!(limit_words("Parser bug", 3), "Parser bug");
    assert_eq!(limit_words("Add  retry,", 3), "Add retry");
    assert_eq!(limit_words("", 3), "");
}

#[test]
fn clean_title_removes_quotes_and_period() {
    assert_eq!(clean_title("\"Parser bug fix.\"\nextra"), "Parser bug fix");
}

#[test]
fn naming_prompt_keeps_strict_rules() {
    let prompt = naming_prompt("fix auth refresh");

    assert!(prompt.contains("ONLY a thread title"));
    assert!(prompt.contains("fix auth refresh"));
}

#[test]
fn the_first_prompt_is_shown_to_the_model() {
    let mut config = SessionNamingConfig::default();
    config.enabled = true;
    let namer = ModelBasedNamer::new(config);
    match namer.begin(&vec!["repair the parser".to_string()]) {
        NamingStep::Ask(prompt) => assert!(prompt.contains("repair the parser")),
        NamingStep::Named(name) => panic!("{name}"),
    }
}

#[test]
fn a_name_has_at_most_three_words() {
    assert_eq!(finish_name("\"Rework the session store.\""), "Rework the session");
    assert_eq!(finish_name("   "), "New Session");
}

#[test]
fn long_texts_are_cut_and_marked() {
    assert_eq!(truncate_chars("héllo", 5), "héllo");
    assert_eq!(truncate_chars("héllo!", 2), "hé\n… [truncated]");
}

#[test]
fn a_description_names_title_and_diff() {
    let prompt = pr_description_prompt("Add retry", "1 file changed");
    assert!(prompt.contains("Add retry"));
    assert!(prompt.ends_with("Git diff summary:\n1 file changed"));

    assert_eq!(clean_pr_description("\"```md\nAdds a retry.\n```\""), "Adds a retry.");
    assert_eq!(clean_pr_description("`Adds a retry.`"), "Adds a retry.");
    let fallback = fallback_pr_description("Add retry", "1 file changed");
    assert!(fallback.contains("Add retry"));
    assert_eq!(finish_description("Add retry", "1 file changed", "  "), fallback);
    assert_eq!(finish_description("Add retry", "", "Adds a retry."), "Adds a retry.");
}

#[test]
fn a_description_is_not_asked_for_when_naming_is_off() {
    let config = SessionNamingConfig {
        enabled: false,
        ..Default::default()
    };
    match begin_description(&config, "Add retry", "1 file changed") {
        NamingStep::Named(body) => {
            assert_eq!(body, fallback_pr_description("Add retry", "1 file changed"))
        }
        NamingStep::Ask(_) => panic!("naming is off"),
    }
}

#[test]
fn a_reply_is_gathered_until_its_result() {
    let session = SessionId(1);
    let mut reply = ReplyText::new();
    for piece in ["Parser ", "fix"] {
        reply.hear(&SessionEvent::TextDelta {
            session_id: session,
            text: piece.to_string(),
        });
    }
    assert!(!reply.ended);
    reply.hear(&SessionEvent::Result {
        session_id: session,
        stop_reason: StopReason::EndTurn,
    });
    assert!(reply.ended);
    assert_eq!(reply.text, "Parser fix");
}
