use hybridtrade::agents::{AgentRole, ChatTurn, DebugToolCall};
use hybridtrade::config::ProviderConfig;
use hybridtrade::conversation::{
    append_turn_to_history, build_assistant_history_content, build_runtime_continuity_note,
    cached_tool_runtime_key, provider_api_key, provider_is_configured,
    render_history_for_log, resolve_effective_history, ProviderKind,
};

fn turn(role: &str, content: &str) -> ChatTurn {
    ChatTurn {
        role: role.to_string(),
        content: content.to_string(),
    }
}

#[test]
fn prefers_runtime_history_when_available() {
    let runtime_history = vec![turn("assistant", "tool-backed memory")];
    let request_history = vec![turn("assistant", "plain client history")];

    let effective = resolve_effective_history(&runtime_history, &request_history);

    assert_eq!(effective[0].content, "tool-backed memory");
}

#[test]
fn falls_back_to_request_history() {
    let request_history = vec![turn("user", "hello")];
    let effective = resolve_effective_history(&[], &request_history);
    assert_eq!(effective.len(), 1);
    assert_eq!(effective[0].content, "hello");
}

#[test]
fn assistant_history_content_embeds_tool_results() {
    let content = build_assistant_history_content(
        "Đã mở example.com.",
        &[DebugToolCall {
            name: "chrome_devtools__new_page".to_string(),
            source: "mcp:chrome-devtools".to_string(),
            status: "completed".to_string(),
            input_json: "{\"url\":\"https://example.com\"}".to_string(),
            output_preview: "## Pages 1: about:blank 2: https://example.com/ [selected]"
                .to_string(),
        }],
    );

    assert!(content.contains("Kết quả tool thật trong turn này"));
    assert!(content.contains("chrome_devtools__new_page"));
    assert!(content.contains("Đã mở example.com."));
    assert_eq!(
        content,
        "Kết quả tool thật trong turn này:\n- chrome_devtools__new_page [completed] | input: {\"url\":\"https://example.com\"} | output: ## Pages 1: about:blank 2: https://example.com/ [selected]\n\nPhản hồi gửi user:\nĐã mở example.com."
    );
}

#[test]
fn assistant_history_without_tools_is_the_trimmed_text() {
    assert_eq!(build_assistant_history_content("  hi  ", &[]), "hi");
}

#[test]
fn append_turn_to_history_keeps_user_assistant_order() {
    let updated = append_turn_to_history(&[], "vào example.com", "Đã vào rồi.");

    assert_eq!(updated.len(), 2);
    assert_eq!(updated[0].role, "user");
    assert_eq!(updated[1].role, "assistant");
}

#[test]
fn appended_turns_are_trimmed() {
    let updated = append_turn_to_history(&[turn("user", "a")], "  b ", " c  ");
    assert_eq!(updated.len(), 3);
    assert_eq!(updated[1].content, "b");
    assert_eq!(updated[2].content, "c");
}

#[test]
fn runtime_key_and_history_log() {
    assert_eq!(cached_tool_runtime_key(AgentRole::Kuromi, "abc"), "kuromi::abc");
    assert_eq!(render_history_for_log(&[]), "(empty)");
    assert_eq!(
        render_history_for_log(&[turn("user", " a   b "), turn("assistant", "c")]),
        "1. user: a b\n2. assistant: c"
    );
}

fn call(name: &str) -> DebugToolCall {
    DebugToolCall {
        name: name.to_string(),
        source: "native".to_string(),
        status: "completed".to_string(),
        input_json: "{}".to_string(),
        output_preview: "out".to_string(),
    }
}

#[test]
fn continuity_note_keeps_last_four_calls() {
    assert!(build_runtime_continuity_note(&[]).is_none());
    let calls: Vec<_> = ["a", "b", "c", "d", "e"].iter().map(|n| call(n)).collect();
    let note = build_runtime_continuity_note(&calls).unwrap();
    assert!(note.ends_with("- b [completed] => out\n- c [completed] => out\n- d [completed] => out\n- e [completed] => out"));
    assert!(!note.contains("- a ["));
}

#[test]
fn provider_kind_parsing() {
    assert_eq!(ProviderKind::parse(" OpenAI ").unwrap(), ProviderKind::OpenAi);
    assert_eq!(ProviderKind::parse("anthropic").unwrap(), ProviderKind::Anthropic);
    assert_eq!(
        ProviderKind::parse("Gemini").unwrap_err(),
        "provider không được hỗ trợ: gemini"
    );
    assert_eq!(ProviderKind::OpenAi.name(), "openai");
}

#[test]
fn provider_configuration_checks() {
    let mut config = ProviderConfig::default();
    assert!(!provider_is_configured(&config, None));
    config.base_url = "https://api".to_string();
    config.model = "m".to_string();
    assert!(provider_is_configured(&config, None));
    config.api_key_env = "KEY".to_string();
    assert!(!provider_is_configured(&config, None));
    assert!(!provider_is_configured(&config, Some("  ".to_string())));
    assert!(provider_is_configured(&config, Some("secret".to_string())));
    assert_eq!(provider_api_key(&config, Some("secret".to_string())), Some("secret".to_string()));
    assert_eq!(provider_api_key(&ProviderConfig::default(), Some("secret".to_string())), None);
}
