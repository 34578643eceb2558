use hybridtrade::agents::{AgentRole, ChatTurn, DebugToolCall};
use hybridtrade::condense::{aggressive_retry, compact_history_for_provider, CompactMode};
use hybridtrade::config::ProviderConfig;
use hybridtrade::conversation::{check_chat_provider, ProviderKind};
use hybridtrade::history::HistoryCompaction;
use hybridtrade::registry::ToolRegistry;
use hybridtrade::runtime::ToolRuntime;

fn configured(model: &str) -> ProviderConfig {
    let mut config = ProviderConfig::default();
    config.enabled = true;
    config.base_url = "https://api.example".to_string();
    config.model = model.to_string();
    config
}

#[test]
fn chat_provider_must_be_on_and_configured() {
    let mut config = configured("m");
    assert_eq!(check_chat_provider(&config, ProviderKind::OpenAi, None), Ok(()));
    config.api_key_env = "KEY_VAR".to_string();
    assert_eq!(
        check_chat_provider(&config, ProviderKind::Anthropic, None),
        Err("provider anthropic chưa được cấu hình đầy đủ, hãy kiểm tra base_url, model và API key nếu backend đó yêu cầu".to_string())
    );
    assert_eq!(check_chat_provider(&config, ProviderKind::Anthropic, Some("k".to_string())), Ok(()));
    config.enabled = false;
    assert_eq!(
        check_chat_provider(&config, ProviderKind::OpenAi, Some("k".to_string())),
        Err("provider openai hiện đang tắt".to_string())
    );
}

#[test]
fn finishing_a_turn_records_it_in_the_history() {
    let mut runtime = ToolRuntime::new(ToolRegistry::new(), vec![], None);
    runtime.stream_label = Some("member".to_string());
    let history = vec![ChatTurn::new("user", "hi"), ChatTurn::new("assistant", "hello")];
    runtime.finish_turn(&history, "  next question ", " answer ");
    assert_eq!(runtime.history.len(), 4);
    assert_eq!(runtime.history[2].content, "next question");
    assert_eq!(runtime.history[3].role, "assistant");
    assert_eq!(runtime.history[3].content, "answer");
    assert!(runtime.stream_label.is_none());
}

#[test]
fn chat_response_reports_the_turn() {
    let mut runtime = ToolRuntime::new(ToolRegistry::new(), vec![], None);
    runtime.tool_calls.push(DebugToolCall {
        name: "read".to_string(),
        source: "native:read".to_string(),
        status: "completed".to_string(),
        input_json: "{}".to_string(),
        output_preview: "ok".to_string(),
    });
    let compacted = HistoryCompaction::unchanged("sys", &[], "q");
    let response = runtime.chat_response(
        AgentRole::Kuromi,
        ProviderKind::Anthropic,
        "opus",
        "the answer".to_string(),
        Some("s1".to_string()),
        compacted,
        Some("ctx".to_string()),
    );
    assert_eq!(response.agent_role, "kuromi");
    assert_eq!(response.provider, "anthropic");
    assert_eq!(response.model, "opus");
    assert_eq!(response.content, "the answer");
    assert_eq!(response.chat_session_id, Some("s1".to_string()));
    assert_eq!(response.debug.system_prompt, "sys");
    assert_eq!(response.debug.context_preview, Some("ctx".to_string()));
    assert!(!response.debug.compacted);
    assert_eq!(response.debug.tool_calls.len(), 1);
    assert_eq!(response.debug.tool_calls[0].name, "read");
    assert!(response.debug.available_tools.is_empty());
}

#[test]
fn context_errors_retry_with_less() {
    let mut config = configured("m");
    config.compact_threshold_chars = 200;
    config.compact_target_chars = 100;
    config.compact_summary_chars = 80;
    config.compact_keep_recent_turns = 4;
    let history: Vec<ChatTurn> = (0..8)
        .map(|i| ChatTurn::new(if i % 2 == 0 { "user" } else { "assistant" }, &"word ".repeat(20)))
        .collect();
    let normal = compact_history_for_provider(&config, "sys", &history, "q", CompactMode::Normal);
    assert!(aggressive_retry(&config, "sys", &history, "q", &normal, "rate limited").is_none());
    let retry = aggressive_retry(&config, "sys", &history, "q", &normal, "maximum context length exceeded");
    let retry = retry.expect("aggressive compaction sends less");
    assert!(retry.is_more_compact_than(&normal));
    assert_eq!(retry.debug.compact_mode, Some("aggressive"));
}
