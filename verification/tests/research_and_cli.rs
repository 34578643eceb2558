use hybridtrade::agents::{
    DebugAgentChatDebug, DebugAgentChatResponse, DebugAgentView, DebugMcpServerView, DebugToolView,
    ProviderStatusView,
};
use hybridtrade::cli::{
    agent_listing, backend_base_url, backend_error_message, backend_url, chat_error_message,
    chat_response_text, provider_listing,
};
use hybridtrade::cli::{
    render_stream_event, repl_record_exchange, repl_step, tool_call_summary, tool_usage_summary,
    ReplAction, ReplState, StreamEvent, StreamOutcome, StreamView,
};
use hybridtrade::cli::{
    agent_label, extract_sse_event, is_http_pass, is_https_pass, join_set, normalize_proxy_line,
    proxy_list_from_body, render_assistant_content, results_text, selected_agent,
    single_line_preview, sort_by_latency, truncate_for_error, truncate_preview, yes_no, ProxyScore,
};
use hybridtrade::condense::{
    append_compact_summary, compact_history_for_provider, looks_like_context_limit_error,
    summarize_compacted_turns, CompactMode,
};
use hybridtrade::config::ProviderConfig;
use hybridtrade::agents::ChatTurn;
use hybridtrade::conversation::{retry_delay, should_retry_status};
use hybridtrade::research::{
    analysis_contradiction, analysis_haystack, analysis_summary, build_citation,
    build_final_report, build_follow_up_answer, build_source_specs, detect_bias,
    extract_levels, extract_pair_hint, fallback_seed_urls, has_conflict_keywords, host_of,
    slug_for_url, source_title, FindingRow, SectionRow, SourceDocument,
};
use hybridtrade::team::truncate_content;
use hybridtrade::transcript::{TeamMessageKind, TeamSession};

#[test]
fn retry_delay_grows_exponentially() {
    let mut config = ProviderConfig::default();
    config.retry_backoff_ms = 500;

    assert_eq!(retry_delay(&config, 0), 500);
    assert_eq!(retry_delay(&config, 1), 1_000);
    assert_eq!(retry_delay(&config, 2), 2_000);
}

#[test]
fn retries_only_for_transient_statuses() {
    assert!(should_retry_status(429));
    assert!(should_retry_status(502));
    assert!(!should_retry_status(400));
    assert!(!should_retry_status(401));
}

#[test]
fn retry_delay_has_floor_cap_and_saturation() {
    let mut config = ProviderConfig::default();
    config.retry_backoff_ms = 10;
    assert_eq!(retry_delay(&config, 0), 100);
    assert_eq!(retry_delay(&config, 9), 6_400);
    config.retry_backoff_ms = u64::MAX / 2;
    assert_eq!(retry_delay(&config, 3), u64::MAX);
}

#[test]
fn urls_give_hosts_titles_and_slugs() {
    assert_eq!(host_of("https://www.fxstreet.com/rates-charts/eurusd"), "www.fxstreet.com");
    assert_eq!(host_of("investing.com/currencies"), "investing.com");
    assert_eq!(
        source_title("https://www.investing.com/currencies/eur-usd/news"),
        "www.investing.com / currencies/eur-usd"
    );
    assert_eq!(source_title("https://example.com"), "example.com");
    assert_eq!(slug_for_url("  Gold & Silver Outlook!  "), "gold-silver-outlook");
}

#[test]
fn pair_hints_are_read_from_words() {
    assert_eq!(extract_pair_hint("check (eur/usd) now"), Some("EUR/USD".to_string()));
    assert_eq!(extract_pair_hint("xauusd breakout"), Some("XAU/USD".to_string()));
    assert_eq!(extract_pair_hint("gold price today"), None);
    assert_eq!(extract_pair_hint("12/345 abc/de1"), None);
}

#[test]
fn fallback_urls_follow_the_pair_or_slug() {
    assert_eq!(
        fallback_seed_urls("EUR/USD outlook"),
        vec![
            "https://www.fxstreet.com/rates-charts/eurusd".to_string(),
            "https://www.investing.com/currencies/eur-usd".to_string(),
            "https://www.tradingview.com/symbols/EURUSD/ideas/".to_string(),
        ]
    );
    assert_eq!(
        fallback_seed_urls("Gold outlook"),
        vec![
            "https://www.fxstreet.com/search?q=gold-outlook".to_string(),
            "https://www.investing.com/search/?q=gold-outlook".to_string(),
            "https://www.tradingview.com/ideas/search/gold-outlook/".to_string(),
        ]
    );
}

#[test]
fn source_specs_use_seed_urls_or_fallbacks() {
    let specs = build_source_specs("gold", &vec!["https://a.com/x/y/z".to_string()]);
    assert_eq!(specs.len(), 1);
    assert_eq!(specs[0].url, "https://a.com/x/y/z");
    assert_eq!(specs[0].title, "a.com / x/y");
    assert_eq!(specs[0].host, "a.com");
    assert_eq!(specs[0].excerpt, "Nguon public duoc dua vao de tong hop topic `gold`.");
    assert_eq!(build_source_specs("gold", &vec![]).len(), 3);
}

#[test]
fn bias_and_conflicts_are_detected() {
    assert_eq!(detect_bias("Bullish breakout above support"), "bullish");
    assert_eq!(detect_bias("sell the breakdown"), "bearish");
    assert_eq!(detect_bias("buy or sell"), "mixed");
    assert!(has_conflict_keywords("BUY now, SELL later"));
    assert!(!has_conflict_keywords("uptrend only"));
    assert!(analysis_contradiction("nothing decisive"));
    assert!(!analysis_contradiction("clean uptrend"));
}

#[test]
fn levels_are_normalized_and_capped_at_four() {
    assert_eq!(
        extract_levels("levels 2,345.5 and 1.0850, 1.0850 then 99 and 1.2.3 plus 3000 4000 5000"),
        vec!["1.0850".to_string(), "3000".to_string(), "4000".to_string(), "5000".to_string()]
    );
    assert_eq!(extract_levels("at 1,2345 now"), vec!["1.2345".to_string()]);
    assert_eq!(extract_levels("no numbers here"), Vec::<String>::new());
}

#[test]
fn follow_up_answer_lists_section_and_findings() {
    let sections = vec![SectionRow {
        id: "s1".to_string(),
        title: "Macro".to_string(),
        conclusion: Some("Hawkish".to_string()),
    }];
    let findings = vec![
        FindingRow {
            title: "CPI".to_string(),
            kind: "data".to_string(),
            direction: Some("bullish".to_string()),
            summary: "hot print".to_string(),
        },
        FindingRow {
            title: "Jobs".to_string(),
            kind: "data".to_string(),
            direction: None,
            summary: "soft".to_string(),
        },
    ];
    assert_eq!(
        build_follow_up_answer("  why?  ", Some("s1"), &sections, &findings),
        "Cau hoi: why?\nSection muc tieu: Macro\nKet luan hien tai: Hawkish\n- CPI [bullish]: hot print\n- Jobs [data]: soft"
    );
    assert_eq!(
        build_follow_up_answer("q", Some("missing"), &sections, &[]),
        "Cau hoi: q\nChua co finding nao de mo rong. Nen bo sung them seed URL cu the."
    );
}

#[test]
fn report_and_summary_texts() {
    assert_eq!(
        analysis_haystack("EUR/USD", "trend", &vec!["https://a.com/eurusd".to_string(), "b.com".to_string()]),
        "EUR/USD trend https://a.com/eurusd b.com"
    );
    assert_eq!(
        analysis_summary("EUR/USD", "bullish", 77, &vec![]),
        "EUR/USD hien nghieng bullish voi confidence 77%. Chua co key level noi bat duoc xac nhan tu brief hien tai."
    );
    assert_eq!(
        analysis_summary("Gold", "mixed", 50, &vec!["2400".to_string(), "2450".to_string()]),
        "Gold hien nghieng mixed voi confidence 50%. Key levels uu tien theo doi: 2400, 2450."
    );
    let sources = vec![SourceDocument {
        id: "d1".to_string(),
        url: "https://a.com".to_string(),
        title: "A".to_string(),
    }];
    let report = build_final_report("Gold", "mixed", 50, &vec![], "S", &sources);
    assert!(report.starts_with("Tom tat\n- Topic: Gold\n- Bias: mixed\n- Confidence: 50%\n- Key levels: chua ro\n\nDanh gia\nS\n\nNguon tham chieu\n- A (https://a.com)\n\nGoi y tiep theo\n"));
    let c = build_citation(&sources[0], "snip");
    assert_eq!((c.source_id.as_str(), c.url.as_str(), c.title.as_str(), c.snippet.as_str()), ("d1", "https://a.com", "A", "snip"));
}

#[test]
fn provider_compaction_keeps_short_histories() {
    let config = ProviderConfig::default();
    let history = vec![ChatTurn::new("user", "hi"), ChatTurn::new("assistant", "hello")];
    let r = compact_history_for_provider(&config, "sys", &history, "msg", CompactMode::Normal);
    assert!(!r.debug.compacted);
    assert_eq!(r.history.len(), 2);
    assert_eq!(r.system_prompt, "sys");
}

#[test]
fn aggressive_compaction_summarizes_older_turns() {
    let config = ProviderConfig::default();
    let mut history = Vec::new();
    for i in 0..10 {
        history.push(ChatTurn::new(if i % 2 == 0 { "user" } else { "assistant" }, &format!("turn {i}")));
    }
    let r = compact_history_for_provider(&config, "sys", &history, "msg", CompactMode::Aggressive);
    assert!(r.debug.compacted);
    assert_eq!(r.debug.compact_mode, Some("aggressive"));
    assert!(r.debug.retained_history_count <= 10);
    assert_eq!(r.history.len(), r.debug.retained_history_count);
    assert_eq!(r.debug.compacted_turns, 10 - r.debug.retained_history_count);
    assert!(r.system_prompt.starts_with("sys"));
}

#[test]
fn compacted_turn_summary_text() {
    let turns = vec![ChatTurn::new("user", "  a   b "), ChatTurn::new("assistant", "c")];
    assert_eq!(
        summarize_compacted_turns(&turns, 400),
        "2 lượt chat cũ đã được compact:\n- User: a b\n- Assistant: c"
    );
    assert_eq!(summarize_compacted_turns(&turns, 79), "");
    assert_eq!(summarize_compacted_turns(&[], 400), "");
    assert_eq!(append_compact_summary("sys", "   "), "sys");
    assert_eq!(
        append_compact_summary("sys", "S"),
        "sys\n\nNgữ cảnh hội thoại cũ đã được compact:\nS\n\nKhi cần tham chiếu các lượt trước, ưu tiên bám theo phần tóm tắt compact này."
    );
    assert_eq!(CompactMode::Normal.label(), "normal");
}

#[test]
fn context_limit_errors_are_recognized() {
    assert!(looks_like_context_limit_error("Error: Prompt is too long for this model"));
    assert!(looks_like_context_limit_error("prompt_tokens exceeded"));
    assert!(!looks_like_context_limit_error("rate limited"));
}

#[test]
fn compact_settings_apply_floors() {
    let mut config = ProviderConfig::default();
    config.compact_threshold_chars = 10;
    config.compact_target_chars = 10;
    config.compact_summary_chars = 10;
    config.compact_keep_recent_turns = 0;
    let s = config.compact_settings(CompactMode::Normal);
    assert_eq!((s.threshold_chars, s.target_chars, s.summary_chars, s.keep_recent_turns), (4000, 2000, 400, 2));
    let a = config.compact_settings(CompactMode::Aggressive);
    assert_eq!((a.threshold_chars, a.target_chars, a.summary_chars, a.keep_recent_turns), (0, 4000, 800, 2));
}

#[test]
fn chat_client_labels_and_previews() {
    assert_eq!(join_set(&vec![]), "không có");
    assert_eq!(join_set(&vec!["a".to_string(), "b".to_string()]), "a, b");
    assert_eq!(selected_agent(Some("  ")), "kuromi");
    assert_eq!(selected_agent(Some(" user ")), "user");
    assert_eq!(selected_agent(None), "kuromi");
    assert_eq!(agent_label(" Coordinator "), "Kuromi Finance");
    assert_eq!(agent_label("user"), "User");
    assert_eq!(agent_label("robot"), "robot");
    assert_eq!(render_assistant_content("  hi  "), "hi");
    assert_eq!(
        render_assistant_content(" \n "),
        "[assistant không trả nội dung text; hãy xem mục Tools hoặc Debug bên dưới]"
    );
    assert_eq!(single_line_preview("a \n b   c", 3), "a b...");
    assert_eq!(truncate_preview("abc", 3), "abc");
    assert_eq!(yes_no(true), "có");
    assert_eq!(yes_no(false), "không");
    assert_eq!(truncate_for_error(&"z".repeat(300)).chars().count(), 243);
    assert_eq!(truncate_content("abcdef", 2), "ab...");
}

#[test]
fn sse_events_are_taken_from_the_buffer() {
    let mut buffer = "event: x\ndata:  first \n\n: ping\n\ndata: second\n\ndata: partial".to_string();
    assert_eq!(extract_sse_event(&mut buffer), Some("first".to_string()));
    assert_eq!(buffer, ": ping\n\ndata: second\n\ndata: partial");
    assert_eq!(extract_sse_event(&mut buffer), Some("second".to_string()));
    assert_eq!(buffer, "data: partial");
    assert_eq!(extract_sse_event(&mut buffer), None);
    assert_eq!(buffer, "data: partial");
    let mut blank = "data:   \n\n".to_string();
    assert_eq!(extract_sse_event(&mut blank), None);
    assert_eq!(blank, "");
}

#[test]
fn proxy_lines_are_normalized() {
    assert_eq!(normalize_proxy_line(" socks5://1.2.3.4: 1080 "), Some("1.2.3.4:1080".to_string()));
    assert_eq!(normalize_proxy_line("socks5h://host:+0080"), Some("host:80".to_string()));
    assert_eq!(normalize_proxy_line("# comment"), None);
    assert_eq!(normalize_proxy_line("host:0"), None);
    assert_eq!(normalize_proxy_line("host:70000"), None);
    assert_eq!(normalize_proxy_line(" :80"), None);
    assert_eq!(normalize_proxy_line("host"), None);
    assert_eq!(normalize_proxy_line("host:8x"), None);
    assert_eq!(
        proxy_list_from_body("a:1\r\nb:2\n# c\na:1\n\nbad\n"),
        vec!["a:1".to_string(), "b:2".to_string()]
    );
    assert!(is_http_pass(301));
    assert!(!is_https_pass(404));
}

#[test]
fn proxies_are_ranked_by_total_latency_stably() {
    let score = |p: &str, a: u128, b: u128| ProxyScore {
        proxy: p.to_string(),
        http_latency_ns: a,
        https_latency_ns: b,
    };
    let ranked = sort_by_latency(vec![score("slow", 9, 9), score("a", 1, 2), score("b", 2, 1), score("fast", 0, 1)]);
    let names: Vec<&str> = ranked.iter().map(|s| s.proxy.as_str()).collect();
    assert_eq!(names, vec!["fast", "a", "b", "slow"]);
    assert_eq!(ranked[0].total_latency(), 1);
    assert_eq!(results_text(&ranked), "fast\na\nb\nslow");
}

#[test]
fn team_transcript_numbers_messages_and_filters_views() {
    let mut session = TeamSession::new("abc".to_string(), "/tmp/t.jsonl".to_string());
    assert_eq!(session.append("t1".to_string(), "kuromi", "*", TeamMessageKind::System, "hi", vec![], None), 1);
    assert_eq!(session.append("t2".to_string(), "Analyst", "macro", TeamMessageKind::Discussion, "psst", vec![], None), 2);
    assert_eq!(session.append("t3".to_string(), "macro", "kuromi", TeamMessageKind::Discussion, "re", vec![], None), 3);
    assert_eq!(session.append("t4".to_string(), "kuromi", "macro", TeamMessageKind::Directive, "dig", vec![], None), 4);
    assert_eq!(session.append("t5".to_string(), "kuromi", "*", TeamMessageKind::Directive, "all", vec![], None), 5);
    assert_eq!(session.messages().len(), 5);
    assert_eq!(session.messages()[2].seq, 3);
    assert_eq!(session.messages()[1].session_id, "abc");
    let seen: Vec<usize> = session.messages_visible_for("ANALYST").iter().map(|m| m.seq).collect();
    assert_eq!(seen, vec![1, 2, 5]);
    let seen: Vec<usize> = session.messages_visible_for("tech").iter().map(|m| m.seq).collect();
    assert_eq!(seen, vec![1, 5]);
    let seen: Vec<usize> = session.messages_visible_for("Macro").iter().map(|m| m.seq).collect();
    assert_eq!(seen, vec![1, 2, 3, 4, 5]);
    assert_eq!(session.session_id(), "abc");
    assert_eq!(session.log_path(), "/tmp/t.jsonl");
}

#[test]
fn repl_lines_drive_the_chat_loop() {
    let mut state = ReplState { history: vec![], show_debug: false };
    assert_eq!(repl_step(&mut state, "   "), ReplAction::Skip);
    assert_eq!(repl_step(&mut state, " hello "), ReplAction::Send("hello".to_string()));
    repl_record_exchange(&mut state, "hello", "hi");
    assert_eq!(state.history.len(), 2);
    assert_eq!(state.history[0].role, "user");
    assert_eq!(state.history[1].content, "hi");
    assert_eq!(repl_step(&mut state, "/debug"), ReplAction::DebugToggled(true));
    assert!(state.show_debug);
    assert_eq!(repl_step(&mut state, "/clear"), ReplAction::Cleared);
    assert!(state.history.is_empty());
    assert_eq!(repl_step(&mut state, "/quit"), ReplAction::Quit);
    assert_eq!(repl_step(&mut state, "/exit"), ReplAction::Quit);
}

#[test]
fn stream_events_render_like_the_terminal_client() {
    let mut view = StreamView { status_line_visible: false, has_tool_activity: false, text_was_streamed: false };
    let (out, next) = render_stream_event(&mut view, &StreamEvent::AgentThinking { model: "m".to_string() });
    assert_eq!(out, "\x1b[2m⟡ Thinking (m)\x1b[0m");
    assert_eq!(next, StreamOutcome::Continue);
    assert!(view.status_line_visible);
    let (out, _) = render_stream_event(
        &mut view,
        &StreamEvent::AgentToolCall { tool: "read".to_string(), input_preview: "{ \"a\":\n 1 }".to_string() },
    );
    assert_eq!(out, "\r\x1b[2K\x1b[33m  → read\x1b[2m({ \"a\": 1 })\x1b[0m\n");
    assert!(view.has_tool_activity && !view.status_line_visible);
    let (out, _) = render_stream_event(
        &mut view,
        &StreamEvent::AgentToolResult { tool: "read".to_string(), status: "failed".to_string(), output_preview: "x".to_string() },
    );
    assert_eq!(out, "\x1b[31m  ← read [failed]\x1b[2m x\x1b[0m\n");
    let (out, _) = render_stream_event(&mut view, &StreamEvent::TextStart);
    assert_eq!(out, "\n");
    let (out, _) = render_stream_event(&mut view, &StreamEvent::TextDelta { text: "Hi".to_string() });
    assert_eq!(out, "Hi");
    let (out, _) = render_stream_event(
        &mut view,
        &StreamEvent::TeamDirective { seq: 3, to: "*".to_string(), content_preview: "go".to_string() },
    );
    assert_eq!(out, "  [kuromi→all] #3: go\n");
    let (out, _) = render_stream_event(
        &mut view,
        &StreamEvent::TeamRound { round: 1, total: 2, phase: "plan".to_string() },
    );
    assert_eq!(out, "\n--- Round 1/2 [plan] ---\n");
    let (out, next) = render_stream_event(&mut view, &StreamEvent::Response);
    assert_eq!(out, "\n");
    assert_eq!(next, StreamOutcome::FinalResponse);
    let (out, next) = render_stream_event(&mut view, &StreamEvent::Error { message: "boom".to_string() });
    assert_eq!(out, "");
    assert_eq!(next, StreamOutcome::Failed("server error: boom".to_string()));
    let (out, _) = render_stream_event(
        &mut view,
        &StreamEvent::TeamStarted { session_id: "s".to_string(), mission: "m".to_string(), members: vec!["a".to_string(), "b".to_string()] },
    );
    assert_eq!(out, "\n=== Team [s]: m ===\nMembers: a, b\n");
}

#[test]
fn tool_usage_is_summarized_by_name() {
    let call = |name: &str, status: &str| hybridtrade::agents::DebugToolCall {
        name: name.to_string(),
        source: "native".to_string(),
        status: status.to_string(),
        input_json: "{}".to_string(),
        output_preview: String::new(),
    };
    let calls = vec![call("read", "completed"), call("bash", "failed"), call("read", "completed"), call("bash", "completed")];
    let usage = tool_usage_summary(&calls);
    let names: Vec<(&str, usize, bool)> = usage.iter().map(|u| (u.name.as_str(), u.count, u.has_failure)).collect();
    assert_eq!(names, vec![("bash", 2, true), ("read", 2, false)]);
    assert_eq!(
        tool_call_summary(&calls[..2]),
        "\n=== Tools Used (2) ===\n- bash [warning]\n- read [ok]\n"
    );
    assert_eq!(tool_call_summary(&[]), "");
}

#[test]
fn provider_and_agent_listings() {
    assert_eq!(provider_listing(&[]), "Backend chưa khai báo provider nào.\n");
    let p = ProviderStatusView {
        name: "openai".to_string(),
        enabled: true,
        configured: false,
        model: "gpt".to_string(),
        default_for_chat: true,
    };
    assert_eq!(
        provider_listing(&[p]),
        "- openai | bật: có | cấu hình: không | mặc định chat: có | model: gpt\n"
    );
    assert_eq!(agent_listing(&[]), "Backend chưa có agent nào khả dụng.\n");
    let mcp = |n: &str| DebugMcpServerView {
        name: n.to_string(),
        description: String::new(),
        timeout_ms: 1,
        command: String::new(),
        args: vec![],
        shared: true,
    };
    let tool = |n: &str| DebugToolView {
        name: n.to_string(),
        kind: "native".to_string(),
        description: String::new(),
        timeout_ms: 1,
        shared: true,
    };
    let a = DebugAgentView {
        role: "kuromi".to_string(),
        label: "Kuromi Finance".to_string(),
        status: "idle".to_string(),
        providers: vec!["openai".to_string()],
        default_provider: "openai".to_string(),
        available_commands: vec!["zeta".to_string(), "alpha".to_string()],
        mcp_servers: vec![mcp("web"), mcp("db")],
        native_tools: vec![],
    };
    let b = DebugAgentView {
        role: "user".to_string(),
        label: "User".to_string(),
        status: "idle".to_string(),
        providers: vec![],
        default_provider: "anthropic".to_string(),
        available_commands: vec!["alpha".to_string()],
        mcp_servers: vec![mcp("web")],
        native_tools: vec![tool("read")],
    };
    assert_eq!(
        agent_listing(&[a, b]),
        "Commands: /alpha, /zeta\nMCP chung: db, web\nTools chung: read\n\n\
- kuromi (Kuromi Finance) | trạng thái: idle | provider mặc định: openai | khả dụng: openai\n  commands: /zeta, /alpha\n\
- user (User) | trạng thái: idle | provider mặc định: anthropic | khả dụng: không có\n  commands: /alpha\n"
    );
}

#[test]
fn chat_answers_are_printed_with_optional_debug() {
    let debug = DebugAgentChatDebug {
        system_prompt: "SYS".to_string(),
        context_preview: None,
        history_count: 2,
        compacted: false,
        original_history_count: 2,
        retained_history_count: 2,
        compacted_turns: 0,
        estimated_chars_before: 100,
        estimated_chars_after: 100,
        compact_mode: None,
        compact_summary_preview: Some("S".to_string()),
        available_tools: vec![],
        tool_runtime_warnings: vec!["w1".to_string()],
        tool_calls: vec![hybridtrade::agents::DebugToolCall {
            name: "read".to_string(),
            source: "native".to_string(),
            status: "completed".to_string(),
            input_json: "{\"path\":\"a\"}".to_string(),
            output_preview: "line\n two".to_string(),
        }],
    };
    let response = DebugAgentChatResponse {
        agent_role: "coordinator".to_string(),
        provider: "openai".to_string(),
        model: "gpt".to_string(),
        content: "  Xin chào  ".to_string(),
        chat_session_id: None,
        debug,
    };
    assert_eq!(
        chat_response_text(&response, false, false),
        "\x1b[2mKuromi Finance | openai | gpt\x1b[0m\n\nXin chào\n\n=== Tools Used (1) ===\n- read [ok]\n"
    );
    let full = chat_response_text(&response, true, true);
    assert_eq!(
        full,
        "\x1b[2mKuromi Finance | openai | gpt\x1b[0m\n\n=== Tools Used (1) ===\n- read [ok]\n\
\n=== Debug ===\nchat_session_id=không có | history_count=2\n\
compact=không | mode=không | compacted_turns=0 | retained=2/2 | chars=100 -> 100\n\
available_tools (0) = không có\n\
\ntool_runtime_warnings:\n- w1\n\
\ntool_calls:\n1. read | status=completed | source=native\n   input: {\"path\":\"a\"}\n   output: line two\n\
\nsystem_prompt:\nSYS\n\ncompact_summary_preview:\nS\n"
    );
}

#[test]
fn backend_addresses_and_errors() {
    assert_eq!(backend_base_url("http://127.0.0.1:8080//"), "http://127.0.0.1:8080");
    assert_eq!(backend_url("http://h", "/api/debug/agents"), "http://h/api/debug/agents");
    assert_eq!(backend_error_message("404 Not Found", Some("missing"), "x"), "backend lỗi 404 Not Found: missing");
    assert_eq!(backend_error_message("500", None, "  "), "backend lỗi 500");
    assert_eq!(backend_error_message("500", None, " boom "), "backend lỗi 500: boom");
    assert_eq!(chat_error_message("500", None, "  "), "backend lỗi 500: ");
}
