use hybridtrade::agents::ChatTurn;
use hybridtrade::compaction::build_structured_summary;
use hybridtrade::history::{
    compact_history_for_retry, estimate_conversation_chars, normalize_chat_session_id,
    normalize_history, HistoryCompaction,
};
use hybridtrade::text::char_count;

fn make_turn(role: &str, content: &str) -> ChatTurn {
    ChatTurn {
        role: role.to_string(),
        content: content.to_string(),
    }
}

fn alternating(n: usize, text: &str) -> Vec<ChatTurn> {
    (0..n)
        .map(|i| {
            make_turn(
                if i % 2 == 0 { "user" } else { "assistant" },
                &format!("{text} {i}"),
            )
        })
        .collect()
}

#[test]
fn compact_history_for_retry_empty_history() {
    let result = compact_history_for_retry("system", &[], "msg", 6, 3200, 1);
    assert!(!result.debug.compacted);
    assert_eq!(result.history.len(), 0);
}

#[test]
fn compact_history_for_retry_attempt1_keeps_recent() {
    let history = alternating(10, "turn");
    let result = compact_history_for_retry("system", &history, "msg", 4, 3200, 1);
    assert!(result.debug.compacted);
    assert_eq!(result.debug.retained_history_count, 4);
    assert_eq!(result.debug.compacted_turns, 6);
    assert_eq!(result.history.len(), 4);
    assert_eq!(result.debug.compact_mode, Some("retry-1"));
}

#[test]
fn compact_history_for_retry_attempt2_more_aggressive() {
    let history = alternating(10, "turn");
    let result = compact_history_for_retry("system", &history, "msg", 6, 3200, 2);
    assert!(result.debug.compacted);
    assert!(result.debug.retained_history_count <= 2);
    assert_eq!(result.debug.compact_mode, Some("retry-2"));
}

#[test]
fn build_structured_summary_categorizes_turns() {
    let turns = vec![
        make_turn("user", "Phân tích XAU/USD"),
        make_turn(
            "assistant",
            "Kết quả tool thật trong turn này:\n- fetch_news [completed] | input: {} | output: 3 tin tức về Fed\n\nPhản hồi gửi user:\nXAU/USD đang tăng mạnh, RSI=65",
        ),
        make_turn("user", "Kiểm tra lịch kinh tế"),
        make_turn("assistant", "Lịch kinh tế tuần này có NFP"),
    ];

    let summary = build_structured_summary(&turns, 3200);
    assert!(summary.contains("Yêu cầu của user"));
    assert!(summary.contains("Phân tích XAU/USD"));
    assert!(summary.contains("Kết quả tool"));
    assert!(summary.contains("fetch_news"));
    assert!(summary.contains("Phân tích & kết luận"));
    assert!(summary.contains("Ngữ cảnh liên tục"));
}

#[test]
fn build_structured_summary_empty_turns() {
    assert!(build_structured_summary(&[], 3200).is_empty());
}

#[test]
fn build_structured_summary_respects_budget() {
    let turns = alternating(
        20,
        "This is a long turn content that repeats many times for turn number",
    );
    let summary = build_structured_summary(&turns, 300);
    assert!(char_count(&summary) <= 303);
}

#[test]
fn structured_summary_exact_text() {
    let turns = vec![
        make_turn("user", "  Phân   tích\nXAU/USD "),
        make_turn(
            "assistant",
            "Kết quả tool thật trong turn này:\n- fetch_news [completed] | input: {} | output: 3 tin   tức\n\nPhản hồi gửi user:\n  XAU tăng  ",
        ),
    ];
    let summary = build_structured_summary(&turns, 3200);
    assert_eq!(
        summary,
        "## Ngữ cảnh compact (2 lượt)\n\n### Yêu cầu của user\n- Phân tích XAU/USD\n\n### Kết quả tool\n- fetch_news [completed]: 3 tin tức\n\n### Phân tích & kết luận\n- XAU tăng\n\n### Ngữ cảnh liên tục\n- Chủ đề: Phân tích XAU/USD"
    );
}

#[test]
fn structured_summary_needs_a_budget_of_120() {
    let turns = alternating(2, "hello");
    assert_eq!(build_structured_summary(&turns, 119), "");
    assert!(!build_structured_summary(&turns, 120).is_empty());
}

#[test]
fn structured_summary_keeps_last_two_topics() {
    let turns = vec![
        make_turn("user", "one"),
        make_turn("user", "two"),
        make_turn("user", "three"),
    ];
    let summary = build_structured_summary(&turns, 3200);
    assert!(summary.ends_with("- Chủ đề: two, three"));
}

#[test]
fn normalize_history_drops_and_trims() {
    let history = vec![
        make_turn(" USER ", "  hi  "),
        make_turn("system", "ignored"),
        make_turn("assistant", "   "),
        make_turn("Assistant", "ok"),
    ];
    let normalized = normalize_history(&history);
    assert_eq!(normalized.len(), 2);
    assert_eq!(normalized[0].role, "user");
    assert_eq!(normalized[0].content, "hi");
    assert_eq!(normalized[1].role, "assistant");
    assert_eq!(normalized[1].content, "ok");
}

#[test]
fn normalize_chat_session_id_trims_and_drops_blank() {
    assert_eq!(normalize_chat_session_id(Some("  abc ".to_string())), Some("abc".to_string()));
    assert_eq!(normalize_chat_session_id(Some("   ".to_string())), None);
    assert_eq!(normalize_chat_session_id(None), None);
}

#[test]
fn estimate_counts_characters_and_framing() {
    let history = vec![make_turn("user", "héllo")];
    // 6 + 3 + (4 + 5 + 24) + 64
    assert_eq!(estimate_conversation_chars("system", &history, "msg"), 106);
}

#[test]
fn unchanged_and_more_compact() {
    let history = alternating(10, "turn");
    let same = HistoryCompaction::unchanged("system", &history, "msg");
    assert!(!same.debug.compacted);
    assert_eq!(same.debug.estimated_chars_before, same.debug.estimated_chars_after);
    let smaller = compact_history_for_retry("system", &history, "msg", 2, 3200, 1);
    assert!(smaller.is_more_compact_than(&same));
    assert!(!same.is_more_compact_than(&same));
}

#[test]
fn retry_appends_summary_to_prompt() {
    let history = alternating(4, "turn");
    let result = compact_history_for_retry("system", &history, "msg", 2, 3200, 1);
    assert!(result.system_prompt.starts_with("system\n\n## Ngữ cảnh compact (2 lượt)"));
    assert!(result
        .system_prompt
        .ends_with("\n\nKhi cần tham chiếu các lượt trước, ưu tiên bám theo phần tóm tắt compact này."));
    assert_eq!(result.history[0].content, "turn 2");
    assert!(result.debug.compact_summary_preview.is_some());
}
