use hybridtrade::cli::{repl_record_exchange, repl_step, ReplAction, ReplState};
use hybridtrade::research::{analysis_confidence_pct, analyze_investigation};
use hybridtrade::skills::{CommandFile, SkillRegistry};
use hybridtrade::tools::{learned_skill_summary_checked, summary_cut_allowed};

#[test]
fn checked_summary_refuses_a_cut_inside_a_character() {
    let straddling = format!("{}éx", "a".repeat(119));
    assert!(!summary_cut_allowed(&straddling));
    assert_eq!(learned_skill_summary_checked(&straddling), None);
    let long = "b".repeat(150);
    assert!(summary_cut_allowed(&long));
    assert_eq!(learned_skill_summary_checked(&long), Some(format!("{}...", "b".repeat(120))));
    assert_eq!(learned_skill_summary_checked("# Title\n\n  short line  \n"), Some("short line".to_string()));
}

#[test]
fn command_lookup_is_exact_and_the_last_file_wins() {
    let files = vec![
        CommandFile { file_name: "review.md".to_string(), body: " first ".to_string() },
        CommandFile { file_name: "notes.txt".to_string(), body: "ignored".to_string() },
        CommandFile { file_name: "blank.md".to_string(), body: "   ".to_string() },
        CommandFile { file_name: "review.md".to_string(), body: "  second  ".to_string() },
    ];
    let reg = SkillRegistry::load(&files);
    assert_eq!(reg.available_commands(), vec!["blank".to_string(), "review".to_string()]);
    assert_eq!(reg.command_markdown("review"), Some("second".to_string()));
    assert_eq!(reg.command_markdown("Review"), None);
    assert_eq!(reg.command_markdown("blank"), None);
    assert_eq!(reg.command_markdown("notes"), None);
}

#[test]
fn investigation_analysis_uses_the_brief_only() {
    let a = analyze_investigation(
        "EURUSD breakout",
        "buy above 1.0850 uptrend",
        &vec!["https://x.com/eurusd".to_string()],
        5,
    );
    assert_eq!(a.pair_hint, Some("EUR/USD".to_string()));
    assert_eq!(a.bias, "bullish");
    assert!(!a.contradiction);
    assert_eq!(a.confidence_pct, 87);
    assert!(a.summary.starts_with("EUR/USD hien nghieng bullish voi confidence 87%."));
    let b = analyze_investigation("gold", "watch", &vec![], 0);
    assert_eq!(b.bias, "mixed");
    assert!(b.contradiction);
    assert_eq!(b.confidence_pct, 50);
    assert_eq!(analysis_confidence_pct("bearish", 1, true), 69);
}

#[test]
fn repl_history_follows_the_lines() {
    let mut state = ReplState { history: Vec::new(), show_debug: false };
    let mut sent = Vec::new();
    for line in ["hello", "", "/debug", "/clear", " again ", "/quit", "ignored"] {
        match repl_step(&mut state, line) {
            ReplAction::Quit => break,
            ReplAction::Send(m) => {
                repl_record_exchange(&mut state, &m, "ok");
                sent.push(m);
            }
            _ => {}
        }
    }
    assert_eq!(sent, vec!["hello".to_string(), "again".to_string()]);
    let turns: Vec<(&str, &str)> = state.history.iter().map(|t| (t.role.as_str(), t.content.as_str())).collect();
    assert_eq!(turns, vec![("user", "again"), ("assistant", "ok")]);
    assert!(state.show_debug);
}
