use hybridtrade::schedule::{
    bounded_preview, dispatch_for, invalid_role_message, task_log_entry, tool_call_labels, Dispatch,
};
use hybridtrade::storage::{
    agent_statuses_from, parse_json_string_array, schedule_tool_filter, serialize_opt_vec,
    to_schedule_view,
};
use hybridtrade::schedule::{normalize_cron, safe_truncate};

#[test]
fn normalize_cron_prepends_seconds() {
    assert_eq!(normalize_cron("*/5 * * * *"), "0 */5 * * * *");
    assert_eq!(normalize_cron("0 9 * * 1-5"), "0 0 9 * * 1-5");
    assert_eq!(normalize_cron("0 */5 * * * *"), "0 */5 * * * *");
}

#[test]
fn truncate_ascii() {
    assert_eq!(safe_truncate("hello world", 5), "hello");
}

#[test]
fn truncate_multibyte() {
    let s = "—— hello";
    assert_eq!(safe_truncate(s, 4), "—");
    assert_eq!(safe_truncate(s, 6), "——");
}

#[test]
fn truncate_emoji() {
    let s = "👋✨ test";
    assert_eq!(safe_truncate(s, 4), "👋");
    assert_eq!(safe_truncate(s, 5), "👋");
    assert_eq!(safe_truncate(s, 7), "👋✨");
}

#[test]
fn truncate_no_op_when_short() {
    assert_eq!(safe_truncate("hi", 100), "hi");
}

#[test]
fn truncate_to_zero_bytes() {
    assert_eq!(safe_truncate("—", 2), "");
}

#[test]
fn computes_next_schedule_run() {
    let next = hybridtrade::storage::schedule_next_run("0 * * * * *").expect("schedule should parse");
    let parsed = chrono::DateTime::parse_from_rfc3339(&next).expect("next run should parse");
    assert!(parsed.with_timezone(&chrono::Utc) > chrono::Utc::now());
}

#[test]
fn five_field_cron_works() {
    // Standard 5-field cron like `*/5 * * * *` should be auto-normalized
    let next = hybridtrade::storage::schedule_next_run("*/5 * * * *").expect("5-field cron should parse");
    let parsed = chrono::DateTime::parse_from_rfc3339(&next).expect("next run should parse");
    assert!(parsed.with_timezone(&chrono::Utc) > chrono::Utc::now());
}

#[test]
fn invalid_cron_is_an_error() {
    assert!(hybridtrade::storage::schedule_next_run("not a cron").is_err());
}

#[test]
fn stored_lists_are_decoded_and_encoded() {
    assert_eq!(
        parse_json_string_array(&Some("[\"read\",\"bash\"]".to_string())),
        Some(vec!["read".to_string(), "bash".to_string()])
    );
    assert_eq!(parse_json_string_array(&Some("null".to_string())), None);
    assert_eq!(parse_json_string_array(&Some(String::new())), None);
    assert_eq!(parse_json_string_array(&Some("{oops".to_string())), None);
    assert_eq!(parse_json_string_array(&None), None);
    assert_eq!(
        serialize_opt_vec(&Some(vec!["a".to_string(), "b\"c".to_string()])),
        Some("[\"a\",\"b\\\"c\"]".to_string())
    );
    assert_eq!(serialize_opt_vec(&None), None);
}

fn row(role: &str, status: &str, last_run: Option<&str>, result: Option<&str>) -> hybridtrade::storage::ScheduleRow {
    hybridtrade::storage::ScheduleRow {
        id: "id".to_string(),
        name: "n".to_string(),
        cron_expr: "*/5 * * * *".to_string(),
        job_type: "agent_task".to_string(),
        enabled: 1,
        payload_json: "{}".to_string(),
        last_run_at: last_run.map(String::from),
        next_run_at: None,
        updated_at: "u".to_string(),
        agent_role: role.to_string(),
        message: "m".to_string(),
        last_status: status.to_string(),
        last_result: result.map(String::from),
        allowed_tools: Some("[\"read\"]".to_string()),
        allowed_mcps: None,
        skills: Some("null".to_string()),
    }
}

#[test]
fn schedule_views_and_filters() {
    let r = row("kuromi", "idle", None, None);
    let f = schedule_tool_filter(&r);
    assert_eq!(f.allowed_tools, Some(vec!["read".to_string()]));
    assert_eq!(f.allowed_mcps, None);
    assert!(f.skills.is_empty());
    let v = to_schedule_view(r);
    assert!(v.enabled);
    assert_eq!(v.allowed_tools, Some(vec!["read".to_string()]));
    assert_eq!(v.skills, None);
    assert_eq!(v.payload_json, "{}");
}

#[test]
fn agent_statuses_follow_schedules() {
    let rows = vec![
        row("coordinator", "running", Some("2024-01-02T00:00:00Z"), Some("first")),
        row("user", "running", Some("2025-01-01T00:00:00Z"), Some("other")),
        row("Kuromi", "completed", Some("2024-01-01T00:00:00Z"), None),
        row("kuromi", "completed", None, Some("last")),
    ];
    let statuses = agent_statuses_from(&rows);
    assert_eq!(statuses.len(), 1);
    let s = &statuses[0];
    assert_eq!(s.role, "kuromi");
    assert_eq!(s.label, "Kuromi Finance");
    assert_eq!(s.status, "running");
    assert_eq!(s.open_runs, 1);
    assert_eq!(s.last_seen_at.as_deref(), Some("2024-01-02T00:00:00Z"));
    assert_eq!(s.last_message.as_deref(), Some("last"));
    let idle = agent_statuses_from(&[]);
    assert_eq!(idle[0].status, "idle");
    assert_eq!(idle[0].open_runs, 0);
}

#[test]
fn scheduler_dispatch_and_records() {
    assert_eq!(dispatch_for("heartbeat_sweep", "x"), Dispatch::HeartbeatSweep);
    assert_eq!(dispatch_for("memory_compaction", ""), Dispatch::MemoryCompaction);
    assert_eq!(dispatch_for("investigation_refresh", ""), Dispatch::InvestigationRefresh);
    assert_eq!(dispatch_for("nightly_backup", "x"), Dispatch::Skip);
    assert_eq!(dispatch_for("agent_task", "   "), Dispatch::EmptyMessage);
    assert_eq!(dispatch_for("agent_task", "go"), Dispatch::Run);
    assert_eq!(bounded_preview("short", 200), "short");
    assert_eq!(bounded_preview("ééé", 3), "é...");
    let calls = vec![hybridtrade::agents::DebugToolCall {
        name: "read".to_string(),
        source: "native".to_string(),
        status: "completed".to_string(),
        input_json: "{}".to_string(),
        output_preview: String::new(),
    }];
    assert_eq!(tool_call_labels(&calls), vec!["read [completed]".to_string()]);
    assert_eq!(invalid_role_message("bot", "bad"), "invalid agent_role 'bot': bad");
    let entry = task_log_entry("T", "S", "kuromi", "-", "-", "M", "failed", "C", &vec![]);
    assert_eq!(
        entry,
        "===== agent_task_response =====\ntimestamp: T\nschedule: S\nagent_role: kuromi\nprovider: -\nmodel: -\nstatus: failed\ntool_calls: [(none)]\nmessage:\nM\nresponse:\nC\n===== end_agent_task_response =====\n\n"
    );
}
