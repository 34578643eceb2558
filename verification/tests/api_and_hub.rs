use hybridtrade::agents::{AgentRole, ChatTurn, DebugToolCall};
use hybridtrade::api::{check_debug_chat, instrument_not_found, schedule_not_found, status_for_role, AppError};
use hybridtrade::config::{DefaultProviderConfig, ProviderConfig, ProvidersConfig, ToolingConfig};
use hybridtrade::conversation::ProviderKind;
use hybridtrade::history::HistoryCompaction;
use hybridtrade::hub::{
    assistant_request_log_entry, assistant_response_log_entry, system_prompt_log_entry,
    user_message_log_entry, ProviderHub,
};
use hybridtrade::skills::SkillRegistry;
use hybridtrade::storage::{
    new_schedule_columns, prepare_schedule_update, validate_new_schedule, AgentStatusView,
    CreateSchedule, ListPatch, SchedulePatch, ScheduleRow,
};

fn providers() -> ProvidersConfig {
    let mut openai = ProviderConfig::default();
    openai.enabled = true;
    let mut anthropic = ProviderConfig::default();
    anthropic.enabled = false;
    ProvidersConfig {
        default: DefaultProviderConfig { chat: "OpenAI".to_string() },
        openai,
        anthropic,
    }
}

fn hub() -> ProviderHub {
    ProviderHub::new(
        providers(),
        ToolingConfig { mcp_servers: vec![], native_tools: vec![] },
        SkillRegistry::empty(),
    )
}

#[test]
fn hub_reports_provider_statuses() {
    let h = hub();
    assert_eq!(h.default_provider_name(), "openai");
    let statuses = h.provider_statuses(Some("key".to_string()), None);
    assert_eq!(statuses.len(), 2);
    assert_eq!(statuses[0].name, "openai");
    assert!(statuses[0].default_for_chat);
    assert!(!statuses[1].enabled);
    assert!(!statuses[1].configured);
    let names = h.available_provider_names(Some("key".to_string()), Some("k".to_string()));
    assert!(names.iter().all(|n| n == "openai"));
    assert!(matches!(h.resolve_provider(Some("  ")), Ok(ProviderKind::OpenAi)));
    assert!(matches!(h.resolve_provider(Some(" Anthropic ")), Ok(ProviderKind::Anthropic)));
    assert_eq!(h.resolve_provider(Some("groq")).err(), Some("provider không được hỗ trợ: groq".to_string()));
    assert!(!h.provider_config(ProviderKind::Anthropic).enabled);
    assert!(h.agent_capabilities(AgentRole::Kuromi).available_commands.is_empty());
}

#[test]
fn debug_chat_requests_are_checked() {
    assert!(matches!(check_debug_chat(" Kuromi ", "hi"), Ok(AgentRole::Kuromi)));
    let err = check_debug_chat("kuromi", "  ").unwrap_err();
    assert_eq!(err.status_code(), 400);
    assert_eq!(err.message(), "message là bắt buộc");
    let err = check_debug_chat("robot", "hi").unwrap_err();
    assert_eq!(err.message(), "vai trò agent không hợp lệ: robot");
    let err = check_debug_chat("user", "hi").unwrap_err();
    assert_eq!(err.message(), "agent này không hỗ trợ debug chat");
    let nf = schedule_not_found("s1");
    assert_eq!((nf.status_code(), nf.message()), (404, "schedule s1 not found"));
    assert_eq!(instrument_not_found("XAU").message(), "instrument XAU not found");
    let internal = AppError::Internal { message: "db down".to_string() };
    assert_eq!(internal.status_code(), 500);
}

#[test]
fn agent_list_statuses() {
    let statuses = vec![AgentStatusView {
        role: "kuromi".to_string(),
        label: "Kuromi Finance".to_string(),
        status: "running".to_string(),
        last_seen_at: None,
        last_message: None,
        open_runs: 1,
    }];
    assert_eq!(status_for_role(&statuses, AgentRole::Kuromi), "running");
    assert_eq!(status_for_role(&statuses, AgentRole::User), "idle");
}

fn current() -> ScheduleRow {
    ScheduleRow {
        id: "id".to_string(),
        name: "old".to_string(),
        cron_expr: "0 * * * * *".to_string(),
        job_type: "agent_task".to_string(),
        enabled: 1,
        payload_json: "{}".to_string(),
        last_run_at: None,
        next_run_at: None,
        updated_at: "u".to_string(),
        agent_role: "kuromi".to_string(),
        message: "m".to_string(),
        last_status: "idle".to_string(),
        last_result: None,
        allowed_tools: Some("[\"read\"]".to_string()),
        allowed_mcps: Some("[\"web\"]".to_string()),
        skills: None,
    }
}

#[test]
fn schedule_updates_merge_with_current_values() {
    let patch = SchedulePatch {
        name: Some("new".to_string()),
        cron_expr: None,
        enabled: Some(false),
        agent_role: None,
        message: None,
        payload_json: None,
        allowed_tools: ListPatch::Keep,
        allowed_mcps: ListPatch::Clear,
        skills: ListPatch::Replace("[\"s\"]".to_string()),
    };
    let u = prepare_schedule_update(&current(), "{}", &patch).expect("cron parses");
    assert_eq!(u.name, "new");
    assert_eq!(u.cron_expr, "0 * * * * *");
    assert_eq!(u.enabled, 0);
    assert_eq!(u.message, "m");
    assert_eq!(u.payload_json, "{}");
    assert_eq!(u.allowed_tools.as_deref(), Some("[\"read\"]"));
    assert_eq!(u.allowed_mcps, None);
    assert_eq!(u.skills.as_deref(), Some("[\"s\"]"));
    assert!(chrono::DateTime::parse_from_rfc3339(&u.next_run_at).is_ok());
    let bad = SchedulePatch { cron_expr: Some("nope".to_string()), ..patch };
    assert!(prepare_schedule_update(&current(), "{}", &bad).is_err());
}

#[test]
fn new_schedules_are_validated_and_stored() {
    assert_eq!(validate_new_schedule(" ", "* * * * *", "agent_task"), Err("name, cron_expr and job_type are required".to_string()));
    assert_eq!(validate_new_schedule("a", "* * * * *", "agent_task"), Ok(()));
    let request = CreateSchedule {
        name: "a".to_string(),
        cron_expr: "*/5 * * * *".to_string(),
        job_type: "agent_task".to_string(),
        enabled: true,
        agent_role: "kuromi".to_string(),
        message: "m".to_string(),
        payload_json: "{}".to_string(),
        allowed_tools: Some(vec!["read".to_string()]),
        allowed_mcps: None,
        skills: Some(vec![]),
    };
    let c = new_schedule_columns(&request).expect("cron parses");
    assert_eq!(c.enabled, 1);
    assert_eq!(c.allowed_tools.as_deref(), Some("[\"read\"]"));
    assert_eq!(c.allowed_mcps, None);
    assert_eq!(c.skills.as_deref(), Some("[]"));
}

#[test]
fn prompt_log_entries() {
    let compacted = HistoryCompaction::unchanged("SYS", &[ChatTurn::new("user", "a  b")], "msg");
    let entry = system_prompt_log_entry("T", AgentRole::Kuromi, ProviderKind::OpenAi, "gpt", "normal", None, "hello   there", &compacted);
    assert_eq!(
        entry,
        "===== agent_system_prompt =====\ntimestamp: T\nagent_role: kuromi\nprovider: openai\nmodel: gpt\nattempt: normal\nchat_session_id: -\nhistory_count: 1\ncompacted: false\ncompact_mode: none\nchars_before_after: 102 -> 102\nmessage_preview: hello there\nsystem_prompt:\nSYS\n===== end_agent_system_prompt =====\n\n"
    );
    let user = user_message_log_entry("T", AgentRole::Kuromi, ProviderKind::Anthropic, "c", Some("sid"), None, &vec!["x".to_string(), "y".to_string()], "m");
    assert_eq!(
        user,
        "===== user_message =====\ntimestamp: T\nagent_role: kuromi\nprovider: anthropic\nmodel: c\nchat_session_id: sid\ncommand: -\nskills: [x, y]\nmessage:\nm\n===== end_user_message =====\n\n"
    );
    let request = assistant_request_log_entry("T", AgentRole::Kuromi, ProviderKind::OpenAi, "gpt", "normal", None, Some("cmd"), &vec![], "m", &compacted, Some(400), None, &vec!["read".to_string()]);
    assert!(request.contains("max_tokens: 400\ntemperature: -\nhistory_count: 1\ncompacted: false | mode: none | compacted_turns: 0 | retained: 1/1 | chars: 102 -> 102\navailable_tools_count: 1\navailable_tools: [read]\nmessage:\nm\nhistory:\n1. user: a b\n"));
    let call = |name: &str, source: &str| DebugToolCall {
        name: name.to_string(),
        source: source.to_string(),
        status: "completed".to_string(),
        input_json: "{}".to_string(),
        output_preview: String::new(),
    };
    let calls = vec![call("a", "mcp:web"), call("b", "native"), call("c", "mcp:mcp:web"), call("d", "mcp:db")];
    let response = assistant_response_log_entry("T", AgentRole::Kuromi, ProviderKind::OpenAi, "gpt", None, "done", &calls);
    assert!(response.contains("tool_calls_count: 4\ntool_calls: [a, b, c, d]\nmcp_servers_used: [web, db]\ncontent:\ndone\n"));
}
