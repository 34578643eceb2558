use hybridtrade::agents::{ChatStreamEvent, DebugToolCall};
use hybridtrade::capabilities::isolated_mcp_servers;
use hybridtrade::cli::{stream_session_end, stream_session_new, stream_session_step, StreamEvent};
use hybridtrade::condense::{chat_call_next, ChatAttempt, ChatNext};
use hybridtrade::config::McpServerConfig;
use hybridtrade::json::{Json, JsonNumber};
use hybridtrade::research::{
    key_levels_finding, technical_conclusion, technical_finding_title, technical_message,
};
use hybridtrade::schedule::{schedule_result_value, tool_call_value};
use hybridtrade::storage::{next_run_from, schedule_next_run, serialize_opt_vec};
use hybridtrade::team::{SpawnTeamMemberSpec, SpawnTeamRequest};
use hybridtrade::team_run::plan_team;
use hybridtrade::tool_schemas::{research_tool_schema, ResearchToolKind};
use serde_json::{Number, Value};

fn to_value(j: &Json) -> Value {
    match j {
        Json::Null => Value::Null,
        Json::Bool(b) => Value::Bool(*b),
        Json::Number(JsonNumber::PosInt(v)) => Value::Number(Number::from(*v)),
        Json::Number(JsonNumber::NegInt(v)) => Value::Number(Number::from(*v)),
        Json::Number(JsonNumber::Float(t)) => Value::String(t.clone()),
        Json::Str(t) => Value::String(t.clone()),
        Json::Array(items) => Value::Array(items.iter().map(to_value).collect()),
        Json::Object(members) => {
            let mut m = serde_json::Map::new();
            for (k, v) in members {
                m.insert(k.clone(), to_value(v));
            }
            Value::Object(m)
        }
    }
}

fn keys(j: &Json) -> Vec<String> {
    match j {
        Json::Object(members) => members.iter().map(|(k, _)| k.clone()).collect(),
        _ => Vec::new(),
    }
}

fn sv(x: &str) -> Value {
    Value::String(x.to_string())
}

#[test]
fn next_run_from_each_outcome() {
    assert_eq!(next_run_from(Ok(Some("2030-01-01T00:00:00Z".to_string()))), Ok("2030-01-01T00:00:00Z".to_string()));
    assert_eq!(next_run_from(Ok(None)), Err("schedule does not yield future runs".to_string()));
    assert_eq!(next_run_from(Err("bad cron".to_string())), Err("bad cron".to_string()));
}

#[test]
fn next_run_is_a_utc_second_stamp() {
    let t = schedule_next_run("*/5 * * * *").expect("five fields parse");
    let c: Vec<char> = t.chars().collect();
    assert_eq!(c.len(), 20);
    assert_eq!((c[4], c[7], c[10], c[13], c[16], c[19]), ('-', '-', 'T', ':', ':', 'Z'));
    assert_eq!(
        schedule_next_run("0 0 0 1 1 * 2000"),
        Err("schedule does not yield future runs".to_string())
    );
}

#[test]
fn stored_lists_escape_as_serde_json_does() {
    let items = vec!["a/b".to_string(), "x\ny\t".to_string(), "\u{1}\\".to_string()];
    let text = serialize_opt_vec(&Some(items.clone())).unwrap();
    assert_eq!(text, serde_json::to_string(&items).unwrap());
    assert_eq!(text, "[\"a/b\",\"x\\ny\\t\",\"\\u0001\\\\\"]");
    assert_eq!(serialize_opt_vec(&Some(vec![])), Some("[]".to_string()));
}

#[test]
fn chrome_devtools_runs_isolated_for_subagents() {
    let server = |name: &str, args: Vec<&str>| McpServerConfig {
        name: name.to_string(),
        enabled: true,
        timeout_ms: 1000,
        command: "npx".to_string(),
        args: args.into_iter().map(String::from).collect(),
    };
    let out = isolated_mcp_servers(&vec![
        server("Chrome-DevTools", vec!["-y"]),
        server("chrome-devtools", vec!["--isolated"]),
        server("files", vec!["-y"]),
    ]);
    assert_eq!(out.len(), 3);
    assert_eq!(out[0].args, vec!["-y".to_string(), "--isolated".to_string()]);
    assert_eq!(out[0].name, "Chrome-DevTools");
    assert_eq!(out[1].args, vec!["--isolated".to_string()]);
    assert_eq!(out[2].args, vec!["-y".to_string()]);
}

#[test]
fn a_chat_turn_retries_at_most_once() {
    assert_eq!(chat_call_next(ChatAttempt::First, Ok("hi".to_string()), true), ChatNext::Answer("hi".to_string()));
    assert_eq!(chat_call_next(ChatAttempt::First, Err("too long".to_string()), true), ChatNext::Retry);
    assert_eq!(chat_call_next(ChatAttempt::First, Err("boom".to_string()), false), ChatNext::Fail("boom".to_string()));
    assert_eq!(
        chat_call_next(ChatAttempt::AggressiveRetry, Err("still".to_string()), true),
        ChatNext::FailAfterRetry("still".to_string())
    );
}

#[test]
fn stream_session_needs_a_response() {
    let mut s = stream_session_new();
    assert_eq!(stream_session_step(&mut s, &StreamEvent::TextDelta { text: "hel".to_string() }), Ok("hel".to_string()));
    assert_eq!(stream_session_end(&s), Err("backend không trả về response event".to_string()));
    assert!(stream_session_step(&mut s, &StreamEvent::Response).is_ok());
    assert_eq!(stream_session_end(&s), Ok(true));
    let mut e = stream_session_new();
    assert_eq!(
        stream_session_step(&mut e, &StreamEvent::Error { message: "down".to_string() }),
        Err("server error: down".to_string())
    );
}

fn member(name: &str, responsibility: &str) -> SpawnTeamMemberSpec {
    SpawnTeamMemberSpec { name: name.to_string(), responsibility: responsibility.to_string(), instructions: None }
}

#[test]
fn team_plan_checks_then_announces_then_starts_members() {
    let bad = SpawnTeamRequest {
        mission: "  ".to_string(),
        briefing: None,
        members: vec![member("A", "x")],
        rounds: None,
        report_instruction: None,
    };
    assert_eq!(plan_team(bad, None).unwrap_err(), "spawn_team cần `mission`");
    let good = SpawnTeamRequest {
        mission: " gold ".to_string(),
        briefing: None,
        members: vec![member(" Macro ", "rates"), member("Tech", "charts")],
        rounds: None,
        report_instruction: None,
    };
    let plan = plan_team(good, Some("ctx")).expect("valid");
    assert_eq!(plan.request.mission, "gold");
    match &plan.started {
        ChatStreamEvent::TeamStarted { members, mission, .. } => {
            assert_eq!(mission, "gold");
            assert_eq!(members, &vec!["Macro".to_string(), "Tech".to_string()]);
        }
        other => panic!("unexpected {other:?}"),
    }
    assert_eq!(plan.tasks.len(), 2);
    assert_eq!(plan.tasks[1].name, "Tech");
    assert!(plan.tasks[0].system_prompt.contains("  - Macro (rates)\n  - Tech (charts)"));
    assert!(plan.tasks[1].task_message.contains("Bạn là Tech, phạm vi: charts."));
    assert!(plan.tasks[1].task_message.contains("Ngữ cảnh backend hiện tại:\nctx"));
}

#[test]
fn technical_analyst_texts() {
    assert_eq!(technical_finding_title(&Some("EUR/USD".to_string())), "EUR/USD technical bias");
    assert_eq!(technical_finding_title(&None), "Technical bias");
    let levels = vec!["1.0850".to_string(), "1.0920".to_string()];
    assert_eq!(key_levels_finding(&levels), "Cac muc dang duoc uu tien theo doi: 1.0850, 1.0920.");
    assert_eq!(
        technical_message("bullish", 72, &levels),
        "Bias hien tai: bullish. Confidence: 72%. Key levels: 1.0850, 1.0920."
    );
    assert_eq!(technical_message("mixed", 50, &vec![]), "Bias hien tai: mixed. Confidence: 50%. Chua co key level noi bat.");
    assert_eq!(technical_conclusion("bearish", 64), "Da tong hop bias bearish voi confidence 64%.");
}

#[test]
fn stored_schedule_result() {
    let call = DebugToolCall {
        name: "read".to_string(),
        source: "native".to_string(),
        status: "completed".to_string(),
        input_json: "{\"path\":\"a\"}".to_string(),
        output_preview: "ok".to_string(),
    };
    let input = Json::Object(vec![("path".to_string(), Json::Str("a".to_string()))]);
    let long = "é".repeat(4001);
    let r = schedule_result_value(&long, "openai", "gpt", vec![tool_call_value(&call, input)], "sys", &vec!["read".to_string()], 3);
    let v = to_value(&r);
    assert_eq!(keys(&r), vec!["available_tools", "content", "history_count", "model", "provider", "system_prompt", "tool_calls"]);
    assert_eq!(v["content"], sv(&"é".repeat(4000)));
    assert_eq!(v["history_count"], Value::Number(Number::from(3u64)));
    assert_eq!(v["tool_calls"][0]["input"]["path"], sv("a"));
    assert_eq!(v["tool_calls"][0]["status"], sv("completed"));
    assert_eq!(v["available_tools"][0], sv("read"));
}

#[test]
fn research_tool_schemas() {
    let fetch = to_value(&research_tool_schema(ResearchToolKind::FetchPage));
    assert_eq!(fetch["required"][0], sv("url"));
    assert_eq!(fetch["additionalProperties"], Value::Bool(false));
    let sum = research_tool_schema(ResearchToolKind::SummarizeSources);
    let v = to_value(&sum);
    assert_eq!(v["properties"]["urls"]["items"]["type"], sv("string"));
    assert!(v.get("required").is_none());
    assert_eq!(to_value(&research_tool_schema(ResearchToolKind::MemoryLookup))["properties"]["query"]["type"], sv("string"));
}
