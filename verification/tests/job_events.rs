use hybridtrade::agents::AgentRole;
use hybridtrade::json::{Json, JsonNumber};
use hybridtrade::schedule::{job_completed_event, job_failed_event};

fn member<'a>(j: &'a Json, key: &str) -> &'a Json {
    match j {
        Json::Object(members) => &members.iter().find(|(k, _)| k == key).unwrap().1,
        _ => panic!("not an object"),
    }
}

fn text(j: &Json) -> &str {
    match j {
        Json::Str(s) => s.as_str(),
        _ => panic!("not a string"),
    }
}

#[test]
fn failed_job_event() {
    let e = job_failed_event("daily", "boom");
    assert_eq!(text(member(&e, "schedule")), "daily");
    assert_eq!(text(member(&e, "status")), "failed");
    assert_eq!(text(member(&e, "error")), "boom");
}

#[test]
fn completed_job_event_previews_the_answer() {
    let long = "é".repeat(150);
    let e = job_completed_event("daily", AgentRole::Kuromi, "anthropic", "opus", 3, &long);
    assert_eq!(text(member(&e, "agent_role")), "kuromi");
    assert_eq!(text(member(&e, "status")), "completed");
    assert!(matches!(member(&e, "tool_calls"), Json::Number(JsonNumber::PosInt(3))));
    let preview = text(member(&e, "result_preview"));
    assert_eq!(preview, format!("{}...", "é".repeat(100)));
    let short = job_completed_event("daily", AgentRole::User, "openai", "m", 0, "ok");
    assert_eq!(text(member(&short, "result_preview")), "ok");
}
