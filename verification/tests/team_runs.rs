use hybridtrade::agents::{ChatStreamEvent, DebugToolCall};
use hybridtrade::team::{SpawnTeamMemberSpec, SpawnTeamRequest, SubagentFindings, SubagentStatus};
use hybridtrade::team_run::{
    collect_findings, finish_team, member_response_event, subagent_findings, team_started_event,
};

fn member(name: &str, responsibility: &str) -> SpawnTeamMemberSpec {
    SpawnTeamMemberSpec {
        name: name.to_string(),
        responsibility: responsibility.to_string(),
        instructions: None,
    }
}

fn request() -> SpawnTeamRequest {
    SpawnTeamRequest {
        mission: "check gold".to_string(),
        briefing: Some("fed week".to_string()),
        members: vec![member("Macro", "rates"), member("Tech", "charts")],
        rounds: None,
        report_instruction: None,
    }
}

fn finding(name: &str, responsibility: &str, content: &str) -> SubagentFindings {
    SubagentFindings {
        member: name.to_string(),
        responsibility: responsibility.to_string(),
        content: content.to_string(),
        tool_calls: Vec::new(),
        status: SubagentStatus::Completed,
        completed_at: "2024-01-01T00:00:00Z".to_string(),
    }
}

#[test]
fn subagent_findings_keep_answer_or_note_failure() {
    let m = member("Macro", "rates");
    let ok = subagent_findings(&m, Ok("gold up".to_string()), Vec::new(), "t".to_string());
    assert_eq!(ok.content, "gold up");
    assert!(matches!(ok.status, SubagentStatus::Completed));
    assert_eq!(ok.member, "Macro");

    let failed = subagent_findings(&m, Err("timeout".to_string()), Vec::new(), "t".to_string());
    assert_eq!(failed.content, "Subagent thất bại: timeout");
    match failed.status {
        SubagentStatus::Failed(e) => assert_eq!(e, "timeout"),
        SubagentStatus::Completed => panic!("expected a failure"),
    }
}

#[test]
fn team_events_carry_names_and_previews() {
    match team_started_event(&request()) {
        ChatStreamEvent::TeamStarted { session_id, mission, members } => {
            assert_eq!(session_id, "");
            assert_eq!(mission, "check gold");
            assert_eq!(members, vec!["Macro".to_string(), "Tech".to_string()]);
        }
        other => panic!("unexpected event {other:?}"),
    }
    let calls = vec![DebugToolCall {
        name: "read".to_string(),
        source: "native".to_string(),
        status: "ok".to_string(),
        input_json: "{}".to_string(),
        output_preview: "x".to_string(),
    }];
    let long = "a".repeat(305);
    match member_response_event("Tech", &long, &calls) {
        ChatStreamEvent::TeamMemberResponse { member, round, content, tool_calls } => {
            assert_eq!(member, "Tech");
            assert_eq!(round, 1);
            assert_eq!(content, format!("{}...", "a".repeat(300)));
            assert_eq!(tool_calls.len(), 1);
        }
        other => panic!("unexpected event {other:?}"),
    }
}

#[test]
fn findings_are_read_in_member_order() {
    let names = vec!["Macro".to_string(), "Tech".to_string(), "Flow".to_string()];
    let board = vec![finding("Tech", "charts", "range"), finding("Macro", "rates", "hawkish")];
    let found = collect_findings(&names, &board);
    assert_eq!(found.len(), 2);
    assert_eq!(found[0].member, "Macro");
    assert_eq!(found[1].member, "Tech");
}

#[test]
fn finish_team_builds_reports_and_brief() {
    let board = vec![finding("Tech", "charts", "range"), finding("Macro", "rates", "hawkish")];
    let result = finish_team(&request(), &board, 42, "openai", "gpt-x");
    assert!(result.ok);
    assert_eq!(result.duration_ms, 42);
    assert_eq!(result.provider, "openai");
    assert_eq!(result.model, "gpt-x");
    assert_eq!(result.members.len(), 2);
    assert_eq!(result.reports.len(), 2);
    assert_eq!(result.reports[0].member, "Macro");
    assert_eq!(result.reports[0].report, "hawkish");
    assert_eq!(result.reports[1].member, "Tech");
    assert_eq!(
        result.kuromi_brief,
        "Mission: check gold\nBriefing: fed week\nBáo cáo team:\n- Macro (rates) => hawkish\n- Tech (charts) => range"
    );
}
