use hybridtrade::team::{
    build_kuromi_brief, build_subagent_system_prompt, build_subagent_task_message,
    normalize_optional, SpawnTeamMemberSpec, SpawnTeamRequest, SubagentFindings, SubagentStatus,
};

#[test]
fn validate_rejects_duplicate_member_names() {
    let request = SpawnTeamRequest {
        mission: "check market".to_string(),
        briefing: None,
        members: vec![
            SpawnTeamMemberSpec {
                name: "Analyst".to_string(),
                responsibility: "tech".to_string(),
                instructions: None,
            },
            SpawnTeamMemberSpec {
                name: "analyst".to_string(),
                responsibility: "macro".to_string(),
                instructions: None,
            },
        ],
        rounds: Some(2),
        report_instruction: None,
    };

    assert!(request.validate().is_err());
}

#[test]
fn validate_trims_optional_fields() {
    let request = SpawnTeamRequest {
        mission: "  assess eurusd  ".to_string(),
        briefing: Some("  ".to_string()),
        members: vec![SpawnTeamMemberSpec {
            name: "  Macro  ".to_string(),
            responsibility: "  calendar  ".to_string(),
            instructions: Some("  focus on forecasts  ".to_string()),
        }],
        rounds: None,
        report_instruction: Some("  concise  ".to_string()),
    }
    .validate()
    .unwrap();

    assert_eq!(request.mission, "assess eurusd");
    assert!(request.briefing.is_none());
    assert_eq!(request.members[0].name, "Macro");
    assert_eq!(request.members[0].responsibility, "calendar");
    assert_eq!(
        request.members[0].instructions.as_deref(),
        Some("focus on forecasts")
    );
    assert_eq!(request.report_instruction.as_deref(), Some("concise"));
}

fn member(name: &str, responsibility: &str) -> SpawnTeamMemberSpec {
    SpawnTeamMemberSpec {
        name: name.to_string(),
        responsibility: responsibility.to_string(),
        instructions: None,
    }
}

fn request(mission: &str, members: Vec<SpawnTeamMemberSpec>) -> SpawnTeamRequest {
    SpawnTeamRequest {
        mission: mission.to_string(),
        briefing: None,
        members,
        rounds: None,
        report_instruction: None,
    }
}

#[test]
fn validate_error_messages() {
    assert_eq!(
        request("  ", vec![member("a", "b")]).validate().unwrap_err(),
        "spawn_team cần `mission`"
    );
    assert_eq!(
        request("m", vec![]).validate().unwrap_err(),
        "spawn_team cần ít nhất một member"
    );
    let seven = (0..7).map(|i| member(&format!("m{i}"), "r")).collect();
    assert_eq!(
        request("m", seven).validate().unwrap_err(),
        "spawn_team chỉ hỗ trợ tối đa 6 member mỗi lượt"
    );
    assert_eq!(
        request("m", vec![member(" ", "r")]).validate().unwrap_err(),
        "mỗi member trong spawn_team phải có `name`"
    );
    assert_eq!(
        request("m", vec![member(" Bob ", " ")]).validate().unwrap_err(),
        "member `Bob` trong spawn_team phải có `responsibility`"
    );
    assert_eq!(
        request("m", vec![member("Bob", "x"), member(" BOB ", "y")]).validate().unwrap_err(),
        "tên member trong spawn_team bị trùng: BOB"
    );
    let six = (0..6).map(|i| member(&format!("m{i}"), "r")).collect();
    assert!(request("m", six).validate().is_ok());
}

#[test]
fn normalize_optional_drops_blank() {
    assert_eq!(normalize_optional(Some(" x ".to_string())), Some("x".to_string()));
    assert_eq!(normalize_optional(Some(" ".to_string())), None);
    assert_eq!(normalize_optional(None), None);
}

#[test]
fn subagent_prompts() {
    let mut req = request("assess gold", vec![member("Macro", "calendar")]);
    req.briefing = Some("use data".to_string());
    req.report_instruction = Some("short".to_string());
    let prompt = build_subagent_system_prompt(
        &req,
        "Macro",
        "calendar",
        Some("focus"),
        &["Macro".to_string(), "Tech".to_string()],
    );
    assert!(prompt.contains("Tên bạn: Macro\nPhạm vi chính: calendar\nChỉ dẫn thêm cho bạn:\n- focus\nYêu cầu báo cáo cho cả team:\n- short\n\nThành viên team:\n  - Macro\n  - Tech\n\nMục tiêu team:\n- assess gold\n"));
    let task = build_subagent_task_message(&req, "Macro", "calendar", None, Some("  ctx  "));
    assert_eq!(
        task,
        "Mission: assess gold\n\nBổ sung: use data\n\nBạn là Macro, phạm vi: calendar.\n\nNgữ cảnh backend hiện tại:\nctx\n\nHãy thực hiện phân tích theo trách nhiệm riêng, dùng tool nếu cần. Kết thúc bằng báo cáo ngắn cho Kuromi."
    );
    let brief = build_kuromi_brief(
        &req,
        &[
            SubagentFindings {
                member: "Macro".to_string(),
                responsibility: "calendar".to_string(),
                content: "NFP   strong".to_string(),
                tool_calls: vec![],
                status: SubagentStatus::Completed,
                completed_at: "t".to_string(),
            },
            SubagentFindings {
                member: "Tech".to_string(),
                responsibility: "charts".to_string(),
                content: "".to_string(),
                tool_calls: vec![],
                status: SubagentStatus::Failed("timeout".to_string()),
                completed_at: "t".to_string(),
            },
        ],
    );
    assert_eq!(
        brief,
        "Mission: assess gold\nBriefing: use data\nBáo cáo team:\n- Macro (calendar) => NFP strong\n- Tech (charts) [FAILED: timeout] => \nNhắc lại yêu cầu báo cáo: short"
    );
}
