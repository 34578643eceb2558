use hybridtrade::agents::AgentRole;
use std::str::FromStr;

#[test]
fn parses_kuromi_aliases() {
    assert_eq!(AgentRole::from_str("kuromi").unwrap(), AgentRole::Kuromi);
    assert_eq!(
        AgentRole::from_str("kuromi_finance").unwrap(),
        AgentRole::Kuromi
    );
    assert_eq!(
        AgentRole::from_str("coordinator").unwrap(),
        AgentRole::Kuromi
    );
}

#[test]
fn matches_legacy_stored_role_names() {
    assert!(AgentRole::Kuromi.matches_stored_role("kuromi"));
    assert!(AgentRole::Kuromi.matches_stored_role("coordinator"));
    assert!(!AgentRole::Kuromi.matches_stored_role("source_scout"));
}

#[test]
fn role_parsing_ignores_case_and_blanks() {
    assert_eq!(AgentRole::from_str("  KuRoMi-Finance ").unwrap(), AgentRole::Kuromi);
    assert_eq!(AgentRole::parse("\tUSER\n").unwrap(), AgentRole::User);
    assert!(AgentRole::User.matches_stored_role(" User "));
    assert!(!AgentRole::User.matches_stored_role("kuromi"));
}

#[test]
fn role_parsing_reports_the_normalized_name() {
    let err = AgentRole::parse("  Scout ").unwrap_err();
    assert_eq!(err, "vai trò agent không hợp lệ: scout");
}

#[test]
fn role_names_and_labels() {
    assert_eq!(AgentRole::Kuromi.as_str(), "kuromi");
    assert_eq!(AgentRole::User.as_str(), "user");
    assert_eq!(AgentRole::Kuromi.label(), "Kuromi Finance");
    assert_eq!(AgentRole::User.label(), "User");
    assert_eq!(AgentRole::visible_agents(), vec![AgentRole::Kuromi]);
}
