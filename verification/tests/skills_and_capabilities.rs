use hybridtrade::capabilities::{describe_mcp_server, describe_native_tool, ActiveSkill, CapabilityCatalog};
use hybridtrade::config::{McpServerConfig, NativeToolConfig, ToolingConfig};
use hybridtrade::prompt::{build_system_prompt, build_user_message, render_active_skills_block, render_markdown_block};
use hybridtrade::agents::AgentRole;
use hybridtrade::capabilities::AgentPromptContext;
use hybridtrade::skills::{command_aliases, command_name_of_file, CommandFile, SkillRegistry};

fn registry(files: &[(&str, &str)]) -> SkillRegistry {
    let files: Vec<CommandFile> = files
        .iter()
        .map(|(n, b)| CommandFile {
            file_name: n.to_string(),
            body: b.to_string(),
        })
        .collect();
    SkillRegistry::load(&files)
}

fn empty_tooling() -> ToolingConfig {
    ToolingConfig {
        mcp_servers: vec![],
        native_tools: vec![],
    }
}

fn catalog_with_command(name: &str) -> CapabilityCatalog {
    CapabilityCatalog::new(
        empty_tooling(),
        registry(&[(&format!("{name}.md"), "# test skill\n\nbody")]),
    )
}

#[test]
fn resolves_slash_command_into_active_skill() {
    let catalog = catalog_with_command("chrome-devtools");
    let resolved = catalog.resolve_turn_skills("/chrome-devtools mở example.com");

    assert_eq!(resolved.command.as_deref(), Some("chrome-devtools"));
    assert_eq!(resolved.clean_message, "mở example.com");
    assert_eq!(resolved.active_skills.len(), 1);
    assert_eq!(resolved.active_skills[0].name, "chrome-devtools");
}

#[test]
fn resolves_mentioned_skill_name_without_slash_command() {
    let catalog = catalog_with_command("chrome-devtools");
    let resolved = catalog.resolve_turn_skills("hãy dùng chrome devtools để kiểm tra");

    assert!(resolved.command.is_none());
    assert_eq!(
        resolved.clean_message,
        "hãy dùng chrome devtools để kiểm tra"
    );
    assert_eq!(resolved.active_skills.len(), 1);
    assert_eq!(resolved.active_skills[0].name, "chrome-devtools");
}

#[test]
fn slash_command_alone_becomes_the_message() {
    let catalog = catalog_with_command("chrome-devtools");
    let resolved = catalog.resolve_turn_skills("  /CHROME-devtools  ");
    assert_eq!(resolved.command.as_deref(), Some("chrome-devtools"));
    assert_eq!(resolved.clean_message, "chrome-devtools");
    assert_eq!(resolved.active_skills.len(), 1);
    assert_eq!(resolved.active_skills[0].markdown, "# test skill\n\nbody");
}

#[test]
fn unknown_slash_command_is_left_alone() {
    let catalog = catalog_with_command("chrome-devtools");
    let resolved = catalog.resolve_turn_skills("/other thing");
    assert!(resolved.command.is_none());
    assert_eq!(resolved.clean_message, "/other thing");
    assert!(resolved.active_skills.is_empty());
}

#[test]
fn registry_sorts_and_reads_markdown_files() {
    let reg = registry(&[
        ("zeta.md", " z "),
        ("notes.txt", "ignored"),
        ("alpha.md", "a"),
        (".md", "hidden"),
        ("blank.md", "   "),
    ]);
    assert_eq!(reg.available_commands(), vec!["alpha", "blank", "zeta"]);
    assert_eq!(reg.command_markdown("zeta"), Some("z".to_string()));
    assert_eq!(reg.command_markdown("blank"), None);
    assert_eq!(reg.command_markdown("missing"), None);
    assert_eq!(reg.resolve_command_name("  ALPHA "), Some("alpha".to_string()));
    assert_eq!(reg.resolve_command_name("beta"), None);
    assert_eq!(reg.mentioned_commands("use ZETA please"), vec!["zeta".to_string()]);
    assert!(SkillRegistry::empty().available_commands().is_empty());
}

#[test]
fn command_file_names() {
    assert_eq!(command_name_of_file("a.b.md"), Some("a.b".to_string()));
    assert_eq!(command_name_of_file(".md"), None);
    assert_eq!(command_name_of_file("x.MD"), None);
    assert_eq!(command_name_of_file("readme"), None);
}

#[test]
fn aliases_cover_separators() {
    assert_eq!(
        command_aliases(" Chrome-DevTools "),
        vec!["chrome-devtools", "chrome devtools", "chrome_devtools"]
    );
    assert_eq!(command_aliases("plain"), vec!["plain"]);
}

#[test]
fn catalog_keeps_enabled_items_and_describes_them() {
    let tooling = ToolingConfig {
        mcp_servers: vec![
            McpServerConfig {
                name: "Chrome-DevTools".to_string(),
                enabled: true,
                timeout_ms: 5,
                command: "npx".to_string(),
                args: vec!["x".to_string()],
            },
            McpServerConfig {
                name: "off".to_string(),
                enabled: false,
                timeout_ms: 1,
                command: String::new(),
                args: vec![],
            },
        ],
        native_tools: vec![NativeToolConfig {
            name: "read".to_string(),
            kind: "native".to_string(),
            enabled: true,
            timeout_ms: 7,
        }],
    };
    let catalog = CapabilityCatalog::new(tooling, SkillRegistry::empty());
    let profile = catalog.profile_for(AgentRole::Kuromi);
    assert_eq!(profile.mcp_servers.len(), 1);
    assert!(profile.mcp_servers[0].description.starts_with("Chrome DevTools Protocol"));
    assert_eq!(profile.native_tools.len(), 1);
    assert_eq!(
        profile.native_tools[0].description,
        "Đọc file trong workspace backend theo path được kiểm soát"
    );
    let other = McpServerConfig {
        name: "fs".to_string(),
        enabled: true,
        timeout_ms: 1,
        command: String::new(),
        args: vec![],
    };
    assert_eq!(describe_mcp_server(&other), "MCP server fs");
    let tool = NativeToolConfig {
        name: "custom".to_string(),
        kind: String::new(),
        enabled: true,
        timeout_ms: 0,
    };
    assert_eq!(describe_native_tool(&tool), "Native tool custom");
}

#[test]
fn prompts_and_skill_blocks() {
    let skills = vec![
        ActiveSkill { name: "a".to_string(), markdown: "A".to_string() },
        ActiveSkill { name: "b".to_string(), markdown: "B".to_string() },
    ];
    assert_eq!(render_active_skills_block(&skills), "- Skill `a`:\nA\n\n- Skill `b`:\nB");
    assert_eq!(build_user_message("hi", &[]), "hi");
    assert!(build_user_message("hi", &skills).starts_with("hi\n\nSkill runtime được inject từ user turn hiện tại:\n- Skill `a`:"));
    assert_eq!(render_markdown_block("  ", "fb"), "fb");
    assert_eq!(render_markdown_block(" md ", "fb"), "md");
    let ctx = AgentPromptContext { preview: Some("PREVIEW".to_string()) };
    let prompt = build_system_prompt(AgentRole::Kuromi, Some(&ctx), Some("NOTE"));
    assert!(prompt.starts_with("Bạn là `kuromi` (Kuromi Finance) — AI coding agent"));
    assert!(prompt.contains("\n\nNgữ cảnh backend:\nPREVIEW\n\nTrạng thái runtime từ turn trước cùng chat session:\nNOTE"));
    assert!(prompt.contains("Skill lưu vào `.skills/learned/{name}.md`"));
}
