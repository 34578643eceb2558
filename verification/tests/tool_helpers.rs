use hybridtrade::tools::{
    classify_learned_skill, collect_keywords, count_keyword_hits, ensure_path_is_within_workspace,
    extract_candidate_numbers, extract_domain_from_url, extract_html_title, find_timeframes,
    format_mcp_tool_name, learned_dir, learned_skill_summary, name_to_filename,
    native_tool_description, native_tool_kind, native_tool_name, path_components_of,
    push_number_candidate, sanitize_tool_name_segment, skill_match_keyword, strip_html_tags,
    NativeToolKind, SkillMatchKind, READ_DESCRIPTION, REUSABLE_SKILLS_DESCRIPTION,
};

#[test]
fn extract_domain_strips_www() {
    assert_eq!(
        extract_domain_from_url("https://www.forexfactory.com/news"),
        Some("forexfactory.com".to_string())
    );
}

#[test]
fn extract_domain_no_scheme() {
    assert_eq!(
        extract_domain_from_url("investing.com/technical"),
        Some("investing.com".to_string())
    );
}

#[test]
fn extract_domain_with_port() {
    assert_eq!(
        extract_domain_from_url("http://localhost:3000/api"),
        Some("localhost".to_string())
    );
}

#[test]
fn domain_to_filename_sanitizes() {
    assert_eq!(name_to_filename("fxstreet-gold-news"), "fxstreet-gold-news.md");
    assert_eq!(name_to_filename("investing.com"), "investing.com.md");
    assert_eq!(name_to_filename("My Cool Skill"), "my-cool-skill.md");
}

#[test]
fn extract_domain_of_blank_or_scheme_only_is_none() {
    assert_eq!(extract_domain_from_url("   "), None);
    assert_eq!(extract_domain_from_url("https:///path"), None);
    assert_eq!(
        extract_domain_from_url("  HTTPS://WWW.Example.COM:8080/x  "),
        Some("example.com".to_string())
    );
}

#[test]
fn filename_replaces_every_unsafe_character() {
    assert_eq!(name_to_filename("  a/b\\c:d*e?f\"g<h>i|j k  "), "a-b-c-d-e-f-g-h-i-j-k.md");
}

#[test]
fn learned_dir_joins_with_single_separator() {
    assert_eq!(learned_dir("/work"), "/work/.skills/learned");
    assert_eq!(learned_dir("/work/"), "/work/.skills/learned");
    assert_eq!(learned_dir(""), ".skills/learned");
}

#[test]
fn tool_name_segments_are_sanitized() {
    assert_eq!(sanitize_tool_name_segment("Chrome DevTools!"), "chrome_devtools");
    assert_eq!(sanitize_tool_name_segment("__a--b__"), "a_b");
    assert_eq!(sanitize_tool_name_segment("***"), "");
    assert_eq!(format_mcp_tool_name("chrome-devtools", "new_page"), "chrome_devtools__new_page");
}

#[test]
fn native_tools_round_trip_through_their_names() {
    assert_eq!(native_tool_kind("  READ "), Some(NativeToolKind::Read));
    assert_eq!(native_tool_kind("reusable_skills"), Some(NativeToolKind::ReusableSkills));
    assert_eq!(native_tool_kind("unknown"), None);
    for kind in [
        NativeToolKind::Read,
        NativeToolKind::Write,
        NativeToolKind::Exec,
        NativeToolKind::Bash,
        NativeToolKind::SpawnTeam,
        NativeToolKind::FetchNews,
        NativeToolKind::FetchCalendar,
        NativeToolKind::FetchDashboard,
        NativeToolKind::UpdateDashboard,
        NativeToolKind::ReusableSkills,
    ] {
        assert_eq!(native_tool_kind(native_tool_name(kind)), Some(kind));
    }
    assert_eq!(native_tool_description(NativeToolKind::Read), READ_DESCRIPTION);
    assert_eq!(
        native_tool_description(NativeToolKind::ReusableSkills),
        REUSABLE_SKILLS_DESCRIPTION
    );
}

#[test]
fn learned_skills_match_by_name_or_content() {
    assert_eq!(skill_match_keyword("https://www.FXStreet.com/news"), "fxstreet.com");
    assert_eq!(skill_match_keyword("Gold Outlook"), "gold outlook");
    assert_eq!(
        classify_learned_skill("FXStreet.com", "https://www.fxstreet.com/x", None),
        Some(SkillMatchKind::Name)
    );
    assert_eq!(
        classify_learned_skill("fxstreet", "https://www.fxstreet.com/x", None),
        Some(SkillMatchKind::Name)
    );
    assert_eq!(
        classify_learned_skill("gold", "https://www.fxstreet.com/x", Some("Visit FXSTREET.COM daily")),
        Some(SkillMatchKind::Content)
    );
    assert_eq!(
        classify_learned_skill("gold", "https://www.fxstreet.com/x", Some("nothing here")),
        None
    );
    assert_eq!(classify_learned_skill("gold", "https://www.fxstreet.com/x", None), None);
}

#[test]
fn learned_skill_summary_skips_headings_and_cuts_long_lines() {
    assert_eq!(learned_skill_summary("# Title\n\n  first line  \nsecond"), "first line");
    assert_eq!(learned_skill_summary("# only heading\n"), "");
    let long = "x".repeat(130);
    assert_eq!(learned_skill_summary(&long), format!("{}...", "x".repeat(120)));
    let exact = "y".repeat(120);
    assert_eq!(learned_skill_summary(&exact), exact);
}

#[test]
fn html_title_is_found_case_insensitively() {
    assert_eq!(
        extract_html_title("<html><TITLE lang=\"en\">  Gold   news \n today </Title></html>"),
        "Gold news today"
    );
    assert_eq!(extract_html_title("<html>no title</html>"), "");
    assert_eq!(extract_html_title("<title>open"), "");
}

#[test]
fn html_tags_are_stripped() {
    assert_eq!(strip_html_tags("<p>Hello <b>world</b></p>"), "Hello world");
    assert_eq!(strip_html_tags("a > b"), "a  b");
    assert_eq!(strip_html_tags("x <unclosed"), "x ");
}

#[test]
fn keywords_and_timeframes_are_listed_in_table_order() {
    assert_eq!(count_keyword_hits("breakout above support", &["support", "breakout", "range"]), 2);
    assert_eq!(find_timeframes("on the 4h and daily charts"), vec!["4h", "daily"]);
    assert_eq!(find_timeframes("weekly 15m"), vec!["5m", "15m", "weekly"]);
    assert_eq!(collect_keywords("trend retest near support"), vec!["support", "trend", "retest"]);
}

#[test]
fn candidate_numbers_are_deduplicated() {
    assert_eq!(
        extract_candidate_numbers("XAU 2,345.50 then 2,345.50, 12 and 1.0850/1.0900."),
        vec!["2,345.50".to_string(), "1.0850/1.0900".to_string()]
    );
    let mut values = vec!["123".to_string()];
    let mut current = "..123,".to_string();
    push_number_candidate(&mut values, &mut current);
    assert_eq!(values, vec!["123".to_string()]);
    assert!(current.is_empty());
}

#[test]
fn workspace_paths_are_compared_by_component() {
    assert_eq!(ensure_path_is_within_workspace("/work/a/b.txt", "/work"), Ok(()));
    assert_eq!(ensure_path_is_within_workspace("/work//a/./b", "/work/"), Ok(()));
    assert_eq!(
        ensure_path_is_within_workspace("/workspace/a", "/work"),
        Err("path `/workspace/a` nằm ngoài workspace `/work`".to_string())
    );
    assert_eq!(
        ensure_path_is_within_workspace("/escape.txt", "/work"),
        Err("path `/escape.txt` nằm ngoài workspace `/work`".to_string())
    );
    let comps = path_components_of(&"./a//b/".chars().collect::<Vec<_>>());
    let comps: Vec<String> = comps.into_iter().map(|c| c.into_iter().collect()).collect();
    assert_eq!(comps, vec![".", "a", "b"]);
}

#[test]
fn runtime_write_tool_blocks_paths_outside_workspace() {
    // `../escape.txt` under the workspace resolves to a file beside it.
    let error = ensure_path_is_within_workspace(
        "/tmp/escape.txt",
        "/tmp/hybridtrade-tool-runtime-write",
    )
    .unwrap_err();
    assert!(error.contains("nằm ngoài workspace"));
}
