use hybridtrade::arguments::{
    extract_text_from_tool_result, optional_bool_arg, optional_raw_string_arg,
    optional_string_arg, optional_usize_arg, render_tool_output_for_model, required_raw_string_arg,
    required_string_arg, resolve_requested_timeout, sanitize_tool_arguments, string_array_arg,
    tool_output_is_error, MAX_TOOL_OUTPUT_CHARS,
};
use hybridtrade::file_tools::{bash_script_arg, read_window, skill_action, skill_match_url, skill_save_content, SkillAction};
use hybridtrade::json::{get_field, Json, JsonNumber};
use serde_json::{Number, Value};

fn s(x: &str) -> Json {
    Json::Str(x.to_string())
}

fn n(x: u64) -> Json {
    Json::Number(JsonNumber::PosInt(x))
}

fn arr(items: Vec<Json>) -> Json {
    Json::Array(items)
}

fn obj(members: Vec<(&str, Json)>) -> Json {
    Json::Object(members.into_iter().map(|(k, v)| (k.to_string(), v)).collect())
}

fn to_value(j: &Json) -> Value {
    match j {
        Json::Null => Value::Null,
        Json::Bool(b) => Value::Bool(*b),
        Json::Number(JsonNumber::PosInt(v)) => Value::Number(Number::from(*v)),
        Json::Number(JsonNumber::NegInt(v)) => Value::Number(Number::from(*v)),
        Json::Number(JsonNumber::Float(t)) => Value::String(t.clone()),
        Json::Str(t) => Value::String(t.clone()),
        Json::Array(items) => Value::Array(items.iter().map(to_value).collect()),
        Json::Object(members) => {
            let mut map = serde_json::Map::new();
            for (k, v) in members {
                map.insert(k.clone(), to_value(v));
            }
            Value::Object(map)
        }
    }
}

#[test]
fn required_string_arg_trims_and_rejects_blank() {
    let args = obj(vec![("path", s("  notes.txt ")), ("blank", s("   ")), ("count", n(3))]);
    assert_eq!(required_string_arg(&args, "path"), Ok("notes.txt".to_string()));
    assert_eq!(
        required_string_arg(&args, "blank"),
        Err("thiếu tham số string bắt buộc `blank`".to_string())
    );
    assert_eq!(
        required_string_arg(&args, "count"),
        Err("thiếu tham số string bắt buộc `count`".to_string())
    );
    assert_eq!(
        required_string_arg(&args, "missing"),
        Err("thiếu tham số string bắt buộc `missing`".to_string())
    );
}

#[test]
fn raw_string_args_keep_whitespace() {
    let args = obj(vec![("content", s("  body \n")), ("flag", Json::Bool(true))]);
    assert_eq!(required_raw_string_arg(&args, "content"), Ok("  body \n".to_string()));
    assert_eq!(optional_raw_string_arg(&args, "content"), Some("  body \n".to_string()));
    assert_eq!(optional_raw_string_arg(&args, "flag"), None);
    assert!(required_raw_string_arg(&args, "flag").is_err());
}

#[test]
fn optional_args_read_their_kind_only() {
    let args = obj(vec![
        ("cwd", s(" src ")),
        ("append", Json::Bool(true)),
        ("count", n(7)),
        ("negative", Json::Number(JsonNumber::NegInt(-2))),
        ("text_count", s("7")),
    ]);
    assert_eq!(optional_string_arg(&args, "cwd"), Some("src".to_string()));
    assert_eq!(optional_bool_arg(&args, "append"), Some(true));
    assert_eq!(optional_bool_arg(&args, "count"), None);
    assert_eq!(optional_usize_arg(&args, "count"), Some(7));
    assert_eq!(optional_usize_arg(&args, "negative"), None);
    assert_eq!(optional_usize_arg(&args, "text_count"), None);
    assert_eq!(optional_string_arg(&s("x"), "cwd"), None);
}

#[test]
fn string_array_arg_keeps_non_blank_strings() {
    let args = obj(vec![("args", arr(vec![s(" -la "), n(1), s("  "), s("src")]))]);
    assert_eq!(string_array_arg(&args, "args"), vec!["-la".to_string(), "src".to_string()]);
    assert!(string_array_arg(&args, "missing").is_empty());
    assert!(string_array_arg(&obj(vec![("args", s("x"))]), "args").is_empty());
}

#[test]
fn requested_timeout_is_clamped() {
    assert_eq!(resolve_requested_timeout(&obj(vec![("timeout_ms", n(500))]), 2000), 500);
    assert_eq!(resolve_requested_timeout(&obj(vec![("timeout_ms", n(0))]), 2000), 1);
    assert_eq!(resolve_requested_timeout(&obj(vec![("timeout_ms", n(9000))]), 2000), 2000);
    assert_eq!(resolve_requested_timeout(&obj(vec![]), 2000), 2000);
}

#[test]
fn output_error_flags() {
    assert!(tool_output_is_error(&obj(vec![("isError", Json::Bool(true))])));
    assert!(!tool_output_is_error(&obj(vec![("isError", Json::Bool(false)), ("is_error", Json::Bool(true))])));
    assert!(tool_output_is_error(&obj(vec![("isError", s("yes")), ("is_error", Json::Bool(true))])));
    assert!(!tool_output_is_error(&obj(vec![])));
}

#[test]
fn text_of_tool_results() {
    let own = obj(vec![("text", s("hello"))]);
    assert_eq!(extract_text_from_tool_result(&own), Some("hello".to_string()));
    let content = obj(vec![
        ("text", s("   ")),
        (
            "content",
            arr(vec![obj(vec![("text", s("a"))]), obj(vec![("type", s("image"))]), obj(vec![("text", s("b"))])]),
        ),
    ]);
    assert_eq!(extract_text_from_tool_result(&content), Some("a\nb".to_string()));
    let blank = obj(vec![("content", arr(vec![obj(vec![("text", s(" "))])]))]);
    assert_eq!(extract_text_from_tool_result(&blank), None);
    assert_eq!(extract_text_from_tool_result(&obj(vec![("ok", Json::Bool(true))])), None);
}

#[test]
fn rendering_tool_output() {
    assert_eq!(render_tool_output_for_model(&s("plain  text"), "\"plain  text\""), "plain  text");
    let result = obj(vec![("content", arr(vec![obj(vec![("text", s("a   b\n c"))])]))]);
    assert_eq!(render_tool_output_for_model(&result, "{}"), "a b c");
    let other = obj(vec![("ok", Json::Bool(true))]);
    assert_eq!(render_tool_output_for_model(&other, "{\"ok\":true}"), "{\"ok\":true}");
    let long = "x".repeat(MAX_TOOL_OUTPUT_CHARS + 5);
    let rendered = render_tool_output_for_model(&s(&long), "");
    assert_eq!(rendered.chars().count(), MAX_TOOL_OUTPUT_CHARS + 3);
    assert!(rendered.ends_with("..."));
}

#[test]
fn sanitize_replaces_nulls_with_empty_objects() {
    let input = obj(vec![
        ("a", Json::Null),
        ("b", arr(vec![Json::Null, n(1)])),
        ("c", obj(vec![("d", Json::Null)])),
    ]);
    let expected = obj(vec![
        ("a", obj(vec![])),
        ("b", arr(vec![obj(vec![]), n(1)])),
        ("c", obj(vec![("d", obj(vec![]))])),
    ]);
    let once = sanitize_tool_arguments(input);
    assert_eq!(to_value(&once), to_value(&expected));
    let twice = sanitize_tool_arguments(once);
    assert_eq!(to_value(&twice), to_value(&expected));
    assert_eq!(to_value(&sanitize_tool_arguments(Json::Null)), to_value(&obj(vec![])));
}

#[test]
fn get_field_reads_objects_only() {
    let args = obj(vec![("k", n(1))]);
    assert!(get_field(&args, "k").is_some());
    assert!(get_field(&args, "x").is_none());
    assert!(get_field(&arr(vec![n(1)]), "k").is_none());
}

#[test]
fn runtime_read_tool_supports_line_windows() {
    let args = obj(vec![("path", s("notes.txt")), ("start_line", n(2)), ("line_count", n(2))]);
    let w = read_window("line-1\nline-2\nline-3\n", &args);
    assert_eq!(w.content, "line-2\nline-3");
    assert_eq!(w.start_line, 2);
    assert_eq!(w.end_line, 3);
    assert_eq!(w.total_lines, 3);
    assert!(!w.truncated);
}

#[test]
fn read_window_defaults_and_limits() {
    let w = read_window("a\r\nb\nc", &obj(vec![]));
    assert_eq!(w.content, "a\nb\nc");
    assert_eq!((w.start_line, w.end_line, w.total_lines), (1, 3, 3));
    let empty = read_window("", &obj(vec![]));
    assert_eq!((empty.start_line, empty.end_line, empty.total_lines), (0, 0, 0));
    let cut = read_window("abcdef\nxyz", &obj(vec![("max_chars", n(3)), ("line_count", n(1))]));
    assert_eq!(cut.content, "abc...");
    assert!(cut.truncated);
    let past = read_window("a\nb", &obj(vec![("start_line", n(9))]));
    assert_eq!((past.start_line, past.end_line), (3, 2));
    assert_eq!(past.content, "");
}

#[test]
fn bash_script_choice() {
    assert_eq!(bash_script_arg(&obj(vec![("script", s("ls"))])), Ok("ls".to_string()));
    assert_eq!(bash_script_arg(&obj(vec![("command", s("pwd"))])), Ok("pwd".to_string()));
    assert_eq!(
        bash_script_arg(&obj(vec![("script", s(" ")), ("command", s("pwd"))])),
        Err("thiếu tham số string bắt buộc `script`".to_string())
    );
    assert!(bash_script_arg(&obj(vec![])).is_err());
}

#[test]
fn skill_actions() {
    assert_eq!(skill_action(&obj(vec![("action", s(" save "))])), Ok(SkillAction::Save));
    assert_eq!(skill_action(&obj(vec![("action", s("match"))])), Ok(SkillAction::Match));
    assert_eq!(
        skill_action(&obj(vec![("action", s("Load"))])),
        Err("action `Load` không hợp lệ, cần: save/load/list/delete/match".to_string())
    );
    assert_eq!(
        skill_action(&obj(vec![])),
        Err("thiếu tham số string bắt buộc `action`".to_string())
    );
    assert_eq!(skill_save_content(&obj(vec![("content", s(" # T "))])), Ok(" # T ".to_string()));
    assert_eq!(
        skill_save_content(&obj(vec![])),
        Err("thiếu `content` (Markdown) cho action=save".to_string())
    );
    assert_eq!(skill_match_url(&obj(vec![("url", s(" x.com "))])), Ok("x.com".to_string()));
    assert_eq!(
        skill_match_url(&obj(vec![("url", s(""))])),
        Err("thiếu tham số `url` cho action=match".to_string())
    );
}
