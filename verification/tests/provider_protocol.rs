use hybridtrade::agents::{ChatStreamEvent, ChatTurn, DebugToolCall};
use hybridtrade::config::{NativeToolConfig, ProviderConfig};
use hybridtrade::json::{Json, JsonNumber};
use hybridtrade::market_tools::{
    calendar_result, dashboard_result, fetch_calendar_url, fetch_dashboard_url, fetch_news_url,
    market_status_error, news_result,
};
use hybridtrade::mcp::{mcp_tool_definition, mcp_tools_from_listing, register_mcp_tools};
use hybridtrade::protocol::{
    anthropic_active_model, anthropic_initial_messages, anthropic_message_from_turn,
    anthropic_record_results, anthropic_step, anthropic_tool_specs, extract_anthropic_content,
    extract_anthropic_tool_uses, extract_openai_function_calls, extract_openai_responses_content,
    openai_initial_input, openai_record_outputs, openai_response_input, openai_step,
    openai_tool_specs, AnthropicStep, OpenAiStep,
};
use hybridtrade::registry::{ToolDefinition, ToolExecutor, ToolRegistry};
use hybridtrade::runtime::{
    finish_tool_call, missing_tool_output, tool_call_event, tool_error_output, tool_result_event,
    ToolRuntime,
};
use hybridtrade::schema::{make_schema_nullable, normalize_openai_tool_schema};
use hybridtrade::tool_schemas::native_tool_schema;
use hybridtrade::tools::NativeToolKind;
use hybridtrade::transport::{
    next_request_action, provider_endpoints, RequestAction, RequestOutcome, RetryState,
};
use serde_json::{Number, Value};

fn s(x: &str) -> Json {
    Json::Str(x.to_string())
}

fn n(x: u64) -> Json {
    Json::Number(JsonNumber::PosInt(x))
}

fn arr(items: Vec<Json>) -> Json {
    Json::Array(items)
}

fn obj(members: Vec<(&str, Json)>) -> Json {
    Json::Object(members.into_iter().map(|(k, v)| (k.to_string(), v)).collect())
}

fn to_value(j: &Json) -> Value {
    match j {
        Json::Null => Value::Null,
        Json::Bool(b) => Value::Bool(*b),
        Json::Number(JsonNumber::PosInt(v)) => Value::Number(Number::from(*v)),
        Json::Number(JsonNumber::NegInt(v)) => Value::Number(Number::from(*v)),
        Json::Number(JsonNumber::Float(t)) => Value::String(t.clone()),
        Json::Str(t) => Value::String(t.clone()),
        Json::Array(items) => Value::Array(items.iter().map(to_value).collect()),
        Json::Object(members) => {
            let mut map = serde_json::Map::new();
            for (k, v) in members {
                map.insert(k.clone(), to_value(v));
            }
            Value::Object(map)
        }
    }
}

fn definition(name: &str, schema: Json) -> ToolDefinition {
    ToolDefinition {
        name: name.to_string(),
        description: format!("{name} tool"),
        input_schema: schema,
        source_label: format!("native:{name}"),
        executor: ToolExecutor::Native { kind: NativeToolKind::Read, timeout_ms: 1000 },
    }
}

#[test]
fn nullable_schema_types() {
    let plain = make_schema_nullable(obj(vec![("type", s("string"))]));
    assert_eq!(to_value(&plain), to_value(&obj(vec![("type", arr(vec![s("string"), s("null")]))])));
    let listed = make_schema_nullable(obj(vec![("type", arr(vec![s("integer")]))]));
    assert_eq!(to_value(&listed), to_value(&obj(vec![("type", arr(vec![s("integer"), s("null")]))])));
    let already = make_schema_nullable(obj(vec![("type", arr(vec![s("null"), s("string")]))]));
    assert_eq!(to_value(&already), to_value(&obj(vec![("type", arr(vec![s("null"), s("string")]))])));
    let null_type = make_schema_nullable(obj(vec![("type", s("null"))]));
    assert_eq!(to_value(&null_type), to_value(&obj(vec![("type", s("null"))])));
    assert_eq!(to_value(&make_schema_nullable(s("x"))), Value::String("x".to_string()));
}

#[test]
fn strict_schema_normalization() {
    let schema = obj(vec![
        ("type", s("object")),
        (
            "properties",
            obj(vec![
                ("path", obj(vec![("type", s("string"))])),
                ("start", obj(vec![("type", s("integer"))])),
                ("tags", obj(vec![("type", s("array")), ("items", obj(vec![("type", s("object")), ("properties", obj(vec![("k", obj(vec![("type", s("string"))]))]))]))])),
            ]),
        ),
        ("required", arr(vec![s("path")])),
    ]);
    let expected = obj(vec![
        ("type", s("object")),
        (
            "properties",
            obj(vec![
                ("path", obj(vec![("type", s("string"))])),
                ("start", obj(vec![("type", arr(vec![s("integer"), s("null")]))])),
                (
                    "tags",
                    obj(vec![
                        ("type", arr(vec![s("array"), s("null")])),
                        (
                            "items",
                            obj(vec![
                                ("type", s("object")),
                                ("properties", obj(vec![("k", obj(vec![("type", arr(vec![s("string"), s("null")]))]))])),
                                ("required", arr(vec![s("k")])),
                                ("additionalProperties", Json::Bool(false)),
                            ]),
                        ),
                    ]),
                ),
            ]),
        ),
        ("required", arr(vec![s("path"), s("start"), s("tags")])),
        ("additionalProperties", Json::Bool(false)),
    ]);
    assert_eq!(to_value(&normalize_openai_tool_schema(&schema)), to_value(&expected));
    let kept = obj(vec![("type", s("object")), ("properties", obj(vec![])), ("additionalProperties", Json::Bool(true))]);
    let out = normalize_openai_tool_schema(&kept);
    assert_eq!(
        to_value(&out),
        to_value(&obj(vec![("type", s("object")), ("properties", obj(vec![])), ("additionalProperties", Json::Bool(true)), ("required", arr(vec![]))]))
    );
    let list = arr(vec![obj(vec![("type", s("object")), ("properties", obj(vec![]))]), n(3)]);
    assert_eq!(
        to_value(&normalize_openai_tool_schema(&list)),
        to_value(&arr(vec![obj(vec![("type", s("object")), ("properties", obj(vec![])), ("required", arr(vec![])), ("additionalProperties", Json::Bool(false))]), n(3)]))
    );
}

#[test]
fn openai_function_calls_are_read_in_order() {
    let payload = obj(vec![(
        "output",
        arr(vec![
            obj(vec![("type", s("function_call")), ("name", s("read")), ("call_id", s("c1")), ("arguments", s("{\"path\":\"a\"}"))]),
            obj(vec![("type", s("message")), ("content", arr(vec![]))]),
            obj(vec![("type", s("function_call")), ("name", s("exec")), ("call_id", s("c2"))]),
            obj(vec![("type", s("function_call")), ("name", s("bash"))]),
        ]),
    )]);
    let calls = extract_openai_function_calls(&payload);
    assert_eq!(calls.len(), 2);
    assert_eq!((calls[0].name.as_str(), calls[0].call_id.as_str(), calls[0].arguments.as_str()), ("read", "c1", "{\"path\":\"a\"}"));
    assert_eq!((calls[1].name.as_str(), calls[1].call_id.as_str(), calls[1].arguments.as_str()), ("exec", "c2", "{}"));
    assert!(extract_openai_function_calls(&obj(vec![])).is_empty());
}

#[test]
fn anthropic_tool_uses_are_read_in_order() {
    let payload = obj(vec![(
        "content",
        arr(vec![
            obj(vec![("type", s("text")), ("text", s("thinking"))]),
            obj(vec![("type", s("tool_use")), ("id", s("t1")), ("name", s("read")), ("input", obj(vec![("path", s("a"))]))]),
            obj(vec![("type", s("tool_use")), ("id", s("t2")), ("name", s("list"))]),
        ]),
    )]);
    let uses = extract_anthropic_tool_uses(&payload);
    assert_eq!(uses.len(), 2);
    assert_eq!((uses[0].id.as_str(), uses[0].name.as_str()), ("t1", "read"));
    assert_eq!(to_value(&uses[0].input), to_value(&obj(vec![("path", s("a"))])));
    assert_eq!(to_value(&uses[1].input), to_value(&obj(vec![])));
}

#[test]
fn reply_texts() {
    let own = obj(vec![("output_text", s("done"))]);
    assert_eq!(extract_openai_responses_content(&own), Some("done".to_string()));
    let parts = obj(vec![
        ("output_text", s(" ")),
        (
            "output",
            arr(vec![
                obj(vec![("content", arr(vec![obj(vec![("text", s("a"))]), obj(vec![("text", s("b"))])]))]),
                obj(vec![("content", arr(vec![obj(vec![("text", s("c"))])]))]),
            ]),
        ),
    ]);
    assert_eq!(extract_openai_responses_content(&parts), Some("abc".to_string()));
    assert_eq!(extract_openai_responses_content(&obj(vec![("output", arr(vec![]))])), None);
    let anthropic = obj(vec![("content", arr(vec![obj(vec![("text", s("x"))]), obj(vec![("type", s("tool_use"))]), obj(vec![("text", s("y"))])]))]);
    assert_eq!(extract_anthropic_content(&anthropic), Some("xy".to_string()));
    assert_eq!(extract_anthropic_content(&obj(vec![("content", s("x"))])), None);
}

#[test]
fn messages_for_providers() {
    let input = openai_response_input("Assistant", "hi");
    let expected = obj(vec![
        ("content", arr(vec![obj(vec![("text", s("hi")), ("type", s("output_text"))])])),
        ("role", s("Assistant")),
        ("type", s("message")),
    ]);
    assert_eq!(to_value(&input), to_value(&expected));
    let user = openai_response_input("user", "q");
    assert_eq!(to_value(&user)["content"][0]["type"], Value::String("input_text".to_string()));
    let turn = ChatTurn::new("user", "hello");
    let message = anthropic_message_from_turn(&turn);
    assert_eq!(
        to_value(&message),
        to_value(&obj(vec![("content", arr(vec![obj(vec![("text", s("hello")), ("type", s("text"))])])), ("role", s("user"))]))
    );
    let history = vec![ChatTurn::new("assistant", "a1")];
    let first = openai_initial_input("sys", &history, "now");
    assert_eq!(first.len(), 3);
    assert_eq!(to_value(&first[0])["role"], Value::String("system".to_string()));
    assert_eq!(to_value(&first[1])["content"][0]["type"], Value::String("output_text".to_string()));
    assert_eq!(to_value(&first[2])["content"][0]["text"], Value::String("now".to_string()));
    let messages = anthropic_initial_messages(&history, "now");
    assert_eq!(messages.len(), 2);
    assert_eq!(to_value(&messages[1])["role"], Value::String("user".to_string()));
}

#[test]
fn tool_specs_for_providers() {
    let defs = vec![definition("read", obj(vec![("type", s("object")), ("properties", obj(vec![("path", obj(vec![("type", s("string"))]))]))]))];
    let openai = openai_tool_specs(&defs);
    let v = to_value(&openai[0]);
    assert_eq!(v["name"], Value::String("read".to_string()));
    assert_eq!(v["strict"], Value::Bool(true));
    assert_eq!(v["type"], Value::String("function".to_string()));
    assert_eq!(v["parameters"]["required"][0], Value::String("path".to_string()));
    assert_eq!(v["parameters"]["properties"]["path"]["type"][1], Value::String("null".to_string()));
    let anthropic = anthropic_tool_specs(&defs);
    let a = to_value(&anthropic[0]);
    assert_eq!(a["input_schema"]["properties"]["path"]["type"], Value::String("string".to_string()));
    assert_eq!(a["description"], Value::String("read tool".to_string()));
}

#[test]
fn openai_loop_steps() {
    let mut input = vec![openai_response_input("user", "q")];
    let reply = obj(vec![("output_text", s("answer"))]);
    match openai_step(&mut input, &reply) {
        OpenAiStep::Reply(t) => assert_eq!(t, "answer"),
        other => panic!("unexpected {other:?}"),
    }
    assert_eq!(input.len(), 1);
    match openai_step(&mut input, &obj(vec![])) {
        OpenAiStep::Failed(e) => assert_eq!(e, "phản hồi OpenAI Responses API không có nội dung"),
        other => panic!("unexpected {other:?}"),
    }
    let calls_payload = obj(vec![("output", arr(vec![obj(vec![("type", s("function_call")), ("name", s("read")), ("call_id", s("c1")), ("arguments", s("{}"))])]))]);
    let calls = match openai_step(&mut input, &calls_payload) {
        OpenAiStep::CallTools(calls) => calls,
        other => panic!("unexpected {other:?}"),
    };
    assert_eq!(input.len(), 2);
    assert_eq!(to_value(&input[1])["type"], Value::String("function_call".to_string()));
    openai_record_outputs(&mut input, &calls, &vec!["out".to_string()]);
    assert_eq!(input.len(), 3);
    assert_eq!(
        to_value(&input[2]),
        to_value(&obj(vec![("call_id", s("c1")), ("output", s("out")), ("type", s("function_call_output"))]))
    );
}

#[test]
fn anthropic_loop_steps() {
    let mut messages = anthropic_initial_messages(&vec![], "q");
    match anthropic_step(&mut messages, &obj(vec![("content", arr(vec![obj(vec![("text", s("hi"))])]))])) {
        AnthropicStep::Reply(t) => assert_eq!(t, "hi"),
        other => panic!("unexpected {other:?}"),
    }
    match anthropic_step(&mut messages, &obj(vec![("content", arr(vec![]))])) {
        AnthropicStep::Failed(e) => assert_eq!(e, "phản hồi Anthropic không có nội dung assistant"),
        other => panic!("unexpected {other:?}"),
    }
    let payload = obj(vec![("content", arr(vec![obj(vec![("type", s("tool_use")), ("id", s("t1")), ("name", s("read"))])]))]);
    let uses = match anthropic_step(&mut messages, &payload) {
        AnthropicStep::CallTools(uses) => uses,
        other => panic!("unexpected {other:?}"),
    };
    assert_eq!(messages.len(), 2);
    assert_eq!(to_value(&messages[1])["role"], Value::String("assistant".to_string()));
    anthropic_record_results(&mut messages, &uses, &vec!["r1".to_string(), "extra".to_string()]);
    let last = to_value(&messages[2]);
    assert_eq!(last["role"], Value::String("user".to_string()));
    assert_eq!(last["content"].as_array().unwrap().len(), 1);
    assert_eq!(last["content"][0]["tool_use_id"], Value::String("t1".to_string()));
    assert_eq!(last["content"][0]["content"][0]["text"], Value::String("r1".to_string()));
}

#[test]
fn anthropic_models_per_call() {
    let mut config = ProviderConfig::default();
    config.model = "opus".to_string();
    assert_eq!(anthropic_active_model(&config, true), "opus");
    assert_eq!(anthropic_active_model(&config, false), "opus");
    config.light_model = "sonnet".to_string();
    assert_eq!(anthropic_active_model(&config, false), "sonnet");
    assert_eq!(anthropic_active_model(&config, true), "opus");
}

#[test]
fn registry_keeps_first_tool_of_a_name() {
    let mut registry = ToolRegistry::new();
    registry.insert_definition(definition("write", obj(vec![])));
    registry.insert_definition(definition("read", obj(vec![])));
    let mut dup = definition("read", obj(vec![]));
    dup.description = "second".to_string();
    registry.insert_definition(dup);
    assert_eq!(registry.available_tool_names(), vec!["read".to_string(), "write".to_string()]);
    assert_eq!(registry.get("read").unwrap().description, "read tool");
    assert_eq!(
        registry.initialization_warnings().clone(),
        vec!["tool `read` bị trùng tên trong runtime, giữ lại bản đầu tiên".to_string()]
    );
    registry.remove_definition("read");
    assert!(registry.get("read").is_none());
    assert_eq!(registry.definitions().len(), 1);
}

#[test]
fn native_tools_register_by_name() {
    let mut registry = ToolRegistry::new();
    let config = NativeToolConfig { name: "read".to_string(), kind: String::new(), enabled: true, timeout_ms: 10 };
    registry.register_native_tool(&config);
    let d = registry.get("read").unwrap();
    assert_eq!(d.source_label, "native:read");
    match &d.executor {
        ToolExecutor::Native { kind, timeout_ms } => {
            assert_eq!(*kind, NativeToolKind::Read);
            assert_eq!(*timeout_ms, 1000);
        }
        other => panic!("unexpected {other:?}"),
    }
    let unknown = NativeToolConfig { name: "fly".to_string(), kind: String::new(), enabled: true, timeout_ms: 5000 };
    registry.register_native_tool(&unknown);
    assert_eq!(
        registry.initialization_warnings().clone(),
        vec!["native tool `fly` chưa có executor Rust tương ứng, nên bị bỏ qua".to_string()]
    );
}

#[test]
fn finishing_tool_calls() {
    let d = definition("read", obj(vec![]));
    let output = obj(vec![("text", s("file body"))]);
    let (text, record) = finish_tool_call(Some(&d), "read", "{}", &output, "{\"text\":\"file body\"}", false);
    assert_eq!(text, "file body");
    assert_eq!(record.status, "completed");
    assert_eq!(record.source, "native:read");
    let missing = missing_tool_output("nope");
    let serialized = serde_json::to_string(&to_value(&missing)).unwrap();
    let (text, record) = finish_tool_call(None, "nope", "{}", &missing, &serialized, true);
    assert_eq!(text, "{\"error\":\"tool `nope` không tồn tại trong runtime hiện tại\",\"ok\":false}");
    assert_eq!((record.name.as_str(), record.source.as_str(), record.status.as_str()), ("nope", "runtime", "failed"));
    let flagged = obj(vec![("isError", Json::Bool(true)), ("text", s("bad"))]);
    let (_, record) = finish_tool_call(Some(&d), "read", "{}", &flagged, "", false);
    assert_eq!(record.status, "failed");
    assert_eq!(to_value(&tool_error_output("boom")), to_value(&obj(vec![("error", s("boom")), ("ok", Json::Bool(false))])));
}

#[test]
fn runtime_records_calls_per_turn() {
    let mut registry = ToolRegistry::new();
    registry.insert_definition(definition("read", obj(vec![])));
    let mut runtime = ToolRuntime::new(registry, vec![], None);
    let text = runtime.record_tool_call("read", "{\"path\":\"a\"}", &s("ok"), "\"ok\"", false);
    assert_eq!(text, "ok");
    assert_eq!(runtime.tool_calls.len(), 1);
    let DebugToolCall { name, source, status, input_json, output_preview } = &runtime.tool_calls[0];
    assert_eq!((name.as_str(), source.as_str(), status.as_str()), ("read", "native:read", "completed"));
    assert_eq!((input_json.as_str(), output_preview.as_str()), ("{\"path\":\"a\"}", "ok"));
    runtime.prepare_turn(&vec![ChatTurn::new("user", "x")], Some("ctx".to_string()));
    assert!(runtime.tool_calls.is_empty());
    assert_eq!(runtime.history.len(), 1);
    assert!(!runtime.is_team_context());
}

#[test]
fn market_tool_requests() {
    let args = obj(vec![("count", n(80)), ("important", Json::Bool(true))]);
    assert_eq!(fetch_news_url("http://f", &args), "http://f/api/news?pageSize=50&checkImportant=true");
    assert_eq!(fetch_news_url("http://f", &obj(vec![])), "http://f/api/news?pageSize=20&checkImportant=false");
    assert_eq!(fetch_calendar_url("http://f", &obj(vec![])), "http://f/api/calendar");
    assert_eq!(
        fetch_calendar_url("http://f", &obj(vec![("date", s("2024-01-02")), ("importance", s("high"))])),
        "http://f/api/calendar?date=2024-01-02&importance=high"
    );
    assert_eq!(fetch_calendar_url("http://f", &obj(vec![("importance", s("high"))])), "http://f/api/calendar?importance=high");
    assert_eq!(fetch_dashboard_url("http://b", &obj(vec![("symbol", s(" XAUUSD "))])), "http://b/api/instruments/XAUUSD");
    assert_eq!(fetch_dashboard_url("http://b", &obj(vec![])), "http://b/api/instruments");
    assert_eq!(market_status_error("fetch_news", "500 Internal Server Error", "oops"), "fetch_news trả về status 500 Internal Server Error: oops");
}

#[test]
fn market_tool_results() {
    let data = obj(vec![("items", arr(vec![n(1), n(2)]))]);
    assert_eq!(
        to_value(&news_result(&data)),
        to_value(&obj(vec![("count", n(2)), ("items", arr(vec![n(1), n(2)])), ("ok", Json::Bool(true))]))
    );
    assert_eq!(
        to_value(&calendar_result(&obj(vec![]))),
        to_value(&obj(vec![("count", n(0)), ("events", arr(vec![])), ("ok", Json::Bool(true))]))
    );
    assert_eq!(
        to_value(&dashboard_result(arr(vec![]))),
        to_value(&obj(vec![("instruments", arr(vec![])), ("ok", Json::Bool(true))]))
    );
}

#[test]
fn mcp_tools_become_runtime_tools() {
    let listing = obj(vec![(
        "tools",
        arr(vec![
            obj(vec![("name", s(" Search Web ")), ("description", s(" finds pages ")), ("inputSchema", obj(vec![("type", s("object"))]))]),
            obj(vec![("name", s("  "))]),
            obj(vec![("name", s("fetch"))]),
        ]),
    )]);
    let tools = mcp_tools_from_listing(&listing);
    assert_eq!(tools.len(), 2);
    assert_eq!(tools[0].name, "Search Web");
    assert_eq!(
        to_value(&tools[1].input_schema),
        to_value(&obj(vec![("additionalProperties", Json::Bool(true)), ("properties", obj(vec![])), ("type", s("object"))]))
    );
    let d = mcp_tool_definition("My Server", &tools[0]);
    assert_eq!(d.name, "my_server__search_web");
    assert_eq!(d.description, "[My Server] finds pages");
    assert_eq!(d.source_label, "mcp:My Server");
    let d2 = mcp_tool_definition("srv", &tools[1]);
    assert_eq!(d2.description, "MCP tool `fetch` từ server `srv`");
    let mut registry = ToolRegistry::new();
    register_mcp_tools(&mut registry, "srv", &tools);
    assert_eq!(registry.available_tool_names(), vec!["srv__fetch".to_string(), "srv__search_web".to_string()]);
}

#[test]
fn stream_events_of_tool_calls() {
    let long = "a".repeat(250);
    match tool_call_event(&None, "read", &long) {
        Some(ChatStreamEvent::AgentToolCall { tool, input_preview }) => {
            assert_eq!(tool, "read");
            assert_eq!(input_preview.chars().count(), 203);
        }
        other => panic!("unexpected {other:?}"),
    }
    assert!(tool_call_event(&Some("analyst".to_string()), "read", "{}").is_none());
    match tool_result_event(&Some("analyst".to_string()), "read", "failed", "boom") {
        ChatStreamEvent::TeamToolCall { member, tool, status, output_preview } => {
            assert_eq!((member.as_str(), tool.as_str(), status.as_str(), output_preview.as_str()), ("analyst", "read", "failed", "boom"));
        }
        other => panic!("unexpected {other:?}"),
    }
    match tool_result_event(&None, "read", "completed", "ok") {
        ChatStreamEvent::AgentToolResult { tool, status, output_preview } => {
            assert_eq!((tool.as_str(), status.as_str(), output_preview.as_str()), ("read", "completed", "ok"));
        }
        other => panic!("unexpected {other:?}"),
    }
}

#[test]
fn provider_endpoint_addresses() {
    assert_eq!(
        provider_endpoints("https://api.openai.com/v1/", "responses"),
        ("https://api.openai.com/v1/responses".to_string(), Some("https://api.openai.com/responses".to_string()))
    );
    assert_eq!(
        provider_endpoints("https://proxy.local", "messages"),
        ("https://proxy.local/v1/messages".to_string(), Some("https://proxy.local/messages".to_string()))
    );
    assert_eq!(
        provider_endpoints("https://x/v1/v1//", "messages"),
        ("https://x/v1/v1/messages".to_string(), Some("https://x/messages".to_string()))
    );
}

#[test]
fn provider_request_retries_and_fallback() {
    let mut config = ProviderConfig::default();
    config.request_retries = 1;
    config.retry_backoff_ms = 500;
    let fallback = Some("https://x/messages".to_string());
    let mut state = RetryState { url: "https://x/v1/messages".to_string(), used_fallback: false, attempt: 0 };
    let not_found = RequestOutcome::Answered { code: 404, status_text: "404 Not Found".to_string(), body: String::new() };
    match next_request_action(&mut state, &fallback, &config, "anthropic", &not_found) {
        RequestAction::Resend => {}
        other => panic!("unexpected {other:?}"),
    }
    assert_eq!(state.url, "https://x/messages");
    assert!(state.used_fallback);
    let busy = RequestOutcome::Answered { code: 503, status_text: "503 Service Unavailable".to_string(), body: " busy ".to_string() };
    match next_request_action(&mut state, &fallback, &config, "anthropic", &busy) {
        RequestAction::RetryAfter(ms) => assert_eq!(ms, 500),
        other => panic!("unexpected {other:?}"),
    }
    assert_eq!(state.attempt, 1);
    match next_request_action(&mut state, &fallback, &config, "anthropic", &busy) {
        RequestAction::Fail(e) => assert_eq!(e, "provider anthropic trả về 503 Service Unavailable: busy"),
        other => panic!("unexpected {other:?}"),
    }
    match next_request_action(&mut state, &fallback, &config, "anthropic", &not_found) {
        RequestAction::Fail(e) => assert_eq!(e, "provider anthropic trả về 404 Not Found"),
        other => panic!("unexpected {other:?}"),
    }
    let ok = RequestOutcome::Answered { code: 200, status_text: "200 OK".to_string(), body: String::new() };
    assert!(matches!(next_request_action(&mut state, &fallback, &config, "anthropic", &ok), RequestAction::Accept));
    let mut fresh = RetryState { url: "u".to_string(), used_fallback: false, attempt: 0 };
    let down = RequestOutcome::Unreachable { retryable: true };
    assert!(matches!(next_request_action(&mut fresh, &None, &config, "openai", &down), RequestAction::RetryAfter(500)));
    match next_request_action(&mut fresh, &None, &config, "openai", &down) {
        RequestAction::Fail(e) => assert_eq!(e, "gọi openai thất bại"),
        other => panic!("unexpected {other:?}"),
    }
}

#[test]
fn native_tool_schemas() {
    let read: Value = serde_json::from_str(
        r#"{"type":"object","properties":{"path":{"type":"string","description":"Path file cần đọc, relative theo workspace tool"},"start_line":{"type":"integer","minimum":1,"description":"Dòng bắt đầu, mặc định 1"},"line_count":{"type":"integer","minimum":1,"description":"Số dòng cần đọc, mặc định 200"},"max_chars":{"type":"integer","minimum":1,"description":"Giới hạn ký tự trả về"}},"required":["path"],"additionalProperties":false}"#,
    )
    .unwrap();
    assert_eq!(to_value(&native_tool_schema(NativeToolKind::Read)), read);
    let news: Value = serde_json::from_str(
        r#"{"type":"object","properties":{"count":{"type":"integer","minimum":1,"maximum":50,"description":"Số lượng tin tức cần lấy, mặc định 50"},"important":{"type":"boolean","description":"Nếu true chỉ lấy tin quan trọng"}},"additionalProperties":false}"#,
    )
    .unwrap();
    assert_eq!(to_value(&native_tool_schema(NativeToolKind::FetchNews)), news);
    let skills = to_value(&native_tool_schema(NativeToolKind::ReusableSkills));
    assert_eq!(skills["properties"]["action"]["enum"].as_array().unwrap().len(), 5);
    assert_eq!(skills["required"][0], Value::String("action".to_string()));
    let team = to_value(&native_tool_schema(NativeToolKind::SpawnTeam));
    assert_eq!(team["properties"]["members"]["items"]["required"][1], Value::String("responsibility".to_string()));
    assert_eq!(team["properties"]["rounds"]["maximum"], Value::Number(Number::from(4u64)));
    let dashboard = to_value(&native_tool_schema(NativeToolKind::UpdateDashboard));
    assert_eq!(dashboard["properties"]["confidence"]["minimum"], Value::Number(Number::from(0u64)));
    assert_eq!(dashboard["properties"]["key_levels"]["items"]["properties"]["price"]["type"], Value::String("number".to_string()));
}
