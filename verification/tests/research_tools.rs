use hybridtrade::agents::ChatTurn;
use hybridtrade::json::{Json, JsonNumber};
use hybridtrade::research_tools::{
    extract_signals, fetch_page_result, memory_lookup, source_items, summarize_sources_result,
};
use serde_json::{Number, Value};

fn s(x: &str) -> Json {
    Json::Str(x.to_string())
}

fn arr(items: Vec<Json>) -> Json {
    Json::Array(items)
}

fn obj(members: Vec<(&str, Json)>) -> Json {
    Json::Object(members.into_iter().map(|(k, v)| (k.to_string(), v)).collect())
}

fn to_value(j: &Json) -> Value {
    match j {
        Json::Null => Value::Null,
        Json::Bool(b) => Value::Bool(*b),
        Json::Number(JsonNumber::PosInt(v)) => Value::Number(Number::from(*v)),
        Json::Number(JsonNumber::NegInt(v)) => Value::Number(Number::from(*v)),
        Json::Number(JsonNumber::Float(t)) => Value::String(t.clone()),
        Json::Str(t) => Value::String(t.clone()),
        Json::Array(items) => Value::Array(items.iter().map(to_value).collect()),
        Json::Object(members) => {
            let mut map = serde_json::Map::new();
            for (k, v) in members {
                map.insert(k.clone(), to_value(v));
            }
            Value::Object(map)
        }
    }
}

fn strings(v: &Value) -> Vec<String> {
    v.as_array().unwrap().iter().map(|x| x.as_str().unwrap().to_string()).collect()
}

#[test]
fn signals_of_a_text() {
    let out = extract_signals(&obj(vec![("text", s("Gold bullish breakout on 4H, support 2350 then 2400"))])).unwrap();
    let v = to_value(&out);
    assert_eq!(v["bias"], Value::String("bullish".to_string()));
    assert_eq!(strings(&v["timeframes"]), vec!["4h".to_string()]);
    assert_eq!(strings(&v["levels"]), vec!["2350".to_string(), "2400".to_string()]);
    assert!(strings(&v["keywords"]).contains(&"support".to_string()));
    assert_eq!(v["ok"], Value::Bool(true));
    let neutral = to_value(&extract_signals(&obj(vec![("text", s("nothing here"))])).unwrap());
    assert_eq!(neutral["bias"], Value::String("neutral".to_string()));
    let bearish = to_value(&extract_signals(&obj(vec![("text", s("bearish breakdown, go short"))])).unwrap());
    assert_eq!(bearish["bias"], Value::String("bearish".to_string()));
    assert_eq!(
        extract_signals(&obj(vec![])).unwrap_err(),
        "thiếu tham số string bắt buộc `text`".to_string()
    );
}

#[test]
fn memory_lookup_searches_context_and_turns() {
    let history = vec![ChatTurn::new("user", "Gold   price today"), ChatTurn::new("assistant", "Gold is at 2400")];
    let context = Some("  dashboard: GOLD up \n\n other line".to_string());
    let out = to_value(&memory_lookup(&obj(vec![("query", s(" gold "))]), &context, &history));
    assert_eq!(
        strings(&out["matches"]),
        vec![
            "context: dashboard: GOLD up".to_string(),
            "user: Gold price today".to_string(),
            "assistant: Gold is at 2400".to_string(),
        ]
    );
    assert_eq!(out["history_turns"], Value::Number(Number::from(2u64)));
    assert_eq!(out["has_backend_context"], Value::Bool(true));
    assert_eq!(out["query"], Value::String("gold".to_string()));
    let all = to_value(&memory_lookup(&obj(vec![]), &None, &history));
    assert_eq!(strings(&all["matches"]).len(), 2);
    assert_eq!(all["has_backend_context"], Value::Bool(false));
    let many: Vec<ChatTurn> = (0..12).map(|i| ChatTurn::new("user", &format!("turn {i}"))).collect();
    let capped = to_value(&memory_lookup(&obj(vec![("query", s("TURN"))]), &None, &many));
    assert_eq!(strings(&capped["matches"]).len(), 8);
}

#[test]
fn sources_for_a_summary() {
    assert_eq!(
        source_items(&obj(vec![("urls", arr(vec![s(" https://a.com/x "), s("")])), ("items", arr(vec![s("b")]))])),
        Ok(vec!["https://a.com/x".to_string()])
    );
    assert_eq!(source_items(&obj(vec![("items", arr(vec![s("b")]))])), Ok(vec!["b".to_string()]));
    assert_eq!(
        source_items(&obj(vec![("text", s("one\n\n  two  \n"))])),
        Ok(vec!["one".to_string(), "two".to_string()])
    );
    assert_eq!(
        source_items(&obj(vec![])),
        Err("summarize_sources cần `urls`, `items` hoặc `text`".to_string())
    );
    let items: Vec<String> = (0..12).map(|i| format!("https://site{}.com/{i}", i % 2)).collect();
    let domains: Vec<Option<String>> = (0..12).map(|i| if i == 3 { None } else { Some(format!("site{}.com", i % 2)) }).collect();
    let out = to_value(&summarize_sources_result(&items, &domains));
    assert_eq!(out["count"], Value::Number(Number::from(12u64)));
    assert_eq!(strings(&out["domains"]), vec!["site0.com".to_string(), "site1.com".to_string()]);
    assert_eq!(strings(&out["items"]).len(), 10);
}

#[test]
fn fetched_page_description() {
    let body = "<html><head><TITLE> Gold  News </TITLE></head><body><p>Price   up</p></body></html>";
    let out = to_value(&fetch_page_result("http://x", 200, "http://x/final", "text/html", body));
    assert_eq!(out["title"], Value::String("Gold News".to_string()));
    assert_eq!(out["excerpt"], Value::String("Gold News Price up".to_string()));
    assert_eq!(out["ok"], Value::Bool(true));
    assert_eq!(out["status"], Value::Number(Number::from(200u64)));
    let failed = to_value(&fetch_page_result("http://x", 404, "http://x", "", ""));
    assert_eq!(failed["ok"], Value::Bool(false));
}
