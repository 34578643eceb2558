use hybridtrade::json::{Json, JsonNumber};
use hybridtrade::skill_results::{
    skill_delete_result, skill_list_result, skill_load_result, skill_match_result,
    skill_save_result, sort_by_name, SkillListEntry, SkillMatchEntry,
};
use hybridtrade::tools::SkillMatchKind;
use serde_json::{Number, Value};

fn to_value(j: &Json) -> Value {
    match j {
        Json::Null => Value::Null,
        Json::Bool(b) => Value::Bool(*b),
        Json::Number(JsonNumber::PosInt(v)) => Value::Number(Number::from(*v)),
        Json::Number(JsonNumber::NegInt(v)) => Value::Number(Number::from(*v)),
        Json::Number(JsonNumber::Float(t)) => Value::String(t.clone()),
        Json::Str(t) => Value::String(t.clone()),
        Json::Array(items) => Value::Array(items.iter().map(to_value).collect()),
        Json::Object(members) => {
            let mut m = serde_json::Map::new();
            for (k, v) in members {
                m.insert(k.clone(), to_value(v));
            }
            Value::Object(m)
        }
    }
}

fn sv(x: &str) -> Value {
    Value::String(x.to_string())
}

fn obj(members: Vec<(&str, Value)>) -> Value {
    let mut m = serde_json::Map::new();
    for (k, v) in members {
        m.insert(k.to_string(), v);
    }
    Value::Object(m)
}

fn keys(j: &Json) -> Vec<String> {
    match j {
        Json::Object(members) => members.iter().map(|(k, _)| k.clone()).collect(),
        _ => Vec::new(),
    }
}

fn entry(name: &str, size: u64) -> SkillListEntry {
    SkillListEntry {
        name: name.to_string(),
        file: format!(".skills/learned/{name}.md"),
        size_bytes: size,
        summary: format!("about {name}"),
    }
}

#[test]
fn save_result_tells_created_from_updated() {
    let created = skill_save_result("fx-news", "/w/.skills/learned/fx-news.md", false);
    assert_eq!(
        to_value(&created),
        obj(vec![
            ("action", sv("save")),
            ("created", Value::Bool(true)),
            ("file", sv("/w/.skills/learned/fx-news.md")),
            ("message", sv("Đã tạo skill mới `fx-news`")),
            ("name", sv("fx-news")),
            ("ok", Value::Bool(true)),
        ])
    );
    let updated = skill_save_result("fx-news", "f.md", true);
    assert_eq!(to_value(&updated)["message"], sv("Đã cập nhật skill `fx-news`"));
    assert_eq!(to_value(&updated)["created"], Value::Bool(false));
    assert_eq!(keys(&updated), vec!["action", "created", "file", "message", "name", "ok"]);
}

#[test]
fn load_and_delete_results() {
    let missing = skill_load_result("gold", None);
    assert_eq!(
        to_value(&missing),
        obj(vec![
            ("action", sv("load")),
            ("found", Value::Bool(false)),
            ("message", sv("Chưa có learned skill `gold`")),
            ("name", sv("gold")),
            ("ok", Value::Bool(false)),
        ])
    );
    let found = skill_load_result("gold", Some("# Gold\nuse .price".to_string()));
    assert_eq!(to_value(&found)["content"], sv("# Gold\nuse .price"));
    assert_eq!(to_value(&found)["found"], Value::Bool(true));

    assert_eq!(
        to_value(&skill_delete_result("gold", false)),
        obj(vec![
            ("action", sv("delete")),
            ("message", sv("Không tìm thấy skill `gold` để xoá")),
            ("name", sv("gold")),
            ("ok", Value::Bool(false)),
        ])
    );
    assert_eq!(to_value(&skill_delete_result("gold", true))["message"], sv("Đã xoá skill `gold`"));
}

#[test]
fn match_result_lists_found_skills_or_hints() {
    let none = skill_match_result("https://fxstreet.com/x", &Vec::new());
    assert_eq!(to_value(&none)["found"], Value::Bool(false));
    assert_eq!(
        to_value(&none)["message"],
        sv("Chưa có learned skill phù hợp cho `https://fxstreet.com/x`. Hãy tạo skill mới sau khi xong.")
    );
    let found = vec![
        SkillMatchEntry {
            name: "fxstreet".to_string(),
            file: "a.md".to_string(),
            content: "body".to_string(),
            kind: SkillMatchKind::Name,
        },
        SkillMatchEntry {
            name: "gold".to_string(),
            file: "b.md".to_string(),
            content: "see fxstreet.com".to_string(),
            kind: SkillMatchKind::Content,
        },
    ];
    let r = to_value(&skill_match_result("https://fxstreet.com/x", &found));
    assert_eq!(r["found"], Value::Bool(true));
    assert_eq!(r["message"], sv("Tìm thấy 2 skill phù hợp. Đọc content để tái sử dụng."));
    assert_eq!(r["matches"][0]["match_type"], sv("name"));
    assert_eq!(r["matches"][1]["match_type"], sv("content"));
    assert_eq!(r["matches"][1]["name"], sv("gold"));
}

#[test]
fn listing_is_sorted_by_name_and_counted() {
    let entries = vec![entry("zeta", 3), entry("alpha", 1), entry("mid", 2), entry("alpha", 9)];
    let sorted = sort_by_name(&entries);
    let names: Vec<&str> = sorted.iter().map(|e| e.name.as_str()).collect();
    assert_eq!(names, vec!["alpha", "alpha", "mid", "zeta"]);
    assert_eq!(sorted[0].size_bytes, 1);
    assert_eq!(sorted[1].size_bytes, 9);

    let r = to_value(&skill_list_result(&entries));
    assert_eq!(r["action"], sv("list"));
    assert_eq!(r["count"], Value::Number(Number::from(4u64)));
    assert_eq!(r["skills"][0]["name"], sv("alpha"));
    assert_eq!(r["skills"][3]["name"], sv("zeta"));
    assert_eq!(r["skills"][2]["size_bytes"], Value::Number(Number::from(2u64)));
    assert_eq!(r["skills"][2]["summary"], sv("about mid"));
}
