//! What the market tools ask the dashboard for and how they report what came
//! back: the news, the economic calendar and the instruments.
use vstd::prelude::*;
use crate::arguments::{as_bool, optional_bool_arg, optional_string_arg, trimmed_text};
use crate::json::{
    as_str, field, get_field, members_model, object_of, Json, JsonModel, JsonNumber,
    NumberModel,
};
use crate::text::{concat2, concat3, decimal, decimal_string, truncate_chars, truncated};

verus! {

/// Where the frontend is when the environment names no other address.
pub const DEFAULT_FRONTEND_URL: &'static str = "http://127.0.0.1:3000";

/// Where the backend is when the environment names no other address.
pub const DEFAULT_BACKEND_URL: &'static str = "http://127.0.0.1:8080";

/// How many news items are asked for: `count`, 20 by default, within 1..=50.
pub open spec fn news_count(arguments: JsonModel) -> int {
    crate::file_tools::count_arg(arguments, "count"@, 20, 1, 50)
}

/// `true` or `false`, as Rust writes a boolean.
pub open spec fn bool_text(b: bool) -> Seq<char> {
    if b {
        "true"@
    } else {
        "false"@
    }
}

/// The address that `fetch_news` asks:
/// `<frontend>/api/news?pageSize=<count>&checkImportant=<important>`.
pub open spec fn news_url(frontend: Seq<char>, arguments: JsonModel) -> Seq<char> {
    let important = match as_bool(field(arguments, "important"@)) {
        Some(b) => b,
        None => false,
    };
    frontend + "/api/news?pageSize="@ + decimal(news_count(arguments) as nat) + "&checkImportant="@
        + bool_text(important)
}

/// The address that `fetch_news` asks.
pub fn fetch_news_url(frontend_url: &str, arguments: &Json) -> (r: String)
    ensures
        r@ == news_url(frontend_url@, arguments@),
{
    let count = crate::file_tools::count_arg_exec(arguments, "count", 20, 1, 50);
    let important = match optional_bool_arg(arguments, "important") {
        Some(b) => b,
        None => false,
    };
    let mut url = concat2(frontend_url, "/api/news?pageSize=");
    let digits = decimal_string(count);
    crate::text::append_str(&mut url, digits.as_str());
    crate::text::append_str(&mut url, "&checkImportant=");
    crate::text::append_str(
        &mut url,
        if important {
            "true"
        } else {
            "false"
        },
    );
    url
}

/// A string argument given and not blank, trimmed; empty otherwise.
pub open spec fn text_or_empty(arguments: JsonModel, name: Seq<char>) -> Seq<char> {
    match trimmed_text(as_str(field(arguments, name))) {
        Some(t) => t,
        None => Seq::empty(),
    }
}

/// The address that `fetch_calendar` asks: `<frontend>/api/calendar`, with
/// `date=` and `importance=` parameters for those given.
pub open spec fn calendar_url(frontend: Seq<char>, arguments: JsonModel) -> Seq<char> {
    let date = text_or_empty(arguments, "date"@);
    let importance = text_or_empty(arguments, "importance"@);
    let base = frontend + "/api/calendar"@;
    if date.len() > 0 && importance.len() > 0 {
        base + "?date="@ + date + "&importance="@ + importance
    } else if date.len() > 0 {
        base + "?date="@ + date
    } else if importance.len() > 0 {
        base + "?importance="@ + importance
    } else {
        base
    }
}

/// The address that `fetch_calendar` asks.
pub fn fetch_calendar_url(frontend_url: &str, arguments: &Json) -> (r: String)
    ensures
        r@ == calendar_url(frontend_url@, arguments@),
{
    let date = optional_string_arg(arguments, "date");
    let importance = optional_string_arg(arguments, "importance");
    let mut url = concat2(frontend_url, "/api/calendar");
    match (&date, &importance) {
        (Some(d), Some(i)) => {
            crate::text::append_str(&mut url, "?date=");
            crate::text::append_str(&mut url, d.as_str());
            crate::text::append_str(&mut url, "&importance=");
            crate::text::append_str(&mut url, i.as_str());
        },
        (Some(d), None) => {
            crate::text::append_str(&mut url, "?date=");
            crate::text::append_str(&mut url, d.as_str());
        },
        (None, Some(i)) => {
            crate::text::append_str(&mut url, "?importance=");
            crate::text::append_str(&mut url, i.as_str());
        },
        (None, None) => {},
    }
    url
}

/// The address that `fetch_dashboard` asks: one instrument where a `symbol`
/// is given, all of them otherwise.
pub open spec fn dashboard_url(backend: Seq<char>, arguments: JsonModel) -> Seq<char> {
    match trimmed_text(as_str(field(arguments, "symbol"@))) {
        Some(s) => backend + "/api/instruments/"@ + s,
        None => backend + "/api/instruments"@,
    }
}

/// The address that `fetch_dashboard` asks.
pub fn fetch_dashboard_url(backend_url: &str, arguments: &Json) -> (r: String)
    ensures
        r@ == dashboard_url(backend_url@, arguments@),
{
    match optional_string_arg(arguments, "symbol") {
        Some(s) => concat3(backend_url, "/api/instruments/", s.as_str()),
        None => concat2(backend_url, "/api/instruments"),
    }
}

/// The error of a market tool whose request was answered with a failure:
/// `<tool> trả về status <status>: <the first 500 characters of the body>`.
pub open spec fn status_error(tool: Seq<char>, status: Seq<char>, body: Seq<char>) -> Seq<char> {
    tool + " trả về status "@ + status + ": "@ + truncated(body, 500)
}

/// The error of a market tool whose request was answered with a failure.
pub fn market_status_error(tool: &str, status: &str, body: &str) -> (r: String)
    ensures
        r@ == status_error(tool@, status@, body@),
{
    let mut message = concat3(tool, " trả về status ", status);
    crate::text::append_str(&mut message, ": ");
    let cut = truncate_chars(body, 500);
    crate::text::append_str(&mut message, cut.as_str());
    message
}

/// The list under `key` of what came back, or an empty list.
pub open spec fn list_or_empty(data: JsonModel, key: Seq<char>) -> JsonModel {
    match field(data, key) {
        Some(v) => v,
        None => JsonModel::Array(Seq::empty()),
    }
}

/// How many items a list holds; 0 for anything that is no list.
pub open spec fn list_len(v: JsonModel) -> nat {
    match v {
        JsonModel::Array(items) => items.len(),
        _ => 0,
    }
}

/// What a listing tool reports: `{"count": the number of items, <key>: the
/// items, "ok": true}`.
pub open spec fn listing_result(data: JsonModel, key: Seq<char>) -> JsonModel {
    JsonModel::Object(
        seq![
            ("count"@, JsonModel::Number(NumberModel::PosInt(list_len(list_or_empty(data, key))))),
            (key, list_or_empty(data, key)),
            ("ok"@, JsonModel::Bool(true)),
        ],
    )
}

/// What a listing tool reports of the data that came back.
fn listing_result_exec(data: &Json, key: &str) -> (r: Json)
    ensures
        r@ == listing_result(data@, key@),
{
    let items = match get_field(data, key) {
        Some(v) => v.copy(),
        None => crate::json::array_of(Vec::new()),
    };
    proof {
        assert(crate::json::items_model(Seq::<Json>::empty()) =~= Seq::<JsonModel>::empty());
    }
    let count: u64 = match &items {
        Json::Array(v) => {
            proof {
                crate::json::lemma_items_model(*v);
            }
            v.len() as u64
        },
        _ => 0,
    };
    let mut members: Vec<(String, Json)> = Vec::new();
    members.push(("count".to_string(), Json::Number(JsonNumber::PosInt(count))));
    members.push((key.to_string(), items));
    members.push(("ok".to_string(), Json::Bool(true)));
    proof {
        assert(members_model(members@) =~= listing_result(data@, key@)->Object_0);
    }
    object_of(members)
}

/// What `fetch_news` reports of the news that came back.
pub fn news_result(data: &Json) -> (r: Json)
    ensures
        r@ == listing_result(data@, "items"@),
{
    listing_result_exec(data, "items")
}

/// What `fetch_calendar` reports of the events that came back.
pub fn calendar_result(data: &Json) -> (r: Json)
    ensures
        r@ == listing_result(data@, "events"@),
{
    listing_result_exec(data, "events")
}

/// What `fetch_dashboard` reports: `{"instruments": the data, "ok": true}`.
pub fn dashboard_result(data: Json) -> (r: Json)
    ensures
        r@ == JsonModel::Object(
            seq![("instruments"@, data@), ("ok"@, JsonModel::Bool(true))],
        ),
{
    let ghost d = data@;
    let mut members: Vec<(String, Json)> = Vec::new();
    members.push(("instruments".to_string(), data));
    members.push(("ok".to_string(), Json::Bool(true)));
    proof {
        assert(members_model(members@) =~= seq![
            ("instruments"@, d),
            ("ok"@, JsonModel::Bool(true)),
        ]);
    }
    object_of(members)
}

} // verus!
