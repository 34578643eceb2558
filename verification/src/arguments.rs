//! Reading the arguments of a tool call and rendering what a tool gave back.
use vstd::prelude::*;
use crate::json::{as_str, field, get_field, Json, JsonModel, JsonNumber, NumberModel};
use crate::text::{
    char_count, collapse_whitespace, collapse_ws, concat3, join, join_strings, string_views, trim, trim_str,
    truncate_chars, truncated,
};

verus! {

/// The most characters of a tool's output that are handed to the model.
pub const MAX_TOOL_OUTPUT_CHARS: usize = 128000;

/// The most characters of a tool's output that a preview shows.
pub const MAX_TOOL_PREVIEW_CHARS: usize = 32000;

/// A text trimmed, kept only where something is left.
pub open spec fn trimmed_text(t: Option<Seq<char>>) -> Option<Seq<char>> {
    match t {
        Some(s) => if trim(s).len() > 0 {
            Some(trim(s))
        } else {
            None
        },
        None => None,
    }
}

/// The error for a string argument that is missing or blank.
pub open spec fn missing_string_message(name: Seq<char>) -> Seq<char> {
    "thiếu tham số string bắt buộc `"@ + name + "`"@
}

/// The boolean of a value, if it is one.
pub open spec fn as_bool(j: Option<JsonModel>) -> Option<bool> {
    match j {
        Some(JsonModel::Bool(b)) => Some(b),
        _ => None,
    }
}

/// The non-negative integer of a value, as `Value::as_u64` reads it.
pub open spec fn as_u64(j: Option<JsonModel>) -> Option<nat> {
    match j {
        Some(JsonModel::Number(NumberModel::PosInt(n))) => Some(n),
        _ => None,
    }
}

/// The items of an array value; none for any other value.
pub open spec fn array_items(j: Option<JsonModel>) -> Seq<JsonModel> {
    match j {
        Some(JsonModel::Array(v)) => v,
        _ => Seq::empty(),
    }
}

/// The string items of `items`, trimmed, leaving out those that are blank.
pub open spec fn trimmed_strings(items: Seq<JsonModel>) -> Seq<Seq<char>>
    decreases items.len(),
{
    if items.len() == 0 {
        Seq::empty()
    } else {
        let rest = trimmed_strings(items.drop_last());
        match items.last() {
            JsonModel::Str(s) => if trim(s).len() > 0 {
                rest.push(trim(s))
            } else {
                rest
            },
            _ => rest,
        }
    }
}

/// The string argument `name`, trimmed; an error where it is missing, not a
/// string, or blank.
pub fn required_string_arg(arguments: &Json, name: &str) -> (r: Result<String, String>)
    ensures
        match trimmed_text(as_str(field(arguments@, name@))) {
            Some(t) => r is Ok && r->Ok_0@ == t,
            None => r is Err && r->Err_0@ == missing_string_message(name@),
        },
{
    match optional_string_arg(arguments, name) {
        Some(t) => Ok(t),
        None => Err(concat3("thiếu tham số string bắt buộc `", name, "`")),
    }
}

/// The string argument `name` as it stands; an error where it is missing or
/// not a string.
pub fn required_raw_string_arg(arguments: &Json, name: &str) -> (r: Result<String, String>)
    ensures
        match as_str(field(arguments@, name@)) {
            Some(t) => r is Ok && r->Ok_0@ == t,
            None => r is Err && r->Err_0@ == missing_string_message(name@),
        },
{
    match optional_raw_string_arg(arguments, name) {
        Some(t) => Ok(t),
        None => Err(concat3("thiếu tham số string bắt buộc `", name, "`")),
    }
}

/// The string argument `name`, trimmed, where it is a string that is not blank.
pub fn optional_string_arg(arguments: &Json, name: &str) -> (r: Option<String>)
    ensures
        match trimmed_text(as_str(field(arguments@, name@))) {
            Some(t) => r is Some && r->0@ == t,
            None => r is None,
        },
{
    match get_field(arguments, name) {
        Some(Json::Str(s)) => {
            let t = trim_str(s.as_str());
            if char_count(t.as_str()) > 0 {
                Some(t)
            } else {
                None
            }
        },
        _ => None,
    }
}

/// The string argument `name` as it stands, where it is a string.
pub fn optional_raw_string_arg(arguments: &Json, name: &str) -> (r: Option<String>)
    ensures
        match as_str(field(arguments@, name@)) {
            Some(t) => r is Some && r->0@ == t,
            None => r is None,
        },
{
    match get_field(arguments, name) {
        Some(Json::Str(s)) => Some(s.clone()),
        _ => None,
    }
}

/// The boolean argument `name`, where it is a boolean.
pub fn optional_bool_arg(arguments: &Json, name: &str) -> (r: Option<bool>)
    ensures
        r == as_bool(field(arguments@, name@)),
{
    match get_field(arguments, name) {
        Some(Json::Bool(b)) => Some(*b),
        _ => None,
    }
}

/// The non-negative integer argument `name`, where it is one.
pub fn optional_u64_arg(arguments: &Json, name: &str) -> (r: Option<u64>)
    ensures
        match r {
            Some(n) => as_u64(field(arguments@, name@)) == Some(n as nat),
            None => as_u64(field(arguments@, name@)) is None,
        },
{
    match get_field(arguments, name) {
        Some(Json::Number(JsonNumber::PosInt(n))) => Some(*n),
        _ => None,
    }
}

/// The non-negative integer argument `name`, where it is one that fits a `usize`.
pub fn optional_usize_arg(arguments: &Json, name: &str) -> (r: Option<usize>)
    ensures
        match r {
            Some(n) => as_u64(field(arguments@, name@)) == Some(n as nat),
            None => match as_u64(field(arguments@, name@)) {
                Some(n) => n > usize::MAX,
                None => true,
            },
        },
{
    match optional_u64_arg(arguments, name) {
        Some(n) => if n <= usize::MAX as u64 {
            Some(n as usize)
        } else {
            None
        },
        None => None,
    }
}

/// The string items of the array argument `name`, trimmed, leaving out the
/// blank ones and whatever is not a string.
pub fn string_array_arg(arguments: &Json, name: &str) -> (r: Vec<String>)
    ensures
        string_views(r@) == trimmed_strings(array_items(field(arguments@, name@))),
{
    let mut out: Vec<String> = Vec::new();
    match get_field(arguments, name) {
        Some(Json::Array(v)) => {
            let ghost items = Json::Array(*v)@->Array_0;
            let mut i: usize = 0;
            while i < v.len()
                invariant
                    items == Json::Array(*v)@->Array_0,
                    i <= v@.len(),
                    string_views(out@) == trimmed_strings(items.take(i as int)),
                decreases v@.len() - i,
            {
                proof {
                    assert(items.take(i + 1).drop_last() =~= items.take(i as int));
                    assert(items.take(i + 1).last() == v@[i as int]@);
                }
                match &v[i] {
                    Json::Str(s) => {
                        let t = trim_str(s.as_str());
                        if char_count(t.as_str()) > 0 {
                            out.push(t);
                            proof {
                                assert(string_views(out@) =~= trimmed_strings(
                                    items.take(i + 1),
                                ));
                            }
                        }
                    },
                    _ => {},
                }
                i = i + 1;
            }
            proof {
                assert(items.take(v@.len() as int) =~= items);
            }
        },
        _ => {
            proof {
                assert(string_views(out@) =~= Seq::empty());
            }
        },
    }
    out
}

/// The timeout that a tool call asks for by `timeout_ms`, at least one
/// millisecond and at most `max_ms`; `max_ms` where it asks for none.
pub fn resolve_requested_timeout(arguments: &Json, max_ms: u64) -> (r: u64)
    ensures
        r == match as_u64(field(arguments@, "timeout_ms"@)) {
            Some(n) => if n < 1 {
                if 1 < max_ms {
                    1
                } else {
                    max_ms as int
                }
            } else if n < max_ms {
                n as int
            } else {
                max_ms as int
            },
            None => max_ms as int,
        },
{
    match optional_u64_arg(arguments, "timeout_ms") {
        Some(n) => {
            let at_least_one: u64 = if n < 1 {
                1
            } else {
                n
            };
            if at_least_one < max_ms {
                at_least_one
            } else {
                max_ms
            }
        },
        None => max_ms,
    }
}

/// Whether a tool's output says that it failed: its `isError` flag, or else
/// its `is_error` flag, or else not.
pub open spec fn output_is_error(j: JsonModel) -> bool {
    match as_bool(field(j, "isError"@)) {
        Some(b) => b,
        None => match as_bool(field(j, "is_error"@)) {
            Some(b) => b,
            None => false,
        },
    }
}

/// The `text` of each item that has one, in order.
pub open spec fn item_texts(items: Seq<JsonModel>) -> Seq<Seq<char>>
    decreases items.len(),
{
    if items.len() == 0 {
        Seq::empty()
    } else {
        let rest = item_texts(items.drop_last());
        match as_str(field(items.last(), "text"@)) {
            Some(t) => rest.push(t),
            None => rest,
        }
    }
}

/// The text of a tool's result: its own `text` where that is not blank, else
/// the `text` of the items of its `content`, one per line, where that is not
/// blank.
pub open spec fn result_text(j: JsonModel) -> Option<Seq<char>> {
    let own = as_str(field(j, "text"@));
    if own is Some && trim(own->0).len() > 0 {
        own
    } else {
        match field(j, "content"@) {
            Some(JsonModel::Array(items)) => {
                let text = join(item_texts(items), "\n"@);
                if trim(text).len() > 0 {
                    Some(text)
                } else {
                    None
                }
            },
            _ => None,
        }
    }
}

/// What the model is shown of a tool's output: a string as it stands, else the
/// text of the result with its whitespace collapsed, else the output's JSON
/// text; each cut to `MAX_TOOL_OUTPUT_CHARS` characters.
pub open spec fn rendered_output(j: JsonModel, serialized: Seq<char>) -> Seq<char> {
    match j {
        JsonModel::Str(t) => truncated(t, MAX_TOOL_OUTPUT_CHARS as int),
        _ => match result_text(j) {
            Some(t) => truncated(collapse_ws(t), MAX_TOOL_OUTPUT_CHARS as int),
            None => truncated(serialized, MAX_TOOL_OUTPUT_CHARS as int),
        },
    }
}

/// Whether a tool's output reports an error.
pub fn tool_output_is_error(value: &Json) -> (r: bool)
    ensures
        r == output_is_error(value@),
{
    match get_field(value, "isError") {
        Some(Json::Bool(b)) => *b,
        _ => match get_field(value, "is_error") {
            Some(Json::Bool(b)) => *b,
            _ => false,
        },
    }
}

/// The text that a tool's result carries, if any.
pub fn extract_text_from_tool_result(value: &Json) -> (r: Option<String>)
    ensures
        match result_text(value@) {
            Some(t) => r is Some && r->0@ == t,
            None => r is None,
        },
{
    match get_field(value, "text") {
        Some(Json::Str(t)) => {
            let trimmed = trim_str(t.as_str());
            if char_count(trimmed.as_str()) > 0 {
                return Some(t.clone());
            }
        },
        _ => {},
    }
    match get_field(value, "content") {
        Some(Json::Array(items)) => {
            let ghost model_items = Json::Array(*items)@->Array_0;
            let mut texts: Vec<String> = Vec::new();
            let mut i: usize = 0;
            while i < items.len()
                invariant
                    model_items == Json::Array(*items)@->Array_0,
                    i <= items@.len(),
                    string_views(texts@) == item_texts(model_items.take(i as int)),
                decreases items@.len() - i,
            {
                proof {
                    assert(model_items.take(i + 1).drop_last() =~= model_items.take(i as int));
                    assert(model_items.take(i + 1).last() == items@[i as int]@);
                }
                match get_field(&items[i], "text") {
                    Some(Json::Str(t)) => {
                        texts.push(t.clone());
                        proof {
                            assert(string_views(texts@) =~= item_texts(model_items.take(i + 1)));
                        }
                    },
                    _ => {},
                }
                i = i + 1;
            }
            proof {
                assert(model_items.take(items@.len() as int) =~= model_items);
            }
            let text = join_strings(&texts, "\n");
            let trimmed = trim_str(text.as_str());
            if char_count(trimmed.as_str()) > 0 {
                Some(text)
            } else {
                None
            }
        },
        _ => None,
    }
}

/// The text that the model is shown of a tool's output. `serialized` is the
/// output's JSON text, which stands where nothing else does.
pub fn render_tool_output_for_model(value: &Json, serialized: &str) -> (r: String)
    ensures
        r@ == rendered_output(value@, serialized@),
{
    match value {
        Json::Str(t) => truncate_chars(t.as_str(), MAX_TOOL_OUTPUT_CHARS),
        _ => match extract_text_from_tool_result(value) {
            Some(t) => {
                let collapsed = collapse_whitespace(t.as_str());
                truncate_chars(collapsed.as_str(), MAX_TOOL_OUTPUT_CHARS)
            },
            None => truncate_chars(serialized, MAX_TOOL_OUTPUT_CHARS),
        },
    }
}

/// The arguments of a tool call as the runtime hands them on: a missing value
/// (`null`) becomes an empty object, at every depth.
pub open spec fn sanitized(j: JsonModel) -> JsonModel
    decreases j,
{
    match j {
        JsonModel::Null => JsonModel::Object(Seq::empty()),
        JsonModel::Array(v) => JsonModel::Array(
            Seq::new(
                v.len(),
                |i: int|
                    if 0 <= i < v.len() {
                        sanitized(v[i])
                    } else {
                        JsonModel::Null
                    },
            ),
        ),
        JsonModel::Object(m) => JsonModel::Object(
            Seq::new(
                m.len(),
                |i: int|
                    if 0 <= i < m.len() {
                        (m[i].0, sanitized(m[i].1))
                    } else {
                        (Seq::empty(), JsonModel::Null)
                    },
            ),
        ),
        other => other,
    }
}

/// Whether a value holds `null` anywhere.
pub open spec fn has_null(j: JsonModel) -> bool
    decreases j,
{
    match j {
        JsonModel::Null => true,
        JsonModel::Array(v) => exists|i: int| 0 <= i < v.len() && #[trigger] has_null(v[i]),
        JsonModel::Object(m) => exists|i: int| 0 <= i < m.len() && #[trigger] has_null(m[i].1),
        _ => false,
    }
}

/// The arguments with every `null` replaced, as `sanitized` says. Members
/// and items whose new value is `null` are left out; none is.
fn sanitized_copy(value: &Json) -> (r: Json)
    ensures
        r@ == sanitized(value@),
    decreases value,
{
    match value {
        Json::Null => {
            let r = Json::Object(Vec::new());
            proof {
                assert(r@->Object_0 =~= Seq::empty());
            }
            r
        },
        Json::Array(v) => {
            let ghost items = value@->Array_0;
            let mut out: Vec<Json> = Vec::new();
            let mut i: usize = 0;
            while i < v.len()
                invariant
                    *value == Json::Array(*v),
                    items == value@->Array_0,
                    i <= v@.len(),
                    out@.len() == i,
                    forall|k: int| 0 <= k < i ==> (#[trigger] out@[k])@ == sanitized(items[k]),
                decreases v@.len() - i,
            {
                proof {
                    vstd::std_specs::vec::axiom_vec_index_decreases(*v, i as int);
                    assert(decreases_to!(*value => (*value)->Array_0));
                }
                let item = sanitized_copy(&v[i]);
                if !item.is_null() {
                    out.push(item);
                }
                i = i + 1;
            }
            let r = Json::Array(out);
            proof {
                assert(r@->Array_0 =~= sanitized(value@)->Array_0);
            }
            r
        },
        Json::Object(m) => {
            let ghost members = value@->Object_0;
            let mut out: Vec<(String, Json)> = Vec::new();
            let mut i: usize = 0;
            while i < m.len()
                invariant
                    *value == Json::Object(*m),
                    members == value@->Object_0,
                    i <= m@.len(),
                    out@.len() == i,
                    forall|k: int|
                        0 <= k < i ==> (#[trigger] out@[k]).0@ == members[k].0 && out@[k].1@
                            == sanitized(members[k].1),
                decreases m@.len() - i,
            {
                proof {
                    vstd::std_specs::vec::axiom_vec_index_decreases(*m, i as int);
                    assert(decreases_to!(*value => (*value)->Object_0));
                    assert(decreases_to!(m@[i as int] => m@[i as int].1));
                }
                let item = sanitized_copy(&m[i].1);
                if !item.is_null() {
                    out.push((m[i].0.clone(), item));
                }
                i = i + 1;
            }
            let r = Json::Object(out);
            proof {
                assert(r@->Object_0 =~= sanitized(value@)->Object_0);
            }
            r
        },
        _ => value.copy(),
    }
}

/// The arguments of a tool call with every `null` replaced by an empty object.
pub fn sanitize_tool_arguments(value: Json) -> (r: Json)
    ensures
        r@ == sanitized(value@),
{
    sanitized_copy(&value)
}

/// Sanitized arguments hold no `null`.
pub proof fn law_sanitized_has_no_null(j: JsonModel)
    ensures
        !has_null(sanitized(j)),
    decreases j,
{
    match j {
        JsonModel::Array(v) => {
            assert forall|i: int| 0 <= i < v.len() implies !has_null(
                #[trigger] sanitized(j)->Array_0[i],
            ) by {
                law_sanitized_has_no_null(v[i]);
            }
        },
        JsonModel::Object(m) => {
            assert forall|i: int| 0 <= i < m.len() implies !has_null(
                #[trigger] sanitized(j)->Object_0[i].1,
            ) by {
                law_sanitized_has_no_null(m[i].1);
            }
        },
        _ => {},
    }
}

/// Sanitizing twice gives what sanitizing once gives.
pub proof fn law_sanitize_idempotent(j: JsonModel)
    ensures
        sanitized(sanitized(j)) == sanitized(j),
    decreases j,
{
    match j {
        JsonModel::Array(v) => {
            let once = sanitized(j)->Array_0;
            let twice = sanitized(sanitized(j))->Array_0;
            assert forall|i: int| 0 <= i < v.len() implies #[trigger] twice[i] == once[i] by {
                law_sanitize_idempotent(v[i]);
            }
            assert(twice =~= once);
            assert(sanitized(j) == JsonModel::Array(once));
            assert(sanitized(sanitized(j)) == JsonModel::Array(twice));
        },
        JsonModel::Object(m) => {
            assert forall|i: int| 0 <= i < m.len() implies sanitized(sanitized(m[i].1))
                == sanitized(m[i].1) by {
                law_sanitize_idempotent(m[i].1);
            }
            assert(sanitized(sanitized(j))->Object_0 =~= sanitized(j)->Object_0);
        },
        JsonModel::Null => {
            assert(sanitized(sanitized(j))->Object_0 =~= Seq::empty());
        },
        _ => {},
    }
}

} // verus!
