//! What the provider protocols send and read back: the function calls and tool
//! uses that a reply asks for, the text that it carries, and the entries that
//! a conversation with tools grows by.
use vstd::prelude::*;
use crate::arguments::array_items;
use crate::json::{array_of, as_str, field, get_field, items_model, members_model, object_of, string_value, Json, JsonModel};
use crate::agents::ChatTurn;
use crate::config::ProviderConfig;

use crate::registry::ToolDefinition;
use crate::schema::{normalize_openai_tool_schema, normalized};
use crate::text::{ascii_lower, char_count, str_eq, to_ascii_lowercase, trim, trim_str};

verus! {

/// A function call that an OpenAI reply asks for.
#[derive(Debug)]
pub struct OpenAiFunctionCall {
    pub name: String,
    pub call_id: String,
    pub arguments: String,
}

/// A tool use that an Anthropic reply asks for.
#[derive(Debug)]
pub struct AnthropicToolUse {
    pub id: String,
    pub name: String,
    pub input: Json,
}

/// The call that an item of an OpenAI reply's `output` asks for: one of type
/// `function_call` with a string `name` and `call_id`; its `arguments` where
/// they are a string, else `{}`.
pub open spec fn function_call_of(item: JsonModel) -> Option<(Seq<char>, Seq<char>, Seq<char>)> {
    if as_str(field(item, "type"@)) == Some("function_call"@) && as_str(field(item, "name"@)) is Some
        && as_str(field(item, "call_id"@)) is Some {
        Some(
            (
                as_str(field(item, "name"@))->0,
                as_str(field(item, "call_id"@))->0,
                match as_str(field(item, "arguments"@)) {
                    Some(a) => a,
                    None => "{}"@,
                },
            ),
        )
    } else {
        None
    }
}

/// The calls that the items ask for, in order.
pub open spec fn function_calls(items: Seq<JsonModel>) -> Seq<(Seq<char>, Seq<char>, Seq<char>)>
    decreases items.len(),
{
    if items.len() == 0 {
        Seq::empty()
    } else {
        let rest = function_calls(items.drop_last());
        match function_call_of(items.last()) {
            Some(c) => rest.push(c),
            None => rest,
        }
    }
}

/// The name, call id and arguments of each call.
pub open spec fn calls_model(calls: Seq<OpenAiFunctionCall>) -> Seq<(Seq<char>, Seq<char>, Seq<char>)> {
    Seq::new(calls.len(), |i: int| (calls[i].name@, calls[i].call_id@, calls[i].arguments@))
}

/// The tool use that an item of an Anthropic reply's `content` asks for: one
/// of type `tool_use` with a string `id` and `name`; its `input`, else `{}`.
pub open spec fn tool_use_of(item: JsonModel) -> Option<(Seq<char>, Seq<char>, JsonModel)> {
    if as_str(field(item, "type"@)) == Some("tool_use"@) && as_str(field(item, "id"@)) is Some
        && as_str(field(item, "name"@)) is Some {
        Some(
            (
                as_str(field(item, "id"@))->0,
                as_str(field(item, "name"@))->0,
                match field(item, "input"@) {
                    Some(v) => v,
                    None => JsonModel::Object(Seq::empty()),
                },
            ),
        )
    } else {
        None
    }
}

/// The tool uses that the items ask for, in order.
pub open spec fn tool_uses(items: Seq<JsonModel>) -> Seq<(Seq<char>, Seq<char>, JsonModel)>
    decreases items.len(),
{
    if items.len() == 0 {
        Seq::empty()
    } else {
        let rest = tool_uses(items.drop_last());
        match tool_use_of(items.last()) {
            Some(u) => rest.push(u),
            None => rest,
        }
    }
}

/// The id, name and input of each tool use.
pub open spec fn uses_model(uses: Seq<AnthropicToolUse>) -> Seq<(Seq<char>, Seq<char>, JsonModel)> {
    Seq::new(uses.len(), |i: int| (uses[i].id@, uses[i].name@, uses[i].input@))
}

/// The text of a string member `key` of an item, if it has one.
fn string_member(item: &Json, key: &str) -> (r: Option<String>)
    ensures
        match as_str(field(item@, key@)) {
            Some(t) => r is Some && r->0@ == t,
            None => r is None,
        },
{
    match get_field(item, key) {
        Some(Json::Str(s)) => Some(s.clone()),
        _ => None,
    }
}

/// Whether the member `key` of an item is the string `expected`.
fn member_is(item: &Json, key: &str, expected: &str) -> (r: bool)
    ensures
        r == (as_str(field(item@, key@)) == Some(expected@)),
{
    match get_field(item, key) {
        Some(Json::Str(s)) => str_eq(s.as_str(), expected),
        _ => false,
    }
}

/// The function calls that an OpenAI reply asks for.
pub fn extract_openai_function_calls(payload: &Json) -> (r: Vec<OpenAiFunctionCall>)
    ensures
        calls_model(r@) == function_calls(array_items(field(payload@, "output"@))),
{
    let mut out: Vec<OpenAiFunctionCall> = Vec::new();
    match get_field(payload, "output") {
        Some(Json::Array(items)) => {
            let ghost model = Json::Array(*items)@->Array_0;
            let mut i: usize = 0;
            while i < items.len()
                invariant
                    model == Json::Array(*items)@->Array_0,
                    i <= items@.len(),
                    calls_model(out@) == function_calls(model.take(i as int)),
                decreases items@.len() - i,
            {
                proof {
                    assert(model.take(i + 1).drop_last() =~= model.take(i as int));
                    assert(model.take(i + 1).last() == items@[i as int]@);
                }
                let item = &items[i];
                if member_is(item, "type", "function_call") {
                    match (string_member(item, "name"), string_member(item, "call_id")) {
                        (Some(name), Some(call_id)) => {
                            let arguments = match string_member(item, "arguments") {
                                Some(a) => a,
                                None => "{}".to_string(),
                            };
                            let ghost before = calls_model(out@);
                            out.push(OpenAiFunctionCall { name, call_id, arguments });
                            proof {
                                assert(calls_model(out@) =~= before.push(
                                    function_call_of(items@[i as int]@)->0,
                                ));
                            }
                        },
                        _ => {},
                    }
                }
                i = i + 1;
            }
            proof {
                assert(model.take(items@.len() as int) =~= model);
            }
        },
        _ => {
            proof {
                assert(calls_model(out@) =~= Seq::empty());
            }
        },
    }
    out
}

/// The tool uses that an Anthropic reply asks for.
pub fn extract_anthropic_tool_uses(payload: &Json) -> (r: Vec<AnthropicToolUse>)
    ensures
        uses_model(r@) == tool_uses(array_items(field(payload@, "content"@))),
{
    let mut out: Vec<AnthropicToolUse> = Vec::new();
    match get_field(payload, "content") {
        Some(Json::Array(items)) => {
            let ghost model = Json::Array(*items)@->Array_0;
            let mut i: usize = 0;
            while i < items.len()
                invariant
                    model == Json::Array(*items)@->Array_0,
                    i <= items@.len(),
                    uses_model(out@) == tool_uses(model.take(i as int)),
                decreases items@.len() - i,
            {
                proof {
                    assert(model.take(i + 1).drop_last() =~= model.take(i as int));
                    assert(model.take(i + 1).last() == items@[i as int]@);
                }
                let item = &items[i];
                if member_is(item, "type", "tool_use") {
                    match (string_member(item, "id"), string_member(item, "name")) {
                        (Some(id), Some(name)) => {
                            let input = match get_field(item, "input") {
                                Some(v) => v.copy(),
                                None => object_of(Vec::new()),
                            };
                            proof {
                                assert(members_model(Seq::<(String, Json)>::empty()) =~= Seq::empty());
                            }
                            let ghost before = uses_model(out@);
                            out.push(AnthropicToolUse { id, name, input });
                            proof {
                                assert(uses_model(out@) =~= before.push(
                                    tool_use_of(items@[i as int]@)->0,
                                ));
                            }
                        },
                        _ => {},
                    }
                }
                i = i + 1;
            }
            proof {
                assert(model.take(items@.len() as int) =~= model);
            }
        },
        _ => {
            proof {
                assert(uses_model(out@) =~= Seq::empty());
            }
        },
    }
    out
}

/// The `text` of each item that has one, run together.
pub open spec fn joined_texts(items: Seq<JsonModel>) -> Seq<char>
    decreases items.len(),
{
    if items.len() == 0 {
        Seq::empty()
    } else {
        joined_texts(items.drop_last()) + match as_str(field(items.last(), "text"@)) {
            Some(t) => t,
            None => Seq::empty(),
        }
    }
}

/// The texts of the `content` of each output item, run together.
pub open spec fn output_texts(items: Seq<JsonModel>) -> Seq<char>
    decreases items.len(),
{
    if items.len() == 0 {
        Seq::empty()
    } else {
        output_texts(items.drop_last()) + joined_texts(
            array_items(field(items.last(), "content"@)),
        )
    }
}

/// The text of an OpenAI Responses reply: its `output_text` where that is not
/// blank, else the texts of its `output`, where they are not empty.
pub open spec fn responses_content(j: JsonModel) -> Option<Seq<char>> {
    let own = as_str(field(j, "output_text"@));
    if own is Some && trim(own->0).len() > 0 {
        own
    } else {
        match field(j, "output"@) {
            Some(JsonModel::Array(items)) => if output_texts(items).len() > 0 {
                Some(output_texts(items))
            } else {
                None
            },
            _ => None,
        }
    }
}

/// The text of an Anthropic reply: the texts of its `content`, where they are
/// not empty.
pub open spec fn anthropic_content(j: JsonModel) -> Option<Seq<char>> {
    match field(j, "content"@) {
        Some(JsonModel::Array(items)) => if joined_texts(items).len() > 0 {
            Some(joined_texts(items))
        } else {
            None
        },
        _ => None,
    }
}

/// The texts of the items that have one, run together.
fn join_item_texts(items: &Vec<Json>) -> (r: String)
    ensures
        r@ == joined_texts(Json::Array(*items)@->Array_0),
{
    let ghost model = Json::Array(*items)@->Array_0;
    let mut out = String::new();
    let mut i: usize = 0;
    while i < items.len()
        invariant
            model == Json::Array(*items)@->Array_0,
            i <= items@.len(),
            out@ == joined_texts(model.take(i as int)),
        decreases items@.len() - i,
    {
        proof {
            assert(model.take(i + 1).drop_last() =~= model.take(i as int));
            assert(model.take(i + 1).last() == items@[i as int]@);
        }
        match get_field(&items[i], "text") {
            Some(Json::Str(t)) => {
                crate::text::append_str(&mut out, t.as_str());
            },
            _ => {
                proof {
                    assert(out@ =~= out@ + Seq::<char>::empty());
                }
            },
        }
        i = i + 1;
    }
    proof {
        assert(model.take(items@.len() as int) =~= model);
    }
    out
}

/// The text of an OpenAI Responses reply, if it carries any.
pub fn extract_openai_responses_content(payload: &Json) -> (r: Option<String>)
    ensures
        match responses_content(payload@) {
            Some(t) => r is Some && r->0@ == t,
            None => r is None,
        },
{
    match get_field(payload, "output_text") {
        Some(Json::Str(t)) => {
            let trimmed = trim_str(t.as_str());
            if char_count(trimmed.as_str()) > 0 {
                return Some(t.clone());
            }
        },
        _ => {},
    }
    match get_field(payload, "output") {
        Some(Json::Array(items)) => {
            let ghost model = Json::Array(*items)@->Array_0;
            let mut out = String::new();
            let mut i: usize = 0;
            while i < items.len()
                invariant
                    model == Json::Array(*items)@->Array_0,
                    i <= items@.len(),
                    out@ == output_texts(model.take(i as int)),
                decreases items@.len() - i,
            {
                proof {
                    assert(model.take(i + 1).drop_last() =~= model.take(i as int));
                    assert(model.take(i + 1).last() == items@[i as int]@);
                }
                match get_field(&items[i], "content") {
                    Some(Json::Array(content)) => {
                        let part = join_item_texts(content);
                        crate::text::append_str(&mut out, part.as_str());
                    },
                    _ => {
                        proof {
                            assert(joined_texts(Seq::<JsonModel>::empty()) =~= Seq::<char>::empty());
                            assert(out@ =~= out@ + Seq::<char>::empty());
                        }
                    },
                }
                i = i + 1;
            }
            proof {
                assert(model.take(items@.len() as int) =~= model);
            }
            if char_count(out.as_str()) > 0 {
                Some(out)
            } else {
                None
            }
        },
        _ => None,
    }
}

/// The text of an Anthropic reply, if it carries any.
pub fn extract_anthropic_content(payload: &Json) -> (r: Option<String>)
    ensures
        match anthropic_content(payload@) {
            Some(t) => r is Some && r->0@ == t,
            None => r is None,
        },
{
    match get_field(payload, "content") {
        Some(Json::Array(items)) => {
            let text = join_item_texts(items);
            if char_count(text.as_str()) > 0 {
                Some(text)
            } else {
                None
            }
        },
        _ => None,
    }
}

/// The content type of a message of the given role: the model's own words are
/// output, everything else is input.
pub open spec fn content_type(role: Seq<char>) -> Seq<char> {
    if ascii_lower(role) == "assistant"@ {
        "output_text"@
    } else {
        "input_text"@
    }
}

/// A text part of a message: `{"text": text, "type": kind}`.
pub open spec fn text_part(kind: Seq<char>, text: Seq<char>) -> JsonModel {
    JsonModel::Object(seq![("text"@, JsonModel::Str(text)), ("type"@, JsonModel::Str(kind))])
}

/// An input message of the Responses API:
/// `{"content": [{"text": text, "type": content_type}], "role": role, "type": "message"}`.
pub open spec fn response_input(role: Seq<char>, text: Seq<char>) -> JsonModel {
    JsonModel::Object(
        seq![
            ("content"@, JsonModel::Array(seq![text_part(content_type(role), text)])),
            ("role"@, JsonModel::Str(role)),
            ("type"@, JsonModel::Str("message"@)),
        ],
    )
}

/// A message of the Anthropic API: `{"content": [{"text": text, "type": "text"}], "role": role}`.
pub open spec fn anthropic_message(role: Seq<char>, text: Seq<char>) -> JsonModel {
    JsonModel::Object(
        seq![
            ("content"@, JsonModel::Array(seq![text_part("text"@, text)])),
            ("role"@, JsonModel::Str(role)),
        ],
    )
}

/// `{"text": text, "type": kind}` as a value.
fn text_part_value(kind: &str, text: &str) -> (r: Json)
    ensures
        r@ == text_part(kind@, text@),
{
    let mut members: Vec<(String, Json)> = Vec::new();
    members.push(("text".to_string(), string_value(text)));
    members.push(("type".to_string(), string_value(kind)));
    let r = object_of(members);
    proof {
        assert(members_model(members@) =~= seq![
            ("text"@, JsonModel::Str(text@)),
            ("type"@, JsonModel::Str(kind@)),
        ]);
    }
    r
}

/// `[{"text": text, "type": kind}]` as a value.
fn text_parts_value(kind: &str, text: &str) -> (r: Json)
    ensures
        r@ == JsonModel::Array(seq![text_part(kind@, text@)]),
{
    let mut items: Vec<Json> = Vec::new();
    items.push(text_part_value(kind, text));
    let r = array_of(items);
    proof {
        assert(items_model(items@) =~= seq![text_part(kind@, text@)]);
    }
    r
}

/// The input message of the Responses API for a turn of the given role.
pub fn openai_response_input(role: &str, text: &str) -> (r: Json)
    ensures
        r@ == response_input(role@, text@),
{
    let lowered = to_ascii_lowercase(role);
    let kind = if str_eq(lowered.as_str(), "assistant") {
        "output_text"
    } else {
        "input_text"
    };
    let mut members: Vec<(String, Json)> = Vec::new();
    members.push(("content".to_string(), text_parts_value(kind, text)));
    members.push(("role".to_string(), string_value(role)));
    members.push(("type".to_string(), string_value("message")));
    let r = object_of(members);
    proof {
        assert(members_model(members@) =~= response_input(role@, text@)->Object_0);
    }
    r
}

/// The Anthropic message for a turn of the history.
pub fn anthropic_message_from_turn(turn: &ChatTurn) -> (r: Json)
    ensures
        r@ == anthropic_message(turn.role@, turn.content@),
{
    let mut members: Vec<(String, Json)> = Vec::new();
    members.push(("content".to_string(), text_parts_value("text", turn.content.as_str())));
    members.push(("role".to_string(), string_value(turn.role.as_str())));
    let r = object_of(members);
    proof {
        assert(members_model(members@) =~= anthropic_message(turn.role@, turn.content@)->Object_0);
    }
    r
}

/// How the OpenAI protocol is told of a tool:
/// `{"description", "name", "parameters": the normalized schema, "strict": true, "type": "function"}`.
pub open spec fn openai_tool_spec(d: ToolDefinition) -> JsonModel {
    JsonModel::Object(
        seq![
            ("description"@, JsonModel::Str(d.description@)),
            ("name"@, JsonModel::Str(d.name@)),
            ("parameters"@, normalized(d.input_schema@)),
            ("strict"@, JsonModel::Bool(true)),
            ("type"@, JsonModel::Str("function"@)),
        ],
    )
}

/// How the Anthropic protocol is told of a tool:
/// `{"description", "input_schema": the schema, "name"}`.
pub open spec fn anthropic_tool_spec(d: ToolDefinition) -> JsonModel {
    JsonModel::Object(
        seq![
            ("description"@, JsonModel::Str(d.description@)),
            ("input_schema"@, d.input_schema@),
            ("name"@, JsonModel::Str(d.name@)),
        ],
    )
}

/// The OpenAI tool specs of the definitions, in order.
pub fn openai_tool_specs(definitions: &Vec<ToolDefinition>) -> (r: Vec<Json>)
    ensures
        items_model(r@) == Seq::new(definitions@.len(), |i: int| openai_tool_spec(definitions@[i])),
{
    let mut out: Vec<Json> = Vec::new();
    let mut i: usize = 0;
    while i < definitions.len()
        invariant
            i <= definitions@.len(),
            out@.len() == i,
            forall|k: int| 0 <= k < i ==> (#[trigger] out@[k])@ == openai_tool_spec(definitions@[k]),
        decreases definitions@.len() - i,
    {
        let d = &definitions[i];
        let mut members: Vec<(String, Json)> = Vec::new();
        members.push(("description".to_string(), string_value(d.description.as_str())));
        members.push(("name".to_string(), string_value(d.name.as_str())));
        members.push(("parameters".to_string(), normalize_openai_tool_schema(&d.input_schema)));
        members.push(("strict".to_string(), Json::Bool(true)));
        members.push(("type".to_string(), string_value("function")));
        proof {
            assert(members_model(members@) =~= openai_tool_spec(*d)->Object_0);
        }
        out.push(object_of(members));
        i = i + 1;
    }
    proof {
        assert(items_model(out@) =~= Seq::new(
            definitions@.len(),
            |i: int| openai_tool_spec(definitions@[i]),
        ));
    }
    out
}

/// The Anthropic tool specs of the definitions, in order.
pub fn anthropic_tool_specs(definitions: &Vec<ToolDefinition>) -> (r: Vec<Json>)
    ensures
        items_model(r@) == Seq::new(
            definitions@.len(),
            |i: int| anthropic_tool_spec(definitions@[i]),
        ),
{
    let mut out: Vec<Json> = Vec::new();
    let mut i: usize = 0;
    while i < definitions.len()
        invariant
            i <= definitions@.len(),
            out@.len() == i,
            forall|k: int|
                0 <= k < i ==> (#[trigger] out@[k])@ == anthropic_tool_spec(definitions@[k]),
        decreases definitions@.len() - i,
    {
        let d = &definitions[i];
        let mut members: Vec<(String, Json)> = Vec::new();
        members.push(("description".to_string(), string_value(d.description.as_str())));
        members.push(("input_schema".to_string(), d.input_schema.copy()));
        members.push(("name".to_string(), string_value(d.name.as_str())));
        proof {
            assert(members_model(members@) =~= anthropic_tool_spec(*d)->Object_0);
        }
        out.push(object_of(members));
        i = i + 1;
    }
    proof {
        assert(items_model(out@) =~= Seq::new(
            definitions@.len(),
            |i: int| anthropic_tool_spec(definitions@[i]),
        ));
    }
    out
}

/// What the tool loop does after a reply: answer with its text, fail, or run
/// the tools that it asks for.
#[derive(Debug)]
pub enum OpenAiStep {
    Reply(String),
    Failed(String),
    CallTools(Vec<OpenAiFunctionCall>),
}

/// What the tool loop does after a reply: answer with its text, fail, or run
/// the tools that it asks for.
#[derive(Debug)]
pub enum AnthropicStep {
    Reply(String),
    Failed(String),
    CallTools(Vec<AnthropicToolUse>),
}

/// The input entry that records a function call:
/// `{"arguments", "call_id", "name", "type": "function_call"}`.
pub open spec fn function_call_entry(c: (Seq<char>, Seq<char>, Seq<char>)) -> JsonModel {
    JsonModel::Object(
        seq![
            ("arguments"@, JsonModel::Str(c.2)),
            ("call_id"@, JsonModel::Str(c.1)),
            ("name"@, JsonModel::Str(c.0)),
            ("type"@, JsonModel::Str("function_call"@)),
        ],
    )
}

/// The input entry that hands a tool's output back:
/// `{"call_id", "output", "type": "function_call_output"}`.
pub open spec fn function_output_entry(call_id: Seq<char>, output: Seq<char>) -> JsonModel {
    JsonModel::Object(
        seq![
            ("call_id"@, JsonModel::Str(call_id)),
            ("output"@, JsonModel::Str(output)),
            ("type"@, JsonModel::Str("function_call_output"@)),
        ],
    )
}

/// The result of a tool use:
/// `{"content": [{"text": output, "type": "text"}], "tool_use_id": id, "type": "tool_result"}`.
pub open spec fn tool_result_entry(id: Seq<char>, output: Seq<char>) -> JsonModel {
    JsonModel::Object(
        seq![
            ("content"@, JsonModel::Array(seq![text_part("text"@, output)])),
            ("tool_use_id"@, JsonModel::Str(id)),
            ("type"@, JsonModel::Str("tool_result"@)),
        ],
    )
}

/// The error when an OpenAI reply carries neither calls nor text.
pub open spec fn openai_empty_reply_message() -> Seq<char> {
    "phản hồi OpenAI Responses API không có nội dung"@
}

/// The error when an Anthropic reply carries neither tool uses nor text.
pub open spec fn anthropic_empty_reply_message() -> Seq<char> {
    "phản hồi Anthropic không có nội dung assistant"@
}

/// The first input of the Responses API: the system prompt, the history, and
/// the user's message.
pub fn openai_initial_input(system_prompt: &str, history: &Vec<ChatTurn>, message: &str) -> (r: Vec<Json>)
    ensures
        items_model(r@) == seq![response_input("system"@, system_prompt@)] + Seq::new(
            history@.len(),
            |i: int| response_input(history@[i].role@, history@[i].content@),
        ) + seq![response_input("user"@, message@)],
{
    let mut input: Vec<Json> = Vec::new();
    input.push(openai_response_input("system", system_prompt));
    let mut i: usize = 0;
    while i < history.len()
        invariant
            i <= history@.len(),
            input@.len() == i + 1,
            input@[0]@ == response_input("system"@, system_prompt@),
            forall|k: int|
                0 <= k < i ==> (#[trigger] input@[k + 1])@ == response_input(
                    history@[k].role@,
                    history@[k].content@,
                ),
        decreases history@.len() - i,
    {
        input.push(openai_response_input(history[i].role.as_str(), history[i].content.as_str()));
        i = i + 1;
    }
    input.push(openai_response_input("user", message));
    proof {
        let expected = seq![response_input("system"@, system_prompt@)] + Seq::new(
            history@.len(),
            |i: int| response_input(history@[i].role@, history@[i].content@),
        ) + seq![response_input("user"@, message@)];
        assert forall|k: int| 0 <= k < expected.len() implies #[trigger] items_model(input@)[k]
            == expected[k] by {
            if 1 <= k <= history@.len() {
                assert(input@[(k - 1) + 1]@ == response_input(
                    history@[k - 1].role@,
                    history@[k - 1].content@,
                ));
            }
        }
        assert(items_model(input@) =~= expected);
    }
    input
}

/// The first messages of the Anthropic API: the history and the user's message.
pub fn anthropic_initial_messages(history: &Vec<ChatTurn>, message: &str) -> (r: Vec<Json>)
    ensures
        items_model(r@) == Seq::new(
            history@.len(),
            |i: int| anthropic_message(history@[i].role@, history@[i].content@),
        ).push(anthropic_message("user"@, message@)),
{
    let mut messages: Vec<Json> = Vec::new();
    let mut i: usize = 0;
    while i < history.len()
        invariant
            i <= history@.len(),
            messages@.len() == i,
            forall|k: int|
                0 <= k < i ==> (#[trigger] messages@[k])@ == anthropic_message(
                    history@[k].role@,
                    history@[k].content@,
                ),
        decreases history@.len() - i,
    {
        messages.push(anthropic_message_from_turn(&history[i]));
        i = i + 1;
    }
    let user = ChatTurn::new("user", message);
    messages.push(anthropic_message_from_turn(&user));
    proof {
        assert(items_model(messages@) =~= Seq::new(
            history@.len(),
            |i: int| anthropic_message(history@[i].role@, history@[i].content@),
        ).push(anthropic_message("user"@, message@)));
    }
    messages
}

/// The model for the calls after the first: the light model where one is set.
pub open spec fn tool_model_of(config: ProviderConfig) -> Seq<char> {
    if trim(config.light_model@).len() == 0 {
        config.model@
    } else {
        config.light_model@
    }
}

/// The model of a call of the Anthropic tool loop: the main model first, the
/// tool model after.
pub fn anthropic_active_model(config: &ProviderConfig, is_first_call: bool) -> (r: String)
    ensures
        r@ == if is_first_call {
            config.model@
        } else {
            tool_model_of(*config)
        },
{
    if is_first_call {
        config.model.clone()
    } else {
        let t = trim_str(config.light_model.as_str());
        if char_count(t.as_str()) == 0 {
            config.model.clone()
        } else {
            config.light_model.clone()
        }
    }
}

/// The entry that records a call.
fn function_call_entry_value(c: &OpenAiFunctionCall) -> (r: Json)
    ensures
        r@ == function_call_entry((c.name@, c.call_id@, c.arguments@)),
{
    let mut members: Vec<(String, Json)> = Vec::new();
    members.push(("arguments".to_string(), string_value(c.arguments.as_str())));
    members.push(("call_id".to_string(), string_value(c.call_id.as_str())));
    members.push(("name".to_string(), string_value(c.name.as_str())));
    members.push(("type".to_string(), string_value("function_call")));
    proof {
        assert(members_model(members@) =~= function_call_entry(
            (c.name@, c.call_id@, c.arguments@),
        )->Object_0);
    }
    object_of(members)
}

/// The step of the OpenAI tool loop after a reply. Where the reply asks for
/// calls, each is recorded in the input, in order, and the loop runs them;
/// else it answers with the reply's text, or fails where there is none.
pub fn openai_step(input: &mut Vec<Json>, payload: &Json) -> (r: OpenAiStep)
    ensures
        ({
            let calls = function_calls(array_items(field(payload@, "output"@)));
            if calls.len() == 0 {
                &&& items_model(final(input)@) == items_model(old(input)@)
                &&& match responses_content(payload@) {
                    Some(t) => r is Reply && r->Reply_0@ == t,
                    None => r is Failed && r->Failed_0@ == openai_empty_reply_message(),
                }
            } else {
                &&& r is CallTools
                &&& calls_model(r->CallTools_0@) == calls
                &&& items_model(final(input)@) == items_model(old(input)@) + Seq::new(
                    calls.len(),
                    |i: int| function_call_entry(calls[i]),
                )
            }
        }),
{
    let calls = extract_openai_function_calls(payload);
    if calls.len() == 0 {
        return match extract_openai_responses_content(payload) {
            Some(t) => OpenAiStep::Reply(t),
            None => OpenAiStep::Failed("phản hồi OpenAI Responses API không có nội dung".to_string()),
        };
    }
    let ghost before = items_model(input@);
    let ghost start = input@.len();
    let mut i: usize = 0;
    while i < calls.len()
        invariant
            i <= calls@.len(),
            input@.len() == start + i,
            start == before.len(),
            forall|k: int| 0 <= k < start ==> (#[trigger] input@[k])@ == before[k],
            forall|k: int|
                0 <= k < i ==> (#[trigger] input@[start + k])@ == function_call_entry(
                    (calls@[k].name@, calls@[k].call_id@, calls@[k].arguments@),
                ),
        decreases calls@.len() - i,
    {
        input.push(function_call_entry_value(&calls[i]));
        i = i + 1;
    }
    proof {
        let cm = calls_model(calls@);
        let expected = before + Seq::new(cm.len(), |i: int| function_call_entry(cm[i]));
        assert forall|k: int| 0 <= k < expected.len() implies #[trigger] items_model(input@)[k]
            == expected[k] by {
            if k >= start {
                assert(input@[start + (k - start)]@ == function_call_entry(
                    (calls@[k - start].name@, calls@[k - start].call_id@, calls@[k - start].arguments@),
                ));
            }
        }
        assert(items_model(input@) =~= expected);
    }
    OpenAiStep::CallTools(calls)
}

/// The entry that hands an output back.
fn function_output_entry_value(call_id: &str, output: &str) -> (r: Json)
    ensures
        r@ == function_output_entry(call_id@, output@),
{
    let mut members: Vec<(String, Json)> = Vec::new();
    members.push(("call_id".to_string(), string_value(call_id)));
    members.push(("output".to_string(), string_value(output)));
    members.push(("type".to_string(), string_value("function_call_output")));
    proof {
        assert(members_model(members@) =~= function_output_entry(call_id@, output@)->Object_0);
    }
    object_of(members)
}

/// Hands the outputs of the calls back in the input, each with its call's id,
/// pairing them in order as far as both go.
pub fn openai_record_outputs(
    input: &mut Vec<Json>,
    calls: &Vec<OpenAiFunctionCall>,
    outputs: &Vec<String>,
)
    ensures
        ({
            let n = if calls@.len() < outputs@.len() {
                calls@.len()
            } else {
                outputs@.len()
            };
            items_model(final(input)@) == items_model(old(input)@) + Seq::new(
                n as nat,
                |i: int| function_output_entry(calls@[i].call_id@, outputs@[i]@),
            )
        }),
{
    let ghost before = items_model(input@);
    let ghost start = input@.len();
    let mut i: usize = 0;
    while i < calls.len() && i < outputs.len()
        invariant
            i <= calls@.len(),
            i <= outputs@.len(),
            input@.len() == start + i,
            start == before.len(),
            forall|k: int| 0 <= k < start ==> (#[trigger] input@[k])@ == before[k],
            forall|k: int|
                0 <= k < i ==> (#[trigger] input@[start + k])@ == function_output_entry(
                    calls@[k].call_id@,
                    outputs@[k]@,
                ),
        decreases calls@.len() - i,
    {
        input.push(function_output_entry_value(calls[i].call_id.as_str(), outputs[i].as_str()));
        i = i + 1;
    }
    proof {
        let n = if calls@.len() < outputs@.len() {
            calls@.len()
        } else {
            outputs@.len()
        };
        let expected = before + Seq::new(
            n as nat,
            |i: int| function_output_entry(calls@[i].call_id@, outputs@[i]@),
        );
        assert forall|k: int| 0 <= k < expected.len() implies #[trigger] items_model(input@)[k]
            == expected[k] by {
            if k >= start {
                assert(input@[start + (k - start)]@ == function_output_entry(
                    calls@[k - start].call_id@,
                    outputs@[k - start]@,
                ));
            }
        }
        assert(items_model(input@) =~= expected);
    }
}

/// The assistant message that records a reply with tool uses:
/// `{"content": the reply's content, or [], "role": "assistant"}`.
pub open spec fn assistant_tool_message(payload: JsonModel) -> JsonModel {
    JsonModel::Object(
        seq![
            (
                "content"@,
                match field(payload, "content"@) {
                    Some(c) => c,
                    None => JsonModel::Array(Seq::empty()),
                },
            ),
            ("role"@, JsonModel::Str("assistant"@)),
        ],
    )
}

/// The step of the Anthropic tool loop after a reply. Where the reply asks
/// for tool uses, its content is recorded as the assistant's message and the
/// loop runs them; else it answers with the reply's text, or fails where there
/// is none.
pub fn anthropic_step(messages: &mut Vec<Json>, payload: &Json) -> (r: AnthropicStep)
    ensures
        ({
            let uses = tool_uses(array_items(field(payload@, "content"@)));
            if uses.len() == 0 {
                &&& items_model(final(messages)@) == items_model(old(messages)@)
                &&& match anthropic_content(payload@) {
                    Some(t) => r is Reply && r->Reply_0@ == t,
                    None => r is Failed && r->Failed_0@ == anthropic_empty_reply_message(),
                }
            } else {
                &&& r is CallTools
                &&& uses_model(r->CallTools_0@) == uses
                &&& items_model(final(messages)@) == items_model(old(messages)@).push(
                    assistant_tool_message(payload@),
                )
            }
        }),
{
    let uses = extract_anthropic_tool_uses(payload);
    if uses.len() == 0 {
        return match extract_anthropic_content(payload) {
            Some(t) => AnthropicStep::Reply(t),
            None => AnthropicStep::Failed("phản hồi Anthropic không có nội dung assistant".to_string()),
        };
    }
    let content = match get_field(payload, "content") {
        Some(c) => c.copy(),
        None => array_of(Vec::new()),
    };
    proof {
        assert(items_model(Seq::<Json>::empty()) =~= Seq::empty());
    }
    let mut members: Vec<(String, Json)> = Vec::new();
    members.push(("content".to_string(), content));
    members.push(("role".to_string(), string_value("assistant")));
    proof {
        assert(members_model(members@) =~= assistant_tool_message(payload@)->Object_0);
    }
    let ghost before = items_model(messages@);
    messages.push(object_of(members));
    proof {
        assert(items_model(messages@) =~= before.push(assistant_tool_message(payload@)));
    }
    AnthropicStep::CallTools(uses)
}

/// The result entry of a tool use.
fn tool_result_entry_value(id: &str, output: &str) -> (r: Json)
    ensures
        r@ == tool_result_entry(id@, output@),
{
    let mut members: Vec<(String, Json)> = Vec::new();
    members.push(("content".to_string(), text_parts_value("text", output)));
    members.push(("tool_use_id".to_string(), string_value(id)));
    members.push(("type".to_string(), string_value("tool_result")));
    proof {
        assert(members_model(members@) =~= tool_result_entry(id@, output@)->Object_0);
    }
    object_of(members)
}

/// The user message that hands the results of the tool uses back:
/// `{"content": [a result per use, in order, as far as both go], "role": "user"}`.
pub open spec fn tool_results_message(uses: Seq<AnthropicToolUse>, outputs: Seq<String>) -> JsonModel {
    let n = if uses.len() < outputs.len() {
        uses.len()
    } else {
        outputs.len()
    };
    JsonModel::Object(
        seq![
            (
                "content"@,
                JsonModel::Array(
                    Seq::new(n as nat, |i: int| tool_result_entry(uses[i].id@, outputs[i]@)),
                ),
            ),
            ("role"@, JsonModel::Str("user"@)),
        ],
    )
}

/// Hands the outputs of the tool uses back as one user message.
pub fn anthropic_record_results(
    messages: &mut Vec<Json>,
    uses: &Vec<AnthropicToolUse>,
    outputs: &Vec<String>,
)
    ensures
        items_model(final(messages)@) == items_model(old(messages)@).push(
            tool_results_message(uses@, outputs@),
        ),
{
    let mut results: Vec<Json> = Vec::new();
    let mut i: usize = 0;
    while i < uses.len() && i < outputs.len()
        invariant
            i <= uses@.len(),
            i <= outputs@.len(),
            results@.len() == i,
            forall|k: int|
                0 <= k < i ==> (#[trigger] results@[k])@ == tool_result_entry(
                    uses@[k].id@,
                    outputs@[k]@,
                ),
        decreases uses@.len() - i,
    {
        results.push(tool_result_entry_value(uses[i].id.as_str(), outputs[i].as_str()));
        i = i + 1;
    }
    let ghost results_model = items_model(results@);
    let mut members: Vec<(String, Json)> = Vec::new();
    members.push(("content".to_string(), array_of(results)));
    members.push(("role".to_string(), string_value("user")));
    proof {
        let n = if uses@.len() < outputs@.len() {
            uses@.len()
        } else {
            outputs@.len()
        };
        assert(results_model =~= Seq::new(
            n as nat,
            |i: int| tool_result_entry(uses@[i].id@, outputs@[i]@),
        ));
        assert(members_model(members@) =~= tool_results_message(uses@, outputs@)->Object_0);
    }
    let ghost before = items_model(messages@);
    messages.push(object_of(members));
    proof {
        assert(items_model(messages@) =~= before.push(tool_results_message(uses@, outputs@)));
    }
}

} // verus!
