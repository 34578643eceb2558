//! The input schemas of the native tools: what each tool tells the model it
//! takes.
use vstd::prelude::*;
use crate::json::{
    array_of, items_model, members_model, object_of, string_value, Json, JsonModel, JsonNumber,
    NumberModel,
};
use crate::tools::{str_views, NativeToolKind};

verus! {

/// `{"type": kind}`.
pub open spec fn kind_only(kind: Seq<char>) -> JsonModel {
    JsonModel::Object(seq![("type"@, JsonModel::Str(kind))])
}

/// A property of the given type with its description.
pub open spec fn prop(kind: Seq<char>, description: Seq<char>) -> JsonModel {
    JsonModel::Object(
        seq![("type"@, JsonModel::Str(kind)), ("description"@, JsonModel::Str(description))],
    )
}

/// A bound of a number, where there is one.
pub open spec fn bound_member(key: Seq<char>, bound: Option<nat>) -> Seq<(Seq<char>, JsonModel)> {
    match bound {
        Some(n) => seq![(key, JsonModel::Number(NumberModel::PosInt(n)))],
        None => Seq::empty(),
    }
}

/// A number property with its bounds and its description.
pub open spec fn limited_prop(
    kind: Seq<char>,
    minimum: Option<nat>,
    maximum: Option<nat>,
    description: Seq<char>,
) -> JsonModel {
    JsonModel::Object(
        seq![("type"@, JsonModel::Str(kind))] + bound_member("minimum"@, minimum) + bound_member(
            "maximum"@,
            maximum,
        ) + seq![("description"@, JsonModel::Str(description))],
    )
}

/// A list of strings as a value.
pub open spec fn names_list(names: Seq<Seq<char>>) -> JsonModel {
    JsonModel::Array(Seq::new(names.len(), |i: int| JsonModel::Str(names[i])))
}

/// A property that takes one of the given values.
pub open spec fn enum_prop(kind: Seq<char>, values: Seq<Seq<char>>, description: Seq<char>) -> JsonModel {
    JsonModel::Object(
        seq![
            ("type"@, JsonModel::Str(kind)),
            ("enum"@, names_list(values)),
            ("description"@, JsonModel::Str(description)),
        ],
    )
}

/// A list property whose items follow `items`.
pub open spec fn array_prop(items: JsonModel, description: Seq<char>) -> JsonModel {
    JsonModel::Object(
        seq![
            ("type"@, JsonModel::Str("array"@)),
            ("items"@, items),
            ("description"@, JsonModel::Str(description)),
        ],
    )
}

/// An object schema with its properties, the names it requires (where it
/// lists any) and whether it allows other properties (where it says).
pub open spec fn object_schema(
    props: Seq<(Seq<char>, JsonModel)>,
    required: Option<Seq<Seq<char>>>,
    additional: Option<bool>,
) -> JsonModel {
    let required_members = match required {
        Some(r) => seq![("required"@, names_list(r))],
        None => Seq::empty(),
    };
    let additional_members = match additional {
        Some(b) => seq![("additionalProperties"@, JsonModel::Bool(b))],
        None => Seq::empty(),
    };
    JsonModel::Object(
        seq![("type"@, JsonModel::Str("object"@)), ("properties"@, JsonModel::Object(props))]
            + required_members + additional_members,
    )
}

/// No members yet.
fn empty_members() -> (r: Vec<(String, Json)>)
    ensures
        members_model(r@) == Seq::<(Seq<char>, JsonModel)>::empty(),
{
    let r: Vec<(String, Json)> = Vec::new();
    assert(members_model(r@) =~= Seq::empty());
    r
}

/// Adds a member.
fn push_member(members: &mut Vec<(String, Json)>, key: &str, value: Json)
    ensures
        members_model(final(members)@) == members_model(old(members)@).push((key@, value@)),
{
    members.push((key.to_string(), value));
    assert(members_model(members@) =~= members_model(old(members)@).push((key@, value@)));
}

/// `{"type": kind}` as a value.
fn kind_only_value(kind: &str) -> (r: Json)
    ensures
        r@ == kind_only(kind@),
{
    let mut m = empty_members();
    push_member(&mut m, "type", string_value(kind));
    object_of(m)
}

/// A property of the given type with its description, as a value.
fn prop_value(kind: &str, description: &str) -> (r: Json)
    ensures
        r@ == prop(kind@, description@),
{
    let mut m = empty_members();
    push_member(&mut m, "type", string_value(kind));
    push_member(&mut m, "description", string_value(description));
    assert(members_model(m@) =~= prop(kind@, description@)->Object_0);
    object_of(m)
}

/// A number property with its bounds, as a value.
fn limited_prop_value(kind: &str, minimum: Option<u64>, maximum: Option<u64>, description: &str) -> (r: Json)
    ensures
        r@ == limited_prop(
            kind@,
            match minimum {
                Some(n) => Some(n as nat),
                None => None,
            },
            match maximum {
                Some(n) => Some(n as nat),
                None => None,
            },
            description@,
        ),
{
    let mut m = empty_members();
    push_member(&mut m, "type", string_value(kind));
    match minimum {
        Some(n) => push_member(&mut m, "minimum", Json::Number(JsonNumber::PosInt(n))),
        None => {},
    }
    match maximum {
        Some(n) => push_member(&mut m, "maximum", Json::Number(JsonNumber::PosInt(n))),
        None => {},
    }
    let ghost before = members_model(m@);
    push_member(&mut m, "description", string_value(description));
    proof {
        let min_m = match minimum {
            Some(n) => Some(n as nat),
            None => None,
        };
        let max_m = match maximum {
            Some(n) => Some(n as nat),
            None => None,
        };
        assert(before =~= seq![("type"@, JsonModel::Str(kind@))] + bound_member("minimum"@, min_m)
            + bound_member("maximum"@, max_m));
        assert(members_model(m@) =~= limited_prop(kind@, min_m, max_m, description@)->Object_0);
    }
    object_of(m)
}

/// A list of strings as a value.
fn names_value(names: &Vec<&str>) -> (r: Json)
    ensures
        r@ == names_list(str_views(names@)),
{
    let mut items: Vec<Json> = Vec::new();
    let mut i: usize = 0;
    while i < names.len()
        invariant
            i <= names@.len(),
            items@.len() == i,
            forall|k: int| 0 <= k < i ==> (#[trigger] items@[k])@ == JsonModel::Str(names@[k]@),
        decreases names@.len() - i,
    {
        items.push(string_value(names[i]));
        i = i + 1;
    }
    assert(items_model(items@) =~= names_list(str_views(names@))->Array_0);
    array_of(items)
}

/// A property that takes one of the given values, as a value.
fn enum_prop_value(kind: &str, values: Vec<&str>, description: &str) -> (r: Json)
    ensures
        r@ == enum_prop(kind@, str_views(values@), description@),
{
    let mut m = empty_members();
    push_member(&mut m, "type", string_value(kind));
    push_member(&mut m, "enum", names_value(&values));
    push_member(&mut m, "description", string_value(description));
    assert(members_model(m@) =~= enum_prop(kind@, str_views(values@), description@)->Object_0);
    object_of(m)
}

/// A list property, as a value.
fn array_prop_value(items: Json, description: &str) -> (r: Json)
    ensures
        r@ == array_prop(items@, description@),
{
    let mut m = empty_members();
    push_member(&mut m, "type", string_value("array"));
    let ghost items_view = items@;
    push_member(&mut m, "items", items);
    push_member(&mut m, "description", string_value(description));
    assert(members_model(m@) =~= array_prop(items_view, description@)->Object_0);
    object_of(m)
}

/// An object schema, as a value.
fn object_schema_value(props: Vec<(String, Json)>, required: Option<Vec<&str>>, additional: Option<bool>) -> (r: Json)
    ensures
        r@ == object_schema(
            members_model(props@),
            match required {
                Some(v) => Some(str_views(v@)),
                None => None,
            },
            additional,
        ),
{
    let ghost props_model = members_model(props@);
    let ghost required_model = match &required {
        Some(v) => Some(str_views(v@)),
        None => None,
    };
    let mut m = empty_members();
    push_member(&mut m, "type", string_value("object"));
    push_member(&mut m, "properties", object_of(props));
    match required {
        Some(v) => push_member(&mut m, "required", names_value(&v)),
        None => {},
    }
    let ghost with_required = members_model(m@);
    match additional {
        Some(b) => push_member(&mut m, "additionalProperties", Json::Bool(b)),
        None => {},
    }
    proof {
        assert(members_model(m@) =~= object_schema(props_model, required_model, additional)->Object_0);
    }
    object_of(m)
}

/// The properties in the input schema of `read`.
pub open spec fn read_props_model() -> Seq<(Seq<char>, JsonModel)> {
    seq![
        ("path"@, prop("string"@, "Path file cần đọc, relative theo workspace tool"@)),
        ("start_line"@, limited_prop("integer"@, Some(1), None, "Dòng bắt đầu, mặc định 1"@)),
        ("line_count"@, limited_prop("integer"@, Some(1), None, "Số dòng cần đọc, mặc định 200"@)),
        ("max_chars"@, limited_prop("integer"@, Some(1), None, "Giới hạn ký tự trả về"@)),
    ]
}

/// The input schema of `read`.
pub open spec fn read_schema_model() -> JsonModel {
    object_schema(read_props_model(), Some(seq!["path"@]), Some(false))
}

/// The input schema of `read`, as the model is told of it.
pub fn read_schema() -> (r: Json)
    ensures
        r@ == read_schema_model(),
{
    let mut props = empty_members();
    push_member(&mut props, "path", prop_value("string", "Path file cần đọc, relative theo workspace tool"));
    push_member(&mut props, "start_line", limited_prop_value("integer", Some(1), None, "Dòng bắt đầu, mặc định 1"));
    push_member(&mut props, "line_count", limited_prop_value("integer", Some(1), None, "Số dòng cần đọc, mặc định 200"));
    push_member(&mut props, "max_chars", limited_prop_value("integer", Some(1), None, "Giới hạn ký tự trả về"));
    assert(members_model(props@) =~= read_props_model());
    let required: Vec<&str> = vec!["path"];
    assert(str_views(required@) =~= seq!["path"@]);
    object_schema_value(props, Some(required), Some(false))
}

/// The properties in the input schema of `write`.
pub open spec fn write_props_model() -> Seq<(Seq<char>, JsonModel)> {
    seq![
        ("path"@, prop("string"@, "Path file cần ghi, relative theo workspace tool"@)),
        ("content"@, prop("string"@, "Nội dung text cần ghi"@)),
        ("append"@, prop("boolean"@, "Nếu true sẽ append thay vì overwrite"@)),
        ("create_parent_dirs"@, prop("boolean"@, "Nếu true sẽ tự tạo thư mục cha còn thiếu"@)),
    ]
}

/// The input schema of `write`.
pub open spec fn write_schema_model() -> JsonModel {
    object_schema(write_props_model(), Some(seq!["path"@, "content"@]), Some(false))
}

/// The input schema of `write`, as the model is told of it.
pub fn write_schema() -> (r: Json)
    ensures
        r@ == write_schema_model(),
{
    let mut props = empty_members();
    push_member(&mut props, "path", prop_value("string", "Path file cần ghi, relative theo workspace tool"));
    push_member(&mut props, "content", prop_value("string", "Nội dung text cần ghi"));
    push_member(&mut props, "append", prop_value("boolean", "Nếu true sẽ append thay vì overwrite"));
    push_member(&mut props, "create_parent_dirs", prop_value("boolean", "Nếu true sẽ tự tạo thư mục cha còn thiếu"));
    assert(members_model(props@) =~= write_props_model());
    let required: Vec<&str> = vec!["path", "content"];
    assert(str_views(required@) =~= seq!["path"@, "content"@]);
    object_schema_value(props, Some(required), Some(false))
}

/// The properties in the input schema of `exec`.
pub open spec fn exec_props_model() -> Seq<(Seq<char>, JsonModel)> {
    seq![
        ("command"@, prop("string"@, "Tên executable cần chạy"@)),
        ("args"@, array_prop(
            kind_only("string"@),
            "Danh sách argument truyền vào executable"@,
        )),
        ("cwd"@, prop("string"@, "Thư mục làm việc, relative theo workspace tool"@)),
        ("timeout_ms"@, limited_prop("integer"@, Some(1), None, "Timeout mong muốn, không vượt quá timeout của tool"@)),
    ]
}

/// The input schema of `exec`.
pub open spec fn exec_schema_model() -> JsonModel {
    object_schema(exec_props_model(), Some(seq!["command"@]), Some(false))
}

/// The input schema of `exec`, as the model is told of it.
pub fn exec_schema() -> (r: Json)
    ensures
        r@ == exec_schema_model(),
{
    let args_items = kind_only_value("string");
    let mut props = empty_members();
    push_member(&mut props, "command", prop_value("string", "Tên executable cần chạy"));
    push_member(&mut props, "args", array_prop_value(args_items, "Danh sách argument truyền vào executable"));
    push_member(&mut props, "cwd", prop_value("string", "Thư mục làm việc, relative theo workspace tool"));
    push_member(&mut props, "timeout_ms", limited_prop_value("integer", Some(1), None, "Timeout mong muốn, không vượt quá timeout của tool"));
    assert(members_model(props@) =~= exec_props_model());
    let required: Vec<&str> = vec!["command"];
    assert(str_views(required@) =~= seq!["command"@]);
    object_schema_value(props, Some(required), Some(false))
}

/// The properties in the input schema of `bash`.
pub open spec fn bash_props_model() -> Seq<(Seq<char>, JsonModel)> {
    seq![
        ("script"@, prop("string"@, "Đoạn lệnh bash cần chạy"@)),
        ("cwd"@, prop("string"@, "Thư mục làm việc, relative theo workspace tool"@)),
        ("timeout_ms"@, limited_prop("integer"@, Some(1), None, "Timeout mong muốn, không vượt quá timeout của tool"@)),
    ]
}

/// The input schema of `bash`.
pub open spec fn bash_schema_model() -> JsonModel {
    object_schema(bash_props_model(), Some(seq!["script"@]), Some(false))
}

/// The input schema of `bash`, as the model is told of it.
pub fn bash_schema() -> (r: Json)
    ensures
        r@ == bash_schema_model(),
{
    let mut props = empty_members();
    push_member(&mut props, "script", prop_value("string", "Đoạn lệnh bash cần chạy"));
    push_member(&mut props, "cwd", prop_value("string", "Thư mục làm việc, relative theo workspace tool"));
    push_member(&mut props, "timeout_ms", limited_prop_value("integer", Some(1), None, "Timeout mong muốn, không vượt quá timeout của tool"));
    assert(members_model(props@) =~= bash_props_model());
    let required: Vec<&str> = vec!["script"];
    assert(str_views(required@) =~= seq!["script"@]);
    object_schema_value(props, Some(required), Some(false))
}

/// The properties in the input schema of the `members` items of `spawn_team`.
pub open spec fn spawn_team_members_item_props_model() -> Seq<(Seq<char>, JsonModel)> {
    seq![
        ("name"@, prop("string"@, "Tên hiển thị của subagent"@)),
        ("responsibility"@, prop("string"@, "Trọng trách hoặc góc phân tích chính của subagent"@)),
        ("instructions"@, prop("string"@, "Chỉ dẫn bổ sung riêng cho subagent này"@)),
    ]
}

/// The properties in the input schema of `spawn_team`.
pub open spec fn spawn_team_props_model() -> Seq<(Seq<char>, JsonModel)> {
    seq![
        ("mission"@, prop("string"@, "Mục tiêu chung mà team dynamic cần giải quyết"@)),
        ("briefing"@, prop("string"@, "Bổ sung ngắn từ Kuromi để các subagent bám vào"@)),
        ("rounds"@, limited_prop("integer"@, Some(1), Some(4), "Số vòng thảo luận cho team, mặc định 2"@)),
        ("report_instruction"@, prop("string"@, "Định dạng hoặc yêu cầu riêng cho báo cáo cuối của team"@)),
        ("members"@, array_prop(
            object_schema(spawn_team_members_item_props_model(), Some(seq!["name"@, "responsibility"@]), Some(false)),
            "Danh sách subagent cần spawn cho mission này"@,
        )),
    ]
}

/// The input schema of `spawn_team`.
pub open spec fn spawn_team_schema_model() -> JsonModel {
    object_schema(spawn_team_props_model(), Some(seq!["mission"@, "members"@]), Some(false))
}

/// The input schema of `spawn_team`, as the model is told of it.
pub fn spawn_team_schema() -> (r: Json)
    ensures
        r@ == spawn_team_schema_model(),
{
    let mut members_item_props = empty_members();
    push_member(&mut members_item_props, "name", prop_value("string", "Tên hiển thị của subagent"));
    push_member(&mut members_item_props, "responsibility", prop_value("string", "Trọng trách hoặc góc phân tích chính của subagent"));
    push_member(&mut members_item_props, "instructions", prop_value("string", "Chỉ dẫn bổ sung riêng cho subagent này"));
    assert(members_model(members_item_props@) =~= spawn_team_members_item_props_model());
    let members_item_required: Vec<&str> = vec!["name", "responsibility"];
    assert(str_views(members_item_required@) =~= seq!["name"@, "responsibility"@]);
    let members_items = object_schema_value(members_item_props, Some(members_item_required), Some(false));
    let mut props = empty_members();
    push_member(&mut props, "mission", prop_value("string", "Mục tiêu chung mà team dynamic cần giải quyết"));
    push_member(&mut props, "briefing", prop_value("string", "Bổ sung ngắn từ Kuromi để các subagent bám vào"));
    push_member(&mut props, "rounds", limited_prop_value("integer", Some(1), Some(4), "Số vòng thảo luận cho team, mặc định 2"));
    push_member(&mut props, "report_instruction", prop_value("string", "Định dạng hoặc yêu cầu riêng cho báo cáo cuối của team"));
    push_member(&mut props, "members", array_prop_value(members_items, "Danh sách subagent cần spawn cho mission này"));
    assert(members_model(props@) =~= spawn_team_props_model());
    let required: Vec<&str> = vec!["mission", "members"];
    assert(str_views(required@) =~= seq!["mission"@, "members"@]);
    object_schema_value(props, Some(required), Some(false))
}

/// The properties in the input schema of `fetch_news`.
pub open spec fn fetch_news_props_model() -> Seq<(Seq<char>, JsonModel)> {
    seq![
        ("count"@, limited_prop("integer"@, Some(1), Some(50), "Số lượng tin tức cần lấy, mặc định 50"@)),
        ("important"@, prop("boolean"@, "Nếu true chỉ lấy tin quan trọng"@)),
    ]
}

/// The input schema of `fetch_news`.
pub open spec fn fetch_news_schema_model() -> JsonModel {
    object_schema(fetch_news_props_model(), None, Some(false))
}

/// The input schema of `fetch_news`, as the model is told of it.
pub fn fetch_news_schema() -> (r: Json)
    ensures
        r@ == fetch_news_schema_model(),
{
    let mut props = empty_members();
    push_member(&mut props, "count", limited_prop_value("integer", Some(1), Some(50), "Số lượng tin tức cần lấy, mặc định 50"));
    push_member(&mut props, "important", prop_value("boolean", "Nếu true chỉ lấy tin quan trọng"));
    assert(members_model(props@) =~= fetch_news_props_model());
    object_schema_value(props, None, Some(false))
}

/// The properties in the input schema of `fetch_calendar`.
pub open spec fn fetch_calendar_props_model() -> Seq<(Seq<char>, JsonModel)> {
    seq![
        ("date"@, prop("string"@, "Ngày cần xem lịch kinh tế, format YYYY-MM-DD. Mặc định là hôm nay."@)),
        ("importance"@, prop("string"@, "Lọc theo mức độ quan trọng: 'high', 'medium', 'low'. Bỏ trống để lấy tất cả."@)),
    ]
}

/// The input schema of `fetch_calendar`.
pub open spec fn fetch_calendar_schema_model() -> JsonModel {
    object_schema(fetch_calendar_props_model(), None, Some(false))
}

/// The input schema of `fetch_calendar`, as the model is told of it.
pub fn fetch_calendar_schema() -> (r: Json)
    ensures
        r@ == fetch_calendar_schema_model(),
{
    let mut props = empty_members();
    push_member(&mut props, "date", prop_value("string", "Ngày cần xem lịch kinh tế, format YYYY-MM-DD. Mặc định là hôm nay."));
    push_member(&mut props, "importance", prop_value("string", "Lọc theo mức độ quan trọng: 'high', 'medium', 'low'. Bỏ trống để lấy tất cả."));
    assert(members_model(props@) =~= fetch_calendar_props_model());
    object_schema_value(props, None, Some(false))
}

/// The properties in the input schema of `fetch_dashboard`.
pub open spec fn fetch_dashboard_props_model() -> Seq<(Seq<char>, JsonModel)> {
    seq![
        ("symbol"@, prop("string"@, "Lọc theo mã instrument cụ thể (VD: 'XAUUSD'). Nếu không truyền sẽ trả về tất cả."@)),
    ]
}

/// The input schema of `fetch_dashboard`.
pub open spec fn fetch_dashboard_schema_model() -> JsonModel {
    object_schema(fetch_dashboard_props_model(), None, Some(false))
}

/// The input schema of `fetch_dashboard`, as the model is told of it.
pub fn fetch_dashboard_schema() -> (r: Json)
    ensures
        r@ == fetch_dashboard_schema_model(),
{
    let mut props = empty_members();
    push_member(&mut props, "symbol", prop_value("string", "Lọc theo mã instrument cụ thể (VD: 'XAUUSD'). Nếu không truyền sẽ trả về tất cả."));
    assert(members_model(props@) =~= fetch_dashboard_props_model());
    object_schema_value(props, None, Some(false))
}

/// The properties in the input schema of the `key_levels` items of `update_dashboard`.
pub open spec fn update_dashboard_key_levels_item_props_model() -> Seq<(Seq<char>, JsonModel)> {
    seq![
        ("price"@, kind_only("number"@)),
        ("label"@, kind_only("string"@)),
        ("type"@, prop("string"@, "support / resistance / pivot"@)),
    ]
}

/// The properties in the input schema of `update_dashboard`.
pub open spec fn update_dashboard_props_model() -> Seq<(Seq<char>, JsonModel)> {
    seq![
        ("symbol"@, prop("string"@, "Mã instrument cần cập nhật, ví dụ 'XAUUSD', 'EURUSD'"@)),
        ("name"@, prop("string"@, "Tên hiển thị, ví dụ 'Gold / US Dollar'"@)),
        ("category"@, prop("string"@, "Loại: 'forex', 'commodity', 'crypto', 'index'"@)),
        ("direction"@, prop("string"@, "Xu hướng: 'bullish', 'bearish', 'neutral'"@)),
        ("confidence"@, limited_prop("number"@, Some(0), Some(100), "Độ tin cậy của phân tích (0-100)"@)),
        ("price"@, prop("number"@, "Giá hiện tại"@)),
        ("change_pct"@, prop("number"@, "% thay đổi giá"@)),
        ("timeframe"@, prop("string"@, "Khung thời gian phân tích, ví dụ 'H1', 'H4', 'D1'"@)),
        ("analysis"@, prop("string"@, "Tóm tắt phân tích kỹ thuật và cơ bản"@)),
        ("key_levels"@, array_prop(
            object_schema(update_dashboard_key_levels_item_props_model(), None, None),
            "Các mức giá quan trọng (hỗ trợ, kháng cự, pivot)"@,
        )),
    ]
}

/// The input schema of `update_dashboard`.
pub open spec fn update_dashboard_schema_model() -> JsonModel {
    object_schema(update_dashboard_props_model(), Some(seq!["symbol"@]), Some(false))
}

/// The input schema of `update_dashboard`, as the model is told of it.
pub fn update_dashboard_schema() -> (r: Json)
    ensures
        r@ == update_dashboard_schema_model(),
{
    let mut key_levels_item_props = empty_members();
    push_member(&mut key_levels_item_props, "price", kind_only_value("number"));
    push_member(&mut key_levels_item_props, "label", kind_only_value("string"));
    push_member(&mut key_levels_item_props, "type", prop_value("string", "support / resistance / pivot"));
    assert(members_model(key_levels_item_props@) =~= update_dashboard_key_levels_item_props_model());
    let key_levels_items = object_schema_value(key_levels_item_props, None, None);
    let mut props = empty_members();
    push_member(&mut props, "symbol", prop_value("string", "Mã instrument cần cập nhật, ví dụ 'XAUUSD', 'EURUSD'"));
    push_member(&mut props, "name", prop_value("string", "Tên hiển thị, ví dụ 'Gold / US Dollar'"));
    push_member(&mut props, "category", prop_value("string", "Loại: 'forex', 'commodity', 'crypto', 'index'"));
    push_member(&mut props, "direction", prop_value("string", "Xu hướng: 'bullish', 'bearish', 'neutral'"));
    push_member(&mut props, "confidence", limited_prop_value("number", Some(0), Some(100), "Độ tin cậy của phân tích (0-100)"));
    push_member(&mut props, "price", prop_value("number", "Giá hiện tại"));
    push_member(&mut props, "change_pct", prop_value("number", "% thay đổi giá"));
    push_member(&mut props, "timeframe", prop_value("string", "Khung thời gian phân tích, ví dụ 'H1', 'H4', 'D1'"));
    push_member(&mut props, "analysis", prop_value("string", "Tóm tắt phân tích kỹ thuật và cơ bản"));
    push_member(&mut props, "key_levels", array_prop_value(key_levels_items, "Các mức giá quan trọng (hỗ trợ, kháng cự, pivot)"));
    assert(members_model(props@) =~= update_dashboard_props_model());
    let required: Vec<&str> = vec!["symbol"];
    assert(str_views(required@) =~= seq!["symbol"@]);
    object_schema_value(props, Some(required), Some(false))
}

/// The properties in the input schema of `reusable_skills`.
pub open spec fn reusable_skills_props_model() -> Seq<(Seq<char>, JsonModel)> {
    seq![
        ("action"@, enum_prop(
            "string"@,
            seq!["save"@, "load"@, "list"@, "delete"@, "match"@],
            "Hành động cần thực hiện:\n- save: Lưu/cập nhật skill (Markdown)\n- load: Đọc skill theo tên\n- list: Liệt kê tất cả learned skills\n- delete: Xoá skill theo tên\n- match: Tìm skill phù hợp nhất cho URL hoặc keyword"@,
        )),
        ("name"@, prop("string"@, "Tên skill (dùng làm filename, ví dụ: fxstreet-gold-news, investing-technical). Dùng cho save/load/delete."@)),
        ("url"@, prop("string"@, "URL hoặc keyword để tìm skill phù hợp. Dùng cho action=match."@)),
        ("content"@, prop("string"@, "Nội dung Markdown của skill (action=save). Chứa mô tả, selectors, scripts, tips, workflows."@)),
    ]
}

/// The input schema of `reusable_skills`.
pub open spec fn reusable_skills_schema_model() -> JsonModel {
    object_schema(reusable_skills_props_model(), Some(seq!["action"@]), Some(false))
}

/// The input schema of `reusable_skills`, as the model is told of it.
pub fn reusable_skills_schema() -> (r: Json)
    ensures
        r@ == reusable_skills_schema_model(),
{
    let action_values: Vec<&str> = vec!["save", "load", "list", "delete", "match"];
    assert(str_views(action_values@) =~= seq!["save"@, "load"@, "list"@, "delete"@, "match"@]);
    let mut props = empty_members();
    push_member(&mut props, "action", enum_prop_value("string", action_values, "Hành động cần thực hiện:\n- save: Lưu/cập nhật skill (Markdown)\n- load: Đọc skill theo tên\n- list: Liệt kê tất cả learned skills\n- delete: Xoá skill theo tên\n- match: Tìm skill phù hợp nhất cho URL hoặc keyword"));
    push_member(&mut props, "name", prop_value("string", "Tên skill (dùng làm filename, ví dụ: fxstreet-gold-news, investing-technical). Dùng cho save/load/delete."));
    push_member(&mut props, "url", prop_value("string", "URL hoặc keyword để tìm skill phù hợp. Dùng cho action=match."));
    push_member(&mut props, "content", prop_value("string", "Nội dung Markdown của skill (action=save). Chứa mô tả, selectors, scripts, tips, workflows."));
    assert(members_model(props@) =~= reusable_skills_props_model());
    let required: Vec<&str> = vec!["action"];
    assert(str_views(required@) =~= seq!["action"@]);
    object_schema_value(props, Some(required), Some(false))
}

/// The input schema of a native tool.
pub open spec fn native_schema_model(kind: NativeToolKind) -> JsonModel {
    match kind {
        NativeToolKind::Read => read_schema_model(),
        NativeToolKind::Write => write_schema_model(),
        NativeToolKind::Exec => exec_schema_model(),
        NativeToolKind::Bash => bash_schema_model(),
        NativeToolKind::SpawnTeam => spawn_team_schema_model(),
        NativeToolKind::FetchNews => fetch_news_schema_model(),
        NativeToolKind::FetchCalendar => fetch_calendar_schema_model(),
        NativeToolKind::FetchDashboard => fetch_dashboard_schema_model(),
        NativeToolKind::UpdateDashboard => update_dashboard_schema_model(),
        NativeToolKind::ReusableSkills => reusable_skills_schema_model(),
    }
}

/// The input schema of a native tool.
pub fn native_tool_schema(kind: NativeToolKind) -> (r: Json)
    ensures
        r@ == native_schema_model(kind),
{
    match kind {
        NativeToolKind::Read => read_schema(),
        NativeToolKind::Write => write_schema(),
        NativeToolKind::Exec => exec_schema(),
        NativeToolKind::Bash => bash_schema(),
        NativeToolKind::SpawnTeam => spawn_team_schema(),
        NativeToolKind::FetchNews => fetch_news_schema(),
        NativeToolKind::FetchCalendar => fetch_calendar_schema(),
        NativeToolKind::FetchDashboard => fetch_dashboard_schema(),
        NativeToolKind::UpdateDashboard => update_dashboard_schema(),
        NativeToolKind::ReusableSkills => reusable_skills_schema(),
    }
}

/// The research tools, which read pages and texts for the model.
#[derive(Debug, Clone, Copy, PartialEq, Eq, Structural)]
pub enum ResearchToolKind {
    FetchPage,
    ExtractSignals,
    MemoryLookup,
    SummarizeSources,
}

/// The input schema of `fetch_page`.
pub open spec fn fetch_page_schema_model() -> JsonModel {
    object_schema(seq![("url"@, prop("string"@, "URL cần tải"@))], Some(seq!["url"@]), Some(false))
}

/// The input schema of `extract_signals`.
pub open spec fn extract_signals_schema_model() -> JsonModel {
    object_schema(
        seq![("text"@, prop("string"@, "Đoạn text kỹ thuật cần rút tín hiệu"@))],
        Some(seq!["text"@]),
        Some(false),
    )
}

/// The input schema of `memory_lookup`.
pub open spec fn memory_lookup_schema_model() -> JsonModel {
    object_schema(
        seq![("query"@, prop("string"@, "Từ khoá cần tra trong backend context và history"@))],
        None,
        Some(false),
    )
}

/// The properties in the input schema of `summarize_sources`.
pub open spec fn summarize_sources_props_model() -> Seq<(Seq<char>, JsonModel)> {
    seq![
        ("urls"@, array_prop(kind_only("string"@), "Danh sách URL nguồn"@)),
        ("items"@, array_prop(kind_only("string"@), "Danh sách item nguồn bất kỳ"@)),
        ("text"@, prop("string"@, "Raw text chứa danh sách nguồn, mỗi dòng một item"@)),
    ]
}

/// The input schema of `summarize_sources`.
pub open spec fn summarize_sources_schema_model() -> JsonModel {
    object_schema(summarize_sources_props_model(), None, Some(false))
}

/// The input schema of a research tool.
pub open spec fn research_schema_model(kind: ResearchToolKind) -> JsonModel {
    match kind {
        ResearchToolKind::FetchPage => fetch_page_schema_model(),
        ResearchToolKind::ExtractSignals => extract_signals_schema_model(),
        ResearchToolKind::MemoryLookup => memory_lookup_schema_model(),
        ResearchToolKind::SummarizeSources => summarize_sources_schema_model(),
    }
}

/// The input schema of a research tool, as the model is told of it.
pub fn research_tool_schema(kind: ResearchToolKind) -> (r: Json)
    ensures
        r@ == research_schema_model(kind),
{
    let mut props = empty_members();
    match kind {
        ResearchToolKind::FetchPage => {
            push_member(&mut props, "url", prop_value("string", "URL cần tải"));
            assert(members_model(props@) =~= seq![("url"@, prop("string"@, "URL cần tải"@))]);
            let required: Vec<&str> = vec!["url"];
            assert(str_views(required@) =~= seq!["url"@]);
            object_schema_value(props, Some(required), Some(false))
        },
        ResearchToolKind::ExtractSignals => {
            push_member(&mut props, "text", prop_value("string", "Đoạn text kỹ thuật cần rút tín hiệu"));
            assert(members_model(props@) =~= seq![
                ("text"@, prop("string"@, "Đoạn text kỹ thuật cần rút tín hiệu"@)),
            ]);
            let required: Vec<&str> = vec!["text"];
            assert(str_views(required@) =~= seq!["text"@]);
            object_schema_value(props, Some(required), Some(false))
        },
        ResearchToolKind::MemoryLookup => {
            push_member(
                &mut props,
                "query",
                prop_value("string", "Từ khoá cần tra trong backend context và history"),
            );
            assert(members_model(props@) =~= seq![
                ("query"@, prop("string"@, "Từ khoá cần tra trong backend context và history"@)),
            ]);
            object_schema_value(props, None, Some(false))
        },
        ResearchToolKind::SummarizeSources => {
            push_member(&mut props, "urls", array_prop_value(kind_only_value("string"), "Danh sách URL nguồn"));
            push_member(
                &mut props,
                "items",
                array_prop_value(kind_only_value("string"), "Danh sách item nguồn bất kỳ"),
            );
            push_member(
                &mut props,
                "text",
                prop_value("string", "Raw text chứa danh sách nguồn, mỗi dòng một item"),
            );
            assert(members_model(props@) =~= summarize_sources_props_model());
            object_schema_value(props, None, Some(false))
        },
    }
}

} // verus!
