//! What the `reusable_skills` tool reports for each of its actions, once the
//! file system has been read or written.
use vstd::prelude::*;

use crate::json::{
    array_of, items_model, members_model, object_of, string_value, Json, JsonModel, JsonNumber,
    NumberModel,
};
use crate::text::{concat2, decimal, decimal_string, lex_less, lex_lt, chars_of};
use crate::tools::SkillMatchKind;

verus! {

broadcast use vstd::string::group_string_axioms;

/// A learned skill as the listing shows it.
#[derive(Debug, Clone)]
pub struct SkillListEntry {
    pub name: String,
    pub file: String,
    pub size_bytes: u64,
    pub summary: String,
}

/// A learned skill found to fit a URL, with its text.
#[derive(Debug, Clone)]
pub struct SkillMatchEntry {
    pub name: String,
    pub file: String,
    pub content: String,
    pub kind: SkillMatchKind,
}

/// A string value.
pub open spec fn jstr(s: Seq<char>) -> JsonModel {
    JsonModel::Str(s)
}

/// What saving the skill `name` to `file` reports; `existed` tells whether
/// the file was there before.
pub open spec fn save_result(name: Seq<char>, file: Seq<char>, existed: bool) -> JsonModel {
    JsonModel::Object(
        seq![
            ("action"@, jstr("save"@)),
            ("created"@, JsonModel::Bool(!existed)),
            ("file"@, jstr(file)),
            ("message"@, jstr(
                if existed {
                    "Đã cập nhật skill `"@ + name + "`"@
                } else {
                    "Đã tạo skill mới `"@ + name + "`"@
                },
            )),
            ("name"@, jstr(name)),
            ("ok"@, JsonModel::Bool(true)),
        ],
    )
}

/// What saving a skill reports.
pub fn skill_save_result(name: &str, file: &str, existed: bool) -> (r: Json)
    ensures
        r@ == save_result(name@, file@, existed),
{
    let mut message = if existed {
        concat2("Đã cập nhật skill `", name)
    } else {
        concat2("Đã tạo skill mới `", name)
    };
    crate::text::append_str(&mut message, "`");
    let mut m: Vec<(String, Json)> = Vec::new();
    m.push(("action".to_string(), string_value("save")));
    m.push(("created".to_string(), Json::Bool(!existed)));
    m.push(("file".to_string(), string_value(file)));
    m.push(("message".to_string(), Json::Str(message)));
    m.push(("name".to_string(), string_value(name)));
    m.push(("ok".to_string(), Json::Bool(true)));
    proof {
        assert(members_model(m@) =~= save_result(name@, file@, existed)->Object_0);
    }
    object_of(m)
}

/// What loading the skill `name` reports: its text when the file was there.
pub open spec fn load_result(name: Seq<char>, content: Option<Seq<char>>) -> JsonModel {
    match content {
        Some(c) => JsonModel::Object(
            seq![
                ("action"@, jstr("load"@)),
                ("content"@, jstr(c)),
                ("found"@, JsonModel::Bool(true)),
                ("name"@, jstr(name)),
                ("ok"@, JsonModel::Bool(true)),
            ],
        ),
        None => JsonModel::Object(
            seq![
                ("action"@, jstr("load"@)),
                ("found"@, JsonModel::Bool(false)),
                ("message"@, jstr("Chưa có learned skill `"@ + name + "`"@)),
                ("name"@, jstr(name)),
                ("ok"@, JsonModel::Bool(false)),
            ],
        ),
    }
}

/// What loading a skill reports; `content` is `None` when no file holds it.
pub fn skill_load_result(name: &str, content: Option<String>) -> (r: Json)
    ensures
        r@ == load_result(
            name@,
            match content {
                Some(c) => Some(c@),
                None => None,
            },
        ),
{
    let mut m: Vec<(String, Json)> = Vec::new();
    m.push(("action".to_string(), string_value("load")));
    match content {
        Some(c) => {
            let ghost cv = c@;
            m.push(("content".to_string(), Json::Str(c)));
            m.push(("found".to_string(), Json::Bool(true)));
            m.push(("name".to_string(), string_value(name)));
            m.push(("ok".to_string(), Json::Bool(true)));
            proof {
                assert(members_model(m@) =~= load_result(name@, Some(cv))->Object_0);
            }
        },
        None => {
            let mut message = concat2("Chưa có learned skill `", name);
            crate::text::append_str(&mut message, "`");
            m.push(("found".to_string(), Json::Bool(false)));
            m.push(("message".to_string(), Json::Str(message)));
            m.push(("name".to_string(), string_value(name)));
            m.push(("ok".to_string(), Json::Bool(false)));
            proof {
                assert(members_model(m@) =~= load_result(name@, None)->Object_0);
            }
        },
    }
    object_of(m)
}

/// What deleting the skill `name` reports; `existed` tells whether a file
/// held it.
pub open spec fn delete_result(name: Seq<char>, existed: bool) -> JsonModel {
    JsonModel::Object(
        seq![
            ("action"@, jstr("delete"@)),
            ("message"@, jstr(
                if existed {
                    "Đã xoá skill `"@ + name + "`"@
                } else {
                    "Không tìm thấy skill `"@ + name + "` để xoá"@
                },
            )),
            ("name"@, jstr(name)),
            ("ok"@, JsonModel::Bool(existed)),
        ],
    )
}

/// What deleting a skill reports.
pub fn skill_delete_result(name: &str, existed: bool) -> (r: Json)
    ensures
        r@ == delete_result(name@, existed),
{
    let message = if existed {
        let mut t = concat2("Đã xoá skill `", name);
        crate::text::append_str(&mut t, "`");
        t
    } else {
        let mut t = concat2("Không tìm thấy skill `", name);
        crate::text::append_str(&mut t, "` để xoá");
        t
    };
    let mut m: Vec<(String, Json)> = Vec::new();
    m.push(("action".to_string(), string_value("delete")));
    m.push(("message".to_string(), Json::Str(message)));
    m.push(("name".to_string(), string_value(name)));
    m.push(("ok".to_string(), Json::Bool(existed)));
    proof {
        assert(members_model(m@) =~= delete_result(name@, existed)->Object_0);
    }
    object_of(m)
}

/// How a match is labelled.
pub open spec fn match_label(kind: SkillMatchKind) -> Seq<char> {
    match kind {
        SkillMatchKind::Name => "name"@,
        SkillMatchKind::Content => "content"@,
    }
}

/// One found skill as the match result lists it.
pub open spec fn match_item(e: SkillMatchEntry) -> JsonModel {
    JsonModel::Object(
        seq![
            ("content"@, jstr(e.content@)),
            ("file"@, jstr(e.file@)),
            ("match_type"@, jstr(match_label(e.kind))),
            ("name"@, jstr(e.name@)),
        ],
    )
}

/// What matching `url` against the learned skills reports: the skills that
/// fit, in the order found, or a hint to write one.
pub open spec fn match_result(url: Seq<char>, found: Seq<SkillMatchEntry>) -> JsonModel {
    if found.len() == 0 {
        JsonModel::Object(
            seq![
                ("action"@, jstr("match"@)),
                ("found"@, JsonModel::Bool(false)),
                ("message"@, jstr(
                    "Chưa có learned skill phù hợp cho `"@ + url
                        + "`. Hãy tạo skill mới sau khi xong."@,
                )),
                ("ok"@, JsonModel::Bool(true)),
                ("url"@, jstr(url)),
            ],
        )
    } else {
        JsonModel::Object(
            seq![
                ("action"@, jstr("match"@)),
                ("found"@, JsonModel::Bool(true)),
                ("matches"@, JsonModel::Array(found.map_values(|e: SkillMatchEntry| match_item(e)))),
                ("message"@, jstr(
                    "Tìm thấy "@ + decimal(found.len()) + " skill phù hợp. Đọc content để tái sử dụng."@,
                )),
                ("ok"@, JsonModel::Bool(true)),
                ("url"@, jstr(url)),
            ],
        )
    }
}

/// One found skill as a JSON value.
fn match_item_value(e: &SkillMatchEntry) -> (r: Json)
    ensures
        r@ == match_item(*e),
{
    let label = match e.kind {
        SkillMatchKind::Name => "name",
        SkillMatchKind::Content => "content",
    };
    let mut m: Vec<(String, Json)> = Vec::new();
    m.push(("content".to_string(), string_value(e.content.as_str())));
    m.push(("file".to_string(), string_value(e.file.as_str())));
    m.push(("match_type".to_string(), string_value(label)));
    m.push(("name".to_string(), string_value(e.name.as_str())));
    proof {
        assert(members_model(m@) =~= match_item(*e)->Object_0);
    }
    object_of(m)
}

/// What matching a URL against the learned skills reports.
pub fn skill_match_result(url: &str, found: &Vec<SkillMatchEntry>) -> (r: Json)
    ensures
        r@ == match_result(url@, found@),
{
    let mut m: Vec<(String, Json)> = Vec::new();
    m.push(("action".to_string(), string_value("match")));
    if found.len() == 0 {
        let mut message = concat2("Chưa có learned skill phù hợp cho `", url);
        crate::text::append_str(&mut message, "`. Hãy tạo skill mới sau khi xong.");
        m.push(("found".to_string(), Json::Bool(false)));
        m.push(("message".to_string(), Json::Str(message)));
        m.push(("ok".to_string(), Json::Bool(true)));
        m.push(("url".to_string(), string_value(url)));
        proof {
            assert(members_model(m@) =~= match_result(url@, found@)->Object_0);
        }
        return object_of(m);
    }
    let mut items: Vec<Json> = Vec::new();
    let mut i: usize = 0;
    while i < found.len()
        invariant
            i <= found@.len(),
            items_model(items@) == found@.take(i as int).map_values(
                |e: SkillMatchEntry| match_item(e),
            ),
        decreases found@.len() - i,
    {
        let ghost before = items@;
        items.push(match_item_value(&found[i]));
        proof {
            assert(items_model(items@) =~= items_model(before).push(match_item(found@[i as int])));
            assert(items_model(items@) =~= found@.take(i + 1).map_values(
                |e: SkillMatchEntry| match_item(e),
            ));
        }
        i = i + 1;
    }
    proof {
        assert(found@.take(i as int) =~= found@);
    }
    let mut message = concat2("Tìm thấy ", decimal_string(found.len()).as_str());
    crate::text::append_str(&mut message, " skill phù hợp. Đọc content để tái sử dụng.");
    m.push(("found".to_string(), Json::Bool(true)));
    m.push(("matches".to_string(), array_of(items)));
    m.push(("message".to_string(), Json::Str(message)));
    m.push(("ok".to_string(), Json::Bool(true)));
    m.push(("url".to_string(), string_value(url)));
    proof {
        assert(members_model(m@) =~= match_result(url@, found@)->Object_0);
    }
    object_of(m)
}

/// Where an entry goes in a list kept in order of names: after every entry
/// whose name does not sort after it, scanning from the end.
pub open spec fn name_insert_pos(s: Seq<SkillListEntry>, x: SkillListEntry) -> int
    decreases s.len(),
{
    if s.len() == 0 {
        0
    } else if !lex_lt(x.name@, s.last().name@) {
        s.len() as int
    } else {
        name_insert_pos(s.drop_last(), x)
    }
}

/// The entries in order of their names; entries with equal names keep their
/// order (a stable insertion sort).
pub open spec fn by_name(s: Seq<SkillListEntry>) -> Seq<SkillListEntry>
    decreases s.len(),
{
    if s.len() == 0 {
        seq![]
    } else {
        let r = by_name(s.drop_last());
        r.insert(name_insert_pos(r, s.last()), s.last())
    }
}

/// The entries are in order of their names.
pub open spec fn sorted_by_name(s: Seq<SkillListEntry>) -> bool {
    forall|i: int, j: int|
        0 <= i < j < s.len() ==> !lex_lt((#[trigger] s[j]).name@, (#[trigger] s[i]).name@)
}

/// One listed skill as the listing shows it.
pub open spec fn list_item(e: SkillListEntry) -> JsonModel {
    JsonModel::Object(
        seq![
            ("file"@, jstr(e.file@)),
            ("name"@, jstr(e.name@)),
            ("size_bytes"@, JsonModel::Number(NumberModel::PosInt(e.size_bytes as nat))),
            ("summary"@, jstr(e.summary@)),
        ],
    )
}

/// What listing the learned skills reports: how many there are and each of
/// them, in order of their names.
pub open spec fn list_result(entries: Seq<SkillListEntry>) -> JsonModel {
    JsonModel::Object(
        seq![
            ("action"@, jstr("list"@)),
            ("count"@, JsonModel::Number(NumberModel::PosInt(entries.len()))),
            ("ok"@, JsonModel::Bool(true)),
            ("skills"@, JsonModel::Array(
                by_name(entries).map_values(|e: SkillListEntry| list_item(e)),
            )),
        ],
    )
}

proof fn lemma_name_insert_pos_bounds(s: Seq<SkillListEntry>, x: SkillListEntry)
    ensures
        0 <= name_insert_pos(s, x) <= s.len(),
        forall|k: int|
            name_insert_pos(s, x) <= k < s.len() ==> lex_lt(x.name@, (#[trigger] s[k]).name@),
        name_insert_pos(s, x) > 0 ==> !lex_lt(x.name@, s[name_insert_pos(s, x) - 1].name@),
    decreases s.len(),
{
    if s.len() > 0 && lex_lt(x.name@, s.last().name@) {
        lemma_name_insert_pos_bounds(s.drop_last(), x);
        assert forall|k: int| name_insert_pos(s, x) <= k < s.len() implies lex_lt(
            x.name@,
            (#[trigger] s[k]).name@,
        ) by {
            if k < s.len() - 1 {
                assert(s.drop_last()[k] == s[k]);
            }
        }
        if name_insert_pos(s, x) > 0 {
            assert(s.drop_last()[name_insert_pos(s, x) - 1] == s[name_insert_pos(s, x) - 1]);
        }
    }
}

/// A copy of a listed skill.
fn copy_entry(e: &SkillListEntry) -> (r: SkillListEntry)
    ensures
        r == *e,
{
    SkillListEntry {
        name: e.name.clone(),
        file: e.file.clone(),
        size_bytes: e.size_bytes,
        summary: e.summary.clone(),
    }
}

/// The entries in order of their names, equal names keeping their order.
pub fn sort_by_name(entries: &Vec<SkillListEntry>) -> (r: Vec<SkillListEntry>)
    ensures
        r@ == by_name(entries@),
{
    let mut r: Vec<SkillListEntry> = Vec::new();
    let mut i: usize = 0;
    while i < entries.len()
        invariant
            i <= entries@.len(),
            r@ == by_name(entries@.take(i as int)),
        decreases entries@.len() - i,
    {
        let x = copy_entry(&entries[i]);
        let key = chars_of(x.name.as_str());
        let mut j: usize = r.len();
        proof {
            assert(r@.take(j as int) =~= r@);
        }
        while j > 0 && lex_less(&key, &chars_of(r[j - 1].name.as_str()))
            invariant
                j <= r@.len(),
                key@ == x.name@,
                name_insert_pos(r@, x) == name_insert_pos(r@.take(j as int), x),
            decreases j,
        {
            proof {
                assert(r@.take(j as int).drop_last() =~= r@.take(j - 1));
                assert(r@.take(j as int).last() == r@[j - 1]);
            }
            j = j - 1;
        }
        proof {
            if j > 0 {
                assert(r@.take(j as int).last() == r@[j - 1]);
            }
            assert(name_insert_pos(r@, x) == j);
            assert(entries@.take(i + 1).drop_last() =~= entries@.take(i as int));
            assert(entries@.take(i + 1).last() == entries@[i as int]);
        }
        r.insert(j, x);
        i = i + 1;
    }
    proof {
        assert(entries@.take(entries@.len() as int) =~= entries@);
    }
    r
}

/// One listed skill as a JSON value.
fn list_item_value(e: &SkillListEntry) -> (r: Json)
    ensures
        r@ == list_item(*e),
{
    let mut m: Vec<(String, Json)> = Vec::new();
    m.push(("file".to_string(), string_value(e.file.as_str())));
    m.push(("name".to_string(), string_value(e.name.as_str())));
    m.push(("size_bytes".to_string(), Json::Number(JsonNumber::PosInt(e.size_bytes))));
    m.push(("summary".to_string(), string_value(e.summary.as_str())));
    proof {
        assert(members_model(m@) =~= list_item(*e)->Object_0);
    }
    object_of(m)
}

/// What listing the learned skills reports, the skills sorted by name.
pub fn skill_list_result(entries: &Vec<SkillListEntry>) -> (r: Json)
    ensures
        r@ == list_result(entries@),
{
    let sorted = sort_by_name(entries);
    let mut items: Vec<Json> = Vec::new();
    let mut i: usize = 0;
    while i < sorted.len()
        invariant
            i <= sorted@.len(),
            items_model(items@) == sorted@.take(i as int).map_values(
                |e: SkillListEntry| list_item(e),
            ),
        decreases sorted@.len() - i,
    {
        let ghost before = items@;
        items.push(list_item_value(&sorted[i]));
        proof {
            assert(items_model(items@) =~= items_model(before).push(list_item(sorted@[i as int])));
            assert(items_model(items@) =~= sorted@.take(i + 1).map_values(
                |e: SkillListEntry| list_item(e),
            ));
        }
        i = i + 1;
    }
    proof {
        assert(sorted@.take(i as int) =~= sorted@);
    }
    let mut m: Vec<(String, Json)> = Vec::new();
    m.push(("action".to_string(), string_value("list")));
    m.push(("count".to_string(), Json::Number(JsonNumber::PosInt(entries.len() as u64))));
    m.push(("ok".to_string(), Json::Bool(true)));
    m.push(("skills".to_string(), array_of(items)));
    proof {
        assert(members_model(m@) =~= list_result(entries@)->Object_0);
    }
    object_of(m)
}

/// The listing shows the learned skills in order of their names.
pub proof fn law_listing_sorted_by_name(s: Seq<SkillListEntry>)
    ensures
        sorted_by_name(by_name(s)),
    decreases s.len(),
{
    if s.len() > 0 {
        let r = by_name(s.drop_last());
        let x = s.last();
        law_listing_sorted_by_name(s.drop_last());
        lemma_name_insert_pos_bounds(r, x);
        let p = name_insert_pos(r, x);
        let out = r.insert(p, x);
        assert forall|i: int, j: int| 0 <= i < j < out.len() implies !lex_lt(
            (#[trigger] out[j]).name@,
            (#[trigger] out[i]).name@,
        ) by {
            if j < p {
                assert(out[i] == r[i] && out[j] == r[j]);
            } else if j == p {
                assert(out[i] == r[i]);
                // x does not sort before r[p - 1], which does not sort before r[i]
                if i < p - 1 {
                    assert(!lex_lt(r[p - 1].name@, r[i].name@));
                }
                if lex_lt(x.name@, r[i].name@) {
                    crate::text::lemma_lex_total(r[i].name@, r[p - 1].name@);
                    if lex_lt(r[i].name@, r[p - 1].name@) {
                        crate::text::lemma_lex_transitive(x.name@, r[i].name@, r[p - 1].name@);
                    }
                }
            } else if i < p {
                assert(out[i] == r[i] && out[j] == r[j - 1]);
            } else if i == p {
                assert(out[j] == r[j - 1]);
                crate::text::lemma_lex_total(x.name@, r[j - 1].name@);
                crate::text::lemma_lex_irreflexive(x.name@);
                if lex_lt(r[j - 1].name@, x.name@) {
                    crate::text::lemma_lex_transitive(x.name@, r[j - 1].name@, x.name@);
                }
            } else {
                assert(out[i] == r[i - 1] && out[j] == r[j - 1]);
            }
        }
    }
}

/// The listing neither loses nor repeats a skill.
pub proof fn law_listing_is_permutation(s: Seq<SkillListEntry>)
    ensures
        by_name(s).to_multiset() == s.to_multiset(),
    decreases s.len(),
{
    broadcast use vstd::seq_lib::group_to_multiset_ensures;

    if s.len() == 0 {
        assert(by_name(s) =~= s);
    } else {
        let r = by_name(s.drop_last());
        law_listing_is_permutation(s.drop_last());
        lemma_name_insert_pos_bounds(r, s.last());
        assert(s =~= s.drop_last().push(s.last()));
    }
}

} // verus!
