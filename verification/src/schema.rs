//! The input schemas of tools as the OpenAI protocol takes them in strict mode.
use vstd::prelude::*;
use crate::json::{
    copy_members, field, find_member, first_index, get_field, insert_member, insert_member_exec,
    lemma_first_index, lemma_items_model, lemma_members_model, lemma_no_index, members_model,
    model_keys, Json, JsonModel, lemma_insert_member_found, lemma_insert_member_twice,
    lemma_insert_member_other,
};
use crate::text::str_eq;

verus! {

/// Whether `kinds` holds the string `"null"`.
pub open spec fn has_null_kind(kinds: Seq<JsonModel>) -> bool {
    exists|i: int| 0 <= i < kinds.len() && kinds[i] == JsonModel::Str("null"@)
}

/// A schema that also admits `null`: an object whose `type` is a string other
/// than `"null"` gets that string and `"null"` as its types; one whose `type`
/// is a list gets `"null"` added where it lacks it; anything else stays.
pub open spec fn nullable(j: JsonModel) -> JsonModel {
    match j {
        JsonModel::Object(m) => match field(j, "type"@) {
            Some(JsonModel::Str(kind)) => if kind != "null"@ {
                JsonModel::Object(
                    insert_member(
                        m,
                        "type"@,
                        JsonModel::Array(seq![JsonModel::Str(kind), JsonModel::Str("null"@)]),
                    ),
                )
            } else {
                j
            },
            Some(JsonModel::Array(kinds)) => {
                let with_null = if has_null_kind(kinds) {
                    kinds
                } else {
                    kinds.push(JsonModel::Str("null"@))
                };
                JsonModel::Object(insert_member(m, "type"@, JsonModel::Array(with_null)))
            },
            _ => j,
        },
        _ => j,
    }
}

/// The names that the `required` list of a schema holds.
pub open spec fn required_names(j: Option<JsonModel>) -> Set<Seq<char>> {
    match j {
        Some(JsonModel::Array(items)) => Set::new(
            |s: Seq<char>| exists|i: int| 0 <= i < items.len() && items[i] == JsonModel::Str(s),
        ),
        _ => Set::empty(),
    }
}

/// The property `p` of a schema after normalizing, `required` or not.
pub open spec fn normalized_property(p: JsonModel, required: bool) -> JsonModel {
    if required {
        p
    } else {
        nullable(p)
    }
}

/// The properties of an object schema after normalizing: each normalized, and
/// made nullable where `required` does not name it.
pub open spec fn normalized_properties(
    props: Seq<(Seq<char>, JsonModel)>,
    required: Set<Seq<char>>,
) -> Seq<(Seq<char>, JsonModel)>
    decreases props,
{
    Seq::new(
        props.len(),
        |k: int|
            if 0 <= k < props.len() {
                (
                    props[k].0,
                    normalized_property(normalized(props[k].1), required.contains(props[k].0)),
                )
            } else {
                (Seq::empty(), JsonModel::Null)
            },
    )
}

/// The names of the properties, as a list of strings.
pub open spec fn property_names(props: Seq<(Seq<char>, JsonModel)>) -> Seq<JsonModel> {
    Seq::new(props.len(), |k: int| JsonModel::Str(props[k].0))
}

/// The items of a list after normalizing each.
pub open spec fn normalized_items(items: Seq<JsonModel>) -> Seq<JsonModel>
    decreases items,
{
    Seq::new(
        items.len(),
        |i: int|
            if 0 <= i < items.len() {
                normalized(items[i])
            } else {
                JsonModel::Null
            },
    )
}

/// A schema as strict mode takes it. Its `items` are normalized; an object
/// schema with `properties` gets each property normalized (and made nullable
/// where it was not required), every property listed as required, and
/// `additionalProperties` set to `false` where it was not set; the items of a
/// list are normalized; anything else stays.
pub open spec fn normalized(j: JsonModel) -> JsonModel
    decreases j,
{
    match j {
        JsonModel::Object(m) => {
            let ii = first_index(model_keys(m), "items"@);
            let m1 = if 0 <= ii < m.len() {
                insert_member(m, "items"@, normalized(m[ii].1))
            } else {
                m
            };
            let pi = first_index(model_keys(m), "properties"@);
            if field(j, "type"@) == Some(JsonModel::Str("object"@)) && 0 <= pi < m.len()
                && m[pi].1 is Object {
                let props = m[pi].1->Object_0;
                let m2 = insert_member(
                    insert_member(
                        m1,
                        "properties"@,
                        JsonModel::Object(
                            normalized_properties(props, required_names(field(j, "required"@))),
                        ),
                    ),
                    "required"@,
                    JsonModel::Array(property_names(props)),
                );
                if 0 <= first_index(model_keys(m2), "additionalProperties"@) {
                    JsonModel::Object(m2)
                } else {
                    JsonModel::Object(m2.push(("additionalProperties"@, JsonModel::Bool(false))))
                }
            } else {
                JsonModel::Object(m1)
            }
        },
        JsonModel::Array(items) => JsonModel::Array(normalized_items(items)),
        _ => j,
    }
}

/// Whether some item of `kinds` is the string `"null"`.
fn kinds_have_null(kinds: &Vec<Json>) -> (r: bool)
    ensures
        r == has_null_kind(Json::Array(*kinds)@->Array_0),
{
    proof {
        lemma_items_model(*kinds);
    }
    let ghost items = Json::Array(*kinds)@->Array_0;
    let mut i: usize = 0;
    while i < kinds.len()
        invariant
            items == Json::Array(*kinds)@->Array_0,
            items.len() == kinds@.len(),
            forall|k: int| 0 <= k < items.len() ==> items[k] == kinds@[k]@,
            i <= kinds@.len(),
            forall|k: int| 0 <= k < i ==> items[k] != JsonModel::Str("null"@),
        decreases kinds@.len() - i,
    {
        match &kinds[i] {
            Json::Str(s) => {
                if str_eq(s.as_str(), "null") {
                    assert(items[i as int] == JsonModel::Str("null"@));
                    return true;
                }
            },
            _ => {},
        }
        i = i + 1;
    }
    false
}

/// The schema made to admit `null` as well, as `nullable` says.
pub fn make_schema_nullable(schema: Json) -> (r: Json)
    ensures
        r@ == nullable(schema@),
{
    let kind = match get_field(&schema, "type") {
        Some(k) => Some(k.copy()),
        None => None,
    };
    match schema {
        Json::Object(m) => {
            let mut m = m;
            proof {
                lemma_members_model(m);
            }
            match kind {
                Some(Json::Str(k)) => {
                    if str_eq(k.as_str(), "null") {
                        Json::Object(m)
                    } else {
                        let ghost kv = k@;
                        let mut kinds: Vec<Json> = Vec::new();
                        kinds.push(Json::Str(k));
                        kinds.push(Json::Str("null".to_string()));
                        proof {
                            lemma_items_model(kinds);
                            assert(Json::Array(kinds)@->Array_0 =~= seq![
                                JsonModel::Str(kv),
                                JsonModel::Str("null"@),
                            ]);
                        }
                        insert_member_exec(&mut m, "type", Json::Array(kinds));
                        proof {
                            lemma_members_model(m);
                        }
                        Json::Object(m)
                    }
                },
                Some(Json::Array(kinds)) => {
                    let mut kinds = kinds;
                    let ghost before = Json::Array(kinds)@->Array_0;
                    if !kinds_have_null(&kinds) {
                        proof {
                            lemma_items_model(kinds);
                        }
                        kinds.push(Json::Str("null".to_string()));
                        proof {
                            lemma_items_model(kinds);
                            assert(Json::Array(kinds)@->Array_0 =~= before.push(
                                JsonModel::Str("null"@),
                            ));
                        }
                    }
                    insert_member_exec(&mut m, "type", Json::Array(kinds));
                    proof {
                        lemma_members_model(m);
                    }
                    Json::Object(m)
                },
                _ => Json::Object(m),
            }
        },
        other => other,
    }
}

/// Whether the `required` list of `schema` names `name`.
fn required_contains(schema: &Json, name: &str) -> (r: bool)
    ensures
        r == required_names(field(schema@, "required"@)).contains(name@),
{
    match get_field(schema, "required") {
        Some(Json::Array(items)) => {
            proof {
                lemma_items_model(*items);
            }
            let ghost model_items = Json::Array(*items)@->Array_0;
            let mut i: usize = 0;
            while i < items.len()
                invariant
                    model_items == Json::Array(*items)@->Array_0,
                    field(schema@, "required"@) == Some(Json::Array(*items)@),
                    model_items.len() == items@.len(),
                    forall|k: int| 0 <= k < model_items.len() ==> model_items[k] == items@[k]@,
                    i <= items@.len(),
                    forall|k: int| 0 <= k < i ==> model_items[k] != JsonModel::Str(name@),
                decreases items@.len() - i,
            {
                match &items[i] {
                    Json::Str(s) => {
                        if str_eq(s.as_str(), name) {
                            assert(model_items[i as int] == JsonModel::Str(name@));
                            assert(exists|q: int|
                                0 <= q < model_items.len() && model_items[q] == JsonModel::Str(
                                    name@,
                                ));
                            return true;
                        }
                    },
                    _ => {},
                }
                i = i + 1;
            }
            false
        },
        _ => false,
    }
}

/// The schema of a tool as strict mode takes it, as `normalized` says.
pub fn normalize_openai_tool_schema(schema: &Json) -> (r: Json)
    ensures
        r@ == normalized(schema@),
    decreases schema,
{
    match schema {
        Json::Object(m) => {
            proof {
                lemma_members_model(*m);
            }
            let ghost mm = members_model(m@);
            let mut out = copy_members(m);
            match find_member(m, "items") {
                Some(ii) => {
                    proof {
                        lemma_first_index(model_keys(mm), "items"@, ii as int);
                        vstd::std_specs::vec::axiom_vec_index_decreases(*m, ii as int);
                        assert(decreases_to!(*schema => (*schema)->Object_0));
                        assert(decreases_to!(m@[ii as int] => m@[ii as int].1));
                    }
                    let n = normalize_openai_tool_schema(&m[ii].1);
                    insert_member_exec(&mut out, "items", n);
                },
                None => {
                    proof {
                        lemma_no_index(model_keys(mm), "items"@);
                    }
                },
            }
            let is_object_type = match get_field(schema, "type") {
                Some(Json::Str(t)) => str_eq(t.as_str(), "object"),
                _ => false,
            };
            if is_object_type {
                match find_member(m, "properties") {
                    Some(pi) => {
                        proof {
                            lemma_first_index(model_keys(mm), "properties"@, pi as int);
                        }
                        match &m[pi].1 {
                            Json::Object(props) => {
                                proof {
                                    lemma_members_model(*props);
                                }
                                let ghost pm = members_model(props@);
                                let ghost req = required_names(field(schema@, "required"@));
                                let mut rewritten: Vec<(String, Json)> = Vec::new();
                                let mut names: Vec<Json> = Vec::new();
                                let mut k: usize = 0;
                                while k < props.len()
                                    invariant
                                        *schema == Json::Object(*m),
                                        pi < m@.len(),
                                        m@[pi as int].1 == Json::Object(*props),
                                        pm == members_model(props@),
                                        req == required_names(field(schema@, "required"@)),
                                        k <= props@.len(),
                                        rewritten@.len() == k,
                                        names@.len() == k,
                                        forall|q: int|
                                            0 <= q < k ==> (#[trigger] rewritten@[q]).0@ == pm[q].0
                                                && rewritten@[q].1@ == normalized_property(
                                                normalized(pm[q].1),
                                                req.contains(pm[q].0),
                                            ),
                                        forall|q: int|
                                            0 <= q < k ==> (#[trigger] names@[q])@ == JsonModel::Str(
                                                pm[q].0,
                                            ),
                                    decreases props@.len() - k,
                                {
                                    proof {
                                        vstd::std_specs::vec::axiom_vec_index_decreases(
                                            *m,
                                            pi as int,
                                        );
                                        vstd::std_specs::vec::axiom_vec_index_decreases(
                                            *props,
                                            k as int,
                                        );
                                        assert(decreases_to!(*schema => (*schema)->Object_0));
                                        assert(decreases_to!(m@[pi as int] => m@[pi as int].1));
                                        assert(decreases_to!(m@[pi as int].1 => (m@[pi as int].1)->Object_0));
                                        assert(decreases_to!(props@[k as int] => props@[k as int].1));
                                    }
                                    let p = normalize_openai_tool_schema(&props[k].1);
                                    let p = if required_contains(schema, props[k].0.as_str()) {
                                        p
                                    } else {
                                        make_schema_nullable(p)
                                    };
                                    rewritten.push((props[k].0.clone(), p));
                                    names.push(Json::Str(props[k].0.clone()));
                                    k = k + 1;
                                }
                                proof {
                                    lemma_members_model(rewritten);
                                    lemma_items_model(names);
                                }
                                let ghost rewritten_model = Json::Object(rewritten)@;
                                let ghost names_model = Json::Array(names)@;
                                insert_member_exec(&mut out, "properties", Json::Object(rewritten));
                                insert_member_exec(&mut out, "required", Json::Array(names));
                                let ghost after_required = members_model(out@);
                                proof {
                                    lemma_members_model(out);
                                }
                                match find_member(&out, "additionalProperties") {
                                    Some(ai) => {
                                        proof {
                                            lemma_first_index(
                                                model_keys(members_model(out@)),
                                                "additionalProperties"@,
                                                ai as int,
                                            );
                                        }
                                    },
                                    None => {
                                        proof {
                                            lemma_no_index(
                                                model_keys(members_model(out@)),
                                                "additionalProperties"@,
                                            );
                                        }
                                        let ghost before = members_model(out@);
                                        out.push(("additionalProperties".to_string(), Json::Bool(false)));
                                        proof {
                                            assert(members_model(out@) =~= before.push(
                                                ("additionalProperties"@, JsonModel::Bool(false)),
                                            ));
                                        }
                                    },
                                }
                                proof {
                                    lemma_members_model(out);
                                    assert(rewritten_model->Object_0 =~= normalized_properties(pm, req));
                                    assert(names_model->Array_0 =~= property_names(pm));
                                    let ai_idx = first_index(model_keys(after_required), "additionalProperties"@);
                                    let fin = if 0 <= ai_idx {
                                        after_required
                                    } else {
                                        after_required.push(("additionalProperties"@, JsonModel::Bool(false)))
                                    };
                                    assert(members_model(out@) == fin);
                                    assert(normalized(schema@) == JsonModel::Object(fin));
                                }
                                return Json::Object(out);
                            },
                            _ => {},
                        }
                    },
                    None => {
                        proof {
                            lemma_no_index(model_keys(mm), "properties"@);
                        }
                    },
                }
            }
            proof {
                lemma_members_model(out);
            }
            Json::Object(out)
        },
        Json::Array(items) => {
            proof {
                lemma_items_model(*items);
            }
            let ghost model_items = schema@->Array_0;
            let mut out: Vec<Json> = Vec::new();
            let mut i: usize = 0;
            while i < items.len()
                invariant
                    *schema == Json::Array(*items),
                    model_items == schema@->Array_0,
                    model_items.len() == items@.len(),
                    forall|k: int| 0 <= k < model_items.len() ==> model_items[k] == items@[k]@,
                    i <= items@.len(),
                    out@.len() == i,
                    forall|k: int|
                        0 <= k < i ==> (#[trigger] out@[k])@ == normalized(model_items[k]),
                decreases items@.len() - i,
            {
                proof {
                    vstd::std_specs::vec::axiom_vec_index_decreases(*items, i as int);
                    assert(decreases_to!(*schema => (*schema)->Array_0));
                }
                out.push(normalize_openai_tool_schema(&items[i]));
                i = i + 1;
            }
            proof {
                lemma_items_model(out);
                assert(Json::Array(out)@->Array_0 =~= normalized_items(model_items));
            }
            Json::Array(out)
        },
        _ => schema.copy(),
    }
}

/// Making a schema nullable twice is making it nullable once.
pub proof fn law_nullable_idempotent(j: JsonModel)
    ensures
        nullable(nullable(j)) == nullable(j),
{
    match j {
        JsonModel::Object(m) => match field(j, "type"@) {
            Some(JsonModel::Str(kind)) => {
                if kind != "null"@ {
                    let v = JsonModel::Array(seq![JsonModel::Str(kind), JsonModel::Str("null"@)]);
                    lemma_insert_member_found(m, "type"@, v);
                    assert(has_null_kind(seq![JsonModel::Str(kind), JsonModel::Str("null"@)])) by {
                        assert(seq![JsonModel::Str(kind), JsonModel::Str("null"@)][1] == JsonModel::Str("null"@));
                    }
                    lemma_insert_member_twice(m, "type"@, v);
                }
            },
            Some(JsonModel::Array(kinds)) => {
                let with_null = if has_null_kind(kinds) {
                    kinds
                } else {
                    kinds.push(JsonModel::Str("null"@))
                };
                let v = JsonModel::Array(with_null);
                lemma_insert_member_found(m, "type"@, v);
                assert(has_null_kind(with_null)) by {
                    if !has_null_kind(kinds) {
                        assert(with_null[kinds.len() as int] == JsonModel::Str("null"@));
                    }
                }
                lemma_insert_member_twice(m, "type"@, v);
            },
            _ => {},
        },
        _ => {},
    }
}

/// A nullable object schema with a type admits `null`: its type is `"null"`
/// or a list that holds `"null"`.
pub proof fn law_nullable_admits_null(j: JsonModel)
    requires
        j is Object,
        field(j, "type"@) matches Some(JsonModel::Str(_)) || field(j, "type"@) matches Some(
            JsonModel::Array(_),
        ),
    ensures
        field(nullable(j), "type"@) == Some(JsonModel::Str("null"@)) || (field(
            nullable(j),
            "type"@,
        ) matches Some(JsonModel::Array(kinds)) && has_null_kind(kinds)),
{
    let m = j->Object_0;
    match field(j, "type"@) {
        Some(JsonModel::Str(kind)) => {
            if kind != "null"@ {
                let v = JsonModel::Array(seq![JsonModel::Str(kind), JsonModel::Str("null"@)]);
                lemma_insert_member_found(m, "type"@, v);
                assert(seq![JsonModel::Str(kind), JsonModel::Str("null"@)][1] == JsonModel::Str("null"@));
            }
        },
        Some(JsonModel::Array(kinds)) => {
            let with_null = if has_null_kind(kinds) {
                kinds
            } else {
                kinds.push(JsonModel::Str("null"@))
            };
            lemma_insert_member_found(m, "type"@, JsonModel::Array(with_null));
            if !has_null_kind(kinds) {
                assert(with_null[kinds.len() as int] == JsonModel::Str("null"@));
            }
        },
        _ => {},
    }
}

/// In strict mode an object schema with properties lists every property as
/// required, in order, and says whether other properties are allowed.
pub proof fn law_strict_schema_requires_every_property(j: JsonModel)
    requires
        j is Object,
        field(j, "type"@) == Some(JsonModel::Str("object"@)),
        field(j, "properties"@) matches Some(JsonModel::Object(_)),
    ensures
        field(normalized(j), "required"@) == Some(
            JsonModel::Array(property_names(field(j, "properties"@)->0->Object_0)),
        ),
        field(normalized(j), "additionalProperties"@) is Some,
{
    let m = j->Object_0;
    let ii = first_index(model_keys(m), "items"@);
    let m1 = if 0 <= ii < m.len() {
        insert_member(m, "items"@, normalized(m[ii].1))
    } else {
        m
    };
    let pi = first_index(model_keys(m), "properties"@);
    let props = m[pi].1->Object_0;
    let m_props = insert_member(
        m1,
        "properties"@,
        JsonModel::Object(normalized_properties(props, required_names(field(j, "required"@)))),
    );
    let names = JsonModel::Array(property_names(props));
    let m2 = insert_member(m_props, "required"@, names);
    lemma_insert_member_found(m_props, "required"@, names);
    if 0 <= first_index(model_keys(m2), "additionalProperties"@) {
        assert(normalized(j) == JsonModel::Object(m2));
        crate::json::lemma_first_index_in_range(model_keys(m2), "additionalProperties"@);
    } else {
        let m3 = m2.push(("additionalProperties"@, JsonModel::Bool(false)));
        assert(normalized(j) == JsonModel::Object(m3));
        crate::json::lemma_no_index_push(m2, "additionalProperties"@, JsonModel::Bool(false));
        lemma_insert_member_other(m2, "additionalProperties"@, JsonModel::Bool(false), "required"@);
        lemma_insert_member_found(m2, "additionalProperties"@, JsonModel::Bool(false));
    }
}

} // verus!
