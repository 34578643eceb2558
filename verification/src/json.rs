//! JSON values as the tool runtime and the provider protocols read them.
use vstd::prelude::*;
use crate::text::str_eq;

verus! {

/// A JSON number as `serde_json` keeps it: a non-negative integer, a negative
/// integer, or any other number by its decimal text.
#[derive(Debug)]
pub enum JsonNumber {
    PosInt(u64),
    NegInt(i64),
    Float(String),
}

/// A JSON value. The members of an object stand in the order in which the
/// object is walked; each key occurs once.
#[derive(Debug)]
pub enum Json {
    Null,
    Bool(bool),
    Number(JsonNumber),
    Str(String),
    Array(Vec<Json>),
    Object(Vec<(String, Json)>),
}

/// The mathematical model of a JSON number.
pub ghost enum NumberModel {
    PosInt(nat),
    NegInt(int),
    Float(Seq<char>),
}

/// The mathematical model of a JSON value.
pub ghost enum JsonModel {
    Null,
    Bool(bool),
    Number(NumberModel),
    Str(Seq<char>),
    Array(Seq<JsonModel>),
    Object(Seq<(Seq<char>, JsonModel)>),
}

impl View for JsonNumber {
    type V = NumberModel;

    open spec fn view(&self) -> NumberModel {
        match self {
            JsonNumber::PosInt(n) => NumberModel::PosInt(*n as nat),
            JsonNumber::NegInt(n) => NumberModel::NegInt(*n as int),
            JsonNumber::Float(t) => NumberModel::Float(t@),
        }
    }
}

/// The model of a value, taken node by node.
pub open spec fn model(j: Json) -> JsonModel
    decreases j,
{
    match j {
        Json::Null => JsonModel::Null,
        Json::Bool(b) => JsonModel::Bool(b),
        Json::Number(n) => JsonModel::Number(n@),
        Json::Str(s) => JsonModel::Str(s@),
        Json::Array(v) => JsonModel::Array(
            Seq::new(
                v@.len(),
                |i: int|
                    if 0 <= i < v@.len() {
                        model(v@[i])
                    } else {
                        JsonModel::Null
                    },
            ),
        ),
        Json::Object(m) => JsonModel::Object(
            Seq::new(
                m@.len(),
                |i: int|
                    if 0 <= i < m@.len() {
                        (m@[i].0@, model(m@[i].1))
                    } else {
                        (Seq::empty(), JsonModel::Null)
                    },
            ),
        ),
    }
}

impl View for Json {
    type V = JsonModel;

    open spec fn view(&self) -> JsonModel {
        model(*self)
    }
}

impl JsonNumber {
    /// A copy of the number.
    pub fn copy(&self) -> (r: JsonNumber)
        ensures
            r@ == self@,
    {
        match self {
            JsonNumber::PosInt(n) => JsonNumber::PosInt(*n),
            JsonNumber::NegInt(n) => JsonNumber::NegInt(*n),
            JsonNumber::Float(t) => JsonNumber::Float(t.clone()),
        }
    }
}

impl Json {
    /// Whether the value is `null`.
    pub fn is_null(&self) -> (r: bool)
        ensures
            r == (self@ is Null),
    {
        match self {
            Json::Null => true,
            _ => false,
        }
    }

    /// A copy of the value, node by node.
    pub fn copy(&self) -> (r: Json)
        ensures
            r@ == self@,
        decreases self,
    {
        match self {
            Json::Null => Json::Null,
            Json::Bool(b) => Json::Bool(*b),
            Json::Number(n) => Json::Number(n.copy()),
            Json::Str(s) => Json::Str(s.clone()),
            Json::Array(v) => {
                let mut out: Vec<Json> = Vec::new();
                let mut i: usize = 0;
                while i < v.len()
                    invariant
                        *self == Json::Array(*v),
                        i <= v@.len(),
                        out@.len() == i,
                        forall|k: int| 0 <= k < i ==> (#[trigger] out@[k])@ == v@[k]@,
                    decreases v@.len() - i,
                {
                    proof {
                        vstd::std_specs::vec::axiom_vec_index_decreases(*v, i as int);
                        assert(decreases_to!(*self => (*self)->Array_0));
                    }
                    let c = v[i].copy();
                    out.push(c);
                    i = i + 1;
                }
                let r = Json::Array(out);
                proof {
                    assert(r@->Array_0 =~= self@->Array_0);
                }
                r
            },
            Json::Object(m) => {
                let mut out: Vec<(String, Json)> = Vec::new();
                let mut i: usize = 0;
                while i < m.len()
                    invariant
                        *self == Json::Object(*m),
                        i <= m@.len(),
                        out@.len() == i,
                        forall|k: int|
                            0 <= k < i ==> (#[trigger] out@[k]).0@ == m@[k].0@ && out@[k].1@
                                == m@[k].1@,
                    decreases m@.len() - i,
                {
                    proof {
                        vstd::std_specs::vec::axiom_vec_index_decreases(*m, i as int);
                        assert(decreases_to!(*self => (*self)->Object_0));
                        assert(decreases_to!(m@[i as int] => m@[i as int].1));
                    }
                    let key = m[i].0.clone();
                    let c = m[i].1.copy();
                    out.push((key, c));
                    i = i + 1;
                }
                let r = Json::Object(out);
                proof {
                    assert(r@->Object_0 =~= self@->Object_0);
                }
                r
            },
        }
    }
}

/// The keys of an object's members, in order.
pub open spec fn model_keys(m: Seq<(Seq<char>, JsonModel)>) -> Seq<Seq<char>> {
    Seq::new(m.len(), |i: int| m[i].0)
}

/// Whether `i` is the first index at which `key` stands in `keys`.
pub open spec fn is_first_index(keys: Seq<Seq<char>>, key: Seq<char>, i: int) -> bool {
    &&& 0 <= i < keys.len()
    &&& keys[i] == key
    &&& forall|j: int| 0 <= j < i ==> keys[j] != key
}

/// The first index at which `key` stands in `keys`, or -1.
pub open spec fn first_index(keys: Seq<Seq<char>>, key: Seq<char>) -> int {
    if exists|i: int| is_first_index(keys, key, i) {
        choose|i: int| is_first_index(keys, key, i)
    } else {
        -1
    }
}

/// What `Value::get` gives for a string key: the value of the object member
/// with that key, nothing for a missing key or a value that is no object.
pub open spec fn field(j: JsonModel, key: Seq<char>) -> Option<JsonModel> {
    match j {
        JsonModel::Object(m) => {
            let i = first_index(model_keys(m), key);
            if 0 <= i < m.len() {
                Some(m[i].1)
            } else {
                None
            }
        },
        _ => None,
    }
}

/// The text of a string value.
pub open spec fn as_str(j: Option<JsonModel>) -> Option<Seq<char>> {
    match j {
        Some(JsonModel::Str(s)) => Some(s),
        _ => None,
    }
}

/// The index of the first member of `m` with key `key`, if any.
pub fn find_member(m: &Vec<(String, Json)>, key: &str) -> (r: Option<usize>)
    ensures
        match r {
            Some(i) => i < m@.len() && is_first_index(
                Seq::new(m@.len(), |k: int| m@[k].0@),
                key@,
                i as int,
            ),
            None => forall|k: int| 0 <= k < m@.len() ==> m@[k].0@ != key@,
        },
{
    let ghost keys = Seq::new(m@.len(), |k: int| m@[k].0@);
    let mut i: usize = 0;
    while i < m.len()
        invariant
            i <= m@.len(),
            keys == Seq::new(m@.len(), |k: int| m@[k].0@),
            forall|k: int| 0 <= k < i ==> m@[k].0@ != key@,
        decreases m@.len() - i,
    {
        if str_eq(m[i].0.as_str(), key) {
            return Some(i);
        }
        i = i + 1;
    }
    None
}

/// The keys of a model object are the keys of the members it was made from.
pub proof fn lemma_object_keys(m: Vec<(String, Json)>)
    ensures
        model_keys(Json::Object(m)@->Object_0) =~= Seq::new(m@.len(), |k: int| m@[k].0@),
{
}

/// The first index is unique.
pub proof fn lemma_first_index(keys: Seq<Seq<char>>, key: Seq<char>, i: int)
    requires
        is_first_index(keys, key, i),
    ensures
        first_index(keys, key) == i,
{
    let c = choose|c: int| is_first_index(keys, key, c);
    assert(is_first_index(keys, key, c));
    if c < i {
        assert(keys[c] != key);
    } else if i < c {
        assert(keys[i] != key);
    }
}

/// No first index where the key stands nowhere.
pub proof fn lemma_no_index(keys: Seq<Seq<char>>, key: Seq<char>)
    requires
        forall|k: int| 0 <= k < keys.len() ==> keys[k] != key,
    ensures
        first_index(keys, key) == -1,
{
}

/// The value that `Value::get` gives for `key`.
pub fn get_field<'a>(value: &'a Json, key: &str) -> (r: Option<&'a Json>)
    ensures
        match r {
            Some(x) => field(value@, key@) == Some(x@) && decreases_to!(*value => *x),
            None => field(value@, key@) is None,
        },
{
    match value {
        Json::Object(m) => {
            proof {
                lemma_object_keys(*m);
            }
            match find_member(m, key) {
                Some(i) => {
                    proof {
                        lemma_first_index(model_keys(value@->Object_0), key@, i as int);
                        vstd::std_specs::vec::axiom_vec_index_decreases(*m, i as int);
                        assert(decreases_to!(*value => (*value)->Object_0));
                        assert(decreases_to!(m@[i as int] => m@[i as int].1));
                    }
                    Some(&m[i].1)
                },
                None => {
                    proof {
                        lemma_no_index(model_keys(value@->Object_0), key@);
                    }
                    None
                },
            }
        },
        _ => None,
    }
}

/// The model of a list of object members.
pub open spec fn members_model(m: Seq<(String, Json)>) -> Seq<(Seq<char>, JsonModel)> {
    Seq::new(m.len(), |i: int| (m[i].0@, m[i].1@))
}

/// The members of an object value are the models of its members.
pub proof fn lemma_members_model(m: Vec<(String, Json)>)
    ensures
        Json::Object(m)@ == JsonModel::Object(members_model(m@)),
        model_keys(members_model(m@)) =~= Seq::new(m@.len(), |k: int| m@[k].0@),
{
    assert(Json::Object(m)@->Object_0 =~= members_model(m@));
}

/// The items of an array value are the models of its items.
pub proof fn lemma_items_model(v: Vec<Json>)
    ensures
        Json::Array(v)@ == JsonModel::Array(Seq::new(v@.len(), |i: int| v@[i]@)),
{
    assert(Json::Array(v)@->Array_0 =~= Seq::new(v@.len(), |i: int| v@[i]@));
}

/// The members after `insert` on a `serde_json::Map`: the member with the key
/// takes the new value where there is one, else the new member comes last.
pub open spec fn insert_member(
    m: Seq<(Seq<char>, JsonModel)>,
    key: Seq<char>,
    v: JsonModel,
) -> Seq<(Seq<char>, JsonModel)> {
    let i = first_index(model_keys(m), key);
    if 0 <= i < m.len() {
        m.update(i, (key, v))
    } else {
        m.push((key, v))
    }
}

/// Sets the member `key` of an object's members to `v`.
pub fn insert_member_exec(m: &mut Vec<(String, Json)>, key: &str, v: Json)
    ensures
        members_model(final(m)@) == insert_member(members_model(old(m)@), key@, v@),
{
    proof {
        lemma_members_model(*m);
    }
    let ghost before = members_model(m@);
    match find_member(m, key) {
        Some(i) => {
            proof {
                lemma_first_index(model_keys(before), key@, i as int);
            }
            m.set(i, (key.to_string(), v));
            proof {
                assert(members_model(m@) =~= before.update(i as int, (key@, v@)));
            }
        },
        None => {
            proof {
                lemma_no_index(model_keys(before), key@);
            }
            m.push((key.to_string(), v));
            proof {
                assert(members_model(m@) =~= before.push((key@, v@)));
            }
        },
    }
}

/// A copy of an object's members.
pub fn copy_members(m: &Vec<(String, Json)>) -> (r: Vec<(String, Json)>)
    ensures
        members_model(r@) == members_model(m@),
{
    let mut out: Vec<(String, Json)> = Vec::new();
    let mut i: usize = 0;
    while i < m.len()
        invariant
            i <= m@.len(),
            out@.len() == i,
            forall|k: int|
                0 <= k < i ==> (#[trigger] out@[k]).0@ == m@[k].0@ && out@[k].1@ == m@[k].1@,
        decreases m@.len() - i,
    {
        out.push((m[i].0.clone(), m[i].1.copy()));
        i = i + 1;
    }
    assert(members_model(out@) =~= members_model(m@));
    out
}

/// The models of a list of values.
pub open spec fn items_model(v: Seq<Json>) -> Seq<JsonModel> {
    Seq::new(v.len(), |i: int| v[i]@)
}

/// An array value of the given items.
pub fn array_of(items: Vec<Json>) -> (r: Json)
    ensures
        r@ == JsonModel::Array(items_model(items@)),
{
    proof {
        lemma_items_model(items);
        assert(items_model(items@) =~= Seq::new(items@.len(), |i: int| items@[i]@));
    }
    Json::Array(items)
}

/// An object value of the given members.
pub fn object_of(members: Vec<(String, Json)>) -> (r: Json)
    ensures
        r@ == JsonModel::Object(members_model(members@)),
{
    proof {
        lemma_members_model(members);
    }
    Json::Object(members)
}

/// A string value holding `s`.
pub fn string_value(s: &str) -> (r: Json)
    ensures
        r@ == JsonModel::Str(s@),
{
    Json::Str(s.to_string())
}

/// After `insert`, the key is found first where the new value stands.
pub proof fn lemma_insert_member_found(m: Seq<(Seq<char>, JsonModel)>, key: Seq<char>, v: JsonModel)
    ensures
        ({
            let n = insert_member(m, key, v);
            let i = first_index(model_keys(n), key);
            &&& 0 <= i < n.len()
            &&& n[i] == (key, v)
            &&& field(JsonModel::Object(n), key) == Some(v)
        }),
{
    let keys = model_keys(m);
    let i = first_index(keys, key);
    let n = insert_member(m, key, v);
    if 0 <= i < m.len() {
        assert(is_first_index(keys, key, i)) by {
            if !(exists|c: int| is_first_index(keys, key, c)) {
            }
        }
        assert(model_keys(n) =~= keys);
        lemma_first_index(model_keys(n), key, i);
    } else {
        assert forall|k: int| 0 <= k < keys.len() implies keys[k] != key by {
            if keys[k] == key {
                lemma_least_index(keys, key, k);
            }
        }
        assert(model_keys(n) =~= keys.push(key));
        assert(is_first_index(model_keys(n), key, m.len() as int));
        lemma_first_index(model_keys(n), key, m.len() as int);
    }
}

/// Where a key stands somewhere, it stands first somewhere.
pub proof fn lemma_least_index(keys: Seq<Seq<char>>, key: Seq<char>, k: int)
    requires
        0 <= k < keys.len(),
        keys[k] == key,
    ensures
        0 <= first_index(keys, key) <= k,
        is_first_index(keys, key, first_index(keys, key)),
    decreases k,
{
    if exists|j: int| 0 <= j < k && keys[j] == key {
        let j = choose|j: int| 0 <= j < k && keys[j] == key;
        lemma_least_index(keys, key, j);
    } else {
        assert(is_first_index(keys, key, k));
        lemma_first_index(keys, key, k);
    }
}

/// Setting a key twice to one value is setting it once.
pub proof fn lemma_insert_member_twice(m: Seq<(Seq<char>, JsonModel)>, key: Seq<char>, v: JsonModel)
    ensures
        insert_member(insert_member(m, key, v), key, v) == insert_member(m, key, v),
{
    lemma_insert_member_found(m, key, v);
    let n = insert_member(m, key, v);
    let i = first_index(model_keys(n), key);
    assert(n.update(i, (key, v)) =~= n);
}

/// Setting one key leaves the value of another as it was.
pub proof fn lemma_insert_member_other(
    m: Seq<(Seq<char>, JsonModel)>,
    key: Seq<char>,
    v: JsonModel,
    other: Seq<char>,
)
    requires
        other != key,
    ensures
        field(JsonModel::Object(insert_member(m, key, v)), other) == field(JsonModel::Object(m), other),
{
    let keys = model_keys(m);
    let n = insert_member(m, key, v);
    let i = first_index(keys, key);
    let o = first_index(keys, other);
    if 0 <= i < m.len() {
        assert(model_keys(n) =~= keys.update(i, key));
        assert(keys[i] == key) by {
            if !(exists|c: int| is_first_index(keys, key, c)) {
            }
        }
        assert(model_keys(n) =~= keys);
    } else {
        assert(model_keys(n) =~= keys.push(key));
        if 0 <= o < keys.len() {
            assert(is_first_index(keys, other, o)) by {
                if !(exists|c: int| is_first_index(keys, other, c)) {
                }
            }
            assert(is_first_index(model_keys(n), other, o));
            lemma_first_index(model_keys(n), other, o);
        } else {
            assert forall|k: int| 0 <= k < model_keys(n).len() implies model_keys(n)[k] != other by {
                if k < keys.len() && keys[k] == other {
                    lemma_least_index(keys, other, k);
                }
            }
            lemma_no_index(model_keys(n), other);
        }
    }
}

/// A first index that is not -1 lies within the keys.
pub proof fn lemma_first_index_in_range(keys: Seq<Seq<char>>, key: Seq<char>)
    requires
        0 <= first_index(keys, key),
    ensures
        first_index(keys, key) < keys.len(),
        is_first_index(keys, key, first_index(keys, key)),
{
}

/// Where a key is missing, setting it appends it.
pub proof fn lemma_no_index_push(m: Seq<(Seq<char>, JsonModel)>, key: Seq<char>, v: JsonModel)
    requires
        first_index(model_keys(m), key) < 0,
    ensures
        insert_member(m, key, v) == m.push((key, v)),
{
}

} // verus!
