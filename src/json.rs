use vstd::prelude::*;

verus! {

/// A JSON document as a tree of plain values.
///
/// A number is held as the text `serde_json` writes for it; integers are
/// exact, while a float has already been rounded to a double by the reader.
/// Text in `Number` that is not a JSON number is written as `null`.
/// Objects read from text come back with their members sorted by key and a
/// repeated key kept once (its last value), as `serde_json` stores them;
/// writing a value sorts its members the same way.
#[derive(Debug)]
pub enum JsonValue {
    Null,
    Bool(bool),
    Number(String),
    Str(String),
    Array(Vec<JsonValue>),
    Object(Vec<(String, JsonValue)>),
}

/// The mathematical form of a JSON document.
pub ghost enum JsonModel {
    Null,
    Bool(bool),
    Number(Seq<char>),
    Str(Seq<char>),
    Array(Seq<JsonModel>),
    Object(Seq<(Seq<char>, JsonModel)>),
}

/// The model of a value tree, node for node.
pub open spec fn json_view(v: JsonValue) -> JsonModel
    decreases v,
{
    match v {
        JsonValue::Null => JsonModel::Null,
        JsonValue::Bool(b) => JsonModel::Bool(b),
        JsonValue::Number(n) => JsonModel::Number(n@),
        JsonValue::Str(s) => JsonModel::Str(s@),
        JsonValue::Array(items) => JsonModel::Array(
            Seq::new(
                items@.len(),
                |i: int|
                    if 0 <= i < items@.len() {
                        json_view(items@[i])
                    } else {
                        JsonModel::Null
                    },
            ),
        ),
        JsonValue::Object(fields) => JsonModel::Object(
            Seq::new(
                fields@.len(),
                |i: int|
                    if 0 <= i < fields@.len() {
                        (fields@[i].0@, json_view(fields@[i].1))
                    } else {
                        (Seq::empty(), JsonModel::Null)
                    },
            ),
        ),
    }
}

impl View for JsonValue {
    type V = JsonModel;

    open spec fn view(&self) -> JsonModel {
        json_view(*self)
    }
}

impl JsonValue {
    /// The compact JSON text of the value.
    pub fn to_json_text(&self) -> (r: String)
        ensures
            r@ == json_render(self@),
    {
        write_json(self)
    }

    /// Reads a JSON text; `None` where it is not JSON.
    pub fn from_json_text(text: &str) -> (r: Option<JsonValue>)
        ensures
            match r {
                Some(v) => json_parse(text@) == Some(v@),
                None => json_parse(text@) is None,
            },
    {
        read_json(text)
    }
}

/// What `serde_json` reads from a text, or `None` where the text is not JSON.
pub uninterp spec fn json_parse(text: Seq<char>) -> Option<JsonModel>;

/// The compact text that `serde_json` writes for a document.
pub uninterp spec fn json_render(v: JsonModel) -> Seq<char>;

/// The position of the first member named `key`, or the length of the list
/// where there is none.
pub open spec fn key_index(fields: Seq<(Seq<char>, JsonModel)>, key: Seq<char>) -> int
    decreases fields.len(),
{
    if fields.len() == 0 {
        0
    } else if fields[0].0 == key {
        0
    } else {
        1 + key_index(fields.drop_first(), key)
    }
}

/// The value of the first member named `key`.
pub open spec fn lookup(fields: Seq<(Seq<char>, JsonModel)>, key: Seq<char>) -> Option<JsonModel> {
    let i = key_index(fields, key);
    if i < fields.len() {
        Some(fields[i].1)
    } else {
        None
    }
}

/// `key_index` names the first member with that key, and only such a member.
pub proof fn lemma_key_index(fields: Seq<(Seq<char>, JsonModel)>, key: Seq<char>)
    ensures
        0 <= key_index(fields, key) <= fields.len(),
        key_index(fields, key) < fields.len() ==> fields[key_index(fields, key)].0 == key,
        forall|j: int| 0 <= j < key_index(fields, key) ==> fields[j].0 != key,
    decreases fields.len(),
{
    if fields.len() > 0 && fields[0].0 != key {
        lemma_key_index(fields.drop_first(), key);
        assert forall|j: int| 0 <= j < key_index(fields, key) implies fields[j].0 != key by {
            if j > 0 {
                assert(fields[j] == fields.drop_first()[j - 1]);
            }
        }
    }
}

/// Looking up a key finds the first member that carries it.
pub proof fn lemma_lookup_at(fields: Seq<(Seq<char>, JsonModel)>, key: Seq<char>, i: int)
    requires
        0 <= i < fields.len(),
        fields[i].0 == key,
        forall|j: int| 0 <= j < i ==> fields[j].0 != key,
    ensures
        lookup(fields, key) == Some(fields[i].1),
{
    lemma_key_index(fields, key);
}

/// Looking up a key that no member carries finds nothing.
pub proof fn lemma_lookup_absent(fields: Seq<(Seq<char>, JsonModel)>, key: Seq<char>)
    requires
        forall|j: int| 0 <= j < fields.len() ==> fields[j].0 != key,
    ensures
        lookup(fields, key) is None,
{
    lemma_key_index(fields, key);
}

/// The model of the members of an object value.
pub open spec fn fields_view(fields: Seq<(String, JsonValue)>) -> Seq<(Seq<char>, JsonModel)> {
    Seq::new(fields.len(), |i: int| (fields[i].0@, fields[i].1@))
}

/// Finds the position of the member named `key`.
pub fn field_index(fields: &Vec<(String, JsonValue)>, key: &str) -> (r: Option<usize>)
    ensures
        match r {
            Some(i) => i < fields.len() && key_index(fields_view(fields@), key@) == i
                && lookup(fields_view(fields@), key@) == Some(fields@[i as int].1@),
            None => lookup(fields_view(fields@), key@) is None,
        },
{
    let ghost fv = fields_view(fields@);
    proof {
        lemma_key_index(fv, key@);
    }
    let k = String::from_str(key);
    let mut i: usize = 0;
    while i < fields.len()
        invariant
            0 <= i <= fields.len(),
            k@ == key@,
            fv == fields_view(fields@),
            0 <= key_index(fv, key@) <= fv.len(),
            key_index(fv, key@) < fv.len() ==> fv[key_index(fv, key@)].0 == key@,
            forall|j: int| 0 <= j < key_index(fv, key@) ==> fv[j].0 != key@,
            forall|j: int| 0 <= j < i ==> fv[j].0 != key@,
        decreases fields.len() - i,
    {
        if fields[i].0 == k {
            assert(fv[i as int].0 == key@);
            return Some(i);
        }
        i = i + 1;
    }
    None
}

/// Looks up the member named `key`.
pub fn get_field<'a>(fields: &'a Vec<(String, JsonValue)>, key: &str) -> (r: Option<&'a JsonValue>)
    ensures
        match r {
            Some(v) => lookup(fields_view(fields@), key@) == Some(v@),
            None => lookup(fields_view(fields@), key@) is None,
        },
{
    match field_index(fields, key) {
        Some(i) => Some(&fields[i].1),
        None => None,
    }
}

/// A copy of a value tree.
pub fn copy_json(v: &JsonValue) -> (r: JsonValue)
    ensures
        r@ == v@,
    decreases v,
{
    match v {
        JsonValue::Null => JsonValue::Null,
        JsonValue::Bool(b) => JsonValue::Bool(*b),
        JsonValue::Number(n) => JsonValue::Number(n.clone()),
        JsonValue::Str(s) => JsonValue::Str(s.clone()),
        JsonValue::Array(items) => {
            let mut out: Vec<JsonValue> = Vec::new();
            let mut i: usize = 0;
            while i < items.len()
                invariant
                    0 <= i <= items.len(),
                    *v is Array,
                    items == v->Array_0,
                    out.len() == i,
                    forall|j: int| 0 <= j < i ==> #[trigger] out@[j]@ == items@[j]@,
                decreases items.len() - i,
            {
                assert(decreases_to!(*v => v->Array_0));
                assert(decreases_to!(items => items@));
                assert(decreases_to!(items@ => items@[i as int]));
                out.push(copy_json(&items[i]));
                i = i + 1;
            }
            let r = JsonValue::Array(out);
            assert forall|j: int| 0 <= j < items.len() implies r@->Array_0[j] == v@->Array_0[j] by {
                assert(out@[j]@ == items@[j]@);
            }
            assert(r@->Array_0 =~= v@->Array_0);
            r
        },
        JsonValue::Object(fields) => {
            let mut out: Vec<(String, JsonValue)> = Vec::new();
            let mut i: usize = 0;
            while i < fields.len()
                invariant
                    0 <= i <= fields.len(),
                    *v is Object,
                    fields == v->Object_0,
                    out.len() == i,
                    forall|j: int| 0 <= j < i ==> (#[trigger] out@[j]).0@ == fields@[j].0@,
                    forall|j: int| 0 <= j < i ==> (#[trigger] out@[j]).1@ == fields@[j].1@,
                decreases fields.len() - i,
            {
                assert(decreases_to!(*v => v->Object_0));
                assert(decreases_to!(fields => fields@));
                assert(decreases_to!(fields@ => fields@[i as int]));
                assert(decreases_to!(fields@[i as int] => fields@[i as int].1));
                let k = fields[i].0.clone();
                let val = copy_json(&fields[i].1);
                out.push((k, val));
                i = i + 1;
            }
            let r = JsonValue::Object(out);
            assert forall|j: int| 0 <= j < fields.len() implies r@->Object_0[j] == v@->Object_0[j] by {
                assert(out@[j].0@ == fields@[j].0@ && out@[j].1@ == fields@[j].1@);
            }
            assert(r@->Object_0 =~= v@->Object_0);
            r
        },
    }
}

/// `serde_json`'s own value tree, carried through the conversions below.
#[verifier::external_type_specification]
#[verifier::external_body]
pub struct ExSerdeValue(serde_json::Value);

/// Relies on `serde_json::from_str`: reads a JSON text into a value tree,
/// or fails on text that is not JSON.
#[verifier::external_body]
pub(crate) fn read_json(text: &str) -> (r: Option<JsonValue>)
    ensures
        match r {
            Some(v) => json_parse(text@) == Some(v@),
            None => json_parse(text@) is None,
        },
{
    serde_json::from_str::<serde_json::Value>(text).ok().map(from_serde)
}

/// Relies on `serde_json::to_string`: writes a value tree as compact JSON text.
#[verifier::external_body]
pub(crate) fn write_json(v: &JsonValue) -> (r: String)
    ensures
        r@ == json_render(v@),
{
    serde_json::to_string(&to_serde(v)).unwrap_or_default()
}

/// Moves a `serde_json` tree into the library's own tree, node for node.
#[verifier::external_body]
fn from_serde(v: serde_json::Value) -> JsonValue {
    match v {
        serde_json::Value::Null => JsonValue::Null,
        serde_json::Value::Bool(b) => JsonValue::Bool(b),
        serde_json::Value::Number(n) => JsonValue::Number(n.to_string()),
        serde_json::Value::String(s) => JsonValue::Str(s),
        serde_json::Value::Array(a) => JsonValue::Array(a.into_iter().map(from_serde).collect()),
        serde_json::Value::Object(o) => JsonValue::Object(o.into_iter().map(|(k, x)| (k, from_serde(x))).collect()),
    }
}

/// Builds the `serde_json` tree for the library's own tree, node for node.
#[verifier::external_body]
fn to_serde(v: &JsonValue) -> serde_json::Value {
    match v {
        JsonValue::Null => serde_json::Value::Null,
        JsonValue::Bool(b) => serde_json::Value::Bool(*b),
        JsonValue::Number(n) => n.parse::<serde_json::Number>().map(serde_json::Value::Number).unwrap_or(serde_json::Value::Null),
        JsonValue::Str(s) => serde_json::Value::String(s.clone()),
        JsonValue::Array(a) => serde_json::Value::Array(a.iter().map(to_serde).collect()),
        JsonValue::Object(o) => serde_json::Value::Object(o.iter().map(|(k, x)| (k.clone(), to_serde(x))).collect()),
    }
}

} // verus!
