use vstd::prelude::*;

use crate::codec::{lemma_array_view, lemma_object_view};
use crate::ids::new_id;
use crate::json::{
    JsonModel, JsonValue, fields_view, get_field, lemma_lookup_at, lookup,
};

verus! {

/// One variable of an environment; `kind` is written as `type`.
#[derive(Clone, Debug)]
pub struct EnvironmentValue {
    pub key: String,
    pub value: String,
    pub kind: String,
    pub enabled: bool,
}

/// A named set of variables that can be substituted into request addresses.
#[derive(Clone, Debug)]
pub struct EnvironmentFile {
    pub id: String,
    pub name: String,
    pub values: Option<Vec<EnvironmentValue>>,
}

impl Default for EnvironmentFile {
    /// An environment named `default` with a fresh identifier and one blank,
    /// enabled variable.
    fn default() -> (r: EnvironmentFile)
        ensures
            r.id@.len() == 36,
            r.name@ == "default"@,
            r.values is Some,
            r.values->0@.len() == 1,
            r.values->0@[0]@ == (EnvValueModel {
                key: Seq::empty(),
                value: Seq::empty(),
                kind: "default"@,
                enabled: true,
            }),
    {
        let mut values: Vec<EnvironmentValue> = Vec::new();
        values.push(
            EnvironmentValue {
                key: String::new(),
                value: String::new(),
                kind: String::from_str("default"),
                enabled: true,
            },
        );
        EnvironmentFile { id: new_id(), name: String::from_str("default"), values: Some(values) }
    }
}

pub ghost struct EnvValueModel {
    pub key: Seq<char>,
    pub value: Seq<char>,
    pub kind: Seq<char>,
    pub enabled: bool,
}

pub ghost struct EnvironmentModel {
    pub id: Seq<char>,
    pub name: Seq<char>,
    pub values: Option<Seq<EnvValueModel>>,
}

impl View for EnvironmentValue {
    type V = EnvValueModel;

    open spec fn view(&self) -> EnvValueModel {
        EnvValueModel {
            key: self.key@,
            value: self.value@,
            kind: self.kind@,
            enabled: self.enabled,
        }
    }
}

pub open spec fn env_values_view(o: Option<Vec<EnvironmentValue>>) -> Option<Seq<EnvValueModel>> {
    match o {
        Some(v) => Some(v@.map_values(|x: EnvironmentValue| x@)),
        None => None,
    }
}

impl View for EnvironmentFile {
    type V = EnvironmentModel;

    open spec fn view(&self) -> EnvironmentModel {
        EnvironmentModel { id: self.id@, name: self.name@, values: env_values_view(self.values) }
    }
}

// ---------------------------------------------------------------------------
// The document form of an environment.

pub open spec fn enc_env_value(v: EnvValueModel) -> JsonModel {
    JsonModel::Object(
        seq![
            ("key"@, JsonModel::Str(v.key)),
            ("value"@, JsonModel::Str(v.value)),
            ("type"@, JsonModel::Str(v.kind)),
            ("enabled"@, JsonModel::Bool(v.enabled)),
        ],
    )
}

pub open spec fn enc_env_values(o: Option<Seq<EnvValueModel>>) -> JsonModel {
    match o {
        Some(s) => JsonModel::Array(s.map_values(|v: EnvValueModel| enc_env_value(v))),
        None => JsonModel::Null,
    }
}

/// The document form of an environment.
pub open spec fn enc_environment(e: EnvironmentModel) -> JsonModel {
    JsonModel::Object(
        seq![
            ("id"@, JsonModel::Str(e.id)),
            ("name"@, JsonModel::Str(e.name)),
            ("values"@, enc_env_values(e.values)),
        ],
    )
}

pub open spec fn dec_env_value(j: JsonModel) -> Option<EnvValueModel> {
    match j {
        JsonModel::Object(f) => match (
            lookup(f, "key"@),
            lookup(f, "value"@),
            lookup(f, "type"@),
            lookup(f, "enabled"@),
        ) {
            (
                Some(JsonModel::Str(key)),
                Some(JsonModel::Str(value)),
                Some(JsonModel::Str(kind)),
                Some(JsonModel::Bool(enabled)),
            ) => Some(EnvValueModel { key, value, kind, enabled }),
            _ => None,
        },
        _ => None,
    }
}

pub open spec fn dec_env_values(m: Option<JsonModel>) -> Option<Option<Seq<EnvValueModel>>> {
    match m {
        None => Some(None),
        Some(JsonModel::Null) => Some(None),
        Some(JsonModel::Array(s)) => if forall|i: int|
            0 <= i < s.len() ==> (#[trigger] dec_env_value(s[i])) is Some {
            Some(Some(s.map_values(|x: JsonModel| dec_env_value(x)->0)))
        } else {
            None
        },
        _ => None,
    }
}

/// Reads an environment document: `id` and `name` are strings, `values`
/// may be absent or `null`.
pub open spec fn dec_environment(j: JsonModel) -> Option<EnvironmentModel> {
    match j {
        JsonModel::Object(f) => match (
            lookup(f, "id"@),
            lookup(f, "name"@),
            dec_env_values(lookup(f, "values"@)),
        ) {
            (Some(JsonModel::Str(id)), Some(JsonModel::Str(name)), Some(values)) => Some(
                EnvironmentModel { id, name, values },
            ),
            _ => None,
        },
        _ => None,
    }
}

/// Writing an environment as a document and reading it back gives the same
/// environment.
pub proof fn lemma_environment_round_trip(e: EnvironmentModel)
    ensures
        dec_environment(enc_environment(e)) == Some(e),
{
    reveal_strlit("id");
    reveal_strlit("name");
    reveal_strlit("values");
    reveal_strlit("key");
    reveal_strlit("value");
    reveal_strlit("type");
    reveal_strlit("enabled");
    assert("id"@[0] != "name"@[0]);
    assert("id"@[0] != "values"@[0]);
    assert("name"@[0] != "values"@[0]);
    assert("key"@[0] != "value"@[0]);
    assert("key"@[0] != "type"@[0]);
    assert("key"@[0] != "enabled"@[0]);
    assert("value"@[0] != "type"@[0]);
    assert("value"@[0] != "enabled"@[0]);
    assert("type"@[0] != "enabled"@[0]);
    let f = enc_environment(e)->Object_0;
    lemma_lookup_at(f, "id"@, 0);
    lemma_lookup_at(f, "name"@, 1);
    lemma_lookup_at(f, "values"@, 2);
    if let Some(s) = e.values {
        let a = s.map_values(|v: EnvValueModel| enc_env_value(v));
        assert forall|i: int| 0 <= i < a.len() implies (#[trigger] dec_env_value(a[i])) == Some(
            s[i],
        ) by {
            let g = a[i]->Object_0;
            lemma_lookup_at(g, "key"@, 0);
            lemma_lookup_at(g, "value"@, 1);
            lemma_lookup_at(g, "type"@, 2);
            lemma_lookup_at(g, "enabled"@, 3);
        }
        assert(a.map_values(|x: JsonModel| dec_env_value(x)->0) =~= s);
    }
}

impl EnvironmentValue {
    /// The document form of a variable.
    pub fn to_json(&self) -> (r: JsonValue)
        ensures
            r@ == enc_env_value(self@),
    {
        let ghost g = enc_env_value(self@)->Object_0;
        let mut f: Vec<(String, JsonValue)> = Vec::new();
        f.push((String::from_str("key"), JsonValue::Str(self.key.clone())));
        f.push((String::from_str("value"), JsonValue::Str(self.value.clone())));
        f.push((String::from_str("type"), JsonValue::Str(self.kind.clone())));
        f.push((String::from_str("enabled"), JsonValue::Bool(self.enabled)));
        proof {
            lemma_object_view(f);
            assert(fields_view(f@) =~= g);
        }
        JsonValue::Object(f)
    }

    /// Reads a variable.
    pub fn from_json(j: &JsonValue) -> (r: Option<EnvironmentValue>)
        ensures
            match r {
                Some(x) => dec_env_value(j@) == Some(x@),
                None => dec_env_value(j@) is None,
            },
    {
        match j {
            JsonValue::Object(f) => {
                proof {
                    lemma_object_view(*f);
                }
                let key = match get_field(f, "key") {
                    Some(JsonValue::Str(x)) => x.clone(),
                    _ => {
                        return None;
                    },
                };
                let value = match get_field(f, "value") {
                    Some(JsonValue::Str(x)) => x.clone(),
                    _ => {
                        return None;
                    },
                };
                let kind = match get_field(f, "type") {
                    Some(JsonValue::Str(x)) => x.clone(),
                    _ => {
                        return None;
                    },
                };
                let enabled = match get_field(f, "enabled") {
                    Some(JsonValue::Bool(x)) => *x,
                    _ => {
                        return None;
                    },
                };
                Some(EnvironmentValue { key, value, kind, enabled })
            },
            _ => None,
        }
    }
}

impl EnvironmentFile {
    /// The document form of an environment.
    pub fn to_json(&self) -> (r: JsonValue)
        ensures
            r@ == enc_environment(self@),
    {
        let values = match &self.values {
            None => JsonValue::Null,
            Some(v) => {
                let mut out: Vec<JsonValue> = Vec::new();
                let mut i: usize = 0;
                while i < v.len()
                    invariant
                        0 <= i <= v.len(),
                        out.len() == i,
                        forall|j: int|
                            0 <= j < i ==> (#[trigger] out@[j])@ == enc_env_value(v@[j]@),
                    decreases v.len() - i,
                {
                    out.push(v[i].to_json());
                    i = i + 1;
                }
                proof {
                    lemma_array_view(out);
                    assert(out@.map_values(|x: JsonValue| x@) =~= v@.map_values(
                        |x: EnvironmentValue| x@,
                    ).map_values(|x| enc_env_value(x)));
                }
                JsonValue::Array(out)
            },
        };
        let ghost g = enc_environment(self@)->Object_0;
        let mut f: Vec<(String, JsonValue)> = Vec::new();
        f.push((String::from_str("id"), JsonValue::Str(self.id.clone())));
        f.push((String::from_str("name"), JsonValue::Str(self.name.clone())));
        f.push((String::from_str("values"), values));
        proof {
            lemma_object_view(f);
            assert(fields_view(f@) =~= g);
        }
        JsonValue::Object(f)
    }

    /// Reads an environment document.
    pub fn from_json(j: &JsonValue) -> (r: Option<EnvironmentFile>)
        ensures
            match r {
                Some(x) => dec_environment(j@) == Some(x@),
                None => dec_environment(j@) is None,
            },
    {
        let f = match j {
            JsonValue::Object(f) => f,
            _ => {
                return None;
            },
        };
        proof {
            lemma_object_view(*f);
        }
        assert(j@ == JsonModel::Object(fields_view(f@)));
        let id = match get_field(f, "id") {
            Some(JsonValue::Str(s)) => s.clone(),
            _ => {
                return None;
            },
        };
        let name = match get_field(f, "name") {
            Some(JsonValue::Str(s)) => s.clone(),
            _ => {
                return None;
            },
        };
        let values = match get_field(f, "values") {
            None => None,
            Some(JsonValue::Null) => None,
            Some(JsonValue::Array(a)) => {
                proof {
                    lemma_array_view(*a);
                }
                let ghost s = a@.map_values(|x: JsonValue| x@);
                let mut out: Vec<EnvironmentValue> = Vec::new();
                let mut i: usize = 0;
                while i < a.len()
                    invariant
                        0 <= i <= a.len(),
                        s == a@.map_values(|x: JsonValue| x@),
                        lookup(fields_view(f@), "values"@) == Some(JsonModel::Array(s)),
                        j@ == JsonModel::Object(fields_view(f@)),
                        out.len() == i,
                        forall|k: int|
                            0 <= k < i ==> dec_env_value(#[trigger] s[k]) == Some(out@[k]@),
                    decreases a.len() - i,
                {
                    match EnvironmentValue::from_json(&a[i]) {
                        Some(v) => out.push(v),
                        None => {
                            assert(dec_env_value(s[i as int]) is None);
                            return None;
                        },
                    }
                    i = i + 1;
                }
                assert(forall|k: int| 0 <= k < s.len() ==> (#[trigger] dec_env_value(s[k])) is Some);
                assert(s.map_values(|x: JsonModel| dec_env_value(x)->0) =~= out@.map_values(
                    |x: EnvironmentValue| x@,
                ));
                Some(out)
            },
            Some(_) => {
                return None;
            },
        };
        Some(EnvironmentFile { id, name, values })
    }
}

} // verus!
