use vstd::prelude::*;
use vstd::string::StrSliceExecFns;

use crate::codec::{lemma_array_view, node_list, nodes_value, opt_auth_value};
use crate::collection::{
    Collection, CollectionAuth, CollectionInfo, AuthModel, NodeModel, nodes_view, opt_auth_view,
    };
use crate::document::{dec_nodes, dec_opt_auth, enc_nodes, enc_opt_auth};
use crate::environment::{
    EnvValueModel, EnvironmentFile, dec_env_values, enc_env_values,
    env_values_view,
};
use crate::json::{JsonModel, JsonValue, get_field, json_parse, json_render, read_json, write_json};
use crate::codec::lemma_object_view;
use crate::json::{fields_view, lookup};
use crate::method::{HttpMethod, method_named};
use crate::request::{RequestHeader, RequestHeaders, header_list_view};
use crate::tab::{RequestHistoryItem, Tab};

verus! {

// ---------------------------------------------------------------------------
// The stored form of the saved entities. Nested values are kept as JSON text.
// Reading is lenient: a malformed stored value reads as a safe default, so
// that one bad row never stops a listing.

/// The stored form of a header list: an array of `key` and `value` objects.
pub open spec fn enc_pairs(s: Seq<(Seq<char>, Seq<char>)>) -> JsonModel {
    JsonModel::Array(
        s.map_values(
            |p: (Seq<char>, Seq<char>)|
                JsonModel::Object(seq![("key"@, JsonModel::Str(p.0)), ("value"@, JsonModel::Str(p.1))]),
        ),
    )
}

pub open spec fn dec_pair(j: JsonModel) -> Option<(Seq<char>, Seq<char>)> {
    match j {
        JsonModel::Object(f) => match (lookup(f, "key"@), lookup(f, "value"@)) {
            (Some(JsonModel::Str(k)), Some(JsonModel::Str(v))) => Some((k, v)),
            _ => None,
        },
        _ => None,
    }
}

pub open spec fn dec_pairs(j: JsonModel) -> Option<Seq<(Seq<char>, Seq<char>)>> {
    match j {
        JsonModel::Array(s) => if forall|i: int| 0 <= i < s.len() ==> (#[trigger] dec_pair(s[i])) is Some {
            Some(s.map_values(|x: JsonModel| dec_pair(x)->0))
        } else {
            None
        },
        _ => None,
    }
}

/// The header list that stored text holds; an empty list where it is malformed.
pub open spec fn pairs_of_text(text: Seq<char>) -> Seq<(Seq<char>, Seq<char>)> {
    match json_parse(text) {
        Some(j) => match dec_pairs(j) {
            Some(s) => s,
            None => Seq::empty(),
        },
        None => Seq::empty(),
    }
}

/// The children that stored text holds; none where it is malformed.
pub open spec fn nodes_of_text(text: Seq<char>) -> Seq<NodeModel> {
    match json_parse(text) {
        Some(j) => match dec_nodes(j) {
            Some(s) => s,
            None => Seq::empty(),
        },
        None => Seq::empty(),
    }
}

/// The auth scheme that stored text holds; none where it is `null` or malformed.
pub open spec fn auth_of_text(text: Seq<char>) -> Option<AuthModel> {
    match json_parse(text) {
        Some(j) => match dec_opt_auth(Some(j)) {
            Some(a) => a,
            None => None,
        },
        None => None,
    }
}

/// The variables that stored text holds; none where it is malformed.
pub open spec fn env_values_of_text(text: Seq<char>) -> Option<Seq<EnvValueModel>> {
    match json_parse(text) {
        Some(j) => match dec_env_values(Some(j)) {
            Some(v) => v,
            None => None,
        },
        None => None,
    }
}

/// The stored text of a header list.
pub fn headers_json(headers: &Vec<RequestHeader>) -> (r: String)
    ensures
        r@ == json_render(enc_pairs(header_list_view(headers@))),
{
    let mut out: Vec<JsonValue> = Vec::new();
    let mut i: usize = 0;
    while i < headers.len()
        invariant
            0 <= i <= headers.len(),
            out.len() == i,
            forall|j: int|
                0 <= j < i ==> (#[trigger] out@[j])@ == JsonModel::Object(
                    seq![
                        ("key"@, JsonModel::Str(headers@[j].key@)),
                        ("value"@, JsonModel::Str(headers@[j].value@)),
                    ],
                ),
        decreases headers.len() - i,
    {
        let mut f: Vec<(String, JsonValue)> = Vec::new();
        f.push((String::from_str("key"), JsonValue::Str(headers[i].key.clone())));
        f.push((String::from_str("value"), JsonValue::Str(headers[i].value.clone())));
        proof {
            lemma_object_view(f);
            assert(fields_view(f@) =~= seq![
                ("key"@, JsonModel::Str(headers@[i as int].key@)),
                ("value"@, JsonModel::Str(headers@[i as int].value@)),
            ]);
        }
        out.push(JsonValue::Object(f));
        i = i + 1;
    }
    proof {
        lemma_array_view(out);
        assert(out@.map_values(|x: JsonValue| x@) =~= enc_pairs(header_list_view(headers@))->Array_0);
    }
    write_json(&JsonValue::Array(out))
}

fn pair_of(j: &JsonValue) -> (r: Option<RequestHeader>)
    ensures
        match r {
            Some(h) => dec_pair(j@) == Some((h.key@, h.value@)),
            None => dec_pair(j@) is None,
        },
{
    match j {
        JsonValue::Object(f) => {
            proof {
                lemma_object_view(*f);
            }
            let key = match get_field(f, "key") {
                Some(JsonValue::Str(k)) => k.clone(),
                _ => {
                    return None;
                },
            };
            let value = match get_field(f, "value") {
                Some(JsonValue::Str(v)) => v.clone(),
                _ => {
                    return None;
                },
            };
            Some(RequestHeader { key, value })
        },
        _ => None,
    }
}

/// Reads a stored header list; malformed text reads as no headers.
pub fn headers_from_json(text: &str) -> (r: Vec<RequestHeader>)
    ensures
        header_list_view(r@) == pairs_of_text(text@),
{
    let j = match read_json(text) {
        Some(j) => j,
        None => {
            return Vec::new();
        },
    };
    match &j {
        JsonValue::Array(a) => {
            proof {
                lemma_array_view(*a);
            }
            let ghost s = a@.map_values(|x: JsonValue| x@);
            let mut out: Vec<RequestHeader> = Vec::new();
            let mut i: usize = 0;
            while i < a.len()
                invariant
                    0 <= i <= a.len(),
                    s == a@.map_values(|x: JsonValue| x@),
                    json_parse(text@) == Some(JsonModel::Array(s)),
                    out.len() == i,
                    forall|k: int|
                        0 <= k < i ==> dec_pair(#[trigger] s[k]) == Some(
                            (out@[k].key@, out@[k].value@),
                        ),
                decreases a.len() - i,
            {
                match pair_of(&a[i]) {
                    Some(h) => out.push(h),
                    None => {
                        assert(dec_pair(s[i as int]) is None);
                        return Vec::new();
                    },
                }
                i = i + 1;
            }
            assert(forall|k: int| 0 <= k < s.len() ==> (#[trigger] dec_pair(s[k])) is Some);
            assert(s.map_values(|x: JsonModel| dec_pair(x)->0) =~= header_list_view(out@));
            out
        },
        _ => Vec::new(),
    }
}

/// The stored text of a collection's children.
pub fn collection_items_json(collection: &Collection) -> (r: String)
    ensures
        r@ == json_render(enc_nodes(nodes_view(collection.item@))),
{
    write_json(&nodes_value(&collection.item))
}

/// The stored text of a collection's auth scheme: `null` where it has none.
pub fn collection_auth_json(collection: &Collection) -> (r: String)
    ensures
        r@ == json_render(enc_opt_auth(opt_auth_view(collection.auth))),
{
    write_json(&opt_auth_value(&collection.auth))
}

/// Rebuilds a collection from its stored row.
pub fn collection_from_row(
    id: String,
    name: String,
    description: Option<String>,
    item_json: &str,
    auth_json: Option<String>,
) -> (r: Collection)
    ensures
        r.info.id == id,
        r.info.name == name,
        r.info.description == description,
        nodes_view(r.item@) == nodes_of_text(item_json@),
        opt_auth_view(r.auth) == match auth_json {
            Some(t) => auth_of_text(t@),
            None => None,
        },
{
    let item = match read_json(item_json) {
        Some(JsonValue::Array(a)) => {
            proof {
                lemma_array_view(a);
            }
            match node_list(&a) {
                Some(v) => v,
                None => {
                    let e: Vec<crate::collection::CollectionItemOrFolder> = Vec::new();
                    assert(nodes_view(e@) =~= Seq::<NodeModel>::empty());
                    e
                },
            }
        },
        _ => {
            let e: Vec<crate::collection::CollectionItemOrFolder> = Vec::new();
            assert(nodes_view(e@) =~= Seq::<NodeModel>::empty());
            e
        },
    };
    let auth = match auth_json {
        Some(t) => match read_json(t.as_str()) {
            Some(JsonValue::Null) => None,
            Some(j) => match CollectionAuth::from_json(&j) {
                Some(a) => Some(a),
                None => None,
            },
            None => None,
        },
        None => None,
    };
    assert(item@.len() == 0 ==> nodes_view(item@) =~= Seq::<NodeModel>::empty());
    Collection { info: CollectionInfo { id, name, description }, item, auth }
}

/// The stored text of an environment's variables, where it has a list.
pub fn environment_values_json(environment: &EnvironmentFile) -> (r: Option<String>)
    ensures
        match r {
            Some(t) => environment.values is Some && t@ == json_render(
                enc_env_values(env_values_view(environment.values)),
            ),
            None => environment.values is None,
        },
{
    match &environment.values {
        None => None,
        Some(v) => {
            let mut out: Vec<JsonValue> = Vec::new();
            let mut i: usize = 0;
            while i < v.len()
                invariant
                    0 <= i <= v.len(),
                    out.len() == i,
                    forall|j: int|
                        0 <= j < i ==> (#[trigger] out@[j])@ == crate::environment::enc_env_value(
                            v@[j]@,
                        ),
                decreases v.len() - i,
            {
                out.push(v[i].to_json());
                i = i + 1;
            }
            proof {
                lemma_array_view(out);
                assert(out@.map_values(|x: JsonValue| x@) =~= enc_env_values(
                    env_values_view(environment.values),
                )->Array_0);
            }
            Some(write_json(&JsonValue::Array(out)))
        },
    }
}

/// Rebuilds an environment from its stored row.
pub fn environment_from_row(id: String, name: String, values_json: Option<String>) -> (r:
    EnvironmentFile)
    ensures
        r.id == id,
        r.name == name,
        env_values_view(r.values) == match values_json {
            Some(t) => env_values_of_text(t@),
            None => None,
        },
{
    let values = match values_json {
        None => None,
        Some(t) => {
            let mut wrapped: Vec<(String, JsonValue)> = Vec::new();
            let parsed = read_json(t.as_str());
            match parsed {
                None => None,
                Some(j) => {
                    wrapped.push((String::from_str("id"), JsonValue::Str(String::new())));
                    wrapped.push((String::from_str("name"), JsonValue::Str(String::new())));
                    wrapped.push((String::from_str("values"), j));
                    let doc = JsonValue::Object(wrapped);
                    proof {
                        lemma_object_view(wrapped);
                        reveal_strlit("id");
                        reveal_strlit("name");
                        reveal_strlit("values");
                        assert("id"@[0] != "values"@[0]);
                        assert("name"@[0] != "values"@[0]);
                        assert("id"@[0] != "name"@[0]);
                        crate::json::lemma_lookup_at(fields_view(wrapped@), "id"@, 0);
                        crate::json::lemma_lookup_at(fields_view(wrapped@), "name"@, 1);
                        crate::json::lemma_lookup_at(fields_view(wrapped@), "values"@, 2);
                    }
                    match EnvironmentFile::from_json(&doc) {
                        Some(e) => e.values,
                        None => None,
                    }
                },
            }
        },
    };
    EnvironmentFile { id, name, values }
}

/// Rebuilds a tab from its stored row: an unknown method reads as `GET`, a
/// malformed header list as no headers, and a missing body as empty text.
pub fn tab_from_row(
    id: String,
    method: &str,
    url: String,
    req_body: Option<String>,
    req_headers_json: &str,
    res_status: Option<String>,
    res_body: Option<String>,
    res_headers_json: &str,
) -> (r: Tab)
    ensures
        r.id == id,
        r.method == match method_named(method@) {
            Some(m) => m,
            None => HttpMethod::GET,
        },
        r.url == url,
        r.req_body@ == match req_body {
            Some(b) => b@,
            None => Seq::empty(),
        },
        header_list_view(r.req_headers.0@) == pairs_of_text(req_headers_json@),
        r.res_status == res_status,
        r.res_body@ == match res_body {
            Some(b) => b@,
            None => Seq::empty(),
        },
        header_list_view(r.res_headers.0@) == pairs_of_text(res_headers_json@),
{
    let m = match HttpMethod::from_str(method) {
        Ok(m) => m,
        Err(_) => HttpMethod::GET,
    };
    Tab {
        id,
        method: m,
        url,
        req_body: match req_body {
            Some(b) => b,
            None => String::new(),
        },
        req_headers: RequestHeaders(headers_from_json(req_headers_json)),
        res_status,
        res_body: match res_body {
            Some(b) => b,
            None => String::new(),
        },
        res_headers: RequestHeaders(headers_from_json(res_headers_json)),
    }
}

/// The value of a string of decimal digits.
pub open spec fn decimal_value(s: Seq<char>) -> int
    decreases s.len(),
{
    if s.len() == 0 {
        0
    } else {
        decimal_value(s.drop_last()) * 10 + (s.last() as int - '0' as int)
    }
}

pub open spec fn all_digits(s: Seq<char>) -> bool {
    forall|i: int| 0 <= i < s.len() ==> '0' <= #[trigger] s[i] <= '9'
}

/// Reads a non-empty string of decimal digits that fits in a `usize`: the
/// text that `usize::to_string` writes, which is how latencies are stored.
/// Unlike a JSON number reader it accepts leading zeros and refuses
/// surrounding white space.
pub fn parse_decimal(s: &str) -> (r: Option<usize>)
    ensures
        match r {
            Some(v) => s@.len() > 0 && all_digits(s@) && v as int == decimal_value(s@),
            None => s@.len() == 0 || !all_digits(s@) || decimal_value(s@) > usize::MAX,
        },
{
    let n = s.unicode_len();
    if n == 0 {
        return None;
    }
    let mut v: usize = 0;
    let mut i: usize = 0;
    let mut overflow = false;
    assert(s@.take(0) =~= Seq::<char>::empty());
    while i < n
        invariant
            n == s@.len(),
            0 <= i <= n,
            all_digits(s@.take(i as int)),
            !overflow ==> v as int == decimal_value(s@.take(i as int)),
            overflow ==> decimal_value(s@.take(i as int)) > usize::MAX,
        decreases n - i,
    {
        let c = s.get_char(i);
        if c < '0' || c > '9' {
            assert(!all_digits(s@)) by {
                assert(s@[i as int] == c);
            }
            return None;
        }
        let d = (c as u32 - '0' as u32) as usize;
        assert(s@.take(i + 1).drop_last() =~= s@.take(i as int));
        assert(s@.take(i + 1).last() == c);
        assert(all_digits(s@.take(i + 1))) by {
            assert forall|k: int| 0 <= k < i + 1 implies '0' <= #[trigger] s@.take(i + 1)[k] <= '9' by {
                if k < i {
                    assert(s@.take(i + 1)[k] == s@.take(i as int)[k]);
                }
            }
        }
        proof {
            assert(decimal_value(s@.take(i + 1)) == decimal_value(s@.take(i as int)) * 10 + d);
            assert(decimal_value(s@.take(i as int)) >= 0) by {
                lemma_decimal_nonneg(s@.take(i as int));
            }
        }
        if !overflow {
            match v.checked_mul(10) {
                Some(t) => match t.checked_add(d) {
                    Some(u) => {
                        v = u;
                    },
                    None => {
                        overflow = true;
                    },
                },
                None => {
                    overflow = true;
                    assert(decimal_value(s@.take(i + 1)) > usize::MAX) by (nonlinear_arith)
                        requires
                            v as int * 10 > usize::MAX,
                            decimal_value(s@.take(i + 1)) == v as int * 10 + d,
                            d >= 0,
                    ;
                },
            }
        } else {
            assert(decimal_value(s@.take(i + 1)) > usize::MAX) by (nonlinear_arith)
                requires
                    decimal_value(s@.take(i as int)) > usize::MAX,
                    decimal_value(s@.take(i + 1)) == decimal_value(s@.take(i as int)) * 10 + d,
                    d >= 0,
            ;
        }
        i = i + 1;
    }
    assert(s@.take(n as int) =~= s@);
    if overflow {
        None
    } else {
        Some(v)
    }
}

/// The value of a digit string is never negative.
pub proof fn lemma_decimal_nonneg(s: Seq<char>)
    requires
        all_digits(s),
    ensures
        decimal_value(s) >= 0,
    decreases s.len(),
{
    if s.len() > 0 {
        assert(all_digits(s.drop_last())) by {
            assert forall|k: int| 0 <= k < s.drop_last().len() implies '0' <= #[trigger] s.drop_last()[k] <= '9' by {
                assert(s.drop_last()[k] == s[k]);
            }
        }
        lemma_decimal_nonneg(s.drop_last());
    }
}

/// Rebuilds a log entry from its stored row; a malformed latency reads as 0.
pub fn history_from_row(
    id: String,
    request_id: String,
    response_id: String,
    sent_at: String,
    response_time: &str,
) -> (r: RequestHistoryItem)
    ensures
        r.id == id,
        r.request_id == request_id,
        r.response_id == response_id,
        r.sent_at == sent_at,
        r.response_time == match parse_decimal_spec(response_time@) {
            Some(v) => v,
            None => 0,
        },
{
    let t = match parse_decimal(response_time) {
        Some(v) => v,
        None => 0,
    };
    RequestHistoryItem { id, request_id, response_id, sent_at, response_time: t }
}

/// What `parse_decimal` reads from a text.
pub open spec fn parse_decimal_spec(s: Seq<char>) -> Option<usize> {
    if s.len() > 0 && all_digits(s) && decimal_value(s) <= usize::MAX {
        Some(decimal_value(s) as usize)
    } else {
        None
    }
}

} // verus!
