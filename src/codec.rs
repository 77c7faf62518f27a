use vstd::prelude::*;

use crate::collection::{
    AuthValue, AuthValueUnion, BodyOptions, BodyOptionsRaw, Collection, CollectionAuth,
    CollectionFolder, CollectionInfo, CollectionItem, CollectionItemOrFolder, CollectionRequest,
    CollectionRequestHeader, CollectionUrl, RequestBody, entries_view, nodes_view, opt_auth_view,
    opt_string_view, opt_strings_view, strings_view,
};
use crate::document::{
    dec_auth, dec_body, dec_collection, dec_entries, dec_entry, dec_header, dec_headers, dec_info,
    dec_node, dec_node_list, dec_opt_auth, dec_opt_str, dec_opt_strs,
    dec_request, dec_strs, dec_url, field_str, enc_auth, enc_body, enc_collection, enc_entries, enc_entry, enc_header, enc_headers, enc_info,
    enc_node, enc_nodes, enc_opt_auth, enc_opt_body, enc_opt_str, enc_opt_strs, enc_request, enc_strs, enc_url,
};
use crate::json::{
    JsonModel, JsonValue, copy_json, field_index, fields_view, get_field, key_index, lookup,
};

verus! {

/// The view of an object value is the view of its members.
pub proof fn lemma_object_view(f: Vec<(String, JsonValue)>)
    ensures
        JsonValue::Object(f)@ == JsonModel::Object(fields_view(f@)),
{
    assert(JsonValue::Object(f)@->Object_0 =~= fields_view(f@));
}

/// The view of an array value is the list of the views of its elements.
pub proof fn lemma_array_view(a: Vec<JsonValue>)
    ensures
        JsonValue::Array(a)@ == JsonModel::Array(a@.map_values(|x: JsonValue| x@)),
{
    assert(JsonValue::Array(a)@->Array_0 =~= a@.map_values(|x: JsonValue| x@));
}

fn member(k: &str, v: JsonValue) -> (r: (String, JsonValue))
    ensures
        r.0@ == k@,
        r.1@ == v@,
{
    (String::from_str(k), v)
}

fn object1(k1: &str, v1: JsonValue) -> (r: JsonValue)
    ensures
        r@ == JsonModel::Object(seq![(k1@, v1@)]),
{
    let mut f: Vec<(String, JsonValue)> = Vec::new();
    f.push(member(k1, v1));
    proof {
        lemma_object_view(f);
        assert(fields_view(f@) =~= seq![(k1@, v1@)]);
    }
    JsonValue::Object(f)
}

fn object2(k1: &str, v1: JsonValue, k2: &str, v2: JsonValue) -> (r: JsonValue)
    ensures
        r@ == JsonModel::Object(seq![(k1@, v1@), (k2@, v2@)]),
{
    let ghost g = seq![(k1@, v1@), (k2@, v2@)];
    let mut f: Vec<(String, JsonValue)> = Vec::new();
    f.push(member(k1, v1));
    f.push(member(k2, v2));
    proof {
        lemma_object_view(f);
        assert(fields_view(f@) =~= g);
    }
    JsonValue::Object(f)
}

fn object3(k1: &str, v1: JsonValue, k2: &str, v2: JsonValue, k3: &str, v3: JsonValue) -> (r:
    JsonValue)
    ensures
        r@ == JsonModel::Object(seq![(k1@, v1@), (k2@, v2@), (k3@, v3@)]),
{
    let ghost g = seq![(k1@, v1@), (k2@, v2@), (k3@, v3@)];
    let mut f: Vec<(String, JsonValue)> = Vec::new();
    f.push(member(k1, v1));
    f.push(member(k2, v2));
    f.push(member(k3, v3));
    proof {
        lemma_object_view(f);
        assert(fields_view(f@) =~= g);
    }
    JsonValue::Object(f)
}

fn str_value(s: &String) -> (r: JsonValue)
    ensures
        r@ == JsonModel::Str(s@),
{
    JsonValue::Str(s.clone())
}

fn opt_str_value(o: &Option<String>) -> (r: JsonValue)
    ensures
        r@ == enc_opt_str(opt_string_view(*o)),
{
    match o {
        Some(s) => str_value(s),
        None => JsonValue::Null,
    }
}

fn strs_value(v: &Vec<String>) -> (r: JsonValue)
    ensures
        r@ == enc_strs(strings_view(*v)),
{
    let mut out: Vec<JsonValue> = Vec::new();
    let mut i: usize = 0;
    while i < v.len()
        invariant
            0 <= i <= v.len(),
            out.len() == i,
            forall|j: int| 0 <= j < i ==> (#[trigger] out@[j])@ == JsonModel::Str(v@[j]@),
        decreases v.len() - i,
    {
        out.push(str_value(&v[i]));
        i = i + 1;
    }
    proof {
        lemma_array_view(out);
        assert(out@.map_values(|x: JsonValue| x@) =~= strings_view(*v).map_values(
            |x: Seq<char>| JsonModel::Str(x),
        ));
    }
    JsonValue::Array(out)
}

fn opt_strs_value(o: &Option<Vec<String>>) -> (r: JsonValue)
    ensures
        r@ == enc_opt_strs(opt_strings_view(*o)),
{
    match o {
        Some(v) => strs_value(v),
        None => JsonValue::Null,
    }
}

impl CollectionInfo {
    /// The document form of the info block.
    pub fn to_json(&self) -> (r: JsonValue)
        ensures
            r@ == enc_info(self@),
    {
        object3(
            "_postman_id",
            str_value(&self.id),
            "name",
            str_value(&self.name),
            "description",
            opt_str_value(&self.description),
        )
    }
}

impl CollectionUrl {
    /// The document form of an address.
    pub fn to_json(&self) -> (r: JsonValue)
        ensures
            r@ == enc_url(self@),
    {
        object3(
            "raw",
            str_value(&self.raw),
            "host",
            opt_strs_value(&self.host),
            "path",
            opt_strs_value(&self.path),
        )
    }
}

impl CollectionRequestHeader {
    /// The document form of a header line.
    pub fn to_json(&self) -> (r: JsonValue)
        ensures
            r@ == enc_header(self@),
    {
        object3(
            "key",
            str_value(&self.key),
            "value",
            str_value(&self.value),
            "type",
            str_value(&self.kind),
        )
    }
}

fn headers_value(o: &Option<Vec<CollectionRequestHeader>>) -> (r: JsonValue)
    ensures
        r@ == enc_headers(
            match *o {
                Some(h) => Some(h@.map_values(|x: CollectionRequestHeader| x@)),
                None => None,
            },
        ),
{
    match o {
        None => JsonValue::Null,
        Some(v) => {
            let mut out: Vec<JsonValue> = Vec::new();
            let mut i: usize = 0;
            while i < v.len()
                invariant
                    0 <= i <= v.len(),
                    out.len() == i,
                    forall|j: int| 0 <= j < i ==> (#[trigger] out@[j])@ == enc_header(v@[j]@),
                decreases v.len() - i,
            {
                out.push(v[i].to_json());
                i = i + 1;
            }
            proof {
                lemma_array_view(out);
                assert(out@.map_values(|x: JsonValue| x@) =~= v@.map_values(
                    |x: CollectionRequestHeader| x@,
                ).map_values(|h| enc_header(h)));
            }
            JsonValue::Array(out)
        },
    }
}

impl RequestBody {
    /// The document form of a body.
    pub fn to_json(&self) -> (r: JsonValue)
        ensures
            r@ == enc_body(self@),
    {
        let options = match &self.options {
            Some(o) => object1("raw", object1("language", str_value(&o.raw.language))),
            None => JsonValue::Null,
        };
        object3("mode", str_value(&self.mode), "raw", str_value(&self.raw), "options", options)
    }
}

impl AuthValueUnion {
    /// The document form of an auth value: the string, or the value as it is.
    pub fn to_json(&self) -> (r: JsonValue)
        ensures
            r@ == self@,
    {
        match self {
            AuthValueUnion::String(s) => str_value(s),
            AuthValueUnion::Object(j) => copy_json(j),
        }
    }
}

impl AuthValue {
    /// The document form of an auth setting.
    pub fn to_json(&self) -> (r: JsonValue)
        ensures
            r@ == enc_entry(self@),
    {
        object3(
            "key",
            str_value(&self.key),
            "value",
            self.value.to_json(),
            "type",
            str_value(&self.kind),
        )
    }
}

fn entries_value(o: &Option<Vec<AuthValue>>) -> (r: JsonValue)
    ensures
        r@ == enc_entries(entries_view(*o)),
{
    match o {
        None => JsonValue::Null,
        Some(v) => {
            let mut out: Vec<JsonValue> = Vec::new();
            let mut i: usize = 0;
            while i < v.len()
                invariant
                    0 <= i <= v.len(),
                    out.len() == i,
                    forall|j: int| 0 <= j < i ==> (#[trigger] out@[j])@ == enc_entry(v@[j]@),
                decreases v.len() - i,
            {
                out.push(v[i].to_json());
                i = i + 1;
            }
            proof {
                lemma_array_view(out);
                assert(out@.map_values(|x: JsonValue| x@) =~= v@.map_values(|a: AuthValue| a@).map_values(
                    |e| enc_entry(e),
                ));
            }
            JsonValue::Array(out)
        },
    }
}

impl CollectionAuth {
    /// The document form of an auth scheme.
    pub fn to_json(&self) -> (r: JsonValue)
        ensures
            r@ == enc_auth(self@),
    {
        object3(
            "type",
            str_value(&self.kind),
            "bearer",
            entries_value(&self.bearer),
            "oauth2",
            entries_value(&self.oauth2),
        )
    }
}

pub(crate) fn opt_auth_value(o: &Option<CollectionAuth>) -> (r: JsonValue)
    ensures
        r@ == enc_opt_auth(opt_auth_view(*o)),
{
    match o {
        Some(a) => a.to_json(),
        None => JsonValue::Null,
    }
}

impl CollectionRequest {
    /// The document form of a saved request.
    pub fn to_json(&self) -> (r: JsonValue)
        ensures
            r@ == enc_request(self@),
    {
        let body = match &self.body {
            Some(b) => b.to_json(),
            None => JsonValue::Null,
        };
        let ghost g = seq![
            ("method"@, JsonModel::Str(self.method@)),
            ("url"@, enc_url(self.url@)),
            ("auth"@, enc_opt_auth(opt_auth_view(self.auth))),
            ("header"@, enc_headers(self@.header)),
            ("body"@, enc_opt_body(self@.body)),
        ];
        let mut f: Vec<(String, JsonValue)> = Vec::new();
        f.push(member("method", str_value(&self.method)));
        f.push(member("url", self.url.to_json()));
        f.push(member("auth", opt_auth_value(&self.auth)));
        f.push(member("header", headers_value(&self.header)));
        f.push(member("body", body));
        proof {
            lemma_object_view(f);
            assert(fields_view(f@) =~= g);
        }
        JsonValue::Object(f)
    }
}

impl CollectionItemOrFolder {
    /// The document form of a node and everything below it.
    pub fn to_json(&self) -> (r: JsonValue)
        ensures
            r@ == enc_node(self@),
        decreases self,
    {
        match self {
            CollectionItemOrFolder::Item(i) => object2(
                "name",
                str_value(&i.name),
                "request",
                i.request.to_json(),
            ),
            CollectionItemOrFolder::Folder(f) => {
                let mut out: Vec<JsonValue> = Vec::new();
                let mut k: usize = 0;
                while k < f.item.len()
                    invariant
                        0 <= k <= f.item.len(),
                        *self is Folder,
                        f == self->Folder_0,
                        out.len() == k,
                        forall|j: int|
                            0 <= j < k ==> (#[trigger] out@[j])@ == enc_node(f.item@[j]@),
                    decreases f.item.len() - k,
                {
                    assert(decreases_to!(*self => self->Folder_0));
                    assert(decreases_to!(f => f.item));
                    assert(decreases_to!(f.item => f.item@));
                    assert(decreases_to!(f.item@ => f.item@[k as int]));
                    out.push(f.item[k].to_json());
                    k = k + 1;
                }
                let ghost items = self@->Folder_items;
                proof {
                    lemma_array_view(out);
                    assert(items.len() == f.item.len());
                    assert(forall|j: int| 0 <= j < k ==> items[j] == f.item@[j]@);
                }
                let arr = JsonValue::Array(out);
                proof {
                    let e = enc_node(self@)->Object_0[1].1;
                    assert(arr@->Array_0 =~= e->Array_0);
                }
                object2("name", str_value(&f.name), "item", arr)
            },
        }
    }
}

pub(crate) fn nodes_value(v: &Vec<CollectionItemOrFolder>) -> (r: JsonValue)
    ensures
        r@ == enc_nodes(nodes_view(v@)),
{
    let mut out: Vec<JsonValue> = Vec::new();
    let mut i: usize = 0;
    while i < v.len()
        invariant
            0 <= i <= v.len(),
            out.len() == i,
            forall|j: int| 0 <= j < i ==> (#[trigger] out@[j])@ == enc_node(v@[j]@),
        decreases v.len() - i,
    {
        out.push(v[i].to_json());
        i = i + 1;
    }
    proof {
        lemma_array_view(out);
        assert(out@.map_values(|x: JsonValue| x@) =~= nodes_view(v@).map_values(
            |n| enc_node(n),
        ));
    }
    JsonValue::Array(out)
}

impl Collection {
    /// The document form of the whole collection.
    pub fn to_json(&self) -> (r: JsonValue)
        ensures
            r@ == enc_collection(self@),
    {
        object3(
            "info",
            self.info.to_json(),
            "item",
            nodes_value(&self.item),
            "auth",
            opt_auth_value(&self.auth),
        )
    }
}

// ---------------------------------------------------------------------------
// Reading the document form.

fn as_fields(j: &JsonValue) -> (r: Option<&Vec<(String, JsonValue)>>)
    ensures
        match r {
            Some(f) => j@ == JsonModel::Object(fields_view(f@)) && *j == JsonValue::Object(*f),
            None => !(j@ is Object),
        },
{
    match j {
        JsonValue::Object(f) => {
            proof {
                lemma_object_view(*f);
            }
            Some(f)
        },
        _ => None,
    }
}

fn field_string(f: &Vec<(String, JsonValue)>, k: &str) -> (r: Option<String>)
    ensures
        match r {
            Some(s) => field_str(fields_view(f@), k@) == Some(s@),
            None => field_str(fields_view(f@), k@) is None,
        },
{
    match get_field(f, k) {
        Some(JsonValue::Str(s)) => Some(s.clone()),
        _ => None,
    }
}

fn field_opt_string(f: &Vec<(String, JsonValue)>, k: &str) -> (r: Option<Option<String>>)
    ensures
        match r {
            Some(o) => dec_opt_str(lookup(fields_view(f@), k@)) == Some(opt_string_view(o)),
            None => dec_opt_str(lookup(fields_view(f@), k@)) is None,
        },
{
    match get_field(f, k) {
        None => Some(None),
        Some(JsonValue::Null) => Some(None),
        Some(JsonValue::Str(s)) => Some(Some(s.clone())),
        _ => None,
    }
}

fn strings_of(j: &JsonValue) -> (r: Option<Vec<String>>)
    ensures
        match r {
            Some(v) => dec_strs(j@) == Some(strings_view(v)),
            None => dec_strs(j@) is None,
        },
{
    match j {
        JsonValue::Array(a) => {
            proof {
                lemma_array_view(*a);
            }
            let ghost s = j@->Array_0;
            let mut out: Vec<String> = Vec::new();
            let mut i: usize = 0;
            while i < a.len()
                invariant
                    0 <= i <= a.len(),
                    s == a@.map_values(|x: JsonValue| x@),
                    j@ == JsonModel::Array(s),
                    out.len() == i,
                    forall|k: int| 0 <= k < i ==> (#[trigger] s[k]) == JsonModel::Str(out@[k]@),
                decreases a.len() - i,
            {
                match &a[i] {
                    JsonValue::Str(x) => out.push(x.clone()),
                    _ => {
                        assert(!(s[i as int] is Str));
                        return None;
                    },
                }
                i = i + 1;
            }
            assert(forall|k: int| 0 <= k < s.len() ==> (#[trigger] s[k]) is Str);
            assert(s.map_values(|x: JsonModel| x->Str_0) =~= strings_view(out));
            assert(dec_strs(j@) == Some(s.map_values(|x: JsonModel| x->Str_0)));
            Some(out)
        },
        _ => None,
    }
}

fn field_opt_strings(f: &Vec<(String, JsonValue)>, k: &str) -> (r: Option<Option<Vec<String>>>)
    ensures
        match r {
            Some(o) => dec_opt_strs(lookup(fields_view(f@), k@)) == Some(opt_strings_view(o)),
            None => dec_opt_strs(lookup(fields_view(f@), k@)) is None,
        },
{
    match get_field(f, k) {
        None => Some(None),
        Some(JsonValue::Null) => Some(None),
        Some(v) => match strings_of(v) {
            Some(x) => Some(Some(x)),
            None => None,
        },
    }
}

impl CollectionInfo {
    /// Reads an info block.
    pub fn from_json(j: &JsonValue) -> (r: Option<CollectionInfo>)
        ensures
            match r {
                Some(x) => dec_info(j@) == Some(x@),
                None => dec_info(j@) is None,
            },
    {
        let f = as_fields(j)?;
        let id = field_string(f, "_postman_id")?;
        let name = field_string(f, "name")?;
        let description = field_opt_string(f, "description")?;
        Some(CollectionInfo { id, name, description })
    }
}

impl CollectionUrl {
    /// Reads an address.
    pub fn from_json(j: &JsonValue) -> (r: Option<CollectionUrl>)
        ensures
            match r {
                Some(x) => dec_url(j@) == Some(x@),
                None => dec_url(j@) is None,
            },
    {
        let f = as_fields(j)?;
        let raw = field_string(f, "raw")?;
        let host = field_opt_strings(f, "host")?;
        let path = field_opt_strings(f, "path")?;
        Some(CollectionUrl { raw, host, path })
    }
}

impl CollectionRequestHeader {
    /// Reads a header line.
    pub fn from_json(j: &JsonValue) -> (r: Option<CollectionRequestHeader>)
        ensures
            match r {
                Some(x) => dec_header(j@) == Some(x@),
                None => dec_header(j@) is None,
            },
    {
        let f = as_fields(j)?;
        let key = field_string(f, "key")?;
        let value = field_string(f, "value")?;
        let kind = field_string(f, "type")?;
        Some(CollectionRequestHeader { key, value, kind })
    }
}

fn field_headers(f: &Vec<(String, JsonValue)>, k: &str) -> (r: Option<
    Option<Vec<CollectionRequestHeader>>,
>)
    ensures
        match r {
            Some(o) => dec_headers(lookup(fields_view(f@), k@)) == Some(
                match o {
                    Some(h) => Some(h@.map_values(|x: CollectionRequestHeader| x@)),
                    None => None,
                },
            ),
            None => dec_headers(lookup(fields_view(f@), k@)) is None,
        },
{
    match get_field(f, k) {
        None => Some(None),
        Some(JsonValue::Null) => Some(None),
        Some(JsonValue::Array(a)) => {
            proof {
                lemma_array_view(*a);
            }
            let ghost s = a@.map_values(|x: JsonValue| x@);
            let mut out: Vec<CollectionRequestHeader> = Vec::new();
            let mut i: usize = 0;
            while i < a.len()
                invariant
                    0 <= i <= a.len(),
                    s == a@.map_values(|x: JsonValue| x@),
                    lookup(fields_view(f@), k@) == Some(JsonModel::Array(s)),
                    out.len() == i,
                    forall|k: int| 0 <= k < i ==> dec_header(#[trigger] s[k]) == Some(out@[k]@),
                decreases a.len() - i,
            {
                match CollectionRequestHeader::from_json(&a[i]) {
                    Some(h) => out.push(h),
                    None => {
                        assert(dec_header(s[i as int]) is None);
                        return None;
                    },
                }
                i = i + 1;
            }
            assert(forall|k: int| 0 <= k < s.len() ==> (#[trigger] dec_header(s[k])) is Some);
            assert(s.map_values(|x: JsonModel| dec_header(x)->0) =~= out@.map_values(
                |x: CollectionRequestHeader| x@,
            ));
            Some(Some(out))
        },
        Some(_) => None,
    }
}

impl RequestBody {
    /// Reads a body.
    pub fn from_json(j: &JsonValue) -> (r: Option<RequestBody>)
        ensures
            match r {
                Some(x) => dec_body(j@) == Some(x@),
                None => dec_body(j@) is None,
            },
    {
        let f = as_fields(j)?;
        let mode = field_string(f, "mode")?;
        let raw = field_string(f, "raw")?;
        let options = match get_field(f, "options") {
            None => None,
            Some(JsonValue::Null) => None,
            Some(o) => {
                let g = as_fields(o)?;
                let h = as_fields(get_field(g, "raw")?)?;
                let language = field_string(h, "language")?;
                Some(BodyOptions { raw: BodyOptionsRaw { language } })
            },
        };
        Some(RequestBody { mode, raw, options })
    }
}

impl AuthValueUnion {
    /// Reads an auth value: a string where the document holds one, and
    /// otherwise the value as it is.
    pub fn from_json(j: &JsonValue) -> (r: AuthValueUnion)
        ensures
            r@ == j@,
            r is String <==> j@ is Str,
    {
        match j {
            JsonValue::Str(s) => AuthValueUnion::String(s.clone()),
            _ => AuthValueUnion::Object(copy_json(j)),
        }
    }
}

impl AuthValue {
    /// Reads an auth setting.
    pub fn from_json(j: &JsonValue) -> (r: Option<AuthValue>)
        ensures
            match r {
                Some(x) => dec_entry(j@) == Some(x@),
                None => dec_entry(j@) is None,
            },
    {
        let f = as_fields(j)?;
        let key = field_string(f, "key")?;
        let value = AuthValueUnion::from_json(get_field(f, "value")?);
        let kind = field_string(f, "type")?;
        Some(AuthValue { key, value, kind })
    }
}

fn field_entries(f: &Vec<(String, JsonValue)>, k: &str) -> (r: Option<Option<Vec<AuthValue>>>)
    ensures
        match r {
            Some(o) => dec_entries(lookup(fields_view(f@), k@)) == Some(entries_view(o)),
            None => dec_entries(lookup(fields_view(f@), k@)) is None,
        },
{
    match get_field(f, k) {
        None => Some(None),
        Some(JsonValue::Null) => Some(None),
        Some(JsonValue::Array(a)) => {
            proof {
                lemma_array_view(*a);
            }
            let ghost s = a@.map_values(|x: JsonValue| x@);
            let mut out: Vec<AuthValue> = Vec::new();
            let mut i: usize = 0;
            while i < a.len()
                invariant
                    0 <= i <= a.len(),
                    s == a@.map_values(|x: JsonValue| x@),
                    lookup(fields_view(f@), k@) == Some(JsonModel::Array(s)),
                    out.len() == i,
                    forall|k: int| 0 <= k < i ==> dec_entry(#[trigger] s[k]) == Some(out@[k]@),
                decreases a.len() - i,
            {
                match AuthValue::from_json(&a[i]) {
                    Some(h) => out.push(h),
                    None => {
                        assert(dec_entry(s[i as int]) is None);
                        return None;
                    },
                }
                i = i + 1;
            }
            assert(forall|k: int| 0 <= k < s.len() ==> (#[trigger] dec_entry(s[k])) is Some);
            assert(s.map_values(|x: JsonModel| dec_entry(x)->0) =~= out@.map_values(
                |x: AuthValue| x@,
            ));
            Some(Some(out))
        },
        Some(_) => None,
    }
}

impl CollectionAuth {
    /// Reads an auth scheme.
    pub fn from_json(j: &JsonValue) -> (r: Option<CollectionAuth>)
        ensures
            match r {
                Some(x) => dec_auth(j@) == Some(x@),
                None => dec_auth(j@) is None,
            },
    {
        let f = as_fields(j)?;
        let kind = field_string(f, "type")?;
        let bearer = field_entries(f, "bearer")?;
        let oauth2 = field_entries(f, "oauth2")?;
        Some(CollectionAuth { kind, bearer, oauth2 })
    }
}

fn field_opt_auth(f: &Vec<(String, JsonValue)>, k: &str) -> (r: Option<Option<CollectionAuth>>)
    ensures
        match r {
            Some(o) => dec_opt_auth(lookup(fields_view(f@), k@)) == Some(opt_auth_view(o)),
            None => dec_opt_auth(lookup(fields_view(f@), k@)) is None,
        },
{
    match get_field(f, k) {
        None => Some(None),
        Some(JsonValue::Null) => Some(None),
        Some(v) => match CollectionAuth::from_json(v) {
            Some(a) => Some(Some(a)),
            None => None,
        },
    }
}

impl CollectionRequest {
    /// Reads a saved request.
    pub fn from_json(j: &JsonValue) -> (r: Option<CollectionRequest>)
        ensures
            match r {
                Some(x) => dec_request(j@) == Some(x@),
                None => dec_request(j@) is None,
            },
    {
        let f = as_fields(j)?;
        let method = field_string(f, "method")?;
        let u = get_field(f, "url")?;
        let auth = field_opt_auth(f, "auth")?;
        let header = field_headers(f, "header")?;
        let body = match get_field(f, "body") {
            None => None,
            Some(JsonValue::Null) => None,
            Some(b) => Some(RequestBody::from_json(b)?),
        };
        let url = CollectionUrl::from_json(u)?;
        Some(CollectionRequest { method, url, auth, header, body })
    }
}

/// A list of nodes fails to read wherever one of its prefixes does.
pub proof fn lemma_node_list_prefix(s: Seq<JsonModel>, n: int)
    requires
        0 <= n <= s.len(),
        dec_node_list(s.take(n)) is None,
    ensures
        dec_node_list(s) is None,
    decreases s.len(),
{
    if s.len() > n {
        assert(s.drop_last().take(n) =~= s.take(n));
        lemma_node_list_prefix(s.drop_last(), n);
    } else {
        assert(s.take(n) =~= s);
    }
}

pub(crate) fn node_list(a: &Vec<JsonValue>) -> (r: Option<Vec<CollectionItemOrFolder>>)
    ensures
        match r {
            Some(v) => dec_node_list(a@.map_values(|x: JsonValue| x@)) == Some(nodes_view(v@)),
            None => dec_node_list(a@.map_values(|x: JsonValue| x@)) is None,
        },
    decreases a,
{
    let ghost s = a@.map_values(|x: JsonValue| x@);
    let mut out: Vec<CollectionItemOrFolder> = Vec::new();
    let mut i: usize = 0;
    assert(s.take(0) =~= Seq::<JsonModel>::empty());
    assert(nodes_view(out@) =~= Seq::<crate::collection::NodeModel>::empty());
    while i < a.len()
        invariant
            0 <= i <= a.len(),
            s == a@.map_values(|x: JsonValue| x@),
            dec_node_list(s.take(i as int)) == Some(nodes_view(out@)),
        decreases a.len() - i,
    {
        assert(decreases_to!(a => a@));
        assert(decreases_to!(a@ => a@[i as int]));
        let n = CollectionItemOrFolder::from_json(&a[i]);
        assert(s.take(i + 1).drop_last() =~= s.take(i as int));
        assert(s.take(i + 1).last() == s[i as int]);
        let ghost prev = out@;
        match n {
            Some(n) => {
                out.push(n);
                assert(out@.drop_last() =~= prev);
                assert(nodes_view(out@) =~= nodes_view(prev).push(out@.last()@));
            },
            None => {
                proof {
                    lemma_node_list_prefix(s, i + 1);
                }
                return None;
            },
        }
        i = i + 1;
    }
    assert(s.take(a.len() as int) =~= s);
    Some(out)
}

impl CollectionItemOrFolder {
    /// Reads a node and everything below it: an object with a `request`
    /// member is an item, any other object a folder.
    pub fn from_json(j: &JsonValue) -> (r: Option<CollectionItemOrFolder>)
        ensures
            match r {
                Some(x) => dec_node(j@) == Some(x@),
                None => dec_node(j@) is None,
            },
        decreases j,
    {
        let f = as_fields(j)?;
        let ghost fv = fields_view(f@);
        let name = field_string(f, "name");
        match get_field(f, "request") {
            Some(rj) => {
                let request = CollectionRequest::from_json(rj)?;
                let name = name?;
                Some(CollectionItemOrFolder::Item(CollectionItem { name, request }))
            },
            None => {
                let i = field_index(f, "item")?;
                let name = name?;
                match &f[i].1 {
                    JsonValue::Array(a) => {
                        assert(decreases_to!(*j => j->Object_0));
                        assert(decreases_to!(*f => f@));
                        assert(decreases_to!(f@ => f@[i as int]));
                        assert(decreases_to!(f@[i as int] => f@[i as int].1));
                        assert(decreases_to!(f@[i as int].1 => f@[i as int].1->Array_0));
                        proof {
                            lemma_array_view(*a);
                        }
                        let items = node_list(a)?;
                        let ghost iv = nodes_view(items@);
                        let x = CollectionItemOrFolder::Folder(CollectionFolder { name, item: items });
                        assert(x@->Folder_items =~= iv);
                        Some(x)
                    },
                    _ => None,
                }
            },
        }
    }
}

impl Collection {
    /// Reads a collection document.
    pub fn from_json(j: &JsonValue) -> (r: Option<Collection>)
        ensures
            match r {
                Some(x) => dec_collection(j@) == Some(x@),
                None => dec_collection(j@) is None,
            },
    {
        let f = as_fields(j)?;
        let i = get_field(f, "info")?;
        let n = get_field(f, "item")?;
        let auth = field_opt_auth(f, "auth")?;
        let info = CollectionInfo::from_json(i)?;
        match n {
            JsonValue::Array(a) => {
                proof {
                    lemma_array_view(*a);
                }
                let item = node_list(a)?;
                Some(Collection { info, item, auth })
            },
            _ => None,
        }
    }
}

} // verus!
