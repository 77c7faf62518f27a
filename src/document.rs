use vstd::prelude::*;

use crate::collection::{
    AuthEntryModel, AuthModel, BodyModel, CollectionModel, HeaderModel, InfoModel,
    NodeModel, RequestModel, UrlModel,
};
use crate::json::{JsonModel, key_index, lemma_lookup_absent, lemma_lookup_at, lookup};

verus! {

// ---------------------------------------------------------------------------
// The document form of a collection, as it is imported and exported.

pub open spec fn enc_opt_str(o: Option<Seq<char>>) -> JsonModel {
    match o {
        Some(s) => JsonModel::Str(s),
        None => JsonModel::Null,
    }
}

pub open spec fn enc_strs(s: Seq<Seq<char>>) -> JsonModel {
    JsonModel::Array(s.map_values(|x: Seq<char>| JsonModel::Str(x)))
}

pub open spec fn enc_opt_strs(o: Option<Seq<Seq<char>>>) -> JsonModel {
    match o {
        Some(s) => enc_strs(s),
        None => JsonModel::Null,
    }
}

pub open spec fn enc_info(i: InfoModel) -> JsonModel {
    JsonModel::Object(
        seq![
            ("_postman_id"@, JsonModel::Str(i.id)),
            ("name"@, JsonModel::Str(i.name)),
            ("description"@, enc_opt_str(i.description)),
        ],
    )
}

pub open spec fn enc_url(u: UrlModel) -> JsonModel {
    JsonModel::Object(
        seq![
            ("raw"@, JsonModel::Str(u.raw)),
            ("host"@, enc_opt_strs(u.host)),
            ("path"@, enc_opt_strs(u.path)),
        ],
    )
}

pub open spec fn enc_header(h: HeaderModel) -> JsonModel {
    JsonModel::Object(
        seq![
            ("key"@, JsonModel::Str(h.key)),
            ("value"@, JsonModel::Str(h.value)),
            ("type"@, JsonModel::Str(h.kind)),
        ],
    )
}

pub open spec fn enc_headers(o: Option<Seq<HeaderModel>>) -> JsonModel {
    match o {
        Some(s) => JsonModel::Array(s.map_values(|h: HeaderModel| enc_header(h))),
        None => JsonModel::Null,
    }
}

pub open spec fn enc_options(language: Option<Seq<char>>) -> JsonModel {
    match language {
        Some(l) => JsonModel::Object(
            seq![("raw"@, JsonModel::Object(seq![("language"@, JsonModel::Str(l))]))],
        ),
        None => JsonModel::Null,
    }
}

pub open spec fn enc_body(b: BodyModel) -> JsonModel {
    JsonModel::Object(
        seq![
            ("mode"@, JsonModel::Str(b.mode)),
            ("raw"@, JsonModel::Str(b.raw)),
            ("options"@, enc_options(b.language)),
        ],
    )
}

pub open spec fn enc_opt_body(o: Option<BodyModel>) -> JsonModel {
    match o {
        Some(b) => enc_body(b),
        None => JsonModel::Null,
    }
}

pub open spec fn enc_entry(e: AuthEntryModel) -> JsonModel {
    JsonModel::Object(
        seq![
            ("key"@, JsonModel::Str(e.key)),
            ("value"@, e.value),
            ("type"@, JsonModel::Str(e.kind)),
        ],
    )
}

pub open spec fn enc_entries(o: Option<Seq<AuthEntryModel>>) -> JsonModel {
    match o {
        Some(s) => JsonModel::Array(s.map_values(|e: AuthEntryModel| enc_entry(e))),
        None => JsonModel::Null,
    }
}

pub open spec fn enc_auth(a: AuthModel) -> JsonModel {
    JsonModel::Object(
        seq![
            ("type"@, JsonModel::Str(a.kind)),
            ("bearer"@, enc_entries(a.bearer)),
            ("oauth2"@, enc_entries(a.oauth2)),
        ],
    )
}

pub open spec fn enc_opt_auth(o: Option<AuthModel>) -> JsonModel {
    match o {
        Some(a) => enc_auth(a),
        None => JsonModel::Null,
    }
}

pub open spec fn enc_request(r: RequestModel) -> JsonModel {
    JsonModel::Object(
        seq![
            ("method"@, JsonModel::Str(r.method)),
            ("url"@, enc_url(r.url)),
            ("auth"@, enc_opt_auth(r.auth)),
            ("header"@, enc_headers(r.header)),
            ("body"@, enc_opt_body(r.body)),
        ],
    )
}

/// The document form of a node: an item carries `request`, a folder `item`.
pub open spec fn enc_node(n: NodeModel) -> JsonModel
    decreases n,
{
    match n {
        NodeModel::Item { name, request } => JsonModel::Object(
            seq![("name"@, JsonModel::Str(name)), ("request"@, enc_request(request))],
        ),
        NodeModel::Folder { name, items } => JsonModel::Object(
            seq![
                ("name"@, JsonModel::Str(name)),
                ("item"@, JsonModel::Array(
                    Seq::new(
                        items.len(),
                        |k: int|
                            if 0 <= k < items.len() {
                                enc_node(items[k])
                            } else {
                                JsonModel::Null
                            },
                    ),
                )),
            ],
        ),
    }
}

pub open spec fn enc_nodes(s: Seq<NodeModel>) -> JsonModel {
    JsonModel::Array(s.map_values(|n: NodeModel| enc_node(n)))
}

/// The document form of a collection.
pub open spec fn enc_collection(c: CollectionModel) -> JsonModel {
    JsonModel::Object(
        seq![
            ("info"@, enc_info(c.info)),
            ("item"@, enc_nodes(c.items)),
            ("auth"@, enc_opt_auth(c.auth)),
        ],
    )
}

// ---------------------------------------------------------------------------
// Reading a document. A member that holds an optional value may be absent or
// `null`; any other member that is missing or of the wrong shape fails.

pub open spec fn field_str(f: Seq<(Seq<char>, JsonModel)>, k: Seq<char>) -> Option<Seq<char>> {
    match lookup(f, k) {
        Some(JsonModel::Str(s)) => Some(s),
        _ => None,
    }
}

pub open spec fn dec_opt_str(m: Option<JsonModel>) -> Option<Option<Seq<char>>> {
    match m {
        None => Some(None),
        Some(JsonModel::Null) => Some(None),
        Some(JsonModel::Str(s)) => Some(Some(s)),
        _ => None,
    }
}

pub open spec fn dec_strs(j: JsonModel) -> Option<Seq<Seq<char>>> {
    match j {
        JsonModel::Array(s) => if forall|i: int| 0 <= i < s.len() ==> (#[trigger] s[i]) is Str {
            Some(s.map_values(|x: JsonModel| x->Str_0))
        } else {
            None
        },
        _ => None,
    }
}

pub open spec fn dec_opt_strs(m: Option<JsonModel>) -> Option<Option<Seq<Seq<char>>>> {
    match m {
        None => Some(None),
        Some(JsonModel::Null) => Some(None),
        Some(v) => match dec_strs(v) {
            Some(s) => Some(Some(s)),
            None => None,
        },
    }
}

pub open spec fn dec_info(j: JsonModel) -> Option<InfoModel> {
    match j {
        JsonModel::Object(f) => match (
            field_str(f, "_postman_id"@),
            field_str(f, "name"@),
            dec_opt_str(lookup(f, "description"@)),
        ) {
            (Some(id), Some(name), Some(description)) => Some(InfoModel { id, name, description }),
            _ => None,
        },
        _ => None,
    }
}

pub open spec fn dec_url(j: JsonModel) -> Option<UrlModel> {
    match j {
        JsonModel::Object(f) => match (
            field_str(f, "raw"@),
            dec_opt_strs(lookup(f, "host"@)),
            dec_opt_strs(lookup(f, "path"@)),
        ) {
            (Some(raw), Some(host), Some(path)) => Some(UrlModel { raw, host, path }),
            _ => None,
        },
        _ => None,
    }
}

pub open spec fn dec_header(j: JsonModel) -> Option<HeaderModel> {
    match j {
        JsonModel::Object(f) => match (
            field_str(f, "key"@),
            field_str(f, "value"@),
            field_str(f, "type"@),
        ) {
            (Some(key), Some(value), Some(kind)) => Some(HeaderModel { key, value, kind }),
            _ => None,
        },
        _ => None,
    }
}

pub open spec fn dec_headers(m: Option<JsonModel>) -> Option<Option<Seq<HeaderModel>>> {
    match m {
        None => Some(None),
        Some(JsonModel::Null) => Some(None),
        Some(JsonModel::Array(s)) => if forall|i: int|
            0 <= i < s.len() ==> (#[trigger] dec_header(s[i])) is Some {
            Some(Some(s.map_values(|x: JsonModel| dec_header(x)->0)))
        } else {
            None
        },
        _ => None,
    }
}

pub open spec fn dec_options(m: Option<JsonModel>) -> Option<Option<Seq<char>>> {
    match m {
        None => Some(None),
        Some(JsonModel::Null) => Some(None),
        Some(JsonModel::Object(g)) => match lookup(g, "raw"@) {
            Some(JsonModel::Object(h)) => match field_str(h, "language"@) {
                Some(l) => Some(Some(l)),
                None => None,
            },
            _ => None,
        },
        _ => None,
    }
}

pub open spec fn dec_body(j: JsonModel) -> Option<BodyModel> {
    match j {
        JsonModel::Object(f) => match (
            field_str(f, "mode"@),
            field_str(f, "raw"@),
            dec_options(lookup(f, "options"@)),
        ) {
            (Some(mode), Some(raw), Some(language)) => Some(BodyModel { mode, raw, language }),
            _ => None,
        },
        _ => None,
    }
}

pub open spec fn dec_opt_body(m: Option<JsonModel>) -> Option<Option<BodyModel>> {
    match m {
        None => Some(None),
        Some(JsonModel::Null) => Some(None),
        Some(v) => match dec_body(v) {
            Some(b) => Some(Some(b)),
            None => None,
        },
    }
}

pub open spec fn dec_entry(j: JsonModel) -> Option<AuthEntryModel> {
    match j {
        JsonModel::Object(f) => match (field_str(f, "key"@), lookup(f, "value"@), field_str(f, "type"@)) {
            (Some(key), Some(v), Some(kind)) => Some(
                AuthEntryModel { key, value: v, kind },
            ),
            _ => None,
        },
        _ => None,
    }
}

pub open spec fn dec_entries(m: Option<JsonModel>) -> Option<Option<Seq<AuthEntryModel>>> {
    match m {
        None => Some(None),
        Some(JsonModel::Null) => Some(None),
        Some(JsonModel::Array(s)) => if forall|i: int|
            0 <= i < s.len() ==> (#[trigger] dec_entry(s[i])) is Some {
            Some(Some(s.map_values(|x: JsonModel| dec_entry(x)->0)))
        } else {
            None
        },
        _ => None,
    }
}

pub open spec fn dec_auth(j: JsonModel) -> Option<AuthModel> {
    match j {
        JsonModel::Object(f) => match (
            field_str(f, "type"@),
            dec_entries(lookup(f, "bearer"@)),
            dec_entries(lookup(f, "oauth2"@)),
        ) {
            (Some(kind), Some(bearer), Some(oauth2)) => Some(AuthModel { kind, bearer, oauth2 }),
            _ => None,
        },
        _ => None,
    }
}

pub open spec fn dec_opt_auth(m: Option<JsonModel>) -> Option<Option<AuthModel>> {
    match m {
        None => Some(None),
        Some(JsonModel::Null) => Some(None),
        Some(v) => match dec_auth(v) {
            Some(a) => Some(Some(a)),
            None => None,
        },
    }
}

pub open spec fn dec_request(j: JsonModel) -> Option<RequestModel> {
    match j {
        JsonModel::Object(f) => match (
            field_str(f, "method"@),
            lookup(f, "url"@),
            dec_opt_auth(lookup(f, "auth"@)),
            dec_headers(lookup(f, "header"@)),
            dec_opt_body(lookup(f, "body"@)),
        ) {
            (Some(method), Some(u), Some(auth), Some(header), Some(body)) => match dec_url(u) {
                Some(url) => Some(RequestModel { method, url, auth, header, body }),
                None => None,
            },
            _ => None,
        },
        _ => None,
    }
}

/// Reads a node: an object with a `request` member is an item; any other
/// object is a folder, which must then hold an `item` list; anything that is
/// not an object fails.
pub open spec fn dec_node(j: JsonModel) -> Option<NodeModel>
    decreases j,
{
    match j {
        JsonModel::Object(f) => {
            let name = field_str(f, "name"@);
            if lookup(f, "request"@) is Some {
                match (name, dec_request(lookup(f, "request"@)->0)) {
                    (Some(name), Some(request)) => Some(NodeModel::Item { name, request }),
                    _ => None,
                }
            } else {
                let i = key_index(f, "item"@);
                if 0 <= i < f.len() && name is Some && f[i].1 is Array {
                    match dec_node_list(f[i].1->Array_0) {
                        Some(items) => Some(NodeModel::Folder { name: name->0, items }),
                        None => None,
                    }
                } else {
                    None
                }
            }
        },
        _ => None,
    }
}

/// Reads a list of nodes; it fails where any of them fails.
pub open spec fn dec_node_list(s: Seq<JsonModel>) -> Option<Seq<NodeModel>>
    decreases s,
{
    if s.len() == 0 {
        Some(Seq::empty())
    } else {
        match (dec_node_list(s.drop_last()), dec_node(s.last())) {
            (Some(front), Some(n)) => Some(front.push(n)),
            _ => None,
        }
    }
}

pub open spec fn dec_nodes(j: JsonModel) -> Option<Seq<NodeModel>> {
    match j {
        JsonModel::Array(s) => dec_node_list(s),
        _ => None,
    }
}

/// Reads a collection document.
pub open spec fn dec_collection(j: JsonModel) -> Option<CollectionModel> {
    match j {
        JsonModel::Object(f) => match (lookup(f, "info"@), lookup(f, "item"@), dec_opt_auth(lookup(f, "auth"@))) {
            (Some(i), Some(n), Some(auth)) => match (dec_info(i), dec_nodes(n)) {
                (Some(info), Some(items)) => Some(CollectionModel { info, items, auth }),
                _ => None,
            },
            _ => None,
        },
        _ => None,
    }
}

// ---------------------------------------------------------------------------
// Writing then reading gives back what was written.

/// The member names of the document form differ where they share an object.
pub proof fn lemma_member_names()
    ensures
        "_postman_id"@ != "name"@,
        "_postman_id"@ != "description"@,
        "name"@ != "description"@,
        "raw"@ != "host"@,
        "raw"@ != "path"@,
        "host"@ != "path"@,
        "key"@ != "value"@,
        "key"@ != "type"@,
        "value"@ != "type"@,
        "mode"@ != "raw"@,
        "mode"@ != "options"@,
        "raw"@ != "options"@,
        "type"@ != "bearer"@,
        "type"@ != "oauth2"@,
        "bearer"@ != "oauth2"@,
        "method"@ != "url"@,
        "method"@ != "auth"@,
        "method"@ != "header"@,
        "method"@ != "body"@,
        "url"@ != "auth"@,
        "url"@ != "header"@,
        "url"@ != "body"@,
        "auth"@ != "header"@,
        "auth"@ != "body"@,
        "header"@ != "body"@,
        "name"@ != "request"@,
        "name"@ != "item"@,
        "item"@ != "request"@,
        "info"@ != "item"@,
        "info"@ != "auth"@,
        "item"@ != "auth"@,
{
    reveal_strlit("_postman_id");
    reveal_strlit("name");
    reveal_strlit("description");
    reveal_strlit("raw");
    reveal_strlit("host");
    reveal_strlit("path");
    reveal_strlit("key");
    reveal_strlit("value");
    reveal_strlit("type");
    reveal_strlit("mode");
    reveal_strlit("options");
    reveal_strlit("bearer");
    reveal_strlit("oauth2");
    reveal_strlit("method");
    reveal_strlit("url");
    reveal_strlit("auth");
    reveal_strlit("header");
    reveal_strlit("body");
    reveal_strlit("request");
    reveal_strlit("item");
    reveal_strlit("info");
    assert("_postman_id"@[0] != "name"@[0]);
    assert("_postman_id"@[0] != "description"@[0]);
    assert("name"@[0] != "description"@[0]);
    assert("raw"@[0] != "host"@[0]);
    assert("raw"@[0] != "path"@[0]);
    assert("host"@[0] != "path"@[0]);
    assert("key"@[0] != "value"@[0]);
    assert("key"@[0] != "type"@[0]);
    assert("value"@[0] != "type"@[0]);
    assert("mode"@[0] != "raw"@[0]);
    assert("mode"@[0] != "options"@[0]);
    assert("raw"@[0] != "options"@[0]);
    assert("type"@[0] != "bearer"@[0]);
    assert("type"@[0] != "oauth2"@[0]);
    assert("bearer"@[0] != "oauth2"@[0]);
    assert("method"@[0] != "url"@[0]);
    assert("method"@[0] != "auth"@[0]);
    assert("method"@[0] != "header"@[0]);
    assert("method"@[0] != "body"@[0]);
    assert("url"@[0] != "auth"@[0]);
    assert("url"@[0] != "header"@[0]);
    assert("url"@[0] != "body"@[0]);
    assert("auth"@[0] != "header"@[0]);
    assert("auth"@[0] != "body"@[0]);
    assert("header"@[0] != "body"@[0]);
    assert("name"@[0] != "request"@[0]);
    assert("name"@[0] != "item"@[0]);
    assert("item"@[0] != "request"@[0]);
    assert("info"@[1] != "item"@[1]);
    assert("info"@[0] != "auth"@[0]);
    assert("item"@[0] != "auth"@[0]);
}

pub proof fn lemma_lookup1(a: Seq<char>, x: JsonModel)
    ensures
        lookup(seq![(a, x)], a) == Some(x),
{
    lemma_lookup_at(seq![(a, x)], a, 0);
}

pub proof fn lemma_lookup2(a: Seq<char>, b: Seq<char>, x: JsonModel, y: JsonModel)
    requires
        a != b,
    ensures
        lookup(seq![(a, x), (b, y)], a) == Some(x),
        lookup(seq![(a, x), (b, y)], b) == Some(y),
{
    let f = seq![(a, x), (b, y)];
    lemma_lookup_at(f, a, 0);
    lemma_lookup_at(f, b, 1);
}

pub proof fn lemma_lookup3(
    a: Seq<char>,
    b: Seq<char>,
    c: Seq<char>,
    x: JsonModel,
    y: JsonModel,
    z: JsonModel,
)
    requires
        a != b,
        a != c,
        b != c,
    ensures
        lookup(seq![(a, x), (b, y), (c, z)], a) == Some(x),
        lookup(seq![(a, x), (b, y), (c, z)], b) == Some(y),
        lookup(seq![(a, x), (b, y), (c, z)], c) == Some(z),
{
    let f = seq![(a, x), (b, y), (c, z)];
    lemma_lookup_at(f, a, 0);
    lemma_lookup_at(f, b, 1);
    lemma_lookup_at(f, c, 2);
}

pub proof fn lemma_rt_info(i: InfoModel)
    ensures
        dec_info(enc_info(i)) == Some(i),
{
    lemma_member_names();
    lemma_lookup3(
        "_postman_id"@,
        "name"@,
        "description"@,
        JsonModel::Str(i.id),
        JsonModel::Str(i.name),
        enc_opt_str(i.description),
    );
}

pub proof fn lemma_rt_strs(o: Option<Seq<Seq<char>>>)
    ensures
        dec_opt_strs(Some(enc_opt_strs(o))) == Some(o),
{
    if let Some(s) = o {
        let e = s.map_values(|x: Seq<char>| JsonModel::Str(x));
        assert(e.map_values(|x: JsonModel| x->Str_0) =~= s);
    }
}

pub proof fn lemma_rt_url(u: UrlModel)
    ensures
        dec_url(enc_url(u)) == Some(u),
{
    lemma_member_names();
    lemma_lookup3(
        "raw"@,
        "host"@,
        "path"@,
        JsonModel::Str(u.raw),
        enc_opt_strs(u.host),
        enc_opt_strs(u.path),
    );
    lemma_rt_strs(u.host);
    lemma_rt_strs(u.path);
}

pub proof fn lemma_rt_header(h: HeaderModel)
    ensures
        dec_header(enc_header(h)) == Some(h),
{
    lemma_member_names();
    lemma_lookup3(
        "key"@,
        "value"@,
        "type"@,
        JsonModel::Str(h.key),
        JsonModel::Str(h.value),
        JsonModel::Str(h.kind),
    );
}

pub proof fn lemma_rt_headers(o: Option<Seq<HeaderModel>>)
    ensures
        dec_headers(Some(enc_headers(o))) == Some(o),
{
    if let Some(s) = o {
        let e = s.map_values(|h: HeaderModel| enc_header(h));
        assert forall|i: int| 0 <= i < e.len() implies (#[trigger] dec_header(e[i])) == Some(s[i]) by {
            lemma_rt_header(s[i]);
        }
        assert(e.map_values(|x: JsonModel| dec_header(x)->0) =~= s);
    }
}

pub proof fn lemma_rt_body(o: Option<BodyModel>)
    ensures
        dec_opt_body(Some(enc_opt_body(o))) == Some(o),
{
    if let Some(b) = o {
        lemma_member_names();
        lemma_lookup3(
            "mode"@,
            "raw"@,
            "options"@,
            JsonModel::Str(b.mode),
            JsonModel::Str(b.raw),
            enc_options(b.language),
        );
        if let Some(l) = b.language {
            lemma_lookup1("language"@, JsonModel::Str(l));
            lemma_lookup1("raw"@, JsonModel::Object(seq![("language"@, JsonModel::Str(l))]));
        }
    }
}

pub proof fn lemma_rt_entry(e: AuthEntryModel)
    ensures
        dec_entry(enc_entry(e)) == Some(e),
{
    lemma_member_names();
    lemma_lookup3(
        "key"@,
        "value"@,
        "type"@,
        JsonModel::Str(e.key),
        e.value,
        JsonModel::Str(e.kind),
    );
}

pub proof fn lemma_rt_entries(o: Option<Seq<AuthEntryModel>>)
    ensures
        dec_entries(Some(enc_entries(o))) == Some(o),
{
    if let Some(s) = o {
        let e = s.map_values(|a: AuthEntryModel| enc_entry(a));
        assert forall|i: int| 0 <= i < e.len() implies (#[trigger] dec_entry(e[i])) == Some(s[i]) by {
            lemma_rt_entry(s[i]);
        }
        assert(e.map_values(|x: JsonModel| dec_entry(x)->0) =~= s);
    }
}

pub proof fn lemma_rt_auth(o: Option<AuthModel>)
    ensures
        dec_opt_auth(Some(enc_opt_auth(o))) == Some(o),
{
    if let Some(a) = o {
        lemma_member_names();
        lemma_lookup3(
            "type"@,
            "bearer"@,
            "oauth2"@,
            JsonModel::Str(a.kind),
            enc_entries(a.bearer),
            enc_entries(a.oauth2),
        );
        lemma_rt_entries(a.bearer);
        lemma_rt_entries(a.oauth2);
    }
}

pub proof fn lemma_rt_request(r: RequestModel)
    ensures
        dec_request(enc_request(r)) == Some(r),
{
    lemma_member_names();
    let f = seq![
        ("method"@, JsonModel::Str(r.method)),
        ("url"@, enc_url(r.url)),
        ("auth"@, enc_opt_auth(r.auth)),
        ("header"@, enc_headers(r.header)),
        ("body"@, enc_opt_body(r.body)),
    ];
    lemma_lookup_at(f, "method"@, 0);
    lemma_lookup_at(f, "url"@, 1);
    lemma_lookup_at(f, "auth"@, 2);
    lemma_lookup_at(f, "header"@, 3);
    lemma_lookup_at(f, "body"@, 4);
    lemma_rt_url(r.url);
    lemma_rt_auth(r.auth);
    lemma_rt_headers(r.header);
    lemma_rt_body(r.body);
}

/// Writing a node and reading it back gives the same node, at any depth.
pub proof fn lemma_rt_node(n: NodeModel)
    ensures
        dec_node(enc_node(n)) == Some(n),
    decreases n,
{
    lemma_member_names();
    match n {
        NodeModel::Item { name, request } => {
            lemma_lookup2("name"@, "request"@, JsonModel::Str(name), enc_request(request));
            lemma_rt_request(request);
        },
        NodeModel::Folder { name, items } => {
            let f = enc_node(n)->Object_0;
            let e = f[1].1->Array_0;
            assert(e.len() == items.len());
            assert(forall|k: int| 0 <= k < items.len() ==> e[k] == enc_node(items[k]));
            assert(f == seq![("name"@, JsonModel::Str(name)), ("item"@, JsonModel::Array(e))]);
            lemma_lookup2("name"@, "item"@, JsonModel::Str(name), JsonModel::Array(e));
            assert(f[0].0 == "name"@ && f[1].0 == "item"@);
            lemma_lookup_absent(f, "request"@);
            crate::json::lemma_key_index(f, "item"@);
            assert(key_index(f, "item"@) == 1);
            lemma_rt_node_list(items, e);
        },
    }
}

/// Reading back the documents of a list of nodes gives the list.
pub proof fn lemma_rt_node_list(items: Seq<NodeModel>, e: Seq<JsonModel>)
    requires
        e.len() == items.len(),
        forall|k: int| 0 <= k < items.len() ==> e[k] == enc_node(items[k]),
    ensures
        dec_node_list(e) == Some(items),
    decreases items,
{
    if items.len() > 0 {
        let last = items.len() - 1;
        assert(decreases_to!(items => items[last]));
        lemma_rt_node(items[last]);
        lemma_rt_node_list(items.drop_last(), e.drop_last());
        assert(items.drop_last().push(items[last]) =~= items);
    } else {
        assert(e.len() == 0);
    }
}

pub proof fn lemma_rt_nodes(s: Seq<NodeModel>)
    ensures
        dec_nodes(enc_nodes(s)) == Some(s),
{
    let e = s.map_values(|n: NodeModel| enc_node(n));
    lemma_rt_node_list(s, e);
}

/// Writing a collection as a document and reading it back gives the same
/// collection.
pub proof fn lemma_collection_round_trip(c: CollectionModel)
    ensures
        dec_collection(enc_collection(c)) == Some(c),
{
    lemma_member_names();
    lemma_lookup3(
        "info"@,
        "item"@,
        "auth"@,
        enc_info(c.info),
        enc_nodes(c.items),
        enc_opt_auth(c.auth),
    );
    lemma_rt_info(c.info);
    lemma_rt_nodes(c.items);
    lemma_rt_auth(c.auth);
}

/// A list of nodes reads element by element.
pub proof fn lemma_node_list_elements(s: Seq<JsonModel>)
    requires
        dec_node_list(s) is Some,
    ensures
        dec_node_list(s)->0.len() == s.len(),
        forall|k: int| 0 <= k < s.len() ==> dec_node(#[trigger] s[k]) == Some(dec_node_list(s)->0[k]),
    decreases s.len(),
{
    if s.len() > 0 {
        lemma_node_list_elements(s.drop_last());
        let r = dec_node_list(s)->0;
        assert forall|k: int| 0 <= k < s.len() implies dec_node(#[trigger] s[k]) == Some(r[k]) by {
            if k < s.len() - 1 {
                assert(s[k] == s.drop_last()[k]);
            }
        }
    }
}

/// Nodes are told apart by the shape of their document alone: a value that
/// is not an object never reads as a node; an object with a `request` member
/// reads as an item; any other object reads as a folder, whose children are
/// read by the same rule from the elements of its `item` list, at any depth.
pub proof fn lemma_structural_decode(j: JsonModel)
    ensures
        !(j is Object) ==> dec_node(j) is None,
        j is Object && dec_node(j) is Some ==> (dec_node(j)->0 is Item <==> lookup(
            j->Object_0,
            "request"@,
        ) is Some),
        j is Object && dec_node(j) is Some && lookup(j->Object_0, "request"@) is None ==> ({
            let children = lookup(j->Object_0, "item"@)->0->Array_0;
            let items = dec_node(j)->0->Folder_items;
            &&& lookup(j->Object_0, "item"@) matches Some(JsonModel::Array(_))
            &&& items.len() == children.len()
            &&& forall|k: int| 0 <= k < children.len() ==> dec_node(#[trigger] children[k]) == Some(items[k])
        }),
{
    if j is Object && dec_node(j) is Some && lookup(j->Object_0, "request"@) is None {
        let f = j->Object_0;
        let i = key_index(f, "item"@);
        lemma_node_list_elements(f[i].1->Array_0);
    }
}

} // verus!
