use vstd::prelude::*;

use crate::json::{JsonModel, JsonValue};

verus! {

/// The identity and title of a collection.
#[derive(Clone, Debug)]
pub struct CollectionInfo {
    /// Written as `_postman_id` in the document.
    pub id: String,
    pub name: String,
    pub description: Option<String>,
}

/// A request address: the raw text and, where known, its parts.
#[derive(Clone, Debug)]
pub struct CollectionUrl {
    pub raw: String,
    pub host: Option<Vec<String>>,
    pub path: Option<Vec<String>>,
}

/// One header line of a saved request; `kind` is written as `type`.
#[derive(Clone, Debug)]
pub struct CollectionRequestHeader {
    pub key: String,
    pub value: String,
    pub kind: String,
}

/// The language tag of a raw body.
#[derive(Clone, Debug)]
pub struct BodyOptionsRaw {
    pub language: String,
}

/// Display options of a saved body.
#[derive(Clone, Debug)]
pub struct BodyOptions {
    pub raw: BodyOptionsRaw,
}

/// The body of a saved request.
#[derive(Clone, Debug)]
pub struct RequestBody {
    pub mode: String,
    pub raw: String,
    pub options: Option<BodyOptions>,
}

/// The value of an auth setting: a string, or any other JSON value.
#[derive(Debug)]
pub enum AuthValueUnion {
    String(String),
    Object(JsonValue),
}

/// One auth setting; `kind` is written as `type`.
#[derive(Debug)]
pub struct AuthValue {
    pub key: String,
    pub value: AuthValueUnion,
    pub kind: String,
}

/// The auth scheme of a collection or request; `kind` is written as `type`.
#[derive(Debug)]
pub struct CollectionAuth {
    pub kind: String,
    pub bearer: Option<Vec<AuthValue>>,
    pub oauth2: Option<Vec<AuthValue>>,
}

/// A saved request definition.
#[derive(Debug)]
pub struct CollectionRequest {
    pub method: String,
    pub url: CollectionUrl,
    pub auth: Option<CollectionAuth>,
    pub header: Option<Vec<CollectionRequestHeader>>,
    pub body: Option<RequestBody>,
}

/// A leaf of the tree: one named request.
#[derive(Debug)]
pub struct CollectionItem {
    pub name: String,
    pub request: CollectionRequest,
}

/// An inner node of the tree: a named list of children.
#[derive(Debug)]
pub struct CollectionFolder {
    pub name: String,
    pub item: Vec<CollectionItemOrFolder>,
}

/// A node of the tree. In the document the two are told apart by the
/// presence of a `request` member, not by a tag.
#[derive(Debug)]
pub enum CollectionItemOrFolder {
    Item(CollectionItem),
    Folder(CollectionFolder),
}

/// A named tree of saved requests.
#[derive(Debug)]
pub struct Collection {
    pub info: CollectionInfo,
    pub item: Vec<CollectionItemOrFolder>,
    pub auth: Option<CollectionAuth>,
}

// ---------------------------------------------------------------------------
// Models

pub ghost struct InfoModel {
    pub id: Seq<char>,
    pub name: Seq<char>,
    pub description: Option<Seq<char>>,
}

pub ghost struct UrlModel {
    pub raw: Seq<char>,
    pub host: Option<Seq<Seq<char>>>,
    pub path: Option<Seq<Seq<char>>>,
}

pub ghost struct HeaderModel {
    pub key: Seq<char>,
    pub value: Seq<char>,
    pub kind: Seq<char>,
}

/// A body; `language` is the tag under `options.raw`, where there are options.
pub ghost struct BodyModel {
    pub mode: Seq<char>,
    pub raw: Seq<char>,
    pub language: Option<Seq<char>>,
}

pub ghost struct AuthEntryModel {
    pub key: Seq<char>,
    /// The value as the document holds it: a string or any other JSON value.
    pub value: JsonModel,
    pub kind: Seq<char>,
}

pub ghost struct AuthModel {
    pub kind: Seq<char>,
    pub bearer: Option<Seq<AuthEntryModel>>,
    pub oauth2: Option<Seq<AuthEntryModel>>,
}

pub ghost struct RequestModel {
    pub method: Seq<char>,
    pub url: UrlModel,
    pub auth: Option<AuthModel>,
    pub header: Option<Seq<HeaderModel>>,
    pub body: Option<BodyModel>,
}

pub ghost enum NodeModel {
    Item { name: Seq<char>, request: RequestModel },
    Folder { name: Seq<char>, items: Seq<NodeModel> },
}

pub ghost struct CollectionModel {
    pub info: InfoModel,
    pub items: Seq<NodeModel>,
    pub auth: Option<AuthModel>,
}

pub open spec fn strings_view(v: Vec<String>) -> Seq<Seq<char>> {
    v@.map_values(|s: String| s@)
}

pub open spec fn opt_string_view(o: Option<String>) -> Option<Seq<char>> {
    match o {
        Some(s) => Some(s@),
        None => None,
    }
}

pub open spec fn opt_strings_view(o: Option<Vec<String>>) -> Option<Seq<Seq<char>>> {
    match o {
        Some(v) => Some(strings_view(v)),
        None => None,
    }
}

impl View for CollectionInfo {
    type V = InfoModel;

    open spec fn view(&self) -> InfoModel {
        InfoModel { id: self.id@, name: self.name@, description: opt_string_view(self.description) }
    }
}

impl View for CollectionUrl {
    type V = UrlModel;

    open spec fn view(&self) -> UrlModel {
        UrlModel {
            raw: self.raw@,
            host: opt_strings_view(self.host),
            path: opt_strings_view(self.path),
        }
    }
}

impl View for CollectionRequestHeader {
    type V = HeaderModel;

    open spec fn view(&self) -> HeaderModel {
        HeaderModel { key: self.key@, value: self.value@, kind: self.kind@ }
    }
}

impl View for RequestBody {
    type V = BodyModel;

    open spec fn view(&self) -> BodyModel {
        BodyModel {
            mode: self.mode@,
            raw: self.raw@,
            language: match self.options {
                Some(o) => Some(o.raw.language@),
                None => None,
            },
        }
    }
}

impl View for AuthValueUnion {
    type V = JsonModel;

    open spec fn view(&self) -> JsonModel {
        match self {
            AuthValueUnion::String(s) => JsonModel::Str(s@),
            AuthValueUnion::Object(j) => j@,
        }
    }
}

impl View for AuthValue {
    type V = AuthEntryModel;

    open spec fn view(&self) -> AuthEntryModel {
        AuthEntryModel { key: self.key@, value: self.value@, kind: self.kind@ }
    }
}

pub open spec fn entries_view(o: Option<Vec<AuthValue>>) -> Option<Seq<AuthEntryModel>> {
    match o {
        Some(v) => Some(v@.map_values(|a: AuthValue| a@)),
        None => None,
    }
}

impl View for CollectionAuth {
    type V = AuthModel;

    open spec fn view(&self) -> AuthModel {
        AuthModel {
            kind: self.kind@,
            bearer: entries_view(self.bearer),
            oauth2: entries_view(self.oauth2),
        }
    }
}

pub open spec fn opt_auth_view(o: Option<CollectionAuth>) -> Option<AuthModel> {
    match o {
        Some(a) => Some(a@),
        None => None,
    }
}

impl View for CollectionRequest {
    type V = RequestModel;

    open spec fn view(&self) -> RequestModel {
        RequestModel {
            method: self.method@,
            url: self.url@,
            auth: opt_auth_view(self.auth),
            header: match self.header {
                Some(h) => Some(h@.map_values(|x: CollectionRequestHeader| x@)),
                None => None,
            },
            body: match self.body {
                Some(b) => Some(b@),
                None => None,
            },
        }
    }
}

/// The model of a node, child for child.
pub open spec fn node_view(n: CollectionItemOrFolder) -> NodeModel
    decreases n,
{
    match n {
        CollectionItemOrFolder::Item(i) => NodeModel::Item { name: i.name@, request: i.request@ },
        CollectionItemOrFolder::Folder(f) => NodeModel::Folder {
            name: f.name@,
            items: Seq::new(
                f.item@.len(),
                |k: int|
                    if 0 <= k < f.item@.len() {
                        node_view(f.item@[k])
                    } else {
                        NodeModel::Folder { name: Seq::empty(), items: Seq::empty() }
                    },
            ),
        },
    }
}

impl View for CollectionItemOrFolder {
    type V = NodeModel;

    open spec fn view(&self) -> NodeModel {
        node_view(*self)
    }
}

pub open spec fn nodes_view(v: Seq<CollectionItemOrFolder>) -> Seq<NodeModel> {
    v.map_values(|n: CollectionItemOrFolder| n@)
}

impl View for Collection {
    type V = CollectionModel;

    open spec fn view(&self) -> CollectionModel {
        CollectionModel {
            info: self.info@,
            items: nodes_view(self.item@),
            auth: opt_auth_view(self.auth),
        }
    }
}

} // verus!
