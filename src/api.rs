use vstd::prelude::*;

use crate::collection::{
    Collection, CollectionFolder, CollectionInfo, CollectionItem, CollectionItemOrFolder,
    CollectionRequest, CollectionRequestHeader, CollectionUrl, NodeModel, RequestBody as SavedBody,
    nodes_view, opt_string_view,
};
use crate::document::{dec_collection, enc_collection};
use crate::environment::{EnvironmentFile, dec_environment, enc_environment, env_values_view};
use crate::headers::{auth_header, dedupe, enabled_headers, pairs_view, process_headers};
use crate::ids::new_id;
use crate::json::{JsonValue, json_parse, json_render, read_json, write_json};
use crate::method::HttpMethod;
use crate::request::{DBRequest, HttpRequest, RequestBody, RequestHeaders, header_list_view};
use crate::response::{DBResponse, Response, ResponseData, ResponseHeader, build_response, payload_ok};
use crate::substitution::{substitute, substitute_env};
use crate::tab::{RequestHistoryItem, Tab};
use crate::tree::{
    add_to_folder, not_folder_named, not_item_named, remove_folders, remove_items,
    remove_items_in_folders, strip_folder, with_item_added,
};
use crate::ui::AuthMode;

verus! {

/// What can go wrong in the client.
#[derive(Clone, Copy, Debug, PartialEq, Eq, Structural)]
pub enum PostieError {
    /// A document or a stored value is not in the expected form.
    Parse,
    /// The store could not be read or written.
    Persistence,
    /// The request could not be sent or its answer read.
    Network,
    /// No collection has the identifier an edit names.
    NotFound,
}

/// The state of the client: the saved collections, environments and tabs,
/// and the append-only log of sent requests and received responses.
#[derive(Debug)]
pub struct PostieApi {
    pub collections: Vec<Collection>,
    pub environments: Vec<EnvironmentFile>,
    pub tabs: Vec<Tab>,
    pub requests: Vec<DBRequest>,
    pub responses: Vec<DBResponse>,
    pub history: Vec<RequestHistoryItem>,
}

/// The position of the first collection with that identifier, or the length
/// of the list where there is none.
pub open spec fn collection_index(s: Seq<Collection>, id: Seq<char>) -> int
    decreases s.len(),
{
    if s.len() == 0 {
        0
    } else if s[0].info.id@ == id {
        0
    } else {
        1 + collection_index(s.drop_first(), id)
    }
}

/// The list after saving `c`: it replaces the collection with its identifier,
/// or is added at the end where there is none.
pub open spec fn upsert_collection(s: Seq<Collection>, c: Collection) -> Seq<Collection> {
    let i = collection_index(s, c.info.id@);
    if i < s.len() {
        s.update(i, c)
    } else {
        s.push(c)
    }
}

pub open spec fn environment_index(s: Seq<EnvironmentFile>, id: Seq<char>) -> int
    decreases s.len(),
{
    if s.len() == 0 {
        0
    } else if s[0].id@ == id {
        0
    } else {
        1 + environment_index(s.drop_first(), id)
    }
}

pub open spec fn upsert_environment(s: Seq<EnvironmentFile>, e: EnvironmentFile) -> Seq<
    EnvironmentFile,
> {
    let i = environment_index(s, e.id@);
    if i < s.len() {
        s.update(i, e)
    } else {
        s.push(e)
    }
}

pub open spec fn tab_index(s: Seq<Tab>, id: Seq<char>) -> int
    decreases s.len(),
{
    if s.len() == 0 {
        0
    } else if s[0].id@ == id {
        0
    } else {
        1 + tab_index(s.drop_first(), id)
    }
}

pub open spec fn upsert_tab(s: Seq<Tab>, t: Tab) -> Seq<Tab> {
    let i = tab_index(s, t.id@);
    if i < s.len() {
        s.update(i, t)
    } else {
        s.push(t)
    }
}

pub proof fn lemma_collection_index(s: Seq<Collection>, id: Seq<char>)
    ensures
        0 <= collection_index(s, id) <= s.len(),
        collection_index(s, id) < s.len() ==> s[collection_index(s, id)].info.id@ == id,
        forall|j: int| 0 <= j < collection_index(s, id) ==> (#[trigger] s[j]).info.id@ != id,
    decreases s.len(),
{
    if s.len() > 0 && s[0].info.id@ != id {
        lemma_collection_index(s.drop_first(), id);
        assert forall|j: int| 0 <= j < collection_index(s, id) implies (#[trigger] s[j]).info.id@ != id by {
            if j > 0 {
                assert(s[j] == s.drop_first()[j - 1]);
            }
        }
    }
}

pub proof fn lemma_environment_index(s: Seq<EnvironmentFile>, id: Seq<char>)
    ensures
        0 <= environment_index(s, id) <= s.len(),
        environment_index(s, id) < s.len() ==> s[environment_index(s, id)].id@ == id,
        forall|j: int| 0 <= j < environment_index(s, id) ==> (#[trigger] s[j]).id@ != id,
    decreases s.len(),
{
    if s.len() > 0 && s[0].id@ != id {
        lemma_environment_index(s.drop_first(), id);
        assert forall|j: int| 0 <= j < environment_index(s, id) implies (#[trigger] s[j]).id@ != id by {
            if j > 0 {
                assert(s[j] == s.drop_first()[j - 1]);
            }
        }
    }
}

pub proof fn lemma_tab_index(s: Seq<Tab>, id: Seq<char>)
    ensures
        0 <= tab_index(s, id) <= s.len(),
        tab_index(s, id) < s.len() ==> s[tab_index(s, id)].id@ == id,
        forall|j: int| 0 <= j < tab_index(s, id) ==> (#[trigger] s[j]).id@ != id,
    decreases s.len(),
{
    if s.len() > 0 && s[0].id@ != id {
        lemma_tab_index(s.drop_first(), id);
        assert forall|j: int| 0 <= j < tab_index(s, id) implies (#[trigger] s[j]).id@ != id by {
            if j > 0 {
                assert(s[j] == s.drop_first()[j - 1]);
            }
        }
    }
}

/// Saving replaces the whole document of a collection: of two saves of the
/// same collection, each made from its own copy, the second wins and the
/// first leaves no trace. Two edits of one collection that start from the
/// same loaded copy therefore lose the first edit.
pub proof fn lemma_last_writer_wins(s: Seq<Collection>, first: Collection, second: Collection)
    requires
        first.info.id@ == second.info.id@,
    ensures
        upsert_collection(upsert_collection(s, first), second) == upsert_collection(s, second),
{
    let id = first.info.id@;
    lemma_collection_index(s, id);
    let t = upsert_collection(s, first);
    lemma_collection_index(t, id);
    let i = collection_index(s, id);
    let k = collection_index(t, id);
    if i < s.len() {
        assert(t[i] == first);
        assert(k == i) by {
            if k < i {
                assert(t[k] == s[k]);
            }
        }
        assert(t.update(k, second) =~= s.update(i, second));
    } else {
        assert(t[s.len() as int] == first);
        assert(k == s.len()) by {
            if k < s.len() {
                assert(t[k] == s[k]);
            }
        }
        assert(t.update(k, second) =~= s.push(second));
    }
}

/// Two edits of one collection run concurrently without synchronisation:
/// both load the same stored copy `c0`, each applies its own edit, and each
/// saves its whole document, `first` before `second`. The store then holds
/// exactly the document of the second edit at that collection's place, the
/// first edit is lost, and every other collection is as it was.
pub proof fn lemma_concurrent_edits_lose_first(
    s: Seq<Collection>,
    c0: Collection,
    first: spec_fn(Collection) -> Collection,
    second: spec_fn(Collection) -> Collection,
)
    requires
        first(c0).info.id@ == c0.info.id@,
        second(c0).info.id@ == c0.info.id@,
    ensures
        ({
            let end = upsert_collection(upsert_collection(s, first(c0)), second(c0));
            let i = collection_index(s, c0.info.id@);
            &&& end == upsert_collection(s, second(c0))
            &&& end[i] == second(c0)
            &&& forall|j: int| 0 <= j < s.len() && j != i ==> end[j] == s[j]
        }),
{
    lemma_last_writer_wins(s, first(c0), second(c0));
    lemma_collection_index(s, c0.info.id@);
}

/// The text of a classified payload: a JSON value as compact JSON text, any
/// other payload as it is.
pub open spec fn payload_text(data: ResponseData) -> Seq<char> {
    match data {
        ResponseData::JSON(j) => json_render(j@),
        ResponseData::TEXT(t) => t@,
        ResponseData::XML(x) => x@,
        ResponseData::UNKNOWN(u) => u@,
    }
}

/// The fields of the state other than the collections are as they were.
pub open spec fn same_but_collections(a: PostieApi, b: PostieApi) -> bool {
    &&& a.environments@ == b.environments@
    &&& a.tabs@ == b.tabs@
    &&& a.requests@ == b.requests@
    &&& a.responses@ == b.responses@
    &&& a.history@ == b.history@
}

/// The collection list after an edit of the collection at `i` that keeps its
/// info and auth and gives it the children `items`.
pub open spec fn edited(old: Seq<Collection>, new: Seq<Collection>, i: int, items: Seq<NodeModel>) -> bool {
    &&& new.len() == old.len()
    &&& forall|j: int| 0 <= j < old.len() && j != i ==> new[j] == old[j]
    &&& new[i].info == old[i].info
    &&& new[i].auth == old[i].auth
    &&& new[i]@.items == items
}

/// The saved request that `add_request_to_collection` files under a folder:
/// named after the address, with the method, the raw address and the headers.
pub open spec fn item_for(req: HttpRequest, item: CollectionItem) -> bool {
    &&& item.name@ == req.url@
    &&& item.request.method@ == req.method.spec_name()
    &&& item.request.url@.raw == req.url@
    &&& item.request.url.host is None
    &&& item.request.url.path is None
    &&& item.request.auth is None
    &&& item.request.header is Some
    &&& item.request.header->0@.map_values(|h: CollectionRequestHeader| (h.key@, h.value@))
        == match req.headers {
        Some(h) => pairs_view(h@),
        None => Seq::empty(),
    }
    &&& forall|j: int|
        0 <= j < item.request.header->0@.len() ==> (#[trigger] item.request.header->0@[j]).kind@
            == Seq::<char>::empty()
    &&& item.request.body is Some
    &&& item.request.body->0@.mode == Seq::<char>::empty()
    &&& item.request.body->0@.raw == Seq::<char>::empty()
    &&& item.request.body->0@.language is None
}

/// Copies of the key and value pairs of a request.
fn copy_pairs(h: &Option<Vec<(String, String)>>) -> (r: Vec<(String, String)>)
    ensures
        pairs_view(r@) == match *h {
            Some(v) => pairs_view(v@),
            None => Seq::empty(),
        },
{
    let mut out: Vec<(String, String)> = Vec::new();
    match h {
        None => {
            assert(pairs_view(out@) =~= Seq::<(Seq<char>, Seq<char>)>::empty());
        },
        Some(v) => {
            let mut i: usize = 0;
            while i < v.len()
                invariant
                    0 <= i <= v.len(),
                    out.len() == i,
                    forall|j: int|
                        0 <= j < i ==> (#[trigger] out@[j]).0@ == v@[j].0@ && out@[j].1@ == v@[j].1@,
                decreases v.len() - i,
            {
                out.push((v[i].0.clone(), v[i].1.clone()));
                i = i + 1;
            }
            assert(pairs_view(out@) =~= pairs_view(v@));
        },
    }
    out
}

/// The saved request filed for a sent request.
pub fn item_from_request(req: &HttpRequest) -> (r: CollectionItem)
    ensures
        item_for(*req, r),
{
    let pairs = copy_pairs(&req.headers);
    let mut header: Vec<CollectionRequestHeader> = Vec::new();
    let mut i: usize = 0;
    while i < pairs.len()
        invariant
            0 <= i <= pairs.len(),
            header.len() == i,
            forall|j: int|
                0 <= j < i ==> (#[trigger] header@[j]).key@ == pairs@[j].0@ && header@[j].value@
                    == pairs@[j].1@ && header@[j].kind@ == Seq::<char>::empty(),
        decreases pairs.len() - i,
    {
        header.push(
            CollectionRequestHeader {
                key: pairs[i].0.clone(),
                value: pairs[i].1.clone(),
                kind: String::new(),
            },
        );
        i = i + 1;
    }
    assert(header@.map_values(|h: CollectionRequestHeader| (h.key@, h.value@)) =~= pairs_view(
        pairs@,
    ));
    CollectionItem {
        name: req.url.clone(),
        request: CollectionRequest {
            method: req.method.to_string(),
            url: CollectionUrl { raw: req.url.clone(), host: None, path: None },
            auth: None,
            header: Some(header),
            body: Some(SavedBody { mode: String::new(), raw: String::new(), options: None }),
        },
    }
}

impl PostieApi {
    /// An empty state.
    pub fn new() -> (r: PostieApi)
        ensures
            r.collections@.len() == 0,
            r.environments@.len() == 0,
            r.tabs@.len() == 0,
            r.requests@.len() == 0,
            r.responses@.len() == 0,
            r.history@.len() == 0,
    {
        PostieApi {
            collections: Vec::new(),
            environments: Vec::new(),
            tabs: Vec::new(),
            requests: Vec::new(),
            responses: Vec::new(),
            history: Vec::new(),
        }
    }

    /// Reads a collection from its JSON document.
    pub fn parse_collection(collection_json: &str) -> (r: Result<Collection, PostieError>)
        ensures
            match r {
                Ok(c) => json_parse(collection_json@) is Some && dec_collection(
                    json_parse(collection_json@)->0,
                ) == Some(c@),
                Err(e) => e == PostieError::Parse && (json_parse(collection_json@) is None
                    || dec_collection(json_parse(collection_json@)->0) is None),
            },
    {
        match read_json(collection_json) {
            Some(j) => match Collection::from_json(&j) {
                Some(c) => Ok(c),
                None => Err(PostieError::Parse),
            },
            None => Err(PostieError::Parse),
        }
    }

    /// Writes a collection as its JSON document.
    pub fn serialize_collection(collection: &Collection) -> (r: String)
        ensures
            r@ == json_render(enc_collection(collection@)),
    {
        write_json(&collection.to_json())
    }

    /// Reads an environment from its JSON document.
    pub fn parse_environment(environment_json: &str) -> (r: Result<EnvironmentFile, PostieError>)
        ensures
            match r {
                Ok(e) => json_parse(environment_json@) is Some && dec_environment(
                    json_parse(environment_json@)->0,
                ) == Some(e@),
                Err(e) => e == PostieError::Parse && (json_parse(environment_json@) is None
                    || dec_environment(json_parse(environment_json@)->0) is None),
            },
    {
        match read_json(environment_json) {
            Some(j) => match EnvironmentFile::from_json(&j) {
                Some(e) => Ok(e),
                None => Err(PostieError::Parse),
            },
            None => Err(PostieError::Parse),
        }
    }

    /// Writes an environment as its JSON document.
    pub fn serialize_environment(environment: &EnvironmentFile) -> (r: String)
        ensures
            r@ == json_render(enc_environment(environment@)),
    {
        write_json(&environment.to_json())
    }

    /// The address with the environment's variables substituted.
    pub fn substitute_variables_in_url(environment: &EnvironmentFile, raw_url: String) -> (r: String)
        ensures
            r@ == substitute(env_values_view(environment.values), raw_url@),
    {
        substitute_env(environment, raw_url)
    }

    fn find_collection(&self, id: &str) -> (r: Option<usize>)
        ensures
            match r {
                Some(i) => i == collection_index(self.collections@, id@) && i
                    < self.collections@.len(),
                None => collection_index(self.collections@, id@) == self.collections@.len(),
            },
    {
        proof {
            lemma_collection_index(self.collections@, id@);
        }
        let target = String::from_str(id);
        let mut i: usize = 0;
        while i < self.collections.len()
            invariant
                0 <= i <= self.collections@.len(),
                target@ == id@,
                0 <= collection_index(self.collections@, id@) <= self.collections@.len(),
                collection_index(self.collections@, id@) < self.collections@.len()
                    ==> self.collections@[collection_index(self.collections@, id@)].info.id@ == id@,
                forall|j: int|
                    0 <= j < collection_index(self.collections@, id@) ==> (#[trigger] self.collections@[j]).info.id@ != id@,
                forall|j: int| 0 <= j < i ==> (#[trigger] self.collections@[j]).info.id@ != id@,
            decreases self.collections.len() - i,
        {
            if self.collections[i].info.id == target {
                return Some(i);
            }
            i = i + 1;
        }
        None
    }

    /// Saves a collection, replacing the one with its identifier.
    pub fn save_collection(&mut self, input: Collection)
        ensures
            final(self).collections@ == upsert_collection(old(self).collections@, input),
            same_but_collections(*old(self), *final(self)),
    {
        match self.find_collection(input.info.id.as_str()) {
            Some(i) => {
                self.collections.remove(i);
                self.collections.insert(i, input);
                assert(self.collections@ =~= upsert_collection(old(self).collections@, input));
            },
            None => {
                self.collections.push(input);
            },
        }
    }

    /// Reads a collection document and saves it; returns the identifier of
    /// the saved collection. It fails only on text that is not JSON or not a
    /// collection document, and then changes nothing.
    pub fn import_collection(&mut self, collection_json: &str) -> (r: Result<String, PostieError>)
        ensures
            match r {
                Ok(id) => json_parse(collection_json@) is Some && exists|c: Collection|
                    dec_collection(json_parse(collection_json@)->0) == Some(c@) && id@ == c.info.id@
                        && final(self).collections@ == upsert_collection(old(self).collections@, c),
                Err(e) => e == PostieError::Parse && (json_parse(collection_json@) is None
                    || dec_collection(json_parse(collection_json@)->0) is None)
                    && final(self).collections@ == old(self).collections@,
            },
            same_but_collections(*old(self), *final(self)),
    {
        let c = PostieApi::parse_collection(collection_json)?;
        let id = c.info.id.clone();
        self.save_collection(c);
        Ok(id)
    }

    /// Saves an environment, replacing the one with its identifier.
    pub fn save_environment(&mut self, input: EnvironmentFile)
        ensures
            final(self).environments@ == upsert_environment(old(self).environments@, input),
            final(self).collections@ == old(self).collections@,
            final(self).tabs@ == old(self).tabs@,
            final(self).requests@ == old(self).requests@,
            final(self).responses@ == old(self).responses@,
            final(self).history@ == old(self).history@,
    {
        proof {
            lemma_environment_index(self.environments@, input.id@);
        }
        let mut i: usize = 0;
        while i < self.environments.len()
            invariant
                0 <= i <= self.environments@.len(),
                self.environments@ == old(self).environments@,
                self.collections@ == old(self).collections@,
                self.tabs@ == old(self).tabs@,
                self.requests@ == old(self).requests@,
                self.responses@ == old(self).responses@,
                self.history@ == old(self).history@,
                0 <= environment_index(self.environments@, input.id@) <= self.environments@.len(),
                environment_index(self.environments@, input.id@) < self.environments@.len()
                    ==> self.environments@[environment_index(self.environments@, input.id@)].id@ == input.id@,
                forall|j: int|
                    0 <= j < environment_index(self.environments@, input.id@) ==> (#[trigger] self.environments@[j]).id@ != input.id@,
                forall|j: int| 0 <= j < i ==> (#[trigger] self.environments@[j]).id@ != input.id@,
            decreases self.environments.len() - i,
        {
            if self.environments[i].id == input.id {
                assert(environment_index(self.environments@, input.id@) == i);
                self.environments.remove(i);
                self.environments.insert(i, input);
                assert(self.environments@ =~= upsert_environment(old(self).environments@, input));
                return;
            }
            i = i + 1;
        }
        self.environments.push(input);
    }

    /// Reads an environment document and saves it; returns the identifier of
    /// the saved environment. It fails only on text that is not JSON or not an
    /// environment document, and then changes nothing.
    pub fn import_environment(&mut self, environment_json: &str) -> (r: Result<String, PostieError>)
        ensures
            match r {
                Ok(id) => json_parse(environment_json@) is Some && exists|e: EnvironmentFile|
                    dec_environment(json_parse(environment_json@)->0) == Some(e@) && id@ == e.id@
                        && final(self).environments@ == upsert_environment(old(self).environments@, e),
                Err(e) => e == PostieError::Parse && (json_parse(environment_json@) is None
                    || dec_environment(json_parse(environment_json@)->0) is None)
                    && final(self).environments@ == old(self).environments@,
            },
            final(self).collections@ == old(self).collections@,
            final(self).tabs@ == old(self).tabs@,
            final(self).requests@ == old(self).requests@,
            final(self).responses@ == old(self).responses@,
            final(self).history@ == old(self).history@,
    {
        let e = PostieApi::parse_environment(environment_json)?;
        let id = e.id.clone();
        self.save_environment(e);
        Ok(id)
    }

    /// Saves a tab, replacing the one with its identifier.
    pub fn save_tab(&mut self, input: Tab)
        ensures
            final(self).tabs@ == upsert_tab(old(self).tabs@, input),
            final(self).collections@ == old(self).collections@,
            final(self).environments@ == old(self).environments@,
            final(self).requests@ == old(self).requests@,
            final(self).responses@ == old(self).responses@,
            final(self).history@ == old(self).history@,
    {
        proof {
            lemma_tab_index(self.tabs@, input.id@);
        }
        let mut i: usize = 0;
        while i < self.tabs.len()
            invariant
                0 <= i <= self.tabs@.len(),
                self.tabs@ == old(self).tabs@,
                self.collections@ == old(self).collections@,
                self.environments@ == old(self).environments@,
                self.requests@ == old(self).requests@,
                self.responses@ == old(self).responses@,
                self.history@ == old(self).history@,
                0 <= tab_index(self.tabs@, input.id@) <= self.tabs@.len(),
                tab_index(self.tabs@, input.id@) < self.tabs@.len()
                    ==> self.tabs@[tab_index(self.tabs@, input.id@)].id@ == input.id@,
                forall|j: int|
                    0 <= j < tab_index(self.tabs@, input.id@) ==> (#[trigger] self.tabs@[j]).id@ != input.id@,
                forall|j: int| 0 <= j < i ==> (#[trigger] self.tabs@[j]).id@ != input.id@,
            decreases self.tabs.len() - i,
        {
            if self.tabs[i].id == input.id {
                assert(tab_index(self.tabs@, input.id@) == i);
                self.tabs.remove(i);
                self.tabs.insert(i, input);
                assert(self.tabs@ =~= upsert_tab(old(self).tabs@, input));
                return;
            }
            i = i + 1;
        }
        self.tabs.push(input);
    }

    /// The saved collections.
    pub fn load_collections(&self) -> (r: &Vec<Collection>)
        ensures
            r@ == self.collections@,
    {
        &self.collections
    }

    /// The saved environments.
    pub fn load_environments(&self) -> (r: &Vec<EnvironmentFile>)
        ensures
            r@ == self.environments@,
    {
        &self.environments
    }

    /// The open tabs.
    pub fn load_tabs(&self) -> (r: &Vec<Tab>)
        ensures
            r@ == self.tabs@,
    {
        &self.tabs
    }

    /// The log of sent requests.
    pub fn load_request_response_items(&self) -> (r: &Vec<RequestHistoryItem>)
        ensures
            r@ == self.history@,
    {
        &self.history
    }

    /// The recorded requests.
    pub fn load_saved_requests(&self) -> (r: &Vec<DBRequest>)
        ensures
            r@ == self.requests@,
    {
        &self.requests
    }

    /// The recorded responses.
    pub fn load_saved_responses(&self) -> (r: &Vec<DBResponse>)
        ensures
            r@ == self.responses@,
    {
        &self.responses
    }

    /// Removes the collections with that identifier.
    pub fn delete_collection(&mut self, id: String)
        ensures
            final(self).collections@ == old(self).collections@.filter(
                |c: Collection| c.info.id@ != id@,
            ),
            same_but_collections(*old(self), *final(self)),
    {
        let ghost s = self.collections@;
        let ghost p = |c: Collection| c.info.id@ != id@;
        let mut rest: Vec<Collection> = Vec::new();
        std::mem::swap(&mut rest, &mut self.collections);
        let mut out: Vec<Collection> = Vec::new();
        let ghost mut k: int = 0;
        proof {
            reveal(Seq::filter);
            assert(s.take(0) =~= Seq::<Collection>::empty());
            assert(rest@ =~= s.skip(0));
        }
        while rest.len() > 0
            invariant
                0 <= k <= s.len(),
                p == (|c: Collection| c.info.id@ != id@),
                rest@ == s.skip(k),
                out@ == s.take(k).filter(p),
                self.collections@.len() == 0,
                same_but_collections(*old(self), *self),
            decreases rest.len(),
        {
            let c = rest.remove(0);
            assert(c == s[k]);
            proof {
                reveal(Seq::filter);
                assert(s.take(k + 1).drop_last() =~= s.take(k));
                assert(s.take(k + 1).last() == s[k]);
            }
            if c.info.id != id {
                out.push(c);
            }
            assert(rest@ =~= s.skip(k + 1));
            proof {
                k = k + 1;
            }
        }
        assert(s.take(k) =~= s);
        self.collections = out;
    }

    /// Removes the tabs with that identifier.
    pub fn delete_tab(&mut self, tab_id: String)
        ensures
            final(self).tabs@ == old(self).tabs@.filter(|t: Tab| t.id@ != tab_id@),
            final(self).collections@ == old(self).collections@,
            final(self).environments@ == old(self).environments@,
            final(self).requests@ == old(self).requests@,
            final(self).responses@ == old(self).responses@,
            final(self).history@ == old(self).history@,
    {
        let ghost s = self.tabs@;
        let ghost p = |t: Tab| t.id@ != tab_id@;
        let mut rest: Vec<Tab> = Vec::new();
        std::mem::swap(&mut rest, &mut self.tabs);
        let mut out: Vec<Tab> = Vec::new();
        let ghost mut k: int = 0;
        proof {
            reveal(Seq::filter);
            assert(s.take(0) =~= Seq::<Tab>::empty());
            assert(rest@ =~= s.skip(0));
        }
        while rest.len() > 0
            invariant
                0 <= k <= s.len(),
                p == (|t: Tab| t.id@ != tab_id@),
                rest@ == s.skip(k),
                out@ == s.take(k).filter(p),
                self.collections@ == old(self).collections@,
                self.environments@ == old(self).environments@,
                self.requests@ == old(self).requests@,
                self.responses@ == old(self).responses@,
                self.history@ == old(self).history@,
            decreases rest.len(),
        {
            let t = rest.remove(0);
            assert(t == s[k]);
            proof {
                reveal(Seq::filter);
                assert(s.take(k + 1).drop_last() =~= s.take(k));
                assert(s.take(k + 1).last() == s[k]);
            }
            if t.id != tab_id {
                out.push(t);
            }
            assert(rest@ =~= s.skip(k + 1));
            proof {
                k = k + 1;
            }
        }
        assert(s.take(k) =~= s);
        self.tabs = out;
    }

    /// Files a sent request under the first top-level folder named
    /// `folder_name` of the collection `id`; where the collection has no such
    /// folder it stays as it is.
    pub fn add_request_to_collection(&mut self, id: &str, req: &HttpRequest, folder_name: String) -> (r:
        Result<(), PostieError>)
        ensures
            same_but_collections(*old(self), *final(self)),
            ({
                let i = collection_index(old(self).collections@, id@);
                if i < old(self).collections@.len() {
                    r is Ok && exists|item: CollectionItem|
                        item_for(*req, item) && edited(
                            old(self).collections@,
                            final(self).collections@,
                            i,
                            with_item_added(
                                old(self).collections@[i]@.items,
                                folder_name@,
                                CollectionItemOrFolder::Item(item)@,
                            ),
                        )
                } else {
                    r == Err::<(), PostieError>(PostieError::NotFound) && final(self).collections@
                        == old(self).collections@
                }
            }),
    {
        let i = match self.find_collection(id) {
            Some(i) => i,
            None => {
                return Err(PostieError::NotFound);
            },
        };
        let item = item_from_request(req);
        let ghost it = item;
        let c = self.collections.remove(i);
        let Collection { info, item: mut nodes, auth } = c;
        add_to_folder(&mut nodes, folder_name.as_str(), item);
        self.collections.insert(i, Collection { info, item: nodes, auth });
        assert(edited(
            old(self).collections@,
            self.collections@,
            i as int,
            with_item_added(
                old(self).collections@[i as int]@.items,
                folder_name@,
                CollectionItemOrFolder::Item(it)@,
            ),
        ));
        Ok(())
    }

    /// Removes every top-level folder named `folder_name` from the collection
    /// `id`; all other nodes stay, in order.
    pub fn delete_collection_folder(&mut self, id: String, folder_name: String) -> (r: Result<
        (),
        PostieError,
    >)
        ensures
            same_but_collections(*old(self), *final(self)),
            ({
                let i = collection_index(old(self).collections@, id@);
                if i < old(self).collections@.len() {
                    r is Ok && edited(
                        old(self).collections@,
                        final(self).collections@,
                        i,
                        old(self).collections@[i]@.items.filter(not_folder_named(folder_name@)),
                    )
                } else {
                    r == Err::<(), PostieError>(PostieError::NotFound) && final(self).collections@
                        == old(self).collections@
                }
            }),
    {
        let i = match self.find_collection(id.as_str()) {
            Some(i) => i,
            None => {
                return Err(PostieError::NotFound);
            },
        };
        let c = self.collections.remove(i);
        let Collection { info, item, auth } = c;
        let kept = remove_folders(item, folder_name.as_str());
        self.collections.insert(i, Collection { info, item: kept, auth });
        Ok(())
    }

    /// Removes every top-level request named `request_name` from the
    /// collection `id`; all other nodes stay, in order.
    pub fn delete_collection_request(&mut self, id: String, request_name: String) -> (r: Result<
        (),
        PostieError,
    >)
        ensures
            same_but_collections(*old(self), *final(self)),
            ({
                let i = collection_index(old(self).collections@, id@);
                if i < old(self).collections@.len() {
                    r is Ok && edited(
                        old(self).collections@,
                        final(self).collections@,
                        i,
                        old(self).collections@[i]@.items.filter(not_item_named(request_name@)),
                    )
                } else {
                    r == Err::<(), PostieError>(PostieError::NotFound) && final(self).collections@
                        == old(self).collections@
                }
            }),
    {
        let i = match self.find_collection(id.as_str()) {
            Some(i) => i,
            None => {
                return Err(PostieError::NotFound);
            },
        };
        let c = self.collections.remove(i);
        let Collection { info, item, auth } = c;
        let kept = remove_items(item, request_name.as_str());
        self.collections.insert(i, Collection { info, item: kept, auth });
        Ok(())
    }

    /// Removes the requests named `request_name` from every top-level folder
    /// named `folder_name` of the collection `id`.
    pub fn delete_folder_request(
        &mut self,
        id: String,
        folder_name: String,
        request_name: String,
    ) -> (r: Result<(), PostieError>)
        ensures
            same_but_collections(*old(self), *final(self)),
            ({
                let i = collection_index(old(self).collections@, id@);
                if i < old(self).collections@.len() {
                    r is Ok && edited(
                        old(self).collections@,
                        final(self).collections@,
                        i,
                        old(self).collections@[i]@.items.map_values(
                            |n: NodeModel| strip_folder(n, folder_name@, request_name@),
                        ),
                    )
                } else {
                    r == Err::<(), PostieError>(PostieError::NotFound) && final(self).collections@
                        == old(self).collections@
                }
            }),
    {
        let i = match self.find_collection(id.as_str()) {
            Some(i) => i,
            None => {
                return Err(PostieError::NotFound);
            },
        };
        let c = self.collections.remove(i);
        let Collection { info, item, auth } = c;
        let kept = remove_items_in_folders(item, folder_name.as_str(), request_name.as_str());
        self.collections.insert(i, Collection { info, item: kept, auth });
        Ok(())
    }

    /// Records one answered request, in this order: the request, the
    /// response, the log entry that links the two, and the tab it was sent
    /// from, updated with the answer. The three log rows each get a fresh
    /// identifier, so recording the same request twice gives two independent
    /// sets of rows. Returns the classified response.
    pub fn record_submission(
        &mut self,
        input: &HttpRequest,
        sent_at: String,
        response_time: usize,
        status_code: u16,
        status: String,
        content_type: &str,
        response_headers: Vec<(String, String)>,
        res_text: String,
    ) -> (r: Response)
        ensures
            final(self).collections@ == old(self).collections@,
            final(self).environments@ == old(self).environments@,
            final(self).requests@.len() == old(self).requests@.len() + 1,
            final(self).requests@.drop_last() == old(self).requests@,
            final(self).responses@.len() == old(self).responses@.len() + 1,
            final(self).responses@.drop_last() == old(self).responses@,
            final(self).history@.len() == old(self).history@.len() + 1,
            final(self).history@.drop_last() == old(self).history@,
            ({
                let rq = final(self).requests@.last();
                let rs = final(self).responses@.last();
                let h = final(self).history@.last();
                &&& rq.id@.len() == 36
                &&& rq.method@ == input.method.spec_name()
                &&& rq.url@ == input.url@
                &&& rq.name == input.name
                &&& header_list_view(rq.headers@) == match input.headers {
                    Some(v) => pairs_view(v@),
                    None => Seq::empty(),
                }
                &&& opt_string_view(rq.body) == match input.body {
                    Some(RequestBody::JSON(j)) => Some(json_render(j@)),
                    Some(RequestBody::FORM(f)) => Some(f@),
                    None => None::<Seq<char>>,
                }
                &&& rs.id@.len() == 36
                &&& rs.status_code == status_code
                &&& rs.name == input.name
                &&& rs.headers@.map_values(|x: ResponseHeader| (x.key@, x.value@)) == pairs_view(
                    response_headers@,
                )
                &&& rs.body is Some && rs.body->0@ == res_text@
                &&& h.id@.len() == 36
                &&& h.request_id@ == rq.id@
                &&& h.response_id@ == rs.id@
                &&& h.sent_at@ == sent_at@
                &&& h.response_time == response_time
            }),
            ({
                let i = tab_index(old(self).tabs@, input.tab_id@);
                let t = final(self).tabs@[i];
                &&& final(self).tabs@.len() == if i < old(self).tabs@.len() {
                    old(self).tabs@.len()
                } else {
                    old(self).tabs@.len() + 1
                }
                &&& forall|j: int|
                    0 <= j < old(self).tabs@.len() && j != i ==> final(self).tabs@[j]
                        == old(self).tabs@[j]
                &&& t.id@ == input.tab_id@
                &&& t.method == input.method
                &&& t.url@ == input.url@
                &&& t.res_status is Some && t.res_status->0@ == status@
                &&& t.res_body@ == payload_text(r.data)
                &&& t.req_body@ == Seq::<char>::empty()
                &&& t.req_headers.0@.len() == 0
                &&& t.res_headers.0@.len() == 0
            }),
            r.status@ == status@,
            payload_ok(content_type@, res_text@, r.data),
    {
        let headers = copy_pairs(&input.headers);
        let req_headers = RequestHeaders::from_iter(headers);
        let body = match &input.body {
            Some(RequestBody::JSON(j)) => Some(write_json(j)),
            Some(RequestBody::FORM(f)) => Some(f.clone()),
            None => None,
        };
        let request_id = new_id();
        let db_request = DBRequest {
            id: request_id.clone(),
            method: input.method.to_string(),
            url: input.url.clone(),
            name: input.name.clone(),
            headers: req_headers.0,
            body,
        };
        self.requests.push(db_request);
        let ghost pv = pairs_view(response_headers@);
        let res_headers = RequestHeaders::from_iter(response_headers);
        let mut rh: Vec<ResponseHeader> = Vec::new();
        let mut rest = res_headers.0;
        let ghost mut k: int = 0;
        let ghost src = rest@;
        assert(rest@ =~= src.skip(0));
        while rest.len() > 0
            invariant
                0 <= k <= src.len(),
                rest@ == src.skip(k),
                rh@.map_values(|x: ResponseHeader| (x.key@, x.value@)) == header_list_view(
                    src.take(k),
                ),
            decreases rest.len(),
        {
            let ghost before = rh@;
            let h = rest.remove(0);
            assert(h == src[k]);
            rh.push(ResponseHeader { key: h.key, value: h.value });
            assert(src.take(k + 1) =~= src.take(k).push(src[k]));
            assert(header_list_view(src.take(k + 1)) =~= header_list_view(src.take(k)).push(
                (src[k].key@, src[k].value@),
            ));
            assert(rh@.map_values(|x: ResponseHeader| (x.key@, x.value@)) =~= before.map_values(
                |x: ResponseHeader| (x.key@, x.value@),
            ).push((src[k].key@, src[k].value@)));
            assert(rh@.map_values(|x: ResponseHeader| (x.key@, x.value@)) =~= header_list_view(
                src.take(k + 1),
            ));
            assert(rest@ =~= src.skip(k + 1));
            proof {
                k = k + 1;
            }
        }
        assert(src.take(k) =~= src);
        let response_id = new_id();
        let db_response = DBResponse {
            id: response_id.clone(),
            status_code,
            name: input.name.clone(),
            headers: rh,
            body: Some(res_text.clone()),
        };
        self.responses.push(db_response);
        let item = RequestHistoryItem {
            id: new_id(),
            request_id,
            response_id,
            sent_at,
            response_time,
        };
        self.history.push(item);
        let response = build_response(content_type, status.clone(), res_text);
        let res_body = match &response.data {
            ResponseData::JSON(j) => write_json(j),
            ResponseData::TEXT(t) => t.clone(),
            ResponseData::XML(x) => x.clone(),
            ResponseData::UNKNOWN(u) => u.clone(),
        };
        let updated_tab = Tab {
            id: input.tab_id.clone(),
            method: input.method,
            url: input.url.clone(),
            req_body: String::new(),
            req_headers: RequestHeaders(Vec::new()),
            res_status: Some(status),
            res_body,
            res_headers: RequestHeaders(Vec::new()),
        };
        proof {
            lemma_tab_index(self.tabs@, input.tab_id@);
        }
        self.save_tab(updated_tab);
        response
    }

    /// Creates an empty collection with a fresh identifier, named `name` or
    /// `New Collection`, and saves it; returns its identifier.
    pub fn new_collection(&mut self, name: Option<String>) -> (r: String)
        ensures
            same_but_collections(*old(self), *final(self)),
            exists|c: Collection|
                final(self).collections@ == upsert_collection(old(self).collections@, c)
                    && c.info.id@ == r@ && c.info.id@.len() == 36 && c.info.name@ == match name {
                    Some(n) => n@,
                    None => "New Collection"@,
                } && c.info.description is None && c.item@.len() == 0 && c.auth is None,
    {
        let name = match name {
            Some(n) => n,
            None => String::from_str("New Collection"),
        };
        let id = new_id();
        let c = Collection {
            info: CollectionInfo { id: id.clone(), name, description: None },
            item: Vec::new(),
            auth: None,
        };
        self.save_collection(c);
        id
    }

    /// Creates an environment without variables, with a fresh identifier,
    /// named `name` or `New Environment`, and saves it; returns its identifier.
    pub fn new_environment(&mut self, name: Option<String>) -> (r: String)
        ensures
            final(self).collections@ == old(self).collections@,
            final(self).tabs@ == old(self).tabs@,
            final(self).requests@ == old(self).requests@,
            final(self).responses@ == old(self).responses@,
            final(self).history@ == old(self).history@,
            exists|e: EnvironmentFile|
                final(self).environments@ == upsert_environment(old(self).environments@, e)
                    && e.id@ == r@ && e.id@.len() == 36 && e.name@ == match name {
                    Some(n) => n@,
                    None => "New Environment"@,
                } && e.values is None,
    {
        let name = match name {
            Some(n) => n,
            None => String::from_str("New Environment"),
        };
        let id = new_id();
        self.save_environment(EnvironmentFile { id: id.clone(), name, values: None });
        id
    }

    /// Appends an empty folder named `name` to the top level of the
    /// collection `id`.
    pub fn add_folder(&mut self, id: &str, name: String) -> (r: Result<(), PostieError>)
        ensures
            same_but_collections(*old(self), *final(self)),
            ({
                let i = collection_index(old(self).collections@, id@);
                if i < old(self).collections@.len() {
                    r is Ok && edited(
                        old(self).collections@,
                        final(self).collections@,
                        i,
                        old(self).collections@[i]@.items.push(
                            NodeModel::Folder { name: name@, items: Seq::empty() },
                        ),
                    )
                } else {
                    r == Err::<(), PostieError>(PostieError::NotFound) && final(self).collections@
                        == old(self).collections@
                }
            }),
    {
        let i = match self.find_collection(id) {
            Some(i) => i,
            None => {
                return Err(PostieError::NotFound);
            },
        };
        let c = self.collections.remove(i);
        let Collection { info, item: mut nodes, auth } = c;
        let ghost before = nodes@;
        let folder = CollectionItemOrFolder::Folder(CollectionFolder { name, item: Vec::new() });
        assert(folder@ == NodeModel::Folder { name: name@, items: Seq::empty() }) by {
            assert(folder@->Folder_items =~= Seq::<NodeModel>::empty());
        }
        nodes.push(folder);
        assert(nodes_view(nodes@) =~= nodes_view(before).push(folder@));
        self.collections.insert(i, Collection { info, item: nodes, auth });
        Ok(())
    }

    /// The request to send from a tab: its method and address, the headers
    /// of the editor merged with the auth header, a fresh identifier, and for
    /// any method but `GET` the tab's body as JSON (`null` where it does not
    /// parse).
    pub fn build_request(
        tab: &Tab,
        environment: EnvironmentFile,
        headers: &Vec<(bool, String, String)>,
        auth_mode: AuthMode,
        api_key_name: String,
        api_key: String,
        bearer_token: String,
        oauth_token: String,
    ) -> (r: HttpRequest)
        ensures
            r.tab_id == tab.id,
            r.id@.len() == 36,
            r.name is None,
            r.method == tab.method,
            r.url == tab.url,
            r.environment == environment,
            r.headers is Some,
            pairs_view(r.headers->0@) == dedupe(
                enabled_headers(headers@) + auth_header(
                    auth_mode,
                    api_key_name@,
                    api_key@,
                    bearer_token@,
                    oauth_token@,
                ),
            ),
            tab.method == HttpMethod::GET ==> r.body is None,
            tab.method != HttpMethod::GET ==> r.body is Some && r.body->0 is JSON && (r.body->0->JSON_0@
                == match json_parse(tab.req_body@) {
                Some(v) => v,
                None => crate::json::JsonModel::Null,
            }),
    {
        let processed = process_headers(
            headers,
            auth_mode,
            api_key_name,
            api_key,
            bearer_token,
            oauth_token,
        );
        let body = if tab.method != HttpMethod::GET {
            match read_json(tab.req_body.as_str()) {
                Some(v) => Some(RequestBody::JSON(v)),
                None => Some(RequestBody::JSON(JsonValue::Null)),
            }
        } else {
            None
        };
        HttpRequest {
            tab_id: tab.id.clone(),
            id: new_id(),
            name: None,
            method: tab.method,
            url: tab.url.clone(),
            headers: Some(processed),
            body,
            environment,
        }
    }

    /// Deletes a node of the tree: the requests named `request` inside the
    /// folders named `folder`, the folders named `folder`, or the top-level
    /// requests named `request`, depending on which names are given; with
    /// neither name, the collection itself.
    pub fn delete_node(&mut self, id: String, folder: Option<String>, request: Option<String>) -> (r:
        Result<(), PostieError>)
        ensures
            same_but_collections(*old(self), *final(self)),
            ({
                let i = collection_index(old(self).collections@, id@);
                let s = old(self).collections@;
                if folder is None && request is None {
                    r is Ok && final(self).collections@ == s.filter(|c: Collection| c.info.id@ != id@)
                } else if i >= s.len() {
                    r == Err::<(), PostieError>(PostieError::NotFound) && final(self).collections@ == s
                } else {
                    r is Ok && edited(
                        s,
                        final(self).collections@,
                        i,
                        match (folder, request) {
                            (Some(f), Some(q)) => s[i]@.items.map_values(
                                |n: NodeModel| strip_folder(n, f@, q@),
                            ),
                            (Some(f), None) => s[i]@.items.filter(not_folder_named(f@)),
                            (None, Some(q)) => s[i]@.items.filter(not_item_named(q@)),
                            (None, None) => s[i]@.items,
                        },
                    )
                }
            }),
    {
        match (folder, request) {
            (Some(f), Some(q)) => self.delete_folder_request(id, f, q),
            (Some(f), None) => self.delete_collection_folder(id, f),
            (None, Some(q)) => self.delete_collection_request(id, q),
            (None, None) => {
                self.delete_collection(id);
                Ok(())
            },
        }
    }
}

} // verus!
