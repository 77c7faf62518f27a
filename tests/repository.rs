use postie::api::{item_from_request, PostieApi, PostieError};
use postie::collection::{Collection, CollectionItemOrFolder};
use postie::environment::EnvironmentFile;
use postie::method::HttpMethod;
use postie::request::HttpRequest;
use postie::response::ResponseData;
use postie::tab::Tab;
use postie::tree::{add_to_folder, remove_folders};

const TEST_JSON: &str = r#"{
  "info": {"_postman_id": "col-1", "name": "test collection"},
  "item": [
    {
      "name": "folder",
      "item": [
        {"name": "req1", "request": {"method": "GET", "url": {"raw": "https://httpbin.org/json"}}}
      ]
    },
    {"name": "delete-me", "request": {"method": "GET", "url": {"raw": "https://httpbin.org/json"}}}
  ]
}"#;

fn names(c: &Collection) -> Vec<String> {
    c.item
        .iter()
        .map(|n| match n {
            CollectionItemOrFolder::Item(i) => format!("item:{}", i.name),
            CollectionItemOrFolder::Folder(f) => format!("folder:{}", f.name),
        })
        .collect()
}

fn request(url: &str) -> HttpRequest {
    HttpRequest {
        tab_id: String::from("tab-1"),
        id: String::from("req-1"),
        name: None,
        method: HttpMethod::POST,
        url: String::from(url),
        headers: Some(vec![(String::from("Accept"), String::from("*/*"))]),
        body: None,
        environment: EnvironmentFile { id: String::new(), name: String::new(), values: None },
    }
}

#[test]
fn can_delete_collection_request() {
    let mut api = PostieApi::new();
    let collection = PostieApi::parse_collection(TEST_JSON).unwrap();
    api.save_collection(collection);
    let id = api.load_collections()[0].info.id.clone();
    let r = api.delete_collection_request(id, "delete-me".into());
    assert_eq!(r, Ok(()));
    let actual = &api.load_collections()[0];
    assert_eq!(actual.info.name, "test collection");
    assert_eq!(names(actual), vec![String::from("folder:folder")]);
    match &actual.item[0] {
        CollectionItemOrFolder::Folder(f) => {
            assert_eq!(f.item.len(), 1);
            match &f.item[0] {
                CollectionItemOrFolder::Item(i) => {
                    assert_eq!(i.name, "req1");
                    assert_eq!(i.request.method, "GET");
                    assert_eq!(i.request.url.raw, "https://httpbin.org/json");
                }
                _ => panic!("req1 should be a request"),
            }
        }
        _ => panic!("folder should be a folder"),
    }
}

#[test]
fn delete_folder_removes_only_that_folder() {
    let mut api = PostieApi::new();
    let text = r#"{"info":{"_postman_id":"c","name":"n"},"item":[
        {"name":"X","item":[]},
        {"name":"keep","request":{"method":"GET","url":{"raw":"http://a"}}},
        {"name":"Y","item":[]},
        {"name":"X","item":[]}
    ]}"#;
    api.save_collection(PostieApi::parse_collection(text).unwrap());
    assert_eq!(api.delete_collection_folder("c".into(), "X".into()), Ok(()));
    assert_eq!(
        names(&api.load_collections()[0]),
        vec![String::from("item:keep"), String::from("folder:Y")]
    );
}

#[test]
fn delete_on_missing_collection_is_not_found_and_changes_nothing() {
    let mut api = PostieApi::new();
    api.save_collection(PostieApi::parse_collection(TEST_JSON).unwrap());
    let before = PostieApi::serialize_collection(&api.load_collections()[0]);
    assert_eq!(
        api.delete_collection_folder("nope".into(), "folder".into()),
        Err(PostieError::NotFound)
    );
    assert_eq!(PostieApi::serialize_collection(&api.load_collections()[0]), before);
}

#[test]
fn delete_folder_request_removes_nested_request() {
    let mut api = PostieApi::new();
    api.save_collection(PostieApi::parse_collection(TEST_JSON).unwrap());
    assert_eq!(api.delete_folder_request("col-1".into(), "folder".into(), "req1".into()), Ok(()));
    let c = &api.load_collections()[0];
    assert_eq!(names(c), vec![String::from("folder:folder"), String::from("item:delete-me")]);
    match &c.item[0] {
        CollectionItemOrFolder::Folder(f) => assert!(f.item.is_empty()),
        _ => panic!("folder should be a folder"),
    }
}

#[test]
fn add_request_appends_exactly_one_item_under_the_folder() {
    let mut api = PostieApi::new();
    api.save_collection(PostieApi::parse_collection(TEST_JSON).unwrap());
    let req = request("http://example.com/new");
    assert_eq!(api.add_request_to_collection("col-1", &req, "folder".into()), Ok(()));
    let c = &api.load_collections()[0];
    assert_eq!(names(c), vec![String::from("folder:folder"), String::from("item:delete-me")]);
    match &c.item[0] {
        CollectionItemOrFolder::Folder(f) => {
            assert_eq!(f.item.len(), 2);
            match &f.item[1] {
                CollectionItemOrFolder::Item(i) => {
                    assert_eq!(i.name, "http://example.com/new");
                    assert_eq!(i.request.method, "POST");
                    assert_eq!(i.request.url.raw, "http://example.com/new");
                    let h = i.request.header.as_ref().unwrap();
                    assert_eq!(h.len(), 1);
                    assert_eq!(h[0].key, "Accept");
                    assert_eq!(h[0].kind, "");
                }
                _ => panic!("new node should be a request"),
            }
        }
        _ => panic!("folder should be a folder"),
    }
}

#[test]
fn concurrent_edits_from_one_snapshot_lose_the_first() {
    let mut api = PostieApi::new();
    api.save_collection(PostieApi::parse_collection(TEST_JSON).unwrap());
    // Two tasks load the same stored document.
    let snapshot_a = PostieApi::parse_collection(&PostieApi::serialize_collection(&api.load_collections()[0])).unwrap();
    let snapshot_b = PostieApi::parse_collection(&PostieApi::serialize_collection(&api.load_collections()[0])).unwrap();
    // The first adds a request, the second deletes the top-level request.
    let mut a = snapshot_a;
    add_to_folder(&mut a.item, "folder", item_from_request(&request("http://example.com/a")));
    let mut b = snapshot_b;
    b.item = remove_folders(b.item, "nothing");
    b.item = postie::tree::remove_items(b.item, "delete-me");
    // Each saves the whole document; the second save wins.
    api.save_collection(a);
    api.save_collection(b);
    assert_eq!(api.load_collections().len(), 1);
    let c = &api.load_collections()[0];
    assert_eq!(names(c), vec![String::from("folder:folder")]);
    match &c.item[0] {
        CollectionItemOrFolder::Folder(f) => assert_eq!(f.item.len(), 1),
        _ => panic!("folder should be a folder"),
    }
}

#[test]
fn save_collection_replaces_by_id() {
    let mut api = PostieApi::new();
    api.save_collection(PostieApi::parse_collection(TEST_JSON).unwrap());
    api.save_collection(
        PostieApi::parse_collection(r#"{"info":{"_postman_id":"col-1","name":"renamed"},"item":[]}"#).unwrap(),
    );
    api.save_collection(
        PostieApi::parse_collection(r#"{"info":{"_postman_id":"col-2","name":"other"},"item":[]}"#).unwrap(),
    );
    assert_eq!(api.load_collections().len(), 2);
    assert_eq!(api.load_collections()[0].info.name, "renamed");
    api.delete_collection("col-1".into());
    assert_eq!(api.load_collections().len(), 1);
    assert_eq!(api.load_collections()[0].info.id, "col-2");
}

#[test]
fn one_submission_records_one_linked_row_of_each_kind() {
    let mut api = PostieApi::new();
    let req = request("http://example.com/json");
    let r = api.record_submission(
        &req,
        String::from("2024-01-01 00:00:00 UTC"),
        42,
        200,
        String::from("200 OK"),
        "application/json",
        vec![(String::from("content-type"), String::from("application/json"))],
        String::from("{\"a\":1}"),
    );
    assert_eq!(r.status, "200 OK");
    assert!(matches!(r.data, ResponseData::JSON(_)));
    assert_eq!(api.load_saved_requests().len(), 1);
    assert_eq!(api.load_saved_responses().len(), 1);
    assert_eq!(api.load_request_response_items().len(), 1);
    let h = &api.load_request_response_items()[0];
    assert_eq!(h.request_id, api.load_saved_requests()[0].id);
    assert_eq!(h.request_id.len(), 36);
    assert_eq!(h.response_id, api.load_saved_responses()[0].id);
    assert_eq!(h.response_time, 42);
    assert_eq!(api.load_saved_responses()[0].status_code, 200);
    assert_eq!(api.load_saved_responses()[0].body.as_deref(), Some("{\"a\":1}"));
    assert_eq!(api.load_saved_requests()[0].method, "POST");
    assert_eq!(api.load_saved_requests()[0].headers.len(), 1);
    let tabs = api.load_tabs();
    assert_eq!(tabs.len(), 1);
    assert_eq!(tabs[0].id, "tab-1");
    assert_eq!(tabs[0].res_status.as_deref(), Some("200 OK"));
    assert_eq!(tabs[0].res_body, "{\"a\":1}");

    let r2 = api.record_submission(
        &req,
        String::from("2024-01-01 00:00:01 UTC"),
        7,
        404,
        String::from("404 Not Found"),
        "text/plain",
        vec![],
        String::from("missing"),
    );
    assert!(matches!(r2.data, ResponseData::TEXT(ref t) if t == "missing"));
    assert_eq!(api.load_saved_requests().len(), 2);
    assert_eq!(api.load_saved_responses().len(), 2);
    assert_eq!(api.load_request_response_items().len(), 2);
    assert_ne!(api.load_saved_responses()[0].id, api.load_saved_responses()[1].id);
    assert_ne!(api.load_saved_requests()[0].id, api.load_saved_requests()[1].id);
    assert_eq!(api.load_request_response_items()[1].request_id, api.load_saved_requests()[1].id);
    assert_eq!(api.load_tabs()[0].req_body, "");
    assert!(api.load_tabs()[0].req_headers.0.is_empty());
    assert!(api.load_tabs()[0].res_headers.0.is_empty());
    assert_eq!(api.load_tabs().len(), 1);
    assert_eq!(api.load_tabs()[0].res_body, "missing");
}

#[test]
fn save_tab_upserts_and_delete_tab_removes() {
    let mut api = PostieApi::new();
    let mut t = Tab::default();
    assert_eq!(t.id.len(), 36);
    let id = t.id.clone();
    api.save_tab(t);
    t = Tab::default();
    t.id = id.clone();
    t.url = String::from("http://changed");
    api.save_tab(t);
    assert_eq!(api.load_tabs().len(), 1);
    assert_eq!(api.load_tabs()[0].url, "http://changed");
    api.delete_tab(id);
    assert!(api.load_tabs().is_empty());
}

#[test]
fn new_collection_and_folder_commands() {
    let mut api = PostieApi::new();
    api.new_collection(None);
    api.new_collection(Some(String::from("mine")));
    assert_eq!(api.load_collections().len(), 2);
    assert_eq!(api.load_collections()[0].info.name, "New Collection");
    assert_eq!(api.load_collections()[0].info.id.len(), 36);
    let id = api.load_collections()[1].info.id.clone();
    assert_eq!(api.add_folder(&id, String::from("F")), Ok(()));
    assert_eq!(names(&api.load_collections()[1]), vec![String::from("folder:F")]);
    assert_eq!(api.add_folder("missing", String::from("F")), Err(PostieError::NotFound));
    api.new_environment(None);
    assert_eq!(api.load_environments()[0].name, "New Environment");
    assert!(api.load_environments()[0].values.is_none());
}

#[test]
fn build_request_takes_tab_fields_and_merges_headers() {
    let mut tab = Tab::default();
    tab.method = HttpMethod::PUT;
    tab.url = String::from("{{HOST}}/x");
    tab.req_body = String::from("{\"k\":\"v\"}");
    let rows = vec![(true, String::from("X-A"), String::from("1"))];
    let env = EnvironmentFile { id: String::new(), name: String::new(), values: None };
    let r = PostieApi::build_request(
        &tab,
        env,
        &rows,
        postie::ui::AuthMode::OAUTH2,
        String::new(),
        String::new(),
        String::new(),
        String::from("tok"),
    );
    assert_eq!(r.tab_id, tab.id);
    assert_eq!(r.id.len(), 36);
    assert_eq!(r.method, HttpMethod::PUT);
    assert_eq!(r.url, "{{HOST}}/x");
    let h = r.headers.unwrap();
    assert_eq!(h[1], (String::from("Authorization"), String::from("Bearer tok")));
    match r.body {
        Some(postie::request::RequestBody::JSON(j)) => assert_eq!(j.to_json_text(), "{\"k\":\"v\"}"),
        _ => panic!("a PUT carries a JSON body"),
    }
    tab.method = HttpMethod::GET;
    let env = EnvironmentFile { id: String::new(), name: String::new(), values: None };
    let r = PostieApi::build_request(&tab, env, &rows, postie::ui::AuthMode::NONE, String::new(), String::new(), String::new(), String::new());
    assert!(r.body.is_none());
}

#[test]
fn delete_node_dispatches_on_the_names_given() {
    let mut api = PostieApi::new();
    api.save_collection(PostieApi::parse_collection(TEST_JSON).unwrap());
    assert_eq!(api.delete_node("col-1".into(), None, Some("delete-me".into())), Ok(()));
    assert_eq!(names(&api.load_collections()[0]), vec![String::from("folder:folder")]);
    assert_eq!(api.delete_node("col-1".into(), Some("folder".into()), None), Ok(()));
    assert!(api.load_collections()[0].item.is_empty());
    assert_eq!(api.delete_node("zzz".into(), Some("folder".into()), None), Err(PostieError::NotFound));
    assert_eq!(api.delete_node("col-1".into(), None, None), Ok(()));
    assert!(api.load_collections().is_empty());
}

#[test]
fn import_reports_bad_documents_and_changes_nothing() {
    let mut api = PostieApi::new();
    assert_eq!(api.import_collection("{"), Err(PostieError::Parse));
    assert_eq!(api.import_collection("{\"item\":[]}"), Err(PostieError::Parse));
    assert!(api.load_collections().is_empty());
    assert_eq!(api.import_collection(TEST_JSON), Ok(String::from("col-1")));
    assert_eq!(api.load_collections().len(), 1);
    assert_eq!(api.import_environment("[]"), Err(PostieError::Parse));
    assert_eq!(
        api.import_environment("{\"id\":\"e1\",\"name\":\"n\"}"),
        Ok(String::from("e1"))
    );
    assert_eq!(api.load_environments().len(), 1);
}
