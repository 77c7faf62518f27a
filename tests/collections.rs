use postie::api::{PostieApi, PostieError};
use postie::collection::{AuthValueUnion, CollectionItemOrFolder};

const TEST_COLLECTION: &str = r#"{
  "info": {
    "_postman_id": "0f5d1e0b-6a53-4a5b-9a4b-3a0d2a9c1b11",
    "name": "qp-external-partner",
    "schema": "https://schema.getpostman.com/json/collection/v2.1.0/collection.json"
  },
  "item": [
    {
      "name": "/agent",
      "item": [
        {
          "name": "GET /",
          "request": {
            "method": "GET",
            "header": [
              { "key": "X-Troux-ID", "value": "{{TROUX_ID}}", "type": "text" }
            ],
            "url": {
              "raw": "{{HOST_URL}}/agent",
              "host": ["{{HOST_URL}}"],
              "path": ["agent"]
            }
          },
          "response": []
        }
      ]
    }
  ],
  "auth": {
    "type": "oauth2",
    "oauth2": [
      { "key": "audience", "value": "https://api.example.com", "type": "string" },
      { "key": "tokenName", "value": "partner token", "type": "string" },
      { "key": "accessTokenUrl", "value": "{{TOKEN_URL}}", "type": "string" },
      { "key": "clientSecret", "value": "{{CLIENT_SECRET}}", "type": "string" },
      { "key": "clientId", "value": "{{CLIENT_ID}}", "type": "string" },
      { "key": "grant_type", "value": "client_credentials", "type": "string" },
      { "key": "client_authentication", "value": "body", "type": "string" },
      { "key": "addTokenTo", "value": "header", "type": "string" },
      { "key": "useBrowser", "value": false, "type": "boolean" },
      { "key": "tokenRequestParams", "value": [ { "key": "audience", "value": "x" } ], "type": "any" }
    ]
  }
}"#;

#[test]
fn can_parse_collection_with_all_fields() {
    let parsed = PostieApi::parse_collection(TEST_COLLECTION).unwrap();
    assert_eq!(parsed.info.name, "qp-external-partner");
    assert_eq!(parsed.info.description, None);
    assert_eq!(parsed.item.len(), 1);
    let first_item = parsed.item.first().unwrap();
    match first_item {
        CollectionItemOrFolder::Item(_) => panic!("First item is folder, not Request"),
        CollectionItemOrFolder::Folder(folder) => {
            assert_eq!(folder.name, "/agent");
            let folder_item = folder.item.first().unwrap();
            match folder_item {
                CollectionItemOrFolder::Item(item) => {
                    assert_eq!(item.name, "GET /");
                    assert_eq!(item.request.method, "GET");
                    assert_eq!(item.request.url.raw, "{{HOST_URL}}/agent");
                    assert_eq!(item.request.url.path, Some(vec![String::from("agent")]));
                    if let Some(h) = &item.request.header {
                        let troux_header = h.first().unwrap();
                        assert_eq!(troux_header.key, String::from("X-Troux-ID"));
                        assert_eq!(troux_header.kind, String::from("text"));
                        assert_eq!(troux_header.value, String::from("{{TROUX_ID}}"));
                    }
                }
                CollectionItemOrFolder::Folder(_) => panic!("Should be a request, not Folder"),
            };
        }
    }
    if let Some(auth) = parsed.auth {
        assert_eq!(auth.kind, "oauth2");
        assert!(auth.bearer.is_none());
        assert!(auth.oauth2.is_some());
        if let Some(oauth2) = auth.oauth2 {
            assert_eq!(oauth2.len(), 10);
            assert_eq!(
                oauth2.get(0).expect("missing field 'key' on oauth2 item").key,
                String::from("audience")
            );
            assert_eq!(
                oauth2.get(1).expect("missing field 'key' on oauth2 item").key,
                String::from("tokenName")
            );
            assert!(matches!(oauth2[0].value, AuthValueUnion::String(_)));
            assert!(matches!(oauth2[8].value, AuthValueUnion::Object(_)));
            assert!(matches!(oauth2[9].value, AuthValueUnion::Object(_)));
        }
    } else {
        panic!("Couldnt parse auth object")
    }
}

#[test]
fn collection_round_trips_through_its_document() {
    let parsed = PostieApi::parse_collection(TEST_COLLECTION).unwrap();
    let text = PostieApi::serialize_collection(&parsed);
    assert!(text.contains("\"_postman_id\""));
    let again = PostieApi::parse_collection(&text).unwrap();
    assert_eq!(again.info.id, parsed.info.id);
    assert_eq!(again.info.name, parsed.info.name);
    assert_eq!(again.item.len(), parsed.item.len());
    assert_eq!(PostieApi::serialize_collection(&again), text);
}

#[test]
fn object_with_request_decodes_to_item_at_any_depth() {
    let text = r#"{
      "info": {"_postman_id": "c", "name": "deep"},
      "item": [
        {"name": "top", "request": {"method": "GET", "url": {"raw": "http://a"}}},
        {"name": "f1", "item": [
          {"name": "f2", "item": [
            {"name": "leaf", "request": {"method": "POST", "url": {"raw": "http://b"}}}
          ]}
        ]}
      ]
    }"#;
    let c = PostieApi::parse_collection(text).unwrap();
    assert!(matches!(&c.item[0], CollectionItemOrFolder::Item(i) if i.name == "top"));
    match &c.item[1] {
        CollectionItemOrFolder::Folder(f1) => match &f1.item[0] {
            CollectionItemOrFolder::Folder(f2) => match &f2.item[0] {
                CollectionItemOrFolder::Item(leaf) => {
                    assert_eq!(leaf.name, "leaf");
                    assert_eq!(leaf.request.method, "POST");
                }
                _ => panic!("leaf should be a request"),
            },
            _ => panic!("f2 should be a folder"),
        },
        _ => panic!("f1 should be a folder"),
    }
}

#[test]
fn node_that_is_neither_shape_is_a_parse_error() {
    let no_item = r#"{"info":{"_postman_id":"c","name":"n"},"item":[{"name":"x"}]}"#;
    assert_eq!(PostieApi::parse_collection(no_item).err(), Some(PostieError::Parse));
    let not_object = r#"{"info":{"_postman_id":"c","name":"n"},"item":["x"]}"#;
    assert_eq!(PostieApi::parse_collection(not_object).err(), Some(PostieError::Parse));
    let bad_request = r#"{"info":{"_postman_id":"c","name":"n"},"item":[{"name":"x","request":{}}]}"#;
    assert_eq!(PostieApi::parse_collection(bad_request).err(), Some(PostieError::Parse));
    assert_eq!(PostieApi::parse_collection("[").err(), Some(PostieError::Parse));
}
