use postie::api::PostieApi;
use postie::environment::{EnvironmentFile, EnvironmentValue};
use postie::headers::{process_headers, remove_duplicate_headers};
use postie::method::{HttpMethod, HttpMethodParseError};
use postie::request::{OAuth2Request, OAuthRequestBody, RequestHeaders};
use postie::json::JsonValue;
use postie::response::{build_response, parse_i32, OAuthResponse, ResponseData};
use postie::rows::{
    collection_auth_json, collection_from_row, collection_items_json, environment_from_row,
    environment_values_json, headers_from_json, headers_json, history_from_row, parse_decimal,
    tab_from_row,
};
use postie::substitution::replace_literal;
use postie::ui::AuthMode;

fn env(values: Vec<(&str, &str, bool)>) -> EnvironmentFile {
    EnvironmentFile {
        id: String::from("e"),
        name: String::from("env"),
        values: Some(
            values
                .into_iter()
                .map(|(k, v, enabled)| EnvironmentValue {
                    key: String::from(k),
                    value: String::from(v),
                    kind: String::from("default"),
                    enabled,
                })
                .collect(),
        ),
    }
}

#[test]
fn substitution_replaces_the_placeholder() {
    let e = env(vec![("HOST", "http://a", true)]);
    assert_eq!(PostieApi::substitute_variables_in_url(&e, "{{HOST}}/x".into()), "http://a/x");
}

#[test]
fn substitution_without_values_leaves_url() {
    let e = EnvironmentFile { id: "e".into(), name: "env".into(), values: None };
    assert_eq!(PostieApi::substitute_variables_in_url(&e, "{{HOST}}/x".into()), "{{HOST}}/x");
}

#[test]
fn substitution_is_literal() {
    let e = env(vec![("H.ST", "v", true), ("a*", "w", true)]);
    assert_eq!(PostieApi::substitute_variables_in_url(&e, "{{HOST}}/{{H.ST}}/{{aa}}/{{a*}}".into()), "{{HOST}}/v/{{aa}}/w");
}

#[test]
fn substitution_replaces_every_occurrence_in_list_order() {
    let e = env(vec![("A", "{{B}}", true), ("B", "b", false)]);
    assert_eq!(PostieApi::substitute_variables_in_url(&e, "{{A}}-{{A}}-{{B}}".into()), "b-b-b");
    let e = env(vec![("B", "b", true), ("A", "{{B}}", true)]);
    assert_eq!(PostieApi::substitute_variables_in_url(&e, "{{A}}".into()), "{{B}}");
}

#[test]
fn replace_literal_scans_left_to_right_without_overlap() {
    assert_eq!(replace_literal("aaa", "aa", "b"), "ba");
    assert_eq!(replace_literal("héllo wörld", "ö", "o"), "héllo world");
    assert_eq!(replace_literal("", "x", "y"), "");
}

#[test]
fn json_content_type_gives_parsed_json() {
    let r = build_response("application/json", "200 OK".into(), "{\"a\":[1,2]}".into());
    assert_eq!(r.status, "200 OK");
    assert!(matches!(r.data, ResponseData::JSON(_)));
    let r = build_response("application/json; charset=utf-8", "200 OK".into(), "[true]".into());
    assert!(matches!(r.data, ResponseData::JSON(_)));
}

#[test]
fn invalid_json_body_degrades_to_unknown() {
    let r = build_response("application/json", "200 OK".into(), "{not json".into());
    assert!(matches!(r.data, ResponseData::UNKNOWN(ref s) if s.is_empty()));
}

#[test]
fn xml_content_types_keep_raw_text() {
    let r = build_response("text/xml", "200 OK".into(), "<a/>".into());
    assert!(matches!(r.data, ResponseData::XML(ref s) if s == "<a/>"));
    let r = build_response("application/xml", "200 OK".into(), "<b>".into());
    assert!(matches!(r.data, ResponseData::XML(ref s) if s == "<b>"));
}

#[test]
fn text_content_types_keep_text() {
    let r = build_response("text/plain", "200 OK".into(), "hi".into());
    assert!(matches!(r.data, ResponseData::TEXT(ref s) if s == "hi"));
    let r = build_response("text/html; charset=utf-8", "200 OK".into(), "<p>".into());
    assert!(matches!(r.data, ResponseData::TEXT(ref s) if s == "<p>"));
}

#[test]
fn missing_or_unknown_content_type_is_unknown_and_empty() {
    let r = build_response("", "204 No Content".into(), "body".into());
    assert!(matches!(r.data, ResponseData::UNKNOWN(ref s) if s.is_empty()));
    let r = build_response("image/png", "200 OK".into(), "bytes".into());
    assert!(matches!(r.data, ResponseData::UNKNOWN(ref s) if s.is_empty()));
}

#[test]
fn method_names_round_trip() {
    for m in [
        HttpMethod::GET,
        HttpMethod::POST,
        HttpMethod::PUT,
        HttpMethod::PATCH,
        HttpMethod::DELETE,
        HttpMethod::OPTIONS,
        HttpMethod::HEAD,
    ] {
        assert_eq!(HttpMethod::from_str(&m.to_string()).unwrap(), m);
    }
    assert_eq!(HttpMethod::PATCH.to_string(), "PATCH");
}

#[test]
fn unknown_method_is_an_error() {
    assert_eq!(HttpMethod::from_str("get"), Err(HttpMethodParseError));
    assert_eq!(HttpMethod::from_str("TRACE"), Err(HttpMethodParseError));
    assert_eq!(HttpMethod::from_str(""), Err(HttpMethodParseError));
}

#[test]
fn auth_mode_names() {
    assert_eq!(AuthMode::APIKEY.to_string(), "APIKEY");
    assert_eq!(AuthMode::NONE.to_string(), "NONE");
}

#[test]
fn duplicate_headers_keep_the_last_value() {
    let h = vec![
        (String::from("A"), String::from("1")),
        (String::from("B"), String::from("2")),
        (String::from("A"), String::from("3")),
        (String::from("a"), String::from("4")),
    ];
    let r = remove_duplicate_headers(h);
    assert_eq!(
        r,
        vec![
            (String::from("B"), String::from("2")),
            (String::from("A"), String::from("3")),
            (String::from("a"), String::from("4")),
        ]
    );
}

#[test]
fn auth_header_is_merged_and_wins() {
    let rows = vec![
        (true, String::from("Authorization"), String::from("old")),
        (false, String::from("X-Off"), String::from("no")),
        (true, String::from("X-On"), String::from("yes")),
    ];
    let r = process_headers(&rows, AuthMode::BEARER, String::new(), String::new(), String::from("tok"), String::new());
    assert_eq!(
        r,
        vec![
            (String::from("X-On"), String::from("yes")),
            (String::from("Authorization"), String::from("Bearer tok")),
        ]
    );
    let r = process_headers(&rows, AuthMode::APIKEY, String::from("X-Key"), String::from("k"), String::new(), String::new());
    assert_eq!(r.len(), 3);
    assert_eq!(r[2], (String::from("X-Key"), String::from("k")));
    let r = process_headers(&rows, AuthMode::NONE, String::new(), String::new(), String::new(), String::new());
    assert_eq!(r.len(), 2);
}

#[test]
fn oauth_basic_header_is_base64_of_credentials() {
    let req = OAuth2Request {
        access_token_url: String::from("http://token"),
        refresh_url: String::new(),
        client_id: String::from("id"),
        client_secret: String::from("secret"),
        request: OAuthRequestBody {
            grant_type: String::from("client_credentials"),
            scope: String::from("read"),
            audience: String::from("api"),
        },
    };
    assert_eq!(req.basic_auth_value(), "Basic aWQ6c2VjcmV0");
    let f = req.form_fields();
    assert_eq!(f[0], (String::from("grant_type"), String::from("client_credentials")));
    assert_eq!(f.len(), 3);
}

#[test]
fn request_headers_iterate_in_order() {
    let hs = RequestHeaders::from_iter(vec![
        (String::from("a"), String::from("1")),
        (String::from("b"), String::from("2")),
    ]);
    let mut it = hs.into_iter();
    assert_eq!(it.next().unwrap().key, "a");
    assert_eq!(it.next().unwrap().value, "2");
    assert!(it.next().is_none());
}

#[test]
fn stored_headers_round_trip_and_malformed_read_empty() {
    let hs = RequestHeaders::from_iter(vec![(String::from("a"), String::from("1"))]);
    let text = headers_json(&hs.0);
    assert_eq!(text, "[{\"key\":\"a\",\"value\":\"1\"}]");
    let back = headers_from_json(&text);
    assert_eq!(back.len(), 1);
    assert_eq!(back[0].key, "a");
    assert!(headers_from_json("{oops").is_empty());
    assert!(headers_from_json("[{\"key\":1}]").is_empty());
}

#[test]
fn stored_collection_row_reads_back_and_tolerates_bad_blobs() {
    let c = PostieApi::parse_collection(
        r#"{"info":{"_postman_id":"c","name":"n"},"item":[{"name":"f","item":[]}],"auth":{"type":"bearer","bearer":[{"key":"token","value":"t","type":"string"}]}}"#,
    )
    .unwrap();
    let items = collection_items_json(&c);
    let auth = collection_auth_json(&c);
    let back = collection_from_row("c".into(), "n".into(), None, &items, Some(auth));
    assert_eq!(back.item.len(), 1);
    assert_eq!(back.auth.unwrap().kind, "bearer");
    let bad = collection_from_row("c".into(), "n".into(), None, "not json", Some("null".into()));
    assert!(bad.item.is_empty());
    assert!(bad.auth.is_none());
}

#[test]
fn stored_environment_row_reads_back_and_tolerates_bad_blobs() {
    let e = env(vec![("K", "V", false)]);
    let text = environment_values_json(&e).unwrap();
    let back = environment_from_row("e".into(), "env".into(), Some(text));
    let v = back.values.unwrap();
    assert_eq!(v[0].key, "K");
    assert!(!v[0].enabled);
    let bad = environment_from_row("e".into(), "env".into(), Some("[1]".into()));
    assert!(bad.values.is_none());
}

#[test]
fn stored_tab_row_defaults() {
    let t = tab_from_row("t".into(), "TRACE", "u".into(), None, "bad", Some("200 OK".into()), None, "bad");
    assert_eq!(t.method, HttpMethod::GET);
    assert_eq!(t.req_body, "");
    assert!(t.req_headers.0.is_empty());
    assert!(t.res_headers.0.is_empty());
    let t = tab_from_row(
        "t".into(),
        "PATCH",
        "u".into(),
        Some("b".into()),
        "[]",
        None,
        Some("r".into()),
        "[{\"key\":\"content-type\",\"value\":\"text/plain\"}]",
    );
    assert_eq!(t.method, HttpMethod::PATCH);
    assert_eq!(t.res_headers.0.len(), 1);
    assert_eq!(t.res_headers.0[0].key, "content-type");
    assert_eq!(t.res_headers.0[0].value, "text/plain");
    assert_eq!(t.res_body, "r");
}

#[test]
fn stored_history_row_latency() {
    assert_eq!(history_from_row("h".into(), "q".into(), "s".into(), "t".into(), "1234").response_time, 1234);
    assert_eq!(history_from_row("h".into(), "q".into(), "s".into(), "t".into(), "12a").response_time, 0);
    assert_eq!(parse_decimal("0"), Some(0));
    assert_eq!(parse_decimal(""), None);
    assert_eq!(parse_decimal("99999999999999999999999"), None);
    assert_eq!(parse_decimal("18446744073709551615"), Some(18446744073709551615));
}

#[test]
fn address_without_placeholders_is_unchanged() {
    let e = env(vec![("HOST", "http://a", true), ("x", "y", true)]);
    assert_eq!(PostieApi::substitute_variables_in_url(&e, "http://h/{x}/{ x }/x".into()), "http://h/{x}/{ x }/x");
}

#[test]
fn token_answer_is_decoded() {
    let j = JsonValue::from_json_text("{\"access_token\":\"abc\",\"expires_in\":3600,\"token_type\":\"Bearer\",\"scope\":\"x\"}").unwrap();
    let t = OAuthResponse::from_json(&j).unwrap();
    assert_eq!(t.access_token, "abc");
    assert_eq!(t.expires_in, 3600);
    assert_eq!(t.token_type, "Bearer");
    let bad = JsonValue::from_json_text("{\"access_token\":\"abc\",\"expires_in\":1.5,\"token_type\":\"Bearer\"}").unwrap();
    assert!(OAuthResponse::from_json(&bad).is_none());
    assert_eq!(parse_i32("-2147483648"), Some(i32::MIN));
    assert_eq!(parse_i32("2147483647"), Some(i32::MAX));
    assert_eq!(parse_i32("2147483648"), None);
    assert_eq!(parse_i32("-"), None);
    assert_eq!(parse_i32("12x"), None);
}
