use postie::api::{PostieApi, PostieError};

const TEST_ENVIRONMENT: &str = r#"{
  "id": "3ab687f6-4d2d-4d15-b129-962721cd5c5a",
  "name": "Local - QP External Partner",
  "values": [
    {
      "key": "HOST_URL",
      "value": "http://localhost:3000/external-partner/v1",
      "type": "default",
      "enabled": true
    }
  ],
  "_postman_variable_scope": "environment"
}"#;

#[test]
fn can_parse_environment_files() {
    let parsed = PostieApi::parse_environment(TEST_ENVIRONMENT).unwrap();

    assert_eq!(parsed.id, "3ab687f6-4d2d-4d15-b129-962721cd5c5a");
    assert_eq!(parsed.name, "Local - QP External Partner");
    let environment_values = parsed.values;
    if let Some(vals) = environment_values {
        assert_eq!(vals.len(), 1);
        let first_val = vals.first().unwrap();
        assert_eq!(first_val.key, "HOST_URL");
        assert_eq!(first_val.value, "http://localhost:3000/external-partner/v1");
        assert_eq!(first_val.kind, "default");
        assert_eq!(first_val.enabled, true);
    }
}

#[test]
fn environment_without_values_parses_to_none() {
    let parsed = PostieApi::parse_environment(r#"{"id":"e","name":"n"}"#).unwrap();
    assert!(parsed.values.is_none());
    let parsed = PostieApi::parse_environment(r#"{"id":"e","name":"n","values":null}"#).unwrap();
    assert!(parsed.values.is_none());
}

#[test]
fn environment_missing_name_is_a_parse_error() {
    let r = PostieApi::parse_environment(r#"{"id":"e"}"#);
    assert_eq!(r.err(), Some(PostieError::Parse));
    let r = PostieApi::parse_environment("not json");
    assert_eq!(r.err(), Some(PostieError::Parse));
    let r = PostieApi::parse_environment(r#"{"id":"e","name":"n","values":[{"key":"k"}]}"#);
    assert_eq!(r.err(), Some(PostieError::Parse));
}

#[test]
fn environment_round_trips_through_its_document() {
    let parsed = PostieApi::parse_environment(TEST_ENVIRONMENT).unwrap();
    let text = PostieApi::serialize_environment(&parsed);
    let again = PostieApi::parse_environment(&text).unwrap();
    assert_eq!(again.id, parsed.id);
    assert_eq!(again.name, parsed.name);
    assert_eq!(PostieApi::serialize_environment(&again), text);
    let a = again.values.unwrap();
    let b = parsed.values.unwrap();
    assert_eq!(a.len(), b.len());
    assert_eq!(a[0].key, b[0].key);
    assert_eq!(a[0].value, b[0].value);
    assert_eq!(a[0].kind, b[0].kind);
    assert_eq!(a[0].enabled, b[0].enabled);
}

#[test]
fn default_environment_has_one_blank_variable() {
    let env = postie::environment::EnvironmentFile::default();
    assert_eq!(env.name, "default");
    assert_eq!(env.id.len(), 36);
    let values = env.values.unwrap();
    assert_eq!(values.len(), 1);
    assert_eq!(values[0].key, "");
    assert_eq!(values[0].kind, "default");
    assert!(values[0].enabled);
}
