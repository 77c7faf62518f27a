use postie::api::PostieApi;
use postie::environment::{EnvironmentFile, EnvironmentValue};

#[test]
fn env_var_substitution_applies_correctly_in_urls() {
    let environment = EnvironmentFile {
        id: String::from("id"),
        name: String::from("some environment"),
        values: Some(vec![EnvironmentValue {
            key: String::from("HOST_URL"),
            value: String::from("https://httpbin.org"),
            kind: String::from("default"),
            enabled: true,
        }]),
    };
    let raw_url = String::from("{{HOST_URL}}/json");
    let converted_url = PostieApi::substitute_variables_in_url(&environment, raw_url);
    assert_eq!(converted_url, "https://httpbin.org/json");
}

#[test]
fn returns_base_url_if_env_vars_dont_exist() {
    let environment = EnvironmentFile {
        id: String::from("id"),
        name: String::from("some environment"),
        values: None,
    };
    let raw_url = String::from("{{BOGUS}}/json");
    let converted_url = PostieApi::substitute_variables_in_url(&environment, raw_url);
    assert_eq!(converted_url, "{{BOGUS}}/json");
}
