use ycallr_core::outside::json_from_text;
use ycallr_core::test_utils::helpers::make_params;
use ycallr_core::{Command, Dict, HttpMethod, ParamType, Parameter};

fn param(name: &str, param_type: ParamType, required: bool) -> Parameter {
    Parameter { description: name.to_string(), param_type, required }
}

fn table<V>(entries: Vec<(&str, V)>) -> Dict<V> {
    let mut d = Dict::new();
    for (k, v) in entries {
        d.insert(k.to_string(), v);
    }
    d
}

fn command_with_endpoint(endpoint: &str, params: Dict<Parameter>) -> Command {
    Command {
        description: None,
        endpoint: Some(endpoint.to_string()),
        method: Some(HttpMethod::GET),
        auth: None,
        headers: Dict::new(),
        params,
        body: None,
        responses: None,
        commands: None,
    }
}

fn command_with_params(params: Dict<Parameter>) -> Command {
    command_with_endpoint("/items", params)
}

fn command_with_path_params(params: Dict<Parameter>) -> Command {
    command_with_endpoint("/items/{id}", params)
}

#[test]
fn test_validate_params_required_missing() {
    let params = table(vec![("id", param("id", ParamType::String, true)), ("id", param("id", ParamType::String, true))]);
    let cmd = command_with_path_params(params);
    let result = cmd.validate_params(&Dict::new(), None);
    assert!(result.is_err());
    assert!(result.unwrap_err().message().contains("Missing required parameter 'id'"));
}

#[test]
fn test_validate_params_required_empty() {
    let params = table(vec![("id", param("id", ParamType::String, true)), ("id", param("id", ParamType::String, true))]);
    let cmd = command_with_path_params(params);
    let call_params = make_params(&[("id", "   ")]);
    assert!(cmd.validate_params(&call_params, None).is_err());
}

#[test]
fn test_validate_params_implicit_path_param_without_yaml_declaration() {
    let cmd = command_with_endpoint("/users/{username}", Dict::new());
    let call_params = make_params(&[("username", "octocat")]);
    assert!(cmd.validate_params(&call_params, None).is_ok());
    assert_eq!(cmd.resolve_endpoint(&call_params).unwrap(), "/users/octocat");
}

#[test]
fn test_validate_params_implicit_path_param_missing() {
    let cmd = command_with_endpoint("/users/{username}", Dict::new());
    let result = cmd.validate_params(&Dict::new(), None);
    assert!(result.is_err());
    assert!(result.unwrap_err().message().contains("Missing required path parameter 'username'"));
}

#[test]
fn test_endpoint_path_param_names_unique() {
    let cmd = command_with_endpoint("/orgs/{owner}/repos/{owner}/{repo}", Dict::new());
    assert_eq!(cmd.endpoint_path_param_names(), vec!["owner".to_string(), "repo".to_string()]);
}

#[test]
fn test_resolve_endpoint_missing_path_params_lists_names() {
    let cmd = command_with_endpoint("/repos/{owner}/{repo}/issues", Dict::new());
    let result = cmd.resolve_endpoint(&Dict::new());
    assert!(result.is_err());
    let err = result.unwrap_err().message();
    assert!(err.contains("Missing path parameters"));
    assert!(err.contains("owner"));
    assert!(err.contains("repo"));
}

#[test]
fn test_validate_params_unknown() {
    let cmd = command_with_params(Dict::new());
    let result = cmd.validate_params(&make_params(&[("extra", "x")]), None);
    assert!(result.is_err());
    assert!(result.unwrap_err().message().contains("Unknown parameter 'extra'"));
}

#[test]
fn test_validate_params_types() {
    let params = table(vec![
        ("num", param("num", ParamType::Number, false)),
        ("flag", param("flag", ParamType::Boolean, false)),
        ("tags", param("tags", ParamType::Array, false)),
    ]);
    let cmd = command_with_params(params);
    assert!(cmd.validate_params(&make_params(&[("num", "42"), ("flag", "true"), ("tags", "[\"a\",\"b\"]")]), None).is_ok());
    assert!(cmd.validate_params(&make_params(&[("num", "not-a-number")]), None).is_err());
    assert!(cmd.validate_params(&make_params(&[("flag", "maybe")]), None).is_err());
    assert!(cmd.validate_params(&make_params(&[("tags", "not-json")]), None).is_err());
}

#[test]
fn test_resolve_endpoint_encodes_special_chars() {
    let params = table(vec![("owner", param("owner", ParamType::String, true)), ("repo", param("repo", ParamType::String, true))]);
    let cmd = command_with_endpoint("/repos/{owner}/{repo}/issues", params);
    let resolved = cmd.resolve_endpoint(&make_params(&[("owner", "foo&bar"), ("repo", "a/b")])).unwrap();
    assert_eq!(resolved, "/repos/foo%26bar/a%2Fb/issues");
}

#[test]
fn test_validate_params_required_from_body() {
    let cmd = command_with_params(table(vec![("title", param("title", ParamType::String, true))]));
    let body = json_from_text(r#"{"title": "Issue"}"#).unwrap();
    assert!(cmd.validate_params(&Dict::new(), Some(&body)).is_ok());
}

#[test]
fn test_endpoint_param_names_and_duplicate_replacement() {
    let cmd = command_with_endpoint("/orgs/{owner}/repos/{owner}/{repo}", Dict::new());
    assert_eq!(cmd.endpoint_param_names(), vec!["owner".to_string(), "owner".to_string(), "repo".to_string()]);
    let resolved = cmd.resolve_endpoint(&make_params(&[("owner", "rust-lang"), ("repo", "rust")])).unwrap();
    assert_eq!(resolved, "/orgs/rust-lang/repos/rust-lang/rust");
}

#[test]
fn test_get_command_recursive_past_leaf() {
    let leaf = command_with_endpoint("/leaf", Dict::new());
    let cmd = Command {
        description: None,
        endpoint: None,
        method: None,
        auth: None,
        headers: Dict::new(),
        params: Dict::new(),
        body: None,
        responses: None,
        commands: Some(table(vec![("leaf", leaf)])),
    };
    let err = cmd.get_command_recursive(&["leaf", "extra"]).unwrap_err();
    assert!(err.message().contains("extra has no sub-commands"));
}

#[test]
fn test_resolve_endpoint_preserves_unreserved_chars() {
    let cmd = command_with_endpoint("/repos/{owner}/{repo}", Dict::new());
    let resolved = cmd.resolve_endpoint(&make_params(&[("owner", "foo-bar_baz.rust~"), ("repo", "my-repo")])).unwrap();
    assert_eq!(resolved, "/repos/foo-bar_baz.rust~/my-repo");
}

#[test]
fn test_validate_params_boolean_aliases() {
    let cmd = command_with_params(table(vec![("flag", param("flag", ParamType::Boolean, false))]));
    for value in ["yes", "no", "1", "0", "TRUE", "False"] {
        assert!(cmd.validate_params(&make_params(&[("flag", value)]), None).is_ok(), "expected '{}' to be accepted", value);
    }
}

#[test]
fn test_validate_params_body_number_satisfies_string_param() {
    let cmd = command_with_path_params(table(vec![("id", param("id", ParamType::String, true))]));
    let body = json_from_text(r#"{"id": 42}"#).unwrap();
    assert!(cmd.validate_params(&Dict::new(), Some(&body)).is_ok());
}

#[test]
fn test_is_leaf_requires_endpoint_and_method() {
    let mut endpoint_only = command_with_endpoint("/path", Dict::new());
    endpoint_only.method = None;
    assert!(!endpoint_only.is_leaf());
    assert!(!endpoint_only.is_callable());
    let mut method_only = command_with_endpoint("/path", Dict::new());
    method_only.endpoint = None;
    assert!(!method_only.is_leaf());
}

#[test]
fn test_validate_params_array_rejects_object_json() {
    let cmd = command_with_params(table(vec![("tags", param("tags", ParamType::Array, false))]));
    let result = cmd.validate_params(&make_params(&[("tags", r#"{"not":"array"}"#)]), None);
    assert!(result.is_err());
    assert!(result.unwrap_err().message().contains("JSON array"));
}

// Cases of the library's own.

#[test]
fn blank_call_value_falls_back_to_body() {
    let cmd = command_with_params(table(vec![("title", param("title", ParamType::String, true))]));
    let body = json_from_text(r#"{"title": "From body"}"#).unwrap();
    assert!(cmd.validate_params(&make_params(&[("title", " ")]), Some(&body)).is_ok());
}

#[test]
fn number_parameter_accepts_exponent_and_rejects_words() {
    let cmd = command_with_params(table(vec![("n", param("n", ParamType::Number, false))]));
    assert!(cmd.validate_params(&make_params(&[("n", "-1.5e3")]), None).is_ok());
    assert!(cmd.validate_params(&make_params(&[("n", "1.2.3")]), None).is_err());
}

#[test]
fn unresolved_placeholder_is_reported() {
    let cmd = command_with_endpoint("/a/{b", Dict::new());
    let err = cmd.resolve_endpoint(&Dict::new()).unwrap_err();
    assert!(err.message().contains("Unresolved parameters in endpoint"));
}
