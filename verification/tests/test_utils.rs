use ycallr_core::outside::json_from_text;
use ycallr_core::test_utils::apis::{env_api, github_api, nested_github_api, response_api, simple_api};
use ycallr_core::test_utils::helpers::{
    make_params, response_created, response_not_found, response_ok, response_with_headers, response_with_message,
};
use ycallr_core::test_utils::mock::MockApiClient;
use ycallr_core::{HttpMethod, JsonValue};

fn json(text: &str) -> JsonValue {
    json_from_text(text).unwrap()
}

#[test]
fn mod_test_mock_client_expect_and_call() {
    let mut mock = MockApiClient::new();
    mock.expect("get-item", response_ok(json(r#"{"id": "1"}"#)));
    let params = make_params(&[("id", "1")]);
    let response = mock.call("get-item", &params, None).unwrap();
    assert_eq!(response.status, 200);
    assert_eq!(response.body.get_key("id"), Some(&JsonValue::Str("1".to_string())));
}

#[test]
fn mod_test_mock_client_tracks_calls() {
    let mut mock = MockApiClient::new();
    mock.expect("get-item", response_ok(json("{}")));
    let params = make_params(&[("id", "1")]);
    mock.call("get-item", &params, None).unwrap();
    mock.call("get-item", &params, None).unwrap();
    assert_eq!(mock.call_count("get-item"), 2);
    assert!(mock.was_called("get-item"));
    assert!(!mock.was_called("create-item"));
}

#[test]
fn mod_test_mock_client_last_call() {
    let mut mock = MockApiClient::new();
    mock.expect("get-item", response_ok(json("{}")));
    mock.expect("create-item", response_created(json("{}")));
    let params = make_params(&[("id", "1")]);
    mock.call("get-item", &params, None).unwrap();
    let body = json(r#"{"name": "test"}"#);
    mock.call("create-item", &params, Some(&body)).unwrap();
    let last = mock.last_call().unwrap();
    assert_eq!(last.command, "create-item");
    assert_eq!(last.body.as_ref().unwrap().get_key("name"), Some(&JsonValue::Str("test".to_string())));
}

#[test]
fn mod_test_mock_client_not_found() {
    let mut mock = MockApiClient::new();
    let params = make_params(&[]);
    assert!(mock.call("nonexistent", &params, None).is_err());
}

#[test]
fn mod_test_github_api_structure() {
    let api = github_api();
    assert_eq!(api.name, "github");
    assert!(api.commands.contains_key("get-repo"));
    assert!(api.commands.contains_key("create-issue"));
    assert!(api.commands.contains_key("list-issues"));
}

#[test]
fn mod_test_simple_api_structure() {
    let api = simple_api();
    assert_eq!(api.name, "simple");
    assert_eq!(api.commands.len(), 2);
}

#[test]
fn mod_test_nested_github_api_structure() {
    let api = nested_github_api();
    assert_eq!(api.name, "github-nested");
    assert!(api.commands.contains_key("repos"));
    assert!(api.commands.contains_key("users"));
    let repos = api.commands.get("repos").unwrap();
    assert!(repos.is_branch());
    assert!(repos.is_leaf());
    assert!(repos.commands.is_some());
    let issues = repos.commands.as_ref().unwrap().get("issues").unwrap();
    assert!(issues.is_branch());
    assert!(issues.is_leaf());
}

#[test]
fn mod_test_nested_github_api_lookup() {
    let api = nested_github_api();
    assert!(api.get_command("repos").is_ok());
    assert!(api.get_command("repos.issues").is_ok());
    let create = api.get_command("repos.issues.create");
    assert!(create.is_ok());
    assert_eq!(create.unwrap().method.as_ref().unwrap(), &HttpMethod::POST);
    let users_get = api.get_command("users.get");
    assert!(users_get.is_ok());
    assert_eq!(users_get.unwrap().method.as_ref().unwrap(), &HttpMethod::GET);
}

#[test]
fn mod_test_nested_github_api_not_found() {
    let api = nested_github_api();
    assert!(api.get_command("repos.nonexistent").is_err());
    assert!(api.get_command("repos.issues.nonexistent").is_err());
    assert!(api.get_command("nonexistent").is_err());
}

#[test]
fn mod_test_response_helpers() {
    let ok = response_ok(json(r#"{"ok": true}"#));
    assert_eq!(ok.status, 200);
    let created = response_created(json(r#"{"id": "1"}"#));
    assert_eq!(created.status, 201);
    let not_found = response_not_found();
    assert_eq!(not_found.status, 404);
    let headers = make_params(&[("X-Custom", "value")]);
    let with_headers = response_with_headers(200, headers, json(r#"{"data": 1}"#));
    assert_eq!(with_headers.status, 200);
    assert_eq!(with_headers.headers.get("X-Custom").unwrap(), "value");
}

#[test]
fn mod_test_mock_client_calls_method() {
    let mut mock = MockApiClient::new();
    mock.expect("get-item", response_ok(json("{}")));
    mock.expect("create-item", response_ok(json("{}")));
    let params = make_params(&[("id", "1")]);
    mock.call("get-item", &params, None).unwrap();
    mock.call("create-item", &params, None).unwrap();
    let calls = mock.calls();
    assert_eq!(calls.len(), 2);
    assert_eq!(calls[0].command, "get-item");
    assert_eq!(calls[1].command, "create-item");
}

#[test]
fn mod_test_mock_nested_command_tracking() {
    let mut mock = MockApiClient::new();
    mock.expect("repos.issues.create", response_ok(json(r#"{"created": true}"#)));
    mock.expect("repos.issues.list", response_ok(json(r#"[{"id": 1}]"#)));
    let params = make_params(&[("owner", "rust-lang"), ("repo", "rust")]);
    let body = json(r#"{"title": "Bug"}"#);
    mock.call("repos.issues.create", &params, Some(&body)).unwrap();
    mock.call("repos.issues.list", &params, None).unwrap();
    assert_eq!(mock.call_count("repos.issues.create"), 1);
    assert_eq!(mock.call_count("repos.issues.list"), 1);
    assert!(mock.was_called("repos.issues.create"));
    assert!(mock.was_called("repos.issues.list"));
}

#[test]
fn mod_test_env_api_structure() {
    let api = env_api();
    assert_eq!(api.name, "github-env");
    assert_eq!(api.env.len(), 2);
    assert_eq!(api.env[0].name, "GITHUB_TOKEN");
    assert!(api.env[0].required);
    assert_eq!(api.env[1].name, "API_VERSION");
    assert!(!api.env[1].required);
}

#[test]
fn mod_test_env_api_has_substitution() {
    let api = env_api();
    let cmd = api.commands.get("get-repo").unwrap();
    assert_eq!(cmd.headers.get("Authorization").unwrap(), "Bearer ${GITHUB_TOKEN}");
}

#[test]
fn mod_test_response_api_structure() {
    let api = response_api();
    assert_eq!(api.name, "response-api");
    let cmd = api.commands.get("create-item").unwrap();
    assert!(cmd.responses.is_some());
    let responses = cmd.responses.as_ref().unwrap();
    assert!(responses.success.is_some());
    assert!(responses.failure.is_some());
    assert!(responses.codes.contains_key("404"));
}

#[test]
fn mod_test_response_api_messages() {
    let api = response_api();
    let cmd = api.commands.get("create-item").unwrap();
    let responses = cmd.responses.as_ref().unwrap();
    assert_eq!(responses.success.as_ref().unwrap().message, "Created {output.name}");
    assert_eq!(responses.failure.as_ref().unwrap().message, "Failed to create item");
    assert_eq!(responses.codes.get("404").unwrap().message, "{input.owner} not found");
}

#[test]
fn mod_test_response_with_message_helper() {
    let resp = response_with_message(200, json(r#"{"ok": true}"#), "Created item".to_string());
    assert_eq!(resp.status, 200);
    assert_eq!(resp.message, Some("Created item".to_string()));
}

#[test]
fn test_utils_test_mock_client_expect_and_call() {
    let mut mock = MockApiClient::new();
    mock.expect("get-item", response_ok(json(r#"{"id": "1"}"#)));
    let params = make_params(&[("id", "1")]);
    let response = mock.call("get-item", &params, None).unwrap();
    assert_eq!(response.status, 200);
    assert_eq!(response.body.get_key("id"), Some(&JsonValue::Str("1".to_string())));
}

#[test]
fn test_utils_test_mock_client_tracks_calls() {
    let mut mock = MockApiClient::new();
    mock.expect("get-item", response_ok(json("{}")));
    let params = make_params(&[("id", "1")]);
    mock.call("get-item", &params, None).unwrap();
    mock.call("get-item", &params, None).unwrap();
    assert_eq!(mock.call_count("get-item"), 2);
    assert!(mock.was_called("get-item"));
    assert!(!mock.was_called("create-item"));
}

#[test]
fn test_utils_test_mock_client_last_call() {
    let mut mock = MockApiClient::new();
    mock.expect("get-item", response_ok(json("{}")));
    mock.expect("create-item", response_created(json("{}")));
    let params = make_params(&[("id", "1")]);
    mock.call("get-item", &params, None).unwrap();
    let body = json(r#"{"name": "test"}"#);
    mock.call("create-item", &params, Some(&body)).unwrap();
    let last = mock.last_call().unwrap();
    assert_eq!(last.command, "create-item");
    assert_eq!(last.body.as_ref().unwrap().get_key("name"), Some(&JsonValue::Str("test".to_string())));
}

#[test]
fn test_utils_test_mock_client_not_found() {
    let mut mock = MockApiClient::new();
    let params = make_params(&[]);
    assert!(mock.call("nonexistent", &params, None).is_err());
}

#[test]
fn test_utils_test_github_api_structure() {
    let api = github_api();
    assert_eq!(api.name, "github");
    assert!(api.commands.contains_key("get-repo"));
    assert!(api.commands.contains_key("create-issue"));
    assert!(api.commands.contains_key("list-issues"));
}

#[test]
fn test_utils_test_simple_api_structure() {
    let api = simple_api();
    assert_eq!(api.name, "simple");
    assert_eq!(api.commands.len(), 2);
}

#[test]
fn test_utils_test_nested_github_api_structure() {
    let api = nested_github_api();
    assert_eq!(api.name, "github-nested");
    assert!(api.commands.contains_key("repos"));
    assert!(api.commands.contains_key("users"));
    let repos = api.commands.get("repos").unwrap();
    assert!(repos.is_branch());
    assert!(repos.is_leaf());
    assert!(repos.commands.is_some());
    let issues = repos.commands.as_ref().unwrap().get("issues").unwrap();
    assert!(issues.is_branch());
    assert!(issues.is_leaf());
}

#[test]
fn test_utils_test_nested_github_api_lookup() {
    let api = nested_github_api();
    assert!(api.get_command("repos").is_ok());
    assert!(api.get_command("repos.issues").is_ok());
    let create = api.get_command("repos.issues.create");
    assert!(create.is_ok());
    assert_eq!(create.unwrap().method.as_ref().unwrap(), &HttpMethod::POST);
    let users_get = api.get_command("users.get");
    assert!(users_get.is_ok());
    assert_eq!(users_get.unwrap().method.as_ref().unwrap(), &HttpMethod::GET);
}

#[test]
fn test_utils_test_nested_github_api_not_found() {
    let api = nested_github_api();
    assert!(api.get_command("repos.nonexistent").is_err());
    assert!(api.get_command("repos.issues.nonexistent").is_err());
    assert!(api.get_command("nonexistent").is_err());
}

#[test]
fn test_utils_test_response_helpers() {
    let ok = response_ok(json(r#"{"ok": true}"#));
    assert_eq!(ok.status, 200);
    let created = response_created(json(r#"{"id": "1"}"#));
    assert_eq!(created.status, 201);
    let not_found = response_not_found();
    assert_eq!(not_found.status, 404);
    let headers = make_params(&[("X-Custom", "value")]);
    let with_headers = response_with_headers(200, headers, json(r#"{"data": 1}"#));
    assert_eq!(with_headers.status, 200);
    assert_eq!(with_headers.headers.get("X-Custom").unwrap(), "value");
}

#[test]
fn test_utils_test_mock_client_calls_method() {
    let mut mock = MockApiClient::new();
    mock.expect("get-item", response_ok(json("{}")));
    mock.expect("create-item", response_ok(json("{}")));
    let params = make_params(&[("id", "1")]);
    mock.call("get-item", &params, None).unwrap();
    mock.call("create-item", &params, None).unwrap();
    let calls = mock.calls();
    assert_eq!(calls.len(), 2);
    assert_eq!(calls[0].command, "get-item");
    assert_eq!(calls[1].command, "create-item");
}

#[test]
fn test_utils_test_mock_nested_command_tracking() {
    let mut mock = MockApiClient::new();
    mock.expect("repos.issues.create", response_ok(json(r#"{"created": true}"#)));
    mock.expect("repos.issues.list", response_ok(json(r#"[{"id": 1}]"#)));
    let params = make_params(&[("owner", "rust-lang"), ("repo", "rust")]);
    let body = json(r#"{"title": "Bug"}"#);
    mock.call("repos.issues.create", &params, Some(&body)).unwrap();
    mock.call("repos.issues.list", &params, None).unwrap();
    assert_eq!(mock.call_count("repos.issues.create"), 1);
    assert_eq!(mock.call_count("repos.issues.list"), 1);
    assert!(mock.was_called("repos.issues.create"));
    assert!(mock.was_called("repos.issues.list"));
}

#[test]
fn test_utils_test_env_api_structure() {
    let api = env_api();
    assert_eq!(api.name, "github-env");
    assert_eq!(api.env.len(), 2);
    assert_eq!(api.env[0].name, "GITHUB_TOKEN");
    assert!(api.env[0].required);
    assert_eq!(api.env[1].name, "API_VERSION");
    assert!(!api.env[1].required);
}

#[test]
fn test_utils_test_env_api_has_substitution() {
    let api = env_api();
    let cmd = api.commands.get("get-repo").unwrap();
    assert_eq!(cmd.headers.get("Authorization").unwrap(), "Bearer ${GITHUB_TOKEN}");
}

#[test]
fn test_utils_test_response_api_structure() {
    let api = response_api();
    assert_eq!(api.name, "response-api");
    let cmd = api.commands.get("create-item").unwrap();
    assert!(cmd.responses.is_some());
    let responses = cmd.responses.as_ref().unwrap();
    assert!(responses.success.is_some());
    assert!(responses.failure.is_some());
    assert!(responses.codes.contains_key("404"));
}

#[test]
fn test_utils_test_response_api_messages() {
    let api = response_api();
    let cmd = api.commands.get("create-item").unwrap();
    let responses = cmd.responses.as_ref().unwrap();
    assert_eq!(responses.success.as_ref().unwrap().message, "Created {output.name}");
    assert_eq!(responses.failure.as_ref().unwrap().message, "Failed to create item");
    assert_eq!(responses.codes.get("404").unwrap().message, "{input.owner} not found");
}

#[test]
fn test_utils_test_response_with_message_helper() {
    let resp = response_with_message(200, json(r#"{"ok": true}"#), "Created item".to_string());
    assert_eq!(resp.status, 200);
    assert_eq!(resp.message, Some("Created item".to_string()));
}

// Cases of the library's own.

#[test]
fn later_pair_replaces_earlier_key() {
    let params = make_params(&[("a", "1"), ("a", "2")]);
    assert_eq!(params.len(), 1);
    assert_eq!(params.get("a").unwrap(), "2");
}

#[test]
fn expect_replaces_response() {
    let mut mock = MockApiClient::new();
    mock.expect("x", response_ok(json("1")));
    mock.expect("x", response_created(json("2")));
    let r = mock.call("x", &make_params(&[]), None).unwrap();
    assert_eq!(r.status, 201);
    assert_eq!(mock.call_count("x"), 1);
    assert_eq!(mock.call_count("y"), 0);
}

#[test]
fn sample_profiles_pass_client_validation() {
    for api in [github_api(), simple_api(), nested_github_api(), env_api(), response_api()] {
        assert!(api.validate_for_client().is_ok(), "{}", api.name);
    }
}
