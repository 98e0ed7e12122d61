use ycallr_core::outside::json_from_text;
use ycallr_core::test_utils::helpers::make_params;
use ycallr_core::{
    ApiDefinition, ApiResponse, AuthConfig, Command, Dict, EnvMode, EnvVar, HttpMethod, JsonValue, ParamType, Parameter,
    ResponseConfig, ResponseEntry, YcallrClient,
};

fn no_process() -> Dict<String> {
    Dict::new()
}

fn param(description: &str) -> Parameter {
    Parameter { description: description.to_string(), param_type: ParamType::String, required: true }
}

fn command(
    description: &str,
    endpoint: &str,
    method: HttpMethod,
    headers: Dict<String>,
    params: Dict<Parameter>,
    commands: Option<Dict<Command>>,
) -> Command {
    Command {
        description: Some(description.to_string()),
        endpoint: Some(endpoint.to_string()),
        method: Some(method),
        auth: None,
        headers,
        params,
        body: None,
        responses: None,
        commands,
    }
}

fn table<V>(entries: Vec<(&str, V)>) -> Dict<V> {
    let mut d = Dict::new();
    for (k, v) in entries {
        d.insert(k.to_string(), v);
    }
    d
}

fn api(commands: Dict<Command>, env: Vec<EnvVar>) -> ApiDefinition {
    ApiDefinition {
        name: "github".to_string(),
        version: "1.0.0".to_string(),
        description: "GitHub API".to_string(),
        base_url: "https://api.github.com".to_string(),
        env,
        auth: Dict::new(),
        commands,
        errors: None,
    }
}

fn create_test_api() -> ApiDefinition {
    let get_repo = command(
        "Get a repository",
        "/repos/{owner}/{repo}",
        HttpMethod::GET,
        table(vec![("Accept", "application/json".to_string())]),
        table(vec![("owner", param("Repository owner")), ("repo", param("Repository name"))]),
        None,
    );
    let create_issue = command(
        "Create an issue",
        "/repos/{owner}/{repo}/issues",
        HttpMethod::POST,
        table(vec![("Content-Type", "application/json".to_string())]),
        table(vec![("title", param("Issue title"))]),
        None,
    );
    api(table(vec![("get-repo", get_repo), ("create-issue", create_issue)]), vec![])
}

fn create_response_api() -> ApiDefinition {
    let mut get_repo = command(
        "Get a repository",
        "/repos/{owner}/{repo}",
        HttpMethod::GET,
        Dict::new(),
        table(vec![("owner", param("Repository owner")), ("repo", param("Repository name"))]),
        None,
    );
    get_repo.responses = Some(ResponseConfig {
        success: Some(ResponseEntry { message: "Got repo {output.name}".to_string() }),
        failure: Some(ResponseEntry { message: "Failed to get repo".to_string() }),
        warn: None,
        codes: table(vec![("404", ResponseEntry { message: "{input.owner} does not exist".to_string() })]),
    });
    api(table(vec![("get-repo", get_repo)]), vec![])
}

fn create_nested_api() -> ApiDefinition {
    let issues_path = "/repos/{owner}/{repo}/issues";
    let create = command("Create an issue", issues_path, HttpMethod::POST, Dict::new(), Dict::new(), None);
    let list = command("List issues", issues_path, HttpMethod::GET, Dict::new(), Dict::new(), None);
    let issues = command(
        "Issues operations",
        issues_path,
        HttpMethod::GET,
        Dict::new(),
        Dict::new(),
        Some(table(vec![("create", create), ("list", list)])),
    );
    let repos = command(
        "Repository operations",
        "/repos",
        HttpMethod::GET,
        Dict::new(),
        Dict::new(),
        Some(table(vec![("issues", issues)])),
    );
    api(table(vec![("repos", repos)]), vec![])
}

fn create_env_api() -> ApiDefinition {
    let get_repo = command(
        "Get a repository",
        "/repos/{owner}/{repo}",
        HttpMethod::GET,
        table(vec![("Authorization", "Bearer ${GITHUB_TOKEN}".to_string())]),
        Dict::new(),
        None,
    );
    api(table(vec![("get-repo", get_repo)]), vec![EnvVar { name: "GITHUB_TOKEN".to_string(), required: true }])
}

fn create_response_test_api(base_url: &str) -> ApiDefinition {
    let mut get_repo = command(
        "Get a repository",
        "/repos/{owner}/{repo}",
        HttpMethod::GET,
        Dict::new(),
        table(vec![("owner", param("Repository owner")), ("repo", param("Repository name"))]),
        None,
    );
    get_repo.responses = Some(ResponseConfig {
        success: Some(ResponseEntry { message: "Got repo {output.name}".to_string() }),
        failure: Some(ResponseEntry { message: "Failed to get repo".to_string() }),
        warn: None,
        codes: Dict::new(),
    });
    let mut a = api(table(vec![("get-repo", get_repo)]), vec![]);
    a.base_url = base_url.to_string();
    a
}

fn json(text: &str) -> JsonValue {
    json_from_text(text).unwrap()
}

#[test]
fn mod_test_client_new() {
    let client = YcallrClient::new(create_test_api(), &no_process());
    assert!(client.is_ok());
}

#[test]
fn client_test_client_new() {
    let client = YcallrClient::new(create_test_api(), &no_process());
    assert!(client.is_ok());
}

#[test]
fn mod_test_client_with_auth() {
    let client = YcallrClient::with_auth(create_test_api(), AuthConfig::bearer("test-token".to_string()), &no_process());
    assert!(client.is_ok());
    assert!(client.unwrap().auth.is_some());
}

#[test]
fn client_test_client_with_auth() {
    let client = YcallrClient::with_auth(create_test_api(), AuthConfig::bearer("test-token".to_string()), &no_process());
    assert!(client.is_ok());
    assert!(client.unwrap().auth.is_some());
}

#[test]
fn mod_test_call_command_not_found() {
    let client = YcallrClient::new(create_test_api(), &no_process()).unwrap();
    let result = client.prepare_call("nonexistent", &Dict::new(), None);
    assert!(result.is_err());
}

#[test]
fn client_test_call_command_not_found() {
    let client = YcallrClient::new(create_test_api(), &no_process()).unwrap();
    let result = client.prepare_call("nonexistent", &Dict::new(), None);
    assert!(result.is_err());
}

#[test]
fn mod_test_api_response_structure() {
    let response = ApiResponse { status: 200, headers: Dict::new(), body: json(r#"{"key": "value"}"#), message: None };
    assert_eq!(response.status, 200);
    assert_eq!(response.body.get_key("key"), Some(&JsonValue::Str("value".to_string())));
    assert!(response.message.is_none());
}

#[test]
fn client_test_api_response_structure() {
    let response = ApiResponse { status: 200, headers: Dict::new(), body: json(r#"{"key": "value"}"#), message: None };
    assert_eq!(response.status, 200);
    assert_eq!(response.body.get_key("key"), Some(&JsonValue::Str("value".to_string())));
    assert!(response.message.is_none());
}

#[test]
fn mod_test_api_response_with_message() {
    let response = ApiResponse {
        status: 200,
        headers: Dict::new(),
        body: json(r#"{"name": "rust"}"#),
        message: Some("Got repo rust".to_string()),
    };
    assert_eq!(response.status, 200);
    assert_eq!(response.message.unwrap(), "Got repo rust");
}

#[test]
fn client_test_api_response_with_message() {
    let response = ApiResponse {
        status: 200,
        headers: Dict::new(),
        body: json(r#"{"name": "rust"}"#),
        message: Some("Got repo rust".to_string()),
    };
    assert_eq!(response.status, 200);
    assert_eq!(response.message.unwrap(), "Got repo rust");
}

#[test]
fn mod_test_nested_command_lookup() {
    let client = YcallrClient::new(create_nested_api(), &no_process()).unwrap();
    let cmd = client.api.get_command("repos.issues.create").unwrap();
    assert_eq!(cmd.method.as_ref().unwrap(), &HttpMethod::POST);
}

#[test]
fn client_test_nested_command_lookup() {
    let client = YcallrClient::new(create_nested_api(), &no_process()).unwrap();
    let cmd = client.api.get_command("repos.issues.create").unwrap();
    assert_eq!(cmd.method.as_ref().unwrap(), &HttpMethod::POST);
}

#[test]
fn mod_test_nested_command_not_found() {
    let client = YcallrClient::new(create_nested_api(), &no_process()).unwrap();
    let result = client.prepare_call("repos.issues.nonexistent", &Dict::new(), None);
    assert!(result.is_err());
}

#[test]
fn client_test_nested_command_not_found() {
    let client = YcallrClient::new(create_nested_api(), &no_process()).unwrap();
    let result = client.prepare_call("repos.issues.nonexistent", &Dict::new(), None);
    assert!(result.is_err());
}

#[test]
fn mod_test_nested_endpoint_resolution() {
    let client = YcallrClient::new(create_nested_api(), &no_process()).unwrap();
    let params = make_params(&[("owner", "rust-lang"), ("repo", "rust")]);
    let cmd = client.api.get_command("repos.issues.create").unwrap();
    assert_eq!(cmd.resolve_endpoint(&params).unwrap(), "/repos/rust-lang/rust/issues");
}

#[test]
fn client_test_nested_endpoint_resolution() {
    let client = YcallrClient::new(create_nested_api(), &no_process()).unwrap();
    let params = make_params(&[("owner", "rust-lang"), ("repo", "rust")]);
    let cmd = client.api.get_command("repos.issues.create").unwrap();
    assert_eq!(cmd.resolve_endpoint(&params).unwrap(), "/repos/rust-lang/rust/issues");
}

#[test]
fn test_command_details_via_client() {
    let client = YcallrClient::new(create_nested_api(), &no_process()).unwrap();
    let details = client.command_details("repos.issues.list").unwrap();
    assert_eq!(details.path, "repos.issues.list");
    assert_eq!(details.method.as_ref(), Some(&HttpMethod::GET));
    assert!(details.is_callable);
    assert!(details.subcommands.is_empty());
    let subcommands = client.list_subcommands("repos.issues").unwrap();
    assert_eq!(subcommands, vec!["create".to_string(), "list".to_string()]);
}

#[test]
fn mod_test_env_required_missing() {
    let result = YcallrClient::builder(create_env_api()).env_mode(EnvMode::Manual).build(&no_process());
    assert!(result.is_err());
    assert!(result.err().unwrap().message().contains("GITHUB_TOKEN"));
}

#[test]
fn client_test_env_required_missing() {
    let result = YcallrClient::builder(create_env_api()).env_mode(EnvMode::Manual).build(&no_process());
    assert!(result.is_err());
    assert!(result.err().unwrap().message().contains("GITHUB_TOKEN"));
}

#[test]
fn mod_test_env_required_set_manual() {
    let client = YcallrClient::builder(create_env_api())
        .env_mode(EnvMode::Manual)
        .env("GITHUB_TOKEN", "ghp_test123")
        .build(&no_process());
    assert!(client.is_ok());
    assert_eq!(client.unwrap().get_env("GITHUB_TOKEN"), Some("ghp_test123"));
}

#[test]
fn client_test_env_required_set_manual() {
    let client = YcallrClient::builder(create_env_api())
        .env_mode(EnvMode::Manual)
        .env("GITHUB_TOKEN", "ghp_test123")
        .build(&no_process());
    assert!(client.is_ok());
    assert_eq!(client.unwrap().get_env("GITHUB_TOKEN"), Some("ghp_test123"));
}

#[test]
fn test_env_required_empty_string_errors() {
    let result =
        YcallrClient::builder(create_env_api()).env_mode(EnvMode::Manual).env("GITHUB_TOKEN", "").build(&no_process());
    assert!(result.is_err());
    assert!(result.err().unwrap().message().contains("cannot be empty"));
}

#[test]
fn mod_test_env_not_required_missing() {
    let mut a = create_test_api();
    a.env = vec![EnvVar { name: "OPTIONAL_VAR".to_string(), required: false }];
    let client = YcallrClient::builder(a).env_mode(EnvMode::Manual).build(&no_process());
    assert!(client.is_ok());
    assert_eq!(client.unwrap().get_env("OPTIONAL_VAR"), Some(""));
}

#[test]
fn client_test_env_not_required_missing() {
    let mut a = create_test_api();
    a.env = vec![EnvVar { name: "OPTIONAL_VAR".to_string(), required: false }];
    let client = YcallrClient::builder(a).env_mode(EnvMode::Manual).build(&no_process());
    assert!(client.is_ok());
    assert_eq!(client.unwrap().get_env("OPTIONAL_VAR"), Some(""));
}

#[test]
fn mod_test_env_resolve_in_headers() {
    let client = YcallrClient::builder(create_env_api())
        .env_mode(EnvMode::Manual)
        .env("GITHUB_TOKEN", "ghp_test123")
        .build(&no_process())
        .unwrap();
    assert_eq!(client.resolve_env_vars("Bearer ${GITHUB_TOKEN}").unwrap(), "Bearer ghp_test123");
}

#[test]
fn client_test_env_resolve_in_headers() {
    let client = YcallrClient::builder(create_env_api())
        .env_mode(EnvMode::Manual)
        .env("GITHUB_TOKEN", "ghp_test123")
        .build(&no_process())
        .unwrap();
    assert_eq!(client.resolve_env_vars("Bearer ${GITHUB_TOKEN}").unwrap(), "Bearer ghp_test123");
}

#[test]
fn mod_test_env_resolve_multiple_vars() {
    let client = YcallrClient::builder(create_env_api())
        .env_mode(EnvMode::Manual)
        .env("GITHUB_TOKEN", "ghp_test123")
        .build(&no_process())
        .unwrap();
    assert_eq!(
        client.resolve_env_vars("${GITHUB_TOKEN} and ${GITHUB_TOKEN}").unwrap(),
        "ghp_test123 and ghp_test123"
    );
}

#[test]
fn client_test_env_resolve_multiple_vars() {
    let client = YcallrClient::builder(create_env_api())
        .env_mode(EnvMode::Manual)
        .env("GITHUB_TOKEN", "ghp_test123")
        .build(&no_process())
        .unwrap();
    assert_eq!(
        client.resolve_env_vars("${GITHUB_TOKEN} and ${GITHUB_TOKEN}").unwrap(),
        "ghp_test123 and ghp_test123"
    );
}

#[test]
fn mod_test_env_resolve_unknown_var() {
    let client = YcallrClient::builder(create_env_api())
        .env_mode(EnvMode::Manual)
        .env("GITHUB_TOKEN", "ghp_test123")
        .build(&no_process())
        .unwrap();
    let result = client.resolve_env_vars("${UNKNOWN}");
    assert!(result.is_err());
    assert!(result.unwrap_err().message().contains("Unknown environment variable 'UNKNOWN'"));
}

#[test]
fn client_test_env_resolve_unknown_var() {
    let client = YcallrClient::builder(create_env_api())
        .env_mode(EnvMode::Manual)
        .env("GITHUB_TOKEN", "ghp_test123")
        .build(&no_process())
        .unwrap();
    let result = client.resolve_env_vars("${UNKNOWN}");
    assert!(result.is_err());
    assert!(result.unwrap_err().message().contains("Unknown environment variable 'UNKNOWN'"));
}

#[test]
fn test_env_undeclared_builder_var_errors() {
    let result = YcallrClient::builder(create_test_api())
        .env_mode(EnvMode::Manual)
        .env("NOT_IN_PROFILE", "value")
        .build(&no_process());
    assert!(result.is_err());
    assert!(result.err().unwrap().message().contains("not declared in the API profile"));
}

#[test]
fn mod_test_builder_pattern() {
    let mut a = create_test_api();
    a.env = vec![EnvVar { name: "KEY".to_string(), required: false }];
    let client = YcallrClient::builder(a)
        .auth(AuthConfig::bearer("token".to_string()))
        .env_mode(EnvMode::Manual)
        .env("KEY", "value")
        .build(&no_process())
        .unwrap();
    assert!(client.auth.is_some());
    assert_eq!(client.env_mode(), &EnvMode::Manual);
    assert_eq!(client.get_env("KEY"), Some("value"));
}

#[test]
fn client_test_builder_pattern() {
    let mut a = create_test_api();
    a.env = vec![EnvVar { name: "KEY".to_string(), required: false }];
    let client = YcallrClient::builder(a)
        .auth(AuthConfig::bearer("token".to_string()))
        .env_mode(EnvMode::Manual)
        .env("KEY", "value")
        .build(&no_process())
        .unwrap();
    assert!(client.auth.is_some());
    assert_eq!(client.env_mode(), &EnvMode::Manual);
    assert_eq!(client.get_env("KEY"), Some("value"));
}

#[test]
fn mod_test_set_env_after_creation() {
    let mut client = YcallrClient::builder(create_env_api())
        .env_mode(EnvMode::Manual)
        .env("GITHUB_TOKEN", "ghp_initial")
        .build(&no_process())
        .unwrap();
    client.set_env("GITHUB_TOKEN", "ghp_updated").unwrap();
    assert_eq!(client.get_env("GITHUB_TOKEN"), Some("ghp_updated"));
}

#[test]
fn client_test_set_env_after_creation() {
    let mut client = YcallrClient::builder(create_env_api())
        .env_mode(EnvMode::Manual)
        .env("GITHUB_TOKEN", "ghp_initial")
        .build(&no_process())
        .unwrap();
    client.set_env("GITHUB_TOKEN", "ghp_updated").unwrap();
    assert_eq!(client.get_env("GITHUB_TOKEN"), Some("ghp_updated"));
}

#[test]
fn test_set_env_undeclared_key_errors() {
    let mut client = YcallrClient::new(create_test_api(), &no_process()).unwrap();
    let result = client.set_env("SECRET", "value");
    assert!(result.is_err());
    assert!(result.unwrap_err().message().contains("not declared"));
}

#[test]
fn test_set_env_required_empty_errors() {
    let mut client = YcallrClient::builder(create_env_api())
        .env_mode(EnvMode::Manual)
        .env("GITHUB_TOKEN", "ghp_initial")
        .build(&no_process())
        .unwrap();
    let result = client.set_env("GITHUB_TOKEN", "");
    assert!(result.is_err());
    assert!(result.unwrap_err().message().contains("cannot be empty"));
}

#[test]
fn mod_test_env_mode_default() {
    let client = YcallrClient::new(create_test_api(), &no_process()).unwrap();
    assert_eq!(client.env_mode(), &EnvMode::Auto);
}

#[test]
fn client_test_env_mode_default() {
    let client = YcallrClient::new(create_test_api(), &no_process()).unwrap();
    assert_eq!(client.env_mode(), &EnvMode::Auto);
}

#[test]
fn test_client_build_rejects_invalid_command_structure() {
    let broken = Command {
        description: None,
        endpoint: Some("/broken".to_string()),
        method: None,
        auth: None,
        headers: Dict::new(),
        params: Dict::new(),
        body: None,
        responses: None,
        commands: None,
    };
    let a = ApiDefinition {
        name: "test".to_string(),
        version: "1.0.0".to_string(),
        description: "Test".to_string(),
        base_url: "http://127.0.0.1:8080".to_string(),
        env: vec![],
        auth: Dict::new(),
        commands: table(vec![("broken", broken)]),
        errors: None,
    };
    let result = YcallrClient::new(a, &no_process());
    assert!(result.is_err());
    assert!(result.err().unwrap().message().contains("endpoint and method"));
}

#[test]
fn mod_test_response_api_parsing() {
    let a = create_response_api();
    let cmd = a.commands.get("get-repo").unwrap();
    let responses = cmd.responses.as_ref().unwrap();
    assert_eq!(responses.success.as_ref().unwrap().message, "Got repo {output.name}");
    assert_eq!(responses.failure.as_ref().unwrap().message, "Failed to get repo");
    assert_eq!(responses.codes.get("404").unwrap().message, "{input.owner} does not exist");
}

#[test]
fn client_test_response_api_parsing() {
    let a = create_response_api();
    let cmd = a.commands.get("get-repo").unwrap();
    let responses = cmd.responses.as_ref().unwrap();
    assert_eq!(responses.success.as_ref().unwrap().message, "Got repo {output.name}");
    assert_eq!(responses.failure.as_ref().unwrap().message, "Failed to get repo");
    assert_eq!(responses.codes.get("404").unwrap().message, "{input.owner} does not exist");
}

#[test]
fn mod_test_mock_response_success() {
    let mut mock = ycallr_core::test_utils::mock::MockApiClient::new();
    mock.expect("get-repo", ycallr_core::test_utils::helpers::response_ok(json(r#"{"name": "rust"}"#)));
    let params = make_params(&[("owner", "rust-lang"), ("repo", "rust")]);
    let response = mock.call("get-repo", &params, None).unwrap();
    assert_eq!(response.status, 200);
    assert_eq!(response.body.get_key("name"), Some(&JsonValue::Str("rust".to_string())));
}

#[test]
fn client_test_mock_response_success() {
    let mut mock = ycallr_core::test_utils::mock::MockApiClient::new();
    mock.expect("get-repo", ycallr_core::test_utils::helpers::response_ok(json(r#"{"name": "rust"}"#)));
    let params = make_params(&[("owner", "rust-lang"), ("repo", "rust")]);
    let response = mock.call("get-repo", &params, None).unwrap();
    assert_eq!(response.status, 200);
    assert_eq!(response.body.get_key("name"), Some(&JsonValue::Str("rust".to_string())));
}

fn replay(base_url: &str, repo: &str, status: u16, body: &str) -> ApiResponse {
    let client = YcallrClient::new(create_response_test_api(base_url), &no_process()).unwrap();
    let params = make_params(&[("owner", "rust-lang"), ("repo", repo)]);
    let prepared = client.prepare_call("get-repo", &params, None).unwrap();
    assert_eq!(prepared.url, format!("{}/repos/rust-lang/{}", base_url, repo));
    assert_eq!(prepared.method, HttpMethod::GET);
    client.finish_call(&prepared, status, table(vec![("content-type", "application/json".to_string())]), body.to_string())
}

#[test]
fn mod_test_mock_response_with_message() {
    let response = replay("http://127.0.0.1:1234", "rust", 200, r#"{"name": "rust"}"#);
    assert_eq!(response.status, 200);
    assert_eq!(response.message.unwrap(), "Got repo rust");
}

#[test]
fn client_test_mock_response_with_message() {
    let response = replay("http://127.0.0.1:1234", "rust", 200, r#"{"name": "rust"}"#);
    assert_eq!(response.status, 200);
    assert_eq!(response.message.unwrap(), "Got repo rust");
}

#[test]
fn mod_test_mock_response_failure_message() {
    let response = replay("http://127.0.0.1:1234", "missing", 404, r#"{"message": "Not Found"}"#);
    assert_eq!(response.status, 404);
    assert_eq!(response.message.unwrap(), "Failed to get repo");
}

#[test]
fn client_test_mock_response_failure_message() {
    let response = replay("http://127.0.0.1:1234", "missing", 404, r#"{"message": "Not Found"}"#);
    assert_eq!(response.status, 404);
    assert_eq!(response.message.unwrap(), "Failed to get repo");
}

// Cases of the library's own.

#[test]
fn auto_mode_prefers_process_value() {
    let process = make_params(&[("GITHUB_TOKEN", "from-os")]);
    let client = YcallrClient::builder(create_env_api()).env("GITHUB_TOKEN", "given").build(&process).unwrap();
    assert_eq!(client.get_env("GITHUB_TOKEN"), Some("from-os"));
}

#[test]
fn manual_mode_ignores_process_value() {
    let process = make_params(&[("GITHUB_TOKEN", "from-os")]);
    let client = YcallrClient::builder(create_env_api())
        .env_mode(EnvMode::Manual)
        .env("GITHUB_TOKEN", "given")
        .build(&process)
        .unwrap();
    assert_eq!(client.get_env("GITHUB_TOKEN"), Some("given"));
}

#[test]
fn failed_set_env_leaves_environment() {
    let mut client = YcallrClient::builder(create_env_api())
        .env_mode(EnvMode::Manual)
        .env("GITHUB_TOKEN", "ghp_initial")
        .build(&no_process())
        .unwrap();
    assert!(client.set_env("GITHUB_TOKEN", "  ").is_err());
    assert_eq!(client.get_env("GITHUB_TOKEN"), Some("ghp_initial"));
}

#[test]
fn reply_text_that_is_not_json_becomes_a_string() {
    let response = replay("http://127.0.0.1:1234", "rust", 500, "oops");
    assert_eq!(response.body, JsonValue::Str("oops".to_string()));
    assert_eq!(response.message.unwrap(), "Failed to get repo");
}

#[test]
fn builtin_message_when_no_template() {
    let client = YcallrClient::new(create_test_api(), &no_process()).unwrap();
    let params = make_params(&[("owner", "a"), ("repo", "b")]);
    let prepared = client.prepare_call("get-repo", &params, None).unwrap();
    let response = client.finish_call(&prepared, 204, Dict::new(), String::new());
    assert_eq!(response.message.unwrap(), "Request succeeded (HTTP 204)");
}
