use ycallr_core::test_utils::helpers::make_params;
use ycallr_core::{ApiDefinition, Command, Dict, EnvVar, HttpMethod, ParamType, Parameter, ResponseConfig, ResponseEntry};

fn table<V>(entries: Vec<(&str, V)>) -> Dict<V> {
    let mut d = Dict::new();
    for (k, v) in entries {
        d.insert(k.to_string(), v);
    }
    d
}

fn bare(endpoint: Option<&str>, method: Option<HttpMethod>, commands: Option<Dict<Command>>) -> Command {
    Command {
        description: None,
        endpoint: endpoint.map(|e| e.to_string()),
        method,
        auth: None,
        headers: Dict::new(),
        params: Dict::new(),
        body: None,
        responses: None,
        commands,
    }
}

fn described(description: &str, endpoint: &str, method: HttpMethod, commands: Option<Dict<Command>>) -> Command {
    let mut c = bare(Some(endpoint), Some(method), commands);
    c.description = Some(description.to_string());
    c
}

fn param(description: &str) -> Parameter {
    Parameter { description: description.to_string(), param_type: ParamType::String, required: true }
}

fn create_test_api() -> ApiDefinition {
    let mut create_issue = described("Create a new issue", "/repos/{owner}/{repo}/issues", HttpMethod::POST, None);
    create_issue.headers = table(vec![("Accept", "application/vnd.github.v3+json".to_string())]);
    create_issue.params = table(vec![("owner", param("Repository owner")), ("repo", param("Repository name"))]);
    ApiDefinition {
        name: "github".to_string(),
        version: "1.0.0".to_string(),
        description: "GitHub API".to_string(),
        base_url: "https://api.github.com".to_string(),
        env: vec![],
        auth: Dict::new(),
        commands: table(vec![("create-issue", create_issue)]),
        errors: None,
    }
}

fn create_nested_api() -> ApiDefinition {
    let path = "/repos/{owner}/{repo}/issues";
    let create = described("Create an issue", path, HttpMethod::POST, None);
    let list = described("List issues", path, HttpMethod::GET, None);
    let issues = described("Issues operations", path, HttpMethod::GET, Some(table(vec![("create", create), ("list", list)])));
    let repos = described("Repository operations", "/repos", HttpMethod::GET, Some(table(vec![("issues", issues)])));
    ApiDefinition {
        name: "github".to_string(),
        version: "1.0.0".to_string(),
        description: "GitHub API".to_string(),
        base_url: "https://api.github.com".to_string(),
        env: vec![EnvVar { name: "GITHUB_TOKEN".to_string(), required: true }],
        auth: Dict::new(),
        commands: table(vec![("repos", repos)]),
        errors: None,
    }
}

#[test]
fn mod_test_api_definition_validate_valid() {
    let api = create_test_api();
    assert!(api.validate().is_ok());
}

#[test]
fn mod_test_api_definition_validate_empty_name() {
    let mut api = create_test_api();
    api.name = "".to_string();
    assert!(api.validate().is_err());
}

#[test]
fn mod_test_api_definition_validate_invalid_name() {
    let mut api = create_test_api();
    api.name = "invalid name!".to_string();
    assert!(api.validate().is_err());
}

#[test]
fn mod_test_api_definition_validate_empty_base_url() {
    let mut api = create_test_api();
    api.base_url = "".to_string();
    assert!(api.validate().is_err());
}

#[test]
fn mod_test_get_command_exists() {
    let api = create_test_api();
    let cmd = api.get_command("create-issue");
    assert!(cmd.is_ok());
    assert_eq!(cmd.unwrap().method.as_ref().unwrap(), &HttpMethod::POST);
}

#[test]
fn mod_test_get_command_not_exists() {
    let api = create_test_api();
    assert!(api.get_command("nonexistent").is_err());
}

#[test]
fn mod_test_get_nested_command() {
    let api = create_nested_api();
    let cmd = api.get_command("repos.issues.create");
    assert!(cmd.is_ok());
    let cmd = cmd.unwrap();
    assert_eq!(cmd.method.as_ref().unwrap(), &HttpMethod::POST);
    assert_eq!(cmd.endpoint.as_deref(), Some("/repos/{owner}/{repo}/issues"));
}

#[test]
fn mod_test_get_nested_command_not_exists() {
    let api = create_nested_api();
    assert!(api.get_command("repos.nonexistent").is_err());
}

#[test]
fn mod_test_get_nested_command_deep_not_exists() {
    let api = create_nested_api();
    assert!(api.get_command("repos.issues.nonexistent").is_err());
}

#[test]
fn mod_test_get_command_branch_only() {
    let api = create_nested_api();
    let cmd = api.get_command("repos");
    assert!(cmd.is_ok());
    let cmd = cmd.unwrap();
    assert!(cmd.is_branch());
    assert!(cmd.is_leaf());
}

#[test]
fn mod_test_resolve_endpoint() {
    let cmd = bare(Some("/repos/{owner}/{repo}/issues"), Some(HttpMethod::POST), None);
    let params = make_params(&[("owner", "rust-lang"), ("repo", "rust")]);
    assert_eq!(cmd.resolve_endpoint(&params).unwrap(), "/repos/rust-lang/rust/issues");
}

#[test]
fn mod_test_resolve_endpoint_unresolved() {
    let cmd = bare(Some("/repos/{owner}/{repo}/issues"), Some(HttpMethod::POST), None);
    assert!(cmd.resolve_endpoint(&Dict::new()).is_err());
}

#[test]
fn mod_test_resolve_endpoint_no_endpoint() {
    let cmd = bare(None, None, Some(Dict::new()));
    assert!(cmd.resolve_endpoint(&Dict::new()).is_err());
}

#[test]
fn mod_test_command_is_leaf() {
    let leaf = bare(Some("/test"), Some(HttpMethod::GET), None);
    assert!(leaf.is_leaf());
    let branch = bare(None, None, Some(Dict::new()));
    assert!(!branch.is_leaf());
}

#[test]
fn mod_test_command_is_branch() {
    let sub = bare(Some("/sub"), Some(HttpMethod::GET), None);
    let branch = bare(None, None, Some(table(vec![("sub", sub)])));
    assert!(branch.is_branch());
    let leaf = bare(Some("/test"), Some(HttpMethod::GET), None);
    assert!(!leaf.is_branch());
}

#[test]
fn models_test_api_definition_validate_valid() {
    let api = create_test_api();
    assert!(api.validate().is_ok());
}

#[test]
fn models_test_api_definition_validate_empty_name() {
    let mut api = create_test_api();
    api.name = "".to_string();
    assert!(api.validate().is_err());
}

#[test]
fn models_test_api_definition_validate_invalid_name() {
    let mut api = create_test_api();
    api.name = "invalid name!".to_string();
    assert!(api.validate().is_err());
}

#[test]
fn models_test_api_definition_validate_empty_base_url() {
    let mut api = create_test_api();
    api.base_url = "".to_string();
    assert!(api.validate().is_err());
}

#[test]
fn models_test_get_command_exists() {
    let api = create_test_api();
    let cmd = api.get_command("create-issue");
    assert!(cmd.is_ok());
    assert_eq!(cmd.unwrap().method.as_ref().unwrap(), &HttpMethod::POST);
}

#[test]
fn models_test_get_command_not_exists() {
    let api = create_test_api();
    assert!(api.get_command("nonexistent").is_err());
}

#[test]
fn models_test_get_nested_command() {
    let api = create_nested_api();
    let cmd = api.get_command("repos.issues.create");
    assert!(cmd.is_ok());
    let cmd = cmd.unwrap();
    assert_eq!(cmd.method.as_ref().unwrap(), &HttpMethod::POST);
    assert_eq!(cmd.endpoint.as_deref(), Some("/repos/{owner}/{repo}/issues"));
}

#[test]
fn models_test_get_nested_command_not_exists() {
    let api = create_nested_api();
    assert!(api.get_command("repos.nonexistent").is_err());
}

#[test]
fn models_test_get_nested_command_deep_not_exists() {
    let api = create_nested_api();
    assert!(api.get_command("repos.issues.nonexistent").is_err());
}

#[test]
fn models_test_get_command_branch_only() {
    let api = create_nested_api();
    let cmd = api.get_command("repos");
    assert!(cmd.is_ok());
    let cmd = cmd.unwrap();
    assert!(cmd.is_branch());
    assert!(cmd.is_leaf());
}

#[test]
fn models_test_resolve_endpoint() {
    let cmd = bare(Some("/repos/{owner}/{repo}/issues"), Some(HttpMethod::POST), None);
    let params = make_params(&[("owner", "rust-lang"), ("repo", "rust")]);
    assert_eq!(cmd.resolve_endpoint(&params).unwrap(), "/repos/rust-lang/rust/issues");
}

#[test]
fn models_test_resolve_endpoint_unresolved() {
    let cmd = bare(Some("/repos/{owner}/{repo}/issues"), Some(HttpMethod::POST), None);
    assert!(cmd.resolve_endpoint(&Dict::new()).is_err());
}

#[test]
fn models_test_resolve_endpoint_no_endpoint() {
    let cmd = bare(None, None, Some(Dict::new()));
    assert!(cmd.resolve_endpoint(&Dict::new()).is_err());
}

#[test]
fn models_test_command_is_leaf() {
    let leaf = bare(Some("/test"), Some(HttpMethod::GET), None);
    assert!(leaf.is_leaf());
    let branch = bare(None, None, Some(Dict::new()));
    assert!(!branch.is_leaf());
}

#[test]
fn models_test_command_is_branch() {
    let sub = bare(Some("/sub"), Some(HttpMethod::GET), None);
    let branch = bare(None, None, Some(table(vec![("sub", sub)])));
    assert!(branch.is_branch());
    let leaf = bare(Some("/test"), Some(HttpMethod::GET), None);
    assert!(!leaf.is_branch());
}

#[test]
fn test_command_description() {
    let mut api = create_test_api();
    let pos = api.commands.position("create-issue").unwrap();
    let cmd = api.commands.entries.remove(pos).1;
    assert_eq!(cmd.description, Some("Create a new issue".to_string()));
}

#[test]
fn test_env_empty() {
    let api = create_test_api();
    assert!(api.env.is_empty());
}

fn entry(message: &str) -> ResponseEntry {
    ResponseEntry { message: message.to_string() }
}

#[test]
fn test_response_config_get_entry_for_status() {
    let config = ResponseConfig {
        success: Some(entry("OK")),
        failure: Some(entry("Error")),
        warn: None,
        codes: table(vec![("404", entry("Not found"))]),
    };
    assert_eq!(config.get_entry_for_status(200).unwrap().message, "OK");
    assert_eq!(config.get_entry_for_status(201).unwrap().message, "OK");
    assert_eq!(config.get_entry_for_status(404).unwrap().message, "Not found");
    assert_eq!(config.get_entry_for_status(500).unwrap().message, "Error");
    assert!(config.get_entry_for_status(301).is_none());
}

#[test]
fn test_response_config_exact_code_takes_priority() {
    let config = ResponseConfig {
        success: Some(entry("Any success")),
        failure: None,
        warn: None,
        codes: table(vec![("200", entry("Exact 200"))]),
    };
    assert_eq!(config.get_entry_for_status(200).unwrap().message, "Exact 200");
    assert_eq!(config.get_entry_for_status(201).unwrap().message, "Any success");
}

#[test]
fn test_response_config_empty() {
    let config = ResponseConfig { success: None, failure: None, warn: None, codes: Dict::new() };
    assert!(config.get_entry_for_status(200).is_none());
    assert!(config.get_entry_for_status(404).is_none());
}

// Cases of the library's own.

#[test]
fn first_piece_missing_names_it() {
    let api = create_nested_api();
    match api.get_command("users.list") {
        Err(e) => assert_eq!(e.message(), "Command not found: users"),
        Ok(_) => panic!("expected an error"),
    }
}

#[test]
fn subcommands_are_listed_sorted() {
    let api = create_nested_api();
    assert_eq!(api.list_subcommands("repos.issues").unwrap(), vec!["create".to_string(), "list".to_string()]);
    assert!(api.list_subcommands("repos.issues.list").unwrap().is_empty());
}
