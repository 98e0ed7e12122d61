use ycallr_core::models::command::COMMAND_AUTH_NONE;
use ycallr_core::models::response::builtin_response_template;
use ycallr_core::includes::resolve_include_path;
use ycallr_core::models::validation::{
    is_blocked_host, validate_api, validate_api_for_client, validate_auth_config, validate_base_url,
    validate_body_config,
};
use ycallr_core::outside::json_from_text;
use ycallr_core::{
    ApiDefinition, ApiErrorConfig, AuthConfig, BodyConfig, Command, Dict, EnvVar, HttpMethod, MultipartField,
    ResponseConfig, ResponseEntry,
};

fn table<V>(entries: Vec<(&str, V)>) -> Dict<V> {
    let mut d = Dict::new();
    for (k, v) in entries {
        d.insert(k.to_string(), v);
    }
    d
}

fn bare(endpoint: Option<&str>, method: Option<HttpMethod>, auth: Option<&str>) -> Command {
    Command {
        description: None,
        endpoint: endpoint.map(|e| e.to_string()),
        method,
        auth: auth.map(|a| a.to_string()),
        headers: Dict::new(),
        params: Dict::new(),
        body: None,
        responses: None,
        commands: None,
    }
}

fn api(base_url: &str, env: Vec<EnvVar>, commands: Dict<Command>) -> ApiDefinition {
    ApiDefinition {
        name: "test".to_string(),
        version: "1.0.0".to_string(),
        description: "".to_string(),
        base_url: base_url.to_string(),
        env,
        auth: Dict::new(),
        commands,
        errors: None,
    }
}

fn entry(message: &str) -> ResponseEntry {
    ResponseEntry { message: message.to_string() }
}

#[test]
fn test_validate_api_for_client_allows_loopback() {
    let a = api("http://127.0.0.1:8080", vec![], Dict::new());
    assert!(validate_api_for_client(&a).is_ok());
    assert!(validate_api(&a).is_err());
}

#[test]
fn test_validate_command_auth_none_is_allowed() {
    let a = api("https://api.test.com", vec![], table(vec![("public", bare(Some("/health"), Some(HttpMethod::GET), Some(COMMAND_AUTH_NONE)))]));
    assert!(validate_api(&a).is_ok());
}

#[test]
fn test_validate_command_auth_reference() {
    let a = api("https://api.test.com", vec![], table(vec![("get", bare(Some("/x"), Some(HttpMethod::GET), Some("missing")))]));
    assert!(validate_api(&a).is_err());
}

#[test]
fn test_validate_command_endpoint_method_mismatch() {
    let a = api("https://api.test.com", vec![], table(vec![("broken", bare(Some("/x"), None, None))]));
    let err = validate_api(&a).unwrap_err().message();
    assert!(err.contains("endpoint and method"));
}

#[test]
fn test_validate_body_config_rejects_multiple_types() {
    let body = BodyConfig {
        json: Some(json_from_text(r#"{"key": "value"}"#).unwrap()),
        form: None,
        raw: Some("fallback".to_string()),
        multipart: None,
    };
    let err = validate_body_config("create", &body).unwrap_err().message();
    assert!(err.contains("only one of json, form, raw, or multipart"));
    assert!(err.contains("json"));
    assert!(err.contains("raw"));
}

#[test]
fn test_validate_body_config_allows_single_type() {
    let body = BodyConfig { json: Some(json_from_text(r#"{"key": "value"}"#).unwrap()), form: None, raw: None, multipart: None };
    assert!(validate_body_config("create", &body).is_ok());
}

#[test]
fn test_validate_body_config_ignores_empty_secondary_fields() {
    let body = BodyConfig {
        json: Some(json_from_text(r#"{"key": "value"}"#).unwrap()),
        form: Some(Dict::new()),
        raw: Some("".to_string()),
        multipart: Some(vec![]),
    };
    assert!(validate_body_config("create", &body).is_ok());
}

#[test]
fn test_validate_multipart_field_requires_text_or_file() {
    let body = BodyConfig {
        json: None,
        form: None,
        raw: None,
        multipart: Some(vec![MultipartField { name: "file".to_string(), text: None, file: None }]),
    };
    let err = validate_body_config("upload", &body).unwrap_err().message();
    assert!(err.contains("must specify text or file"));
}

#[test]
fn test_validate_env_duplicate_name_rejected() {
    let a = api(
        "https://api.test.com",
        vec![
            EnvVar { name: "TOKEN".to_string(), required: true },
            EnvVar { name: "TOKEN".to_string(), required: false },
        ],
        Dict::new(),
    );
    assert!(validate_api(&a).is_err());
}

#[test]
fn test_validate_auth_http_digest_requires_token() {
    let auth = table(vec![(
        "digest",
        AuthConfig::Http { scheme: "Digest".to_string(), token: None, username: None, password: None, prefix: None },
    )]);
    let err = validate_auth_config("digest", auth.get("digest").unwrap()).unwrap_err().message();
    assert!(err.contains("requires token"));
}

#[test]
fn test_response_config_warn_bucket() {
    let config = ResponseConfig { codes: Dict::new(), success: None, warn: Some(entry("Redirect {status}")), failure: None };
    assert_eq!(config.get_entry_for_status(302).unwrap().message, "Redirect {status}");
}

#[test]
fn test_api_error_config_exact_code_and_default() {
    let config = ApiErrorConfig { default: Some(entry("API error")), codes: table(vec![("404", entry("Not found"))]) };
    assert_eq!(config.get_entry_for_status(404).unwrap().message, "Not found");
    assert_eq!(config.get_entry_for_status(500).unwrap().message, "API error");
    assert!(config.get_entry_for_status(200).is_none());
}

#[test]
fn test_body_config_kinds() {
    let body = BodyConfig { json: Some(json_from_text(r#"{"a": 1}"#).unwrap()), form: None, multipart: None, raw: None };
    assert_eq!(body.active_body_kind(), Some("json"));
    assert_eq!(body.body_kinds(), vec!["json"]);
    let empty_form = BodyConfig { json: None, form: Some(Dict::new()), multipart: None, raw: None };
    assert!(empty_form.active_body_kind().is_none());
}

fn empty_leaf() -> Command {
    bare(Some("/x"), Some(HttpMethod::GET), None)
}

fn branch_only_tree() -> Command {
    let mut list = bare(Some("/issues"), Some(HttpMethod::GET), None);
    list.description = Some("List issues".to_string());
    let mut issues = bare(None, None, None);
    issues.description = Some("Issues branch".to_string());
    issues.commands = Some(table(vec![("list", list)]));
    let mut repos = bare(None, None, None);
    repos.description = Some("Repos branch".to_string());
    repos.commands = Some(table(vec![("issues", issues)]));
    repos
}

#[test]
fn test_subcommand_names_sorted() {
    let mut cmd = bare(None, None, None);
    cmd.commands = Some(table(vec![("zebra", empty_leaf()), ("alpha", empty_leaf()), ("beta", empty_leaf())]));
    assert_eq!(cmd.subcommand_names(), vec!["alpha", "beta", "zebra"]);
}

#[test]
fn test_details_branch_only_not_callable() {
    let details = branch_only_tree().details_at_path("repos");
    assert!(!details.is_leaf);
    assert!(details.is_branch);
    assert!(!details.is_callable);
    assert!(details.endpoint.is_none());
    assert!(details.method.is_none());
    assert_eq!(details.subcommands, vec!["issues".to_string()]);
}

#[test]
fn test_details_includes_body_responses_auth_headers() {
    let mut cmd = bare(Some("/path"), Some(HttpMethod::POST), Some("primary"));
    cmd.description = Some("Desc".to_string());
    cmd.headers = table(vec![("X-Custom", "value".to_string())]);
    cmd.body = Some(BodyConfig { json: Some(json_from_text(r#"{"k": "v"}"#).unwrap()), form: None, raw: None, multipart: None });
    cmd.responses = Some(ResponseConfig { success: Some(entry("ok")), failure: None, warn: None, codes: Dict::new() });
    let details = cmd.details_at_path("cmd");
    assert_eq!(details.description.as_deref(), Some("Desc"));
    assert_eq!(details.auth.as_deref(), Some("primary"));
    assert_eq!(details.headers.get("X-Custom").map(String::as_str), Some("value"));
    assert!(details.has_body);
    assert!(details.has_responses);
    assert!(details.is_callable);
}

// Cases of the library's own.

#[test]
fn sensitive_hosts_are_allowed_for_clients() {
    assert!(ycallr_core::models::validation::validate_base_url("http://169.254.169.254", false).is_ok());
    assert!(ycallr_core::models::validation::validate_base_url("ftp://example.com", false).is_err());
}

#[test]
fn builtin_templates_cover_other_statuses() {
    assert_eq!(builtin_response_template(102), "HTTP {status}");
    assert_eq!(builtin_response_template(451), "Request failed (HTTP {status})");
}

#[test]
fn validation_passes_full_rules_implies_client_rules() {
    let a = api("https://api.test.com", vec![], table(vec![("get", bare(Some("/x"), Some(HttpMethod::GET), None))]));
    assert!(validate_api(&a).is_ok());
    assert!(validate_api_for_client(&a).is_ok());
}

#[test]
fn test_validation_messages_name_the_first_problem() {
    let env = vec![
        EnvVar { name: "TOKEN".to_string(), required: true },
        EnvVar { name: "BAD-NAME".to_string(), required: false },
        EnvVar { name: "TOKEN".to_string(), required: false },
    ];
    let a = api("https://api.test.com", env, Dict::new());
    assert_eq!(
        validate_api(&a).unwrap_err().message(),
        "Invalid API definition: Environment variable 'BAD-NAME' must be alphanumeric or underscore"
    );

    let body = BodyConfig {
        json: None,
        form: None,
        raw: None,
        multipart: Some(vec![
            MultipartField { name: "a".to_string(), text: Some("x".to_string()), file: None },
            MultipartField { name: " ".to_string(), text: None, file: None },
        ]),
    };
    assert_eq!(
        validate_body_config("upload", &body).unwrap_err().message(),
        "Invalid API definition: Command 'upload': multipart field at index 1 must have a non-empty name"
    );
}

#[test]
fn test_validation_message_for_nested_command_path() {
    let mut parent = bare(None, None, None);
    parent.commands = Some(table(vec![("child", bare(Some("/x"), None, None))]));
    let a = api("https://api.test.com", vec![], table(vec![("group", parent)]));
    assert_eq!(
        validate_api(&a).unwrap_err().message(),
        "Invalid API definition: Command 'group.child': endpoint and method must both be set for callable commands"
    );
}

#[test]
fn test_validate_base_url_blocks_bracketed_ipv6_hosts() {
    let err = validate_base_url("http://[::1]:8080", true).unwrap_err().message();
    assert_eq!(err, "Invalid API definition: Base URL host '::1' is not allowed");
    assert!(validate_base_url("http://[::1]:8080", false).is_ok());
    assert!(validate_base_url("http://[fe80::1]/api", true).is_err());
    assert!(validate_base_url("http://[fc00::1]", true).is_err());
    assert!(validate_base_url("https://[2001:db8::1]:443/v1", true).is_ok());
    assert!(is_blocked_host("[::1]"));
}

#[test]
fn test_validate_base_url_public_host_and_scheme() {
    assert!(validate_base_url("https://api.github.com", true).is_ok());
    assert!(validate_base_url("HTTPS://API.GITHUB.COM", true).is_ok());
    assert!(validate_base_url("ftp://api.github.com", false).is_err());
}

#[test]
fn test_http_basic_needs_credentials() {
    assert!(validate_auth_config("b", &AuthConfig::http_basic("u".to_string(), "p".to_string())).is_ok());
    assert!(validate_auth_config("b", &AuthConfig::http_basic(" ".to_string(), "p".to_string())).is_err());
    assert!(validate_auth_config("b", &AuthConfig::http_basic("u".to_string(), "".to_string())).is_err());
}

#[test]
fn test_resolve_include_path_joins_relative_paths() {
    assert_eq!(resolve_include_path("/profiles", "cmds/issues.yaml"), "/profiles/cmds/issues.yaml");
    assert_eq!(resolve_include_path("/profiles/", "issues.yaml"), "/profiles/issues.yaml");
    assert_eq!(resolve_include_path("/profiles", "/abs/issues.yaml"), "/abs/issues.yaml");
}
