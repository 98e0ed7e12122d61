use ycallr_core::call_engine::context::ClientContext;
use ycallr_core::call_engine::prepare::{
    add_auth_query_params, apply_auth_headers, prepare_http_request, require_nonempty_auth_value,
    validate_cookie_component, PreparedBody,
};
use ycallr_core::test_utils::helpers::make_params;
use ycallr_core::{ApiDefinition, ApiKeyLocation, AuthConfig, BodyConfig, Command, Dict, HttpMethod, ParamType, Parameter};

fn table<V>(entries: Vec<(&str, V)>) -> Dict<V> {
    let mut d = Dict::new();
    for (k, v) in entries {
        d.insert(k.to_string(), v);
    }
    d
}

fn bare(endpoint: &str, method: HttpMethod) -> Command {
    Command {
        description: None,
        endpoint: Some(endpoint.to_string()),
        method: Some(method),
        auth: None,
        headers: Dict::new(),
        params: Dict::new(),
        body: None,
        responses: None,
        commands: None,
    }
}

fn context(commands: Dict<Command>, auth: Option<AuthConfig>, env_vars: Dict<String>) -> ClientContext {
    ClientContext {
        api: ApiDefinition {
            name: "test".to_string(),
            version: "1".to_string(),
            description: "".to_string(),
            base_url: "https://api.test.com".to_string(),
            env: vec![],
            auth: Dict::new(),
            commands,
            errors: None,
        },
        auth,
        auth_configs: Dict::new(),
        env_vars,
    }
}

#[test]
fn test_prepare_http_request_get() {
    let mut get_repo = bare("/repos/{owner}/{repo}", HttpMethod::GET);
    get_repo.params = table(vec![
        ("owner", Parameter { description: "owner".to_string(), param_type: ParamType::String, required: true }),
        ("repo", Parameter { description: "repo".to_string(), param_type: ParamType::String, required: true }),
    ]);
    let ctx = context(table(vec![("get-repo", get_repo)]), None, Dict::new());
    let call_params = make_params(&[("owner", "rust-lang"), ("repo", "rust")]);
    let prepared = prepare_http_request(&ctx, "get-repo", &call_params, None).unwrap();
    assert_eq!(prepared.method, HttpMethod::GET);
    assert_eq!(prepared.url, "https://api.test.com/repos/rust-lang/rust");
    assert!(matches!(prepared.body, PreparedBody::Empty));
}

#[test]
fn test_prepare_http_auth_generic_scheme() {
    let ctx = context(
        table(vec![("get", bare("/get", HttpMethod::GET))]),
        Some(AuthConfig::Http {
            scheme: "Digest".to_string(),
            token: Some("secret".to_string()),
            username: None,
            password: None,
            prefix: None,
        }),
        Dict::new(),
    );
    let prepared = prepare_http_request(&ctx, "get", &Dict::new(), None).unwrap();
    assert_eq!(prepared.headers.get("Authorization").map(String::as_str), Some("DIGEST secret"));
}

// Cases of the library's own.

#[test]
fn multipart_text_and_file_parts() {
    let mut upload = bare("/upload", HttpMethod::POST);
    upload.body = Some(BodyConfig {
        json: None,
        form: None,
        raw: None,
        multipart: Some(vec![
            ycallr_core::MultipartField { name: "note".to_string(), text: Some("hi".to_string()), file: None },
            ycallr_core::MultipartField { name: "file".to_string(), text: None, file: Some("part.bin".to_string()) },
        ]),
    });
    let ctx = context(table(vec![("upload", upload)]), None, Dict::new());
    let prepared = prepare_http_request(&ctx, "upload", &Dict::new(), None).unwrap();
    match &prepared.body {
        PreparedBody::MultipartNative(parts) => assert_eq!(parts.len(), 2),
        other => panic!("expected multipart body, got {:?}", other),
    }
}

#[test]
fn multipart_path_with_parent_dir_is_refused() {
    let mut upload = bare("/upload", HttpMethod::POST);
    upload.body = Some(BodyConfig {
        json: None,
        form: None,
        raw: None,
        multipart: Some(vec![ycallr_core::MultipartField { name: "f".to_string(), text: None, file: Some("../x".to_string()) }]),
    });
    let ctx = context(table(vec![("upload", upload)]), None, Dict::new());
    let err = prepare_http_request(&ctx, "upload", &Dict::new(), None).unwrap_err();
    assert!(err.message().contains("cannot contain '..'"));
}

#[test]
fn basic_auth_header_is_base64() {
    let mut headers = Dict::new();
    let auth = AuthConfig::http_basic("user".to_string(), "pass".to_string());
    apply_auth_headers(&auth, &Dict::new(), &mut headers).unwrap();
    assert_eq!(headers.get("Authorization").map(String::as_str), Some("Basic dXNlcjpwYXNz"));
}

#[test]
fn custom_auth_header_concatenates_prefix_and_token() {
    let mut headers = Dict::new();
    let auth = AuthConfig::http_custom("Token ".to_string(), "${T}".to_string());
    apply_auth_headers(&auth, &make_params(&[("T", "abc")]), &mut headers).unwrap();
    assert_eq!(headers.get("Authorization").map(String::as_str), Some("Token abc"));
}

#[test]
fn cookie_auth_checks_characters() {
    let mut headers = Dict::new();
    let ok = AuthConfig::api_key_in("v".to_string(), "sid".to_string(), ApiKeyLocation::Cookie);
    apply_auth_headers(&ok, &Dict::new(), &mut headers).unwrap();
    assert_eq!(headers.get("Cookie").map(String::as_str), Some("sid=v"));
    let bad = AuthConfig::api_key_in("a;b".to_string(), "sid".to_string(), ApiKeyLocation::Cookie);
    let mut other = Dict::new();
    assert!(apply_auth_headers(&bad, &Dict::new(), &mut other).is_err());
    assert!(other.is_empty());
    assert!(validate_cookie_component("x\ny", "value").is_err());
}

#[test]
fn query_api_key_is_appended_once() {
    let auth = AuthConfig::api_key_in("k".to_string(), "api_key".to_string(), ApiKeyLocation::Query);
    let mut pairs = vec![("q".to_string(), "1".to_string())];
    add_auth_query_params(&auth, &Dict::new(), &mut pairs).unwrap();
    assert_eq!(pairs, vec![("q".to_string(), "1".to_string()), ("api_key".to_string(), "k".to_string())]);
    let err = add_auth_query_params(&auth, &Dict::new(), &mut pairs).unwrap_err();
    assert!(err.message().contains("Duplicate query parameter 'api_key'"));
    assert_eq!(pairs.len(), 2);
}

#[test]
fn blank_auth_value_is_refused() {
    let err = require_nonempty_auth_value("  ", "bearer token").unwrap_err();
    assert_eq!(err.message(), "Parameter validation error: Auth bearer token is empty or unresolved");
    assert!(require_nonempty_auth_value("x", "bearer token").is_ok());
}

#[test]
fn command_auth_none_drops_client_auth() {
    let mut c = bare("/x", HttpMethod::GET);
    c.auth = Some("NONE".to_string());
    let ctx = context(table(vec![("x", c)]), Some(AuthConfig::bearer("t".to_string())), Dict::new());
    let prepared = prepare_http_request(&ctx, "x", &Dict::new(), None).unwrap();
    assert!(prepared.headers.get("Authorization").is_none());
}

#[test]
fn query_params_and_trailing_slash() {
    let c = bare("/search", HttpMethod::GET);
    let mut ctx = context(table(vec![("search", c)]), None, Dict::new());
    ctx.api.base_url = "https://api.test.com//".to_string();
    let mut c2 = ctx.api.commands.entries[0].1.clone();
    c2.params = table(vec![("q", Parameter { description: "q".to_string(), param_type: ParamType::String, required: false })]);
    ctx.api.commands.entries[0].1 = c2;
    let prepared = prepare_http_request(&ctx, "search", &make_params(&[("q", "a b")]), None).unwrap();
    assert_eq!(prepared.url, "https://api.test.com/search?q=a%20b");
}
