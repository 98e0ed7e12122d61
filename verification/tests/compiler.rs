use ycallr_core::compiler::conversions::{body_from_proto, body_to_proto, command_from_proto, command_to_proto};
use ycallr_core::compiler::Compiler;
use ycallr_core::outside::json_from_text;
use ycallr_core::{
    ApiDefinition, AuthConfig, BodyConfig, Command, Dict, EnvVar, HttpMethod, MultipartField, ParamType, Parameter,
    ResponseConfig, ResponseEntry,
};

fn table<V>(entries: Vec<(&str, V)>) -> Dict<V> {
    let mut d = Dict::new();
    for (k, v) in entries {
        d.insert(k.to_string(), v);
    }
    d
}

fn described(description: &str, endpoint: &str, method: HttpMethod, commands: Option<Dict<Command>>) -> Command {
    Command {
        description: Some(description.to_string()),
        endpoint: Some(endpoint.to_string()),
        method: Some(method),
        auth: None,
        headers: Dict::new(),
        params: Dict::new(),
        body: None,
        responses: None,
        commands,
    }
}

fn api(env: Vec<EnvVar>, auth: Dict<AuthConfig>, commands: Dict<Command>) -> ApiDefinition {
    ApiDefinition {
        name: "github".to_string(),
        version: "1.0.0".to_string(),
        description: "GitHub API".to_string(),
        base_url: "https://api.github.com".to_string(),
        env,
        auth,
        commands,
        errors: None,
    }
}

fn create_test_api() -> ApiDefinition {
    let mut c = described("Create an issue", "/repos/{owner}/{repo}/issues", HttpMethod::POST, None);
    c.params = table(vec![(
        "owner",
        Parameter { description: "Repository owner".to_string(), param_type: ParamType::String, required: true },
    )]);
    c.headers = table(vec![("Accept", "application/json".to_string())]);
    api(vec![], Dict::new(), table(vec![("create-issue", c)]))
}

fn create_nested_api() -> ApiDefinition {
    let path = "/repos/{owner}/{repo}/issues";
    let create = described("Create an issue", path, HttpMethod::POST, None);
    let list = described("List issues", path, HttpMethod::GET, None);
    let issues = described("Issues operations", path, HttpMethod::GET, Some(table(vec![("create", create), ("list", list)])));
    let repos = described("Repository operations", "/repos", HttpMethod::GET, Some(table(vec![("issues", issues)])));
    api(vec![EnvVar { name: "GITHUB_TOKEN".to_string(), required: true }], Dict::new(), table(vec![("repos", repos)]))
}

fn create_env_api() -> ApiDefinition {
    let mut c = described("Get a repository", "/repos/{owner}/{repo}", HttpMethod::GET, None);
    c.headers = table(vec![("Authorization", "Bearer ${GITHUB_TOKEN}".to_string())]);
    api(
        vec![
            EnvVar { name: "GITHUB_TOKEN".to_string(), required: true },
            EnvVar { name: "API_VERSION".to_string(), required: false },
        ],
        Dict::new(),
        table(vec![("get-repo", c)]),
    )
}

fn create_response_api() -> ApiDefinition {
    let mut c = described("Get a repository", "/repos/{owner}/{repo}", HttpMethod::GET, None);
    c.params = table(vec![(
        "owner",
        Parameter { description: "Repository owner".to_string(), param_type: ParamType::String, required: true },
    )]);
    c.responses = Some(ResponseConfig {
        success: Some(ResponseEntry { message: "Got repo {output.name}".to_string() }),
        failure: Some(ResponseEntry { message: "Failed to get repo".to_string() }),
        warn: None,
        codes: table(vec![("404", ResponseEntry { message: "{input.owner} does not exist".to_string() })]),
    });
    api(vec![], Dict::new(), table(vec![("get-repo", c)]))
}

fn create_auth_api() -> ApiDefinition {
    let auth = table(vec![
        ("primary", AuthConfig::bearer("yaml-token".to_string())),
        ("secondary", AuthConfig::api_key("api-key".to_string(), "X-API-Key".to_string())),
    ]);
    let mut c = described("Get repo", "/repos/{owner}/{repo}", HttpMethod::GET, None);
    c.auth = Some("primary".to_string());
    api(vec![], auth, table(vec![("get-repo", c)]))
}

fn roundtrip(a: &ApiDefinition) -> ApiDefinition {
    let message = Compiler::yaml_to_proto(a).unwrap();
    Compiler::proto_to_yaml(&message).unwrap()
}

#[test]
fn mod_test_yaml_to_proto_and_back() {
    let a = create_test_api();
    let restored = roundtrip(&a);
    assert_eq!(a.name, restored.name);
    assert_eq!(a.version, restored.version);
    assert_eq!(a.base_url, restored.base_url);
    assert_eq!(a.commands.len(), restored.commands.len());
}

#[test]
fn compiler_test_yaml_to_proto_and_back() {
    let a = create_test_api();
    let restored = roundtrip(&a);
    assert_eq!(a.name, restored.name);
    assert_eq!(a.version, restored.version);
    assert_eq!(a.base_url, restored.base_url);
    assert_eq!(a.commands.len(), restored.commands.len());
}

#[test]
fn mod_test_proto_preserves_commands() {
    let restored = roundtrip(&create_test_api());
    let cmd = restored.commands.get("create-issue").unwrap();
    assert_eq!(cmd.method.as_ref().unwrap(), &HttpMethod::POST);
    assert!(cmd.headers.contains_key("Accept"));
}

#[test]
fn compiler_test_proto_preserves_commands() {
    let restored = roundtrip(&create_test_api());
    let cmd = restored.commands.get("create-issue").unwrap();
    assert_eq!(cmd.method.as_ref().unwrap(), &HttpMethod::POST);
    assert!(cmd.headers.contains_key("Accept"));
}

#[test]
fn test_nested_api_proto_roundtrip() {
    let a = create_nested_api();
    let restored = roundtrip(&a);
    assert_eq!(a.name, restored.name);
    assert_eq!(a.commands.len(), restored.commands.len());
    let repos = restored.commands.get("repos").unwrap();
    assert!(repos.commands.is_some());
    assert_eq!(repos.endpoint.as_deref(), Some("/repos"));
    let issues = repos.commands.as_ref().unwrap().get("issues").unwrap();
    assert!(issues.commands.is_some());
    assert_eq!(issues.method.as_ref().unwrap(), &HttpMethod::GET);
    let create = issues.commands.as_ref().unwrap().get("create").unwrap();
    assert_eq!(create.method.as_ref().unwrap(), &HttpMethod::POST);
    assert_eq!(create.endpoint.as_deref(), Some("/repos/{owner}/{repo}/issues"));
}

#[test]
fn test_nested_api_lookup_after_proto() {
    let restored = roundtrip(&create_nested_api());
    let cmd = restored.get_command("repos.issues.create").unwrap();
    assert_eq!(cmd.method.as_ref().unwrap(), &HttpMethod::POST);
}

#[test]
fn test_env_proto_roundtrip() {
    let restored = roundtrip(&create_env_api());
    assert_eq!(restored.env.len(), 2);
    assert_eq!(restored.env[0].name, "GITHUB_TOKEN");
    assert!(restored.env[0].required);
    assert_eq!(restored.env[1].name, "API_VERSION");
    assert!(!restored.env[1].required);
}

#[test]
fn test_env_proto_preserves_substitution() {
    let restored = roundtrip(&create_env_api());
    let cmd = restored.commands.get("get-repo").unwrap();
    assert_eq!(cmd.headers.get("Authorization").unwrap(), "Bearer ${GITHUB_TOKEN}");
}

#[test]
fn test_description_proto_roundtrip() {
    let restored = roundtrip(&create_test_api());
    let cmd = restored.commands.get("create-issue").unwrap();
    assert_eq!(cmd.description, Some("Create an issue".to_string()));
}

#[test]
fn test_response_config_proto_roundtrip() {
    let restored = roundtrip(&create_response_api());
    let cmd = restored.commands.get("get-repo").unwrap();
    let responses = cmd.responses.as_ref().unwrap();
    assert_eq!(responses.success.as_ref().unwrap().message, "Got repo {output.name}");
    assert_eq!(responses.failure.as_ref().unwrap().message, "Failed to get repo");
    assert!(responses.warn.is_none());
    assert_eq!(responses.codes.get("404").unwrap().message, "{input.owner} does not exist");
}

#[test]
fn test_auth_proto_roundtrip() {
    let a = create_auth_api();
    let restored = roundtrip(&a);
    assert_eq!(a.auth.len(), restored.auth.len());
    assert!(restored.auth.contains_key("primary"));
    assert!(restored.auth.contains_key("secondary"));
    assert_eq!(restored.auth.get("primary").unwrap(), &AuthConfig::bearer("yaml-token".to_string()));
    let cmd = restored.commands.get("get-repo").unwrap();
    assert_eq!(cmd.auth.as_deref(), Some("primary"));
}

// Cases of the library's own.

#[test]
fn whole_profile_survives_compilation() {
    let a = create_response_api();
    assert_eq!(roundtrip(&a), a);
}

#[test]
fn invalid_profile_is_not_compiled() {
    let mut a = create_test_api();
    a.name = "bad name".to_string();
    assert!(Compiler::yaml_to_proto(&a).is_err());
}

#[test]
fn empty_sub_command_table_reads_back_as_none() {
    let c = described("Branch", "/b", HttpMethod::GET, Some(Dict::new()));
    let back = command_from_proto(&command_to_proto(&c)).unwrap();
    assert!(back.commands.is_none());
}

#[test]
fn body_parts_survive_compilation() {
    let body = BodyConfig {
        json: Some(json_from_text(r#"{"a": [1, "x"]}"#).unwrap()),
        form: Some(table(vec![("k", "v".to_string())])),
        raw: Some("raw".to_string()),
        multipart: Some(vec![MultipartField { name: "f".to_string(), text: Some("t".to_string()), file: None }]),
    };
    assert_eq!(body_from_proto(&body_to_proto(&body)).unwrap(), body);
}

#[test]
fn bad_body_json_is_reported() {
    let mut message = body_to_proto(&BodyConfig { json: None, form: None, raw: None, multipart: None });
    message.json = Some("{nope".to_string());
    let err = body_from_proto(&message).unwrap_err();
    assert!(err.message().contains("Invalid JSON in body.json: "));
}

#[test]
fn unknown_method_code_is_reported_with_its_value() {
    let mut message = command_to_proto(&described("x", "/x", HttpMethod::GET, None));
    message.method = Some(-7);
    let err = command_from_proto(&message).unwrap_err();
    assert_eq!(err.message(), "Protobuf error: Unknown HTTP method enum value: -7");
}
