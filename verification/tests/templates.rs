use ycallr_core::outside::json_from_text;
use ycallr_core::templates::{
    resolve_env_vars, resolve_json_templates, resolve_response_template, resolve_string_templates,
};
use ycallr_core::test_utils::helpers::make_params;
use ycallr_core::{Dict, JsonValue};

fn json(text: &str) -> JsonValue {
    json_from_text(text).unwrap()
}

fn key<'a>(v: &'a JsonValue, k: &str) -> &'a JsonValue {
    v.get_key(k).unwrap()
}

fn idx(v: &JsonValue, i: usize) -> &JsonValue {
    v.get_index(i).unwrap()
}

fn text(s: &str) -> JsonValue {
    JsonValue::Str(s.to_string())
}

#[test]
fn test_resolve_json_templates_array_and_object() {
    let params = make_params(&[("name", "rust"), ("tag", "1.0")]);
    let value = json(r#"{"items": ["{name}", {"v": "{tag}"}], "meta": {"name": "{name}"}}"#);
    let resolved = resolve_json_templates(&value, &params).unwrap();
    assert_eq!(idx(key(&resolved, "items"), 0), &text("rust"));
    assert_eq!(key(idx(key(&resolved, "items"), 1), "v"), &text("1.0"));
    assert_eq!(key(key(&resolved, "meta"), "name"), &text("rust"));
}

#[test]
fn test_resolve_json_templates_non_string_passthrough() {
    let params = Dict::new();
    let value = json("[1, true, null]");
    let resolved = resolve_json_templates(&value, &params).unwrap();
    assert_eq!(idx(&resolved, 0), &JsonValue::Number("1".to_string()));
    assert_eq!(idx(&resolved, 1), &JsonValue::Bool(true));
    assert_eq!(idx(&resolved, 2), &JsonValue::Null);
}

#[test]
fn templates_test_resolve_env_vars() {
    let env_vars = make_params(&[("TOKEN", "abc123")]);
    let result = resolve_env_vars("Bearer ${TOKEN}", &env_vars).unwrap();
    assert_eq!(result, "Bearer abc123");
}

#[test]
fn templates_test_resolve_env_vars_unknown() {
    let env_vars = Dict::new();
    let result = resolve_env_vars("${UNKNOWN}", &env_vars);
    assert!(result.is_err());
    assert!(result.unwrap_err().message().contains("Unknown environment variable 'UNKNOWN'"));
}

#[test]
fn test_resolve_env_vars_optional_empty() {
    let env_vars = make_params(&[("OPTIONAL", "")]);
    let result = resolve_env_vars("version=${OPTIONAL}", &env_vars).unwrap();
    assert_eq!(result, "version=");
}

#[test]
fn templates_test_resolve_response_template_input() {
    let params = make_params(&[("owner", "rust-lang")]);
    let body = json("{}");
    let result = resolve_response_template("{input.owner} not found", 404, &params, &body);
    assert_eq!(result, "rust-lang not found");
}

#[test]
fn templates_test_resolve_response_template_output() {
    let params = Dict::new();
    let body = json(r#"{"name": "rust", "stars": 90000}"#);
    let result = resolve_response_template("Got repo {output.name} with {output.stars} stars", 200, &params, &body);
    assert_eq!(result, "Got repo rust with 90000 stars");
}

#[test]
fn test_resolve_response_template_output_number_first() {
    let params = Dict::new();
    let body = json(r#"{"name": "rust", "stars": 90000}"#);
    let result = resolve_response_template("{output.stars} stars for {output.name}", 200, &params, &body);
    assert_eq!(result, "90000 stars for rust");
}

#[test]
fn templates_test_resolve_response_template_mixed() {
    let params = make_params(&[("owner", "rust-lang")]);
    let body = json(r#"{"name": "rust"}"#);
    let result = resolve_response_template("{input.owner}/{output.name}", 200, &params, &body);
    assert_eq!(result, "rust-lang/rust");
}

#[test]
fn templates_test_resolve_response_template_missing_field() {
    let params = Dict::new();
    let body = json(r#"{"name": "rust"}"#);
    let result = resolve_response_template("{output.missing}", 200, &params, &body);
    assert_eq!(result, "{output.missing}");
}

#[test]
fn test_resolve_response_template_nested_output() {
    let params = Dict::new();
    let body = json(r#"{"user": {"name": "rust", "id": 42}, "meta": {"count": 3}}"#);
    let result = resolve_response_template("User {output.user.name} (#{output.user.id})", 200, &params, &body);
    assert_eq!(result, "User rust (#42)");
}

#[test]
fn test_resolve_response_template_nested_output_array_index() {
    let params = Dict::new();
    let body = json(r#"{"items": [{"title": "first"}, {"title": "second"}]}"#);
    let result = resolve_response_template("{output.items.0.title}", 200, &params, &body);
    assert_eq!(result, "first");
}

#[test]
fn test_resolve_response_template_nested_missing_path() {
    let params = Dict::new();
    let body = json(r#"{"user": {"name": "rust"}}"#);
    let result = resolve_response_template("{output.user.email}", 200, &params, &body);
    assert_eq!(result, "{output.user.email}");
}

#[test]
fn templates_test_resolve_string_templates() {
    let params = make_params(&[("name", "test")]);
    let result = resolve_string_templates("Hello {name}!", &params);
    assert_eq!(result, "Hello test!");
}

#[test]
fn templates_test_resolve_json_templates_string() {
    let params = make_params(&[("key", "value")]);
    let value = json(r#"{"field": "{key}"}"#);
    let resolved = resolve_json_templates(&value, &params).unwrap();
    assert_eq!(key(&resolved, "field"), &text("value"));
}

#[test]
fn templates_test_resolve_json_templates_array() {
    let params = make_params(&[("item", "test")]);
    let value = json(r#"["{item}", "static"]"#);
    let resolved = resolve_json_templates(&value, &params).unwrap();
    assert_eq!(idx(&resolved, 0), &text("test"));
    assert_eq!(idx(&resolved, 1), &text("static"));
}

#[test]
fn test_resolve_json_templates_nested_object() {
    let params = make_params(&[("owner", "rust-lang")]);
    let value = json(r#"{"data": {"owner": "{owner}"}}"#);
    let resolved = resolve_json_templates(&value, &params).unwrap();
    assert_eq!(key(key(&resolved, "data"), "owner"), &text("rust-lang"));
}

#[test]
fn test_resolve_env_vars_multiple_in_one_string() {
    let env = make_params(&[("A", "alpha"), ("B", "beta")]);
    let result = resolve_env_vars("prefix-${A}-mid-${B}-suffix", &env).unwrap();
    assert_eq!(result, "prefix-alpha-mid-beta-suffix");
}

#[test]
fn test_resolve_response_template_input_missing() {
    let params = Dict::new();
    let body = json(r#"{"name": "rust"}"#);
    let result = resolve_response_template("Owner: {input.owner}", 200, &params, &body);
    assert_eq!(result, "Owner: {input.owner}");
}

// Further cases of the library's own.

#[test]
fn status_placeholder_is_replaced() {
    let params = Dict::new();
    let body = json("{}");
    assert_eq!(resolve_response_template("HTTP {status}", 503, &params, &body), "HTTP 503");
}

#[test]
fn output_object_value_is_compact_json() {
    let params = Dict::new();
    let body = json(r#"{"user": {"id": 1}}"#);
    assert_eq!(resolve_response_template("{output.user}", 200, &params, &body), r#"{"id":1}"#);
}

#[test]
fn output_null_value_is_empty() {
    let params = Dict::new();
    let body = json(r#"{"x": null}"#);
    assert_eq!(resolve_response_template("[{output.x}]", 200, &params, &body), "[]");
}

#[test]
fn unterminated_env_reference_is_left_alone() {
    let env = Dict::new();
    assert_eq!(resolve_env_vars("cost ${", &env).unwrap(), "cost ${");
}

#[test]
fn client_test_resolve_response_template_input() {
    let params = make_params(&[("owner", "rust-lang")]);
    let body = json("{}");
    let result = resolve_response_template("{input.owner} not found", 200, &params, &body);
    assert_eq!(result, "rust-lang not found");
}

#[test]
fn client_test_resolve_response_template_output() {
    let params = Dict::new();
    let body = json(r#"{"name": "rust", "stars": 90000}"#);
    let result = resolve_response_template("Got repo {output.name} with {output.stars} stars", 200, &params, &body);
    assert_eq!(result, "Got repo rust with 90000 stars");
}

#[test]
fn client_test_resolve_response_template_mixed() {
    let params = make_params(&[("owner", "rust-lang")]);
    let body = json(r#"{"name": "rust"}"#);
    let result = resolve_response_template("{input.owner}/{output.name}", 200, &params, &body);
    assert_eq!(result, "rust-lang/rust");
}
