use ycallr_core::call_engine::prepare::append_query_pairs;
use ycallr_core::compiler::conversions::{
    api_key_location_from_i32, api_key_location_to_proto, auth_from_proto, auth_to_proto, method_from_i32,
    method_to_proto, type_from_i32, type_to_proto,
};
use ycallr_core::models::response::{api_error_template_references_input, builtin_response_template};
use ycallr_core::models::validation::{validate_auth_config, validate_base_url};
use ycallr_core::openapi_importer::OpenApiNestBy;
use ycallr_core::proto;
use ycallr_core::test_utils::helpers::make_params;
use ycallr_core::{ApiKeyLocation, AuthConfig, HttpMethod, ParamType, YcallrError};

#[test]
fn test_append_query_pairs() {
    let url = append_query_pairs(
        "https://api.test.com/search",
        &[("q".to_string(), "hello world".to_string()), ("page".to_string(), "2".to_string())],
    );
    assert_eq!(url, "https://api.test.com/search?q=hello%20world&page=2");
}

#[test]
fn mod_test_auth_types() {
    let bearer = AuthConfig::bearer("token".to_string());
    let api_key = AuthConfig::api_key("key123".to_string(), "X-API-Key".to_string());

    match bearer {
        AuthConfig::Bearer { token } => assert_eq!(token, "token"),
        _ => panic!("Expected Bearer"),
    }

    match api_key {
        AuthConfig::ApiKey { key, name, in_ } => {
            assert_eq!(key, "key123");
            assert_eq!(name, "X-API-Key");
            assert_eq!(in_, ApiKeyLocation::Header);
        }
        _ => panic!("Expected ApiKey"),
    }
}

#[test]
fn client_test_auth_types() {
    let bearer = AuthConfig::bearer("token".to_string());
    let api_key = AuthConfig::api_key("key123".to_string(), "X-API-Key".to_string());

    match bearer {
        AuthConfig::Bearer { token } => assert_eq!(token, "token"),
        _ => panic!("Expected Bearer"),
    }

    match api_key {
        AuthConfig::ApiKey { key, name, .. } => {
            assert_eq!(key, "key123");
            assert_eq!(name, "X-API-Key");
        }
        _ => panic!("Expected ApiKey"),
    }
}

#[test]
fn test_method_from_i32_valid_values() {
    assert_eq!(method_from_i32(0).unwrap(), HttpMethod::GET);
    assert_eq!(method_from_i32(1).unwrap(), HttpMethod::POST);
    assert_eq!(method_from_i32(2).unwrap(), HttpMethod::PUT);
    assert_eq!(method_from_i32(3).unwrap(), HttpMethod::DELETE);
    assert_eq!(method_from_i32(4).unwrap(), HttpMethod::PATCH);
}

#[test]
fn test_method_from_i32_invalid_errors() {
    assert!(method_from_i32(99).is_err());
    assert!(method_from_i32(-1).is_err());
}

#[test]
fn test_type_from_i32_valid_values() {
    assert_eq!(type_from_i32(0).unwrap(), ParamType::String);
    assert_eq!(type_from_i32(1).unwrap(), ParamType::Number);
    assert_eq!(type_from_i32(2).unwrap(), ParamType::Boolean);
    assert_eq!(type_from_i32(3).unwrap(), ParamType::Array);
}

#[test]
fn test_type_from_i32_invalid_errors() {
    assert!(type_from_i32(99).is_err());
    assert!(type_from_i32(-1).is_err());
}

#[test]
fn test_api_key_location_from_i32_invalid_errors() {
    assert!(api_key_location_from_i32(99).is_err());
}

#[test]
fn test_conversion_enum_errors_and_all_methods() {
    assert_eq!(method_to_proto(&HttpMethod::PUT), proto::HttpMethod::Put);
    assert_eq!(method_to_proto(&HttpMethod::DELETE), proto::HttpMethod::Delete);
    assert_eq!(method_to_proto(&HttpMethod::PATCH), proto::HttpMethod::Patch);
    assert_eq!(type_to_proto(&ParamType::Boolean), proto::ParamType::Boolean);
    assert_eq!(type_to_proto(&ParamType::Array), proto::ParamType::Array);
    assert!(method_from_i32(99).is_err());
    assert!(type_from_i32(99).is_err());
    assert!(api_key_location_from_i32(99).is_err());
    assert_eq!(api_key_location_to_proto(&ApiKeyLocation::Cookie), proto::ApiKeyLocation::Cookie);

    let http_auth = auth_to_proto(&AuthConfig::http_custom("P ".to_string(), "t".to_string()));
    let restored = auth_from_proto(&http_auth).unwrap();
    assert!(matches!(restored, AuthConfig::Http { .. }));

    let missing = proto::AuthConfig { kind: None };
    assert!(auth_from_proto(&missing).is_err());
}

#[test]
fn test_error_display() {
    let err = YcallrError::HttpClient("connection refused".to_string());
    assert_eq!(err.message(), "HTTP client error: connection refused");
    assert!(YcallrError::YamlParse("bad".into()).message().contains("YAML"));
    assert!(YcallrError::InvalidDefinition("bad".into()).message().contains("Invalid"));
    assert!(YcallrError::CommandNotFound("x".into()).message().contains("not found"));
    assert!(YcallrError::ParamValidation("bad".into()).message().contains("Parameter"));
    assert!(YcallrError::Protobuf("bad".into()).message().contains("Protobuf"));
    assert!(YcallrError::Serialization("bad".into()).message().contains("Serialization"));
    assert!(YcallrError::EnvVar("bad".into()).message().contains("Environment"));
}

#[test]
fn models_test_http_method_as_str() {
    assert_eq!(HttpMethod::GET.as_str(), "GET");
    assert_eq!(HttpMethod::POST.as_str(), "POST");
    assert_eq!(HttpMethod::PUT.as_str(), "PUT");
    assert_eq!(HttpMethod::DELETE.as_str(), "DELETE");
    assert_eq!(HttpMethod::PATCH.as_str(), "PATCH");
}

#[test]
fn mod_test_http_method_as_str() {
    assert_eq!(HttpMethod::GET.as_str(), "GET");
    assert_eq!(HttpMethod::POST.as_str(), "POST");
    assert_eq!(HttpMethod::PUT.as_str(), "PUT");
    assert_eq!(HttpMethod::DELETE.as_str(), "DELETE");
    assert_eq!(HttpMethod::PATCH.as_str(), "PATCH");
}

#[test]
fn test_builtin_response_template_warn_and_server_error() {
    assert_eq!(builtin_response_template(301), "Request completed (HTTP {status})");
    assert_eq!(builtin_response_template(500), "Request failed (HTTP {status})");
}

#[test]
fn test_api_error_template_references_input() {
    assert!(api_error_template_references_input("{input.foo}"));
    assert!(!api_error_template_references_input("{output.foo}"));
}

#[test]
fn test_builtin_response_templates() {
    assert_eq!(builtin_response_template(200), "Request succeeded (HTTP {status})");
    assert_eq!(builtin_response_template(404), "Request failed (HTTP {status})");
}

#[test]
fn test_auth_config_constructors() {
    let bearer = AuthConfig::bearer("t".to_string());
    assert!(matches!(bearer, AuthConfig::Bearer { .. }));
    let key = AuthConfig::api_key("k".to_string(), "H".to_string());
    assert!(matches!(key, AuthConfig::ApiKey { .. }));
    let key_q = AuthConfig::api_key_in("k".to_string(), "Q".to_string(), ApiKeyLocation::Query);
    assert!(matches!(key_q, AuthConfig::ApiKey { .. }));
    let basic = AuthConfig::http_basic("u".to_string(), "p".to_string());
    assert!(matches!(basic, AuthConfig::Http { .. }));
    let custom = AuthConfig::http_custom("Token ".to_string(), "abc".to_string());
    assert!(matches!(custom, AuthConfig::Http { .. }));
}

#[test]
fn test_validate_base_url_blocks_loopback() {
    assert!(validate_base_url("http://127.0.0.1", true).is_err());
    assert!(validate_base_url("https://localhost/api", true).is_err());
    assert!(validate_base_url("http://169.254.169.254", true).is_err());
    assert!(validate_base_url("http://127.0.0.1", false).is_ok());
}

#[test]
fn test_validate_base_url_blocks_private_ipv4() {
    assert!(validate_base_url("http://10.0.0.1", true).is_err());
    assert!(validate_base_url("http://192.168.1.1/api", true).is_err());
    assert!(validate_base_url("http://172.16.0.1", true).is_err());
    assert!(validate_base_url("http://10.0.0.1", false).is_ok());
}

#[test]
fn test_validate_base_url_allows_public_host() {
    assert!(validate_base_url("https://api.github.com", true).is_ok());
}

#[test]
fn test_validate_auth_config_basic_requires_credentials() {
    let auth = AuthConfig::Http {
        scheme: "basic".to_string(),
        token: None,
        username: None,
        password: Some("pass".to_string()),
        prefix: None,
    };
    assert!(validate_auth_config("basic", &auth).is_err());
}

#[test]
fn test_validate_auth_config_bearer_ok_with_template() {
    let auth = AuthConfig::Bearer { token: "${TOKEN}".to_string() };
    assert!(validate_auth_config("primary", &auth).is_ok());
}

#[test]
fn test_nest_by_parse() {
    assert_eq!(OpenApiNestBy::parse("path").unwrap(), OpenApiNestBy::Path);
    assert_eq!(OpenApiNestBy::parse("PATH").unwrap(), OpenApiNestBy::Path);
    assert_eq!(OpenApiNestBy::parse("url").unwrap(), OpenApiNestBy::Path);
    assert_eq!(OpenApiNestBy::parse("tag").unwrap(), OpenApiNestBy::Tag);
    assert_eq!(OpenApiNestBy::parse(" tags ").unwrap(), OpenApiNestBy::Tag);
    assert!(OpenApiNestBy::parse("hybrid").is_err());
}

#[test]
fn test_nest_by_parse_rejects_unknown_value() {
    match OpenApiNestBy::parse("hybrid") {
        Err(e) => assert!(e.message().contains("Invalid nest-by value")),
        Ok(_) => panic!("expected an error"),
    }
}

#[test]
fn test_utils_test_make_params() {
    let params = make_params(&[("owner", "rust-lang"), ("repo", "rust")]);
    assert_eq!(params.get("owner").unwrap(), "rust-lang");
    assert_eq!(params.get("repo").unwrap(), "rust");
}

#[test]
fn mod_test_make_params() {
    let params = make_params(&[("owner", "rust-lang"), ("repo", "rust")]);
    assert_eq!(params.get("owner").unwrap(), "rust-lang");
    assert_eq!(params.get("repo").unwrap(), "rust");
}
