use ycallr_core::dict::Dict;
use ycallr_core::openapi_importer::{
    import_openapi, openapi_params_end, parse_openapi_content, OpenApiImportOptions, OpenApiNestBy,
    OpenApiPreset,
};
use ycallr_core::{AuthConfig, Command, HttpMethod, JsonValue, ParamType, YcallrError};

use ycallr_core::includes::{enter_include, leave_include};
use ycallr_core::runtime_auth::parse_runtime_auth;
use ycallr_core::bindings::build_implicit_body;
use ycallr_core::openapi_importer::names::{
        is_path_param_segment, parse_http_method, parse_response_status_code, path_segments,
        sanitize_segment, slugify_name,
    };
use ycallr_core::openapi_importer::nesting::shorten_leaf_name;
use ycallr_core::openapi_importer::enums::{enum_array_to_strings, extract_enum_values_from_schema};
use ycallr_core::openapi_importer::servers::{extract_base_url, resolve_server_url};
fn assert_err_contains<T>(result: Result<T, YcallrError>, needle: &str) {
    match result {
        Err(err) => {
            let text = err.message();
            assert!(text.contains(needle), "expected error containing '{}', got: {}", needle, text)
        },
        Ok(_) => panic!("expected error, got Ok"),
    }
}

const MINIMAL_OPENAPI: &str = r#"
openapi: 3.0.3
info:
  title: GitHub REST API
  version: "1.0.0"
  description: GitHub API example
servers:
  - url: https://api.github.com
paths:
  /repos/{owner}/{repo}/issues:
    get:
      summary: List issues
      operationId: repos/list-issues
      tags: [issues]
      parameters:
        - name: owner
          in: path
          required: true
          schema: { type: string }
        - name: repo
          in: path
          required: true
          schema: { type: string }
        - name: state
          in: query
          schema: { type: string }
    post:
      summary: Create issue
      operationId: repos/create-issue
      tags: [issues]
      parameters:
        - name: owner
          in: path
          required: true
          schema: { type: string }
        - name: repo
          in: path
          required: true
          schema: { type: string }
      requestBody:
        required: true
        content:
          application/json:
            schema:
              type: object
              required: [title]
              properties:
                title: { type: string }
                body: { type: string }
components:
  securitySchemes:
    github:
      type: http
      scheme: bearer
security:
  - github: []
"#;

const GITHUB_ERROR_SCHEMAS_OPENAPI: &str = r##"
openapi: 3.0.3
info:
  title: GitHub REST API
  version: "1.0.0"
servers:
  - url: https://api.github.com
paths:
  /repos/{owner}/{repo}/issues:
    post:
      operationId: repos/create-issue
      tags: [issues]
      parameters:
        - name: owner
          in: path
          required: true
          schema: { type: string }
        - name: repo
          in: path
          required: true
          schema: { type: string }
      requestBody:
        required: true
        content:
          application/json:
            schema:
              type: object
              required: [title]
              properties:
                title: { type: string }
      responses:
        '201':
          description: Created
          content:
            application/json:
              schema:
                type: object
                properties:
                  number: { type: integer }
                  title: { type: string }
        '404':
          $ref: '#/components/responses/not_found'
        '422':
          description: Validation failed
          content:
            application/json:
              schema:
                $ref: '#/components/schemas/validation-error'
    get:
      operationId: repos/list-issues
      tags: [issues]
      responses:
        '200':
          description: OK
          content:
            application/json:
              schema:
                type: array
                items:
                  type: object
                  properties:
                    title: { type: string }
                    number: { type: integer }
        '404':
          $ref: '#/components/responses/not_found'
components:
  responses:
    not_found:
      description: Resource not found
      content:
        application/json:
          schema:
            $ref: '#/components/schemas/basic-error'
  schemas:
    basic-error:
      type: object
      properties:
        message: { type: string }
        documentation_url: { type: string }
    validation-error:
      type: object
      properties:
        message: { type: string }
        errors:
          type: array
          items:
            type: object
            properties:
              field: { type: string }
              message: { type: string }
              code: { type: string }
"##;

#[test]
    fn test_import_nested_path_commands() {
        let doc = parse_openapi_content(MINIMAL_OPENAPI).unwrap();
        let api = import_openapi(
            &doc,
            &OpenApiImportOptions {
                name: Some("github".to_string()),
                ..Default::default()
            },
        )
        .unwrap();

        assert_eq!(api.name, "github");
        assert_eq!(api.base_url, "https://api.github.com");
        assert!(api.commands.contains_key("repos"));

        let repos = api.commands.get("repos").unwrap();
        let issues = repos.commands.as_ref().unwrap().get("issues").unwrap();
        let get = issues
            .commands
            .as_ref()
            .unwrap()
            .get("list-issues")
            .unwrap();
        assert_eq!(
            get.endpoint.as_deref(),
            Some("/repos/{owner}/{repo}/issues")
        );
        assert_eq!(get.method.as_ref(), Some(&HttpMethod::GET));
        assert!(get.params.contains_key("owner"));
        assert!(get.params.contains_key("state"));

        let post = issues
            .commands
            .as_ref()
            .unwrap()
            .get("create-issue")
            .unwrap();
        assert!(post.body.is_some());
        assert!(post.params.get("title").is_some_and(|p| p.required));
        assert!(!post.params.get("body").is_some_and(|p| p.required));
    }

#[test]
    fn test_import_nested_tag_commands() {
        let doc = parse_openapi_content(MINIMAL_OPENAPI).unwrap();
        let api = import_openapi(
            &doc,
            &OpenApiImportOptions {
                name: Some("github".to_string()),
                nest_by: OpenApiNestBy::Tag,
                ..Default::default()
            },
        )
        .unwrap();

        assert!(api.commands.contains_key("issues"));
        assert!(!api.commands.contains_key("repos"));

        let issues = api.commands.get("issues").unwrap();
        let list = issues.commands.as_ref().unwrap().get("list").unwrap();
        assert_eq!(
            list.endpoint.as_deref(),
            Some("/repos/{owner}/{repo}/issues")
        );
        assert_eq!(list.method.as_ref(), Some(&HttpMethod::GET));

        let create = issues.commands.as_ref().unwrap().get("create").unwrap();
        assert_eq!(
            create.endpoint.as_deref(),
            Some("/repos/{owner}/{repo}/issues")
        );
        assert_eq!(create.method.as_ref(), Some(&HttpMethod::POST));
    }

#[test]
    fn test_import_tag_filter() {
        let doc = parse_openapi_content(MINIMAL_OPENAPI).unwrap();
        let api = import_openapi(
            &doc,
            &OpenApiImportOptions {
                name: Some("github".to_string()),
                tag: Some("issues".to_string()),
                ..Default::default()
            },
        )
        .unwrap();
        assert!(api.commands.contains_key("repos"));

        let result = import_openapi(
            &doc,
            &OpenApiImportOptions {
                name: Some("github".to_string()),
                tag: Some("nonexistent".to_string()),
                ..Default::default()
            },
        );
        assert!(result.is_err());
    }

#[test]
    fn test_import_auth_and_env() {
        let doc = parse_openapi_content(MINIMAL_OPENAPI).unwrap();
        let api = import_openapi(
            &doc,
            &OpenApiImportOptions {
                name: Some("github".to_string()),
                ..Default::default()
            },
        )
        .unwrap();
        assert!(api.auth.contains_key("github"));
        assert!(api.env.iter().any(|e| e.name == "GITHUB_TOKEN"));
    }

#[test]
    fn test_import_ghes_server_template_base_url() {
        const GHES_SERVERS: &str = r#"
openapi: 3.0.3
info:
  title: GitHub v3 REST API
  version: "1.0.0"
servers:
  - url: "{protocol}://{hostname}/api/v3"
    variables:
      hostname:
        default: HOSTNAME
      protocol:
        default: http
paths:
  /user:
    get:
      operationId: users/get-authenticated
      responses:
        '200':
          description: ok
"#;
        let doc = parse_openapi_content(GHES_SERVERS).unwrap();
        let api = import_openapi(
            &doc,
            &OpenApiImportOptions {
                name: Some("gh".to_string()),
                ..Default::default()
            },
        )
        .unwrap();
        assert_eq!(api.base_url, "http://HOSTNAME/api/v3");
    }

#[test]
    fn test_tag_nesting_uses_first_tag_when_multiple() {
        const MULTI_TAG: &str = r#"
openapi: 3.0.3
info:
  title: Multi Tag API
  version: "1.0.0"
servers:
  - url: https://api.example.com
paths:
  /items:
    get:
      operationId: items/list
      tags: [catalog, search]
      responses:
        '200':
          description: ok
"#;
        let doc = parse_openapi_content(MULTI_TAG).unwrap();
        let api = import_openapi(
            &doc,
            &OpenApiImportOptions {
                nest_by: OpenApiNestBy::Tag,
                ..Default::default()
            },
        )
        .unwrap();

        assert!(api.commands.contains_key("catalog"));
        assert!(!api.commands.contains_key("search"));
        let catalog = api.commands.get("catalog").unwrap();
        assert!(catalog.commands.as_ref().unwrap().contains_key("list"));
    }

#[test]
    fn test_tag_nesting_sanitizes_tag_names() {
        const SPACED_TAG: &str = r#"
openapi: 3.0.3
info:
  title: Spaced Tags
  version: "1.0.0"
servers:
  - url: https://api.example.com
paths:
  /ping:
    get:
      operationId: ping/get
      tags: ["Enterprise Admin"]
      responses:
        '200':
          description: ok
"#;
        let doc = parse_openapi_content(SPACED_TAG).unwrap();
        let api = import_openapi(
            &doc,
            &OpenApiImportOptions {
                nest_by: OpenApiNestBy::Tag,
                ..Default::default()
            },
        )
        .unwrap();

        assert!(api.commands.contains_key("enterprise-admin"));
        assert!(!api.commands.contains_key("Enterprise Admin"));
    }

#[test]
    fn test_tag_nesting_untagged_uses_operation_id_prefix() {
        const UNTAGGED: &str = r#"
openapi: 3.0.3
info:
  title: Untagged API
  version: "1.0.0"
servers:
  - url: https://api.example.com
paths:
  /repos/{owner}/{repo}/issues:
    get:
      operationId: repos/list-issues
      responses:
        '200':
          description: ok
"#;
        let doc = parse_openapi_content(UNTAGGED).unwrap();
        let api = import_openapi(
            &doc,
            &OpenApiImportOptions {
                nest_by: OpenApiNestBy::Tag,
                ..Default::default()
            },
        )
        .unwrap();

        assert!(api.commands.contains_key("repos"));
        assert!(!api.commands.contains_key("untagged"));
        let repos = api.commands.get("repos").unwrap();
        assert!(repos.commands.as_ref().unwrap().contains_key("list-issues"));
    }

#[test]
    fn test_tag_nesting_untagged_without_operation_id() {
        const UNTAGGED: &str = r#"
openapi: 3.0.3
info:
  title: Untagged API
  version: "1.0.0"
servers:
  - url: https://api.example.com
paths:
  /health:
    get:
      summary: Health check
      responses:
        '200':
          description: ok
"#;
        let doc = parse_openapi_content(UNTAGGED).unwrap();
        let api = import_openapi(
            &doc,
            &OpenApiImportOptions {
                nest_by: OpenApiNestBy::Tag,
                ..Default::default()
            },
        )
        .unwrap();

        assert!(api.commands.contains_key("untagged"));
        let untagged = api.commands.get("untagged").unwrap();
        assert!(untagged.commands.as_ref().unwrap().contains_key("get"));
    }

#[test]
    fn test_tag_filter_with_tag_nesting() {
        let doc = parse_openapi_content(MINIMAL_OPENAPI).unwrap();
        let api = import_openapi(
            &doc,
            &OpenApiImportOptions {
                name: Some("github".to_string()),
                tag: Some("issues".to_string()),
                nest_by: OpenApiNestBy::Tag,
                ..Default::default()
            },
        )
        .unwrap();

        assert_eq!(api.commands.len(), 1);
        assert!(api.commands.contains_key("issues"));
        assert!(!api.commands.contains_key("repos"));
        let issues = api.commands.get("issues").unwrap();
        let cmds = issues.commands.as_ref().unwrap();
        assert_eq!(cmds.len(), 2);
        assert!(cmds.contains_key("list"));
        assert!(cmds.contains_key("create"));
    }

#[test]
    fn test_tag_nesting_resolves_leaf_name_collision() {
        const COLLISION: &str = r#"
openapi: 3.0.3
info:
  title: Collision API
  version: "1.0.0"
servers:
  - url: https://api.example.com
paths:
  /a/items:
    get:
      operationId: items/list
      tags: [items]
      responses:
        '200':
          description: ok
  /b/items:
    get:
      operationId: items/list
      tags: [items]
      responses:
        '200':
          description: ok
"#;
        let doc = parse_openapi_content(COLLISION).unwrap();
        let api = import_openapi(
            &doc,
            &OpenApiImportOptions {
                nest_by: OpenApiNestBy::Tag,
                ..Default::default()
            },
        )
        .unwrap();

        let items = api.commands.get("items").unwrap();
        let cmds = items.commands.as_ref().unwrap();
        assert!(cmds.contains_key("list"));
        assert!(cmds.contains_key("list-2"));
        assert_eq!(cmds.len(), 2);
    }

#[test]
    fn test_short_names_with_path_nesting() {
        let doc = parse_openapi_content(MINIMAL_OPENAPI).unwrap();
        let api = import_openapi(
            &doc,
            &OpenApiImportOptions {
                name: Some("github".to_string()),
                nest_by: OpenApiNestBy::Path,
                short_names: true,
                ..Default::default()
            },
        )
        .unwrap();

        let issues = api
            .commands
            .get("repos")
            .unwrap()
            .commands
            .as_ref()
            .unwrap()
            .get("issues")
            .unwrap()
            .commands
            .as_ref()
            .unwrap();
        assert!(issues.contains_key("list"));
        assert!(issues.contains_key("create"));
        assert!(!issues.contains_key("list-issues"));
    }

#[test]
    fn test_parse_rejects_invalid_yaml() {
        assert_err_contains(
            parse_openapi_content("openapi: [\n  broken"),
            "Invalid OpenAPI YAML",
        );
    }

#[test]
    fn test_parse_rejects_invalid_json() {
        assert_err_contains(parse_openapi_content("{not json"), "Invalid OpenAPI JSON");
    }

#[test]
    fn test_import_rejects_unsupported_openapi_version() {
        const SWAGGER_2: &str = r#"
swagger: "2.0"
info:
  title: Legacy API
  version: "1.0.0"
paths:
  /ping:
    get:
      responses:
        '200':
          description: ok
"#;
        let doc = parse_openapi_content(SWAGGER_2).unwrap();
        assert_err_contains(
            import_openapi(&doc, &OpenApiImportOptions::default()),
            "Unsupported OpenAPI version",
        );
    }

#[test]
    fn test_import_rejects_missing_openapi_version() {
        const NO_VERSION: &str = r#"
info:
  title: No Version API
  version: "1.0.0"
paths:
  /ping:
    get:
      responses:
        '200':
          description: ok
"#;
        let doc = parse_openapi_content(NO_VERSION).unwrap();
        assert_err_contains(
            import_openapi(&doc, &OpenApiImportOptions::default()),
            "Unsupported OpenAPI version",
        );
    }

#[test]
    fn test_import_rejects_empty_paths() {
        const EMPTY_PATHS: &str = r#"
openapi: 3.0.3
info:
  title: Empty API
  version: "1.0.0"
servers:
  - url: https://api.example.com
paths: {}
"#;
        let doc = parse_openapi_content(EMPTY_PATHS).unwrap();
        assert_err_contains(
            import_openapi(&doc, &OpenApiImportOptions::default()),
            "No operations found",
        );
    }

#[test]
    fn test_import_rejects_paths_without_http_methods() {
        const NO_METHODS: &str = r#"
openapi: 3.0.3
info:
  title: Params Only
  version: "1.0.0"
servers:
  - url: https://api.example.com
paths:
  /items:
    parameters:
      - name: q
        in: query
        schema:
          type: string
"#;
        let doc = parse_openapi_content(NO_METHODS).unwrap();
        assert_err_contains(
            import_openapi(&doc, &OpenApiImportOptions::default()),
            "No operations found",
        );
    }

#[test]
    fn test_import_rejects_unsupported_http_methods_only() {
        const HEAD_ONLY: &str = r#"
openapi: 3.0.3
info:
  title: Head Only
  version: "1.0.0"
servers:
  - url: https://api.example.com
paths:
  /items:
    head:
      responses:
        '200':
          description: ok
"#;
        let doc = parse_openapi_content(HEAD_ONLY).unwrap();
        assert_err_contains(
            import_openapi(&doc, &OpenApiImportOptions::default()),
            "No operations found",
        );
    }

#[test]
    fn test_import_rejects_unknown_tag_filter() {
        let doc = parse_openapi_content(MINIMAL_OPENAPI).unwrap();
        assert_err_contains(
            import_openapi(
                &doc,
                &OpenApiImportOptions {
                    tag: Some("nonexistent".to_string()),
                    ..Default::default()
                },
            ),
            "No operations found",
        );
    }

#[test]
    fn test_import_rejects_empty_base_url_override() {
        let doc = parse_openapi_content(MINIMAL_OPENAPI).unwrap();
        assert_err_contains(
            import_openapi(
                &doc,
                &OpenApiImportOptions {
                    base_url: Some(String::new()),
                    ..Default::default()
                },
            ),
            "Base URL cannot be empty",
        );
    }

#[test]
    fn test_import_rejects_invalid_base_url_override() {
        let doc = parse_openapi_content(MINIMAL_OPENAPI).unwrap();
        assert_err_contains(
            import_openapi(
                &doc,
                &OpenApiImportOptions {
                    base_url: Some("not-a-valid-url".to_string()),
                    ..Default::default()
                },
            ),
            "Base URL must use http:// or https://",
        );
    }

#[test]
    fn test_import_rejects_invalid_profile_name() {
        let doc = parse_openapi_content(MINIMAL_OPENAPI).unwrap();
        assert_err_contains(
            import_openapi(
                &doc,
                &OpenApiImportOptions {
                    name: Some("bad name".to_string()),
                    ..Default::default()
                },
            ),
            "API name must be alphanumeric or dash",
        );
    }

#[test]
    fn test_import_tolerates_broken_parameter_ref() {
        const SPEC: &str = r##"
openapi: 3.0.3
info:
  title: Broken Refs API
  version: "1.0.0"
servers:
  - url: https://api.example.com
paths:
  /items:
    get:
      operationId: items/list
      tags: [items]
      parameters:
        - $ref: "#/components/parameters/missing"
        - name: q
          in: query
          schema: { type: string }
      responses:
        '200':
          description: ok
components:
  parameters: {}
"##;
        let doc = parse_openapi_content(SPEC).unwrap();
        let api = import_openapi(
            &doc,
            &OpenApiImportOptions {
                nest_by: OpenApiNestBy::Tag,
                ..Default::default()
            },
        )
        .unwrap();

        let list = api
            .commands
            .get("items")
            .unwrap()
            .commands
            .as_ref()
            .unwrap()
            .get("list")
            .unwrap();
        assert!(list.params.contains_key("q"));
        assert!(!list.params.contains_key("missing"));
    }

#[test]
    fn test_import_tolerates_external_parameter_ref() {
        const SPEC: &str = r##"
openapi: 3.0.3
info:
  title: Broken Refs API
  version: "1.0.0"
servers:
  - url: https://api.example.com
paths:
  /items:
    get:
      operationId: items/list
      tags: [items]
      parameters:
        - $ref: "other.yaml#/components/parameters/page"
        - name: q
          in: query
          schema: { type: string }
      responses:
        '200':
          description: ok
"##;
        let doc = parse_openapi_content(SPEC).unwrap();
        let api = import_openapi(&doc, &OpenApiImportOptions::default()).unwrap();
        let get = api
            .commands
            .get("items")
            .unwrap()
            .commands
            .as_ref()
            .unwrap()
            .get("list")
            .unwrap();
        assert!(get.params.contains_key("q"));
        assert_eq!(get.params.len(), 1);
    }

#[test]
    fn test_import_tolerates_broken_request_body_ref() {
        const SPEC: &str = r##"
openapi: 3.0.3
info:
  title: Broken Refs API
  version: "1.0.0"
servers:
  - url: https://api.example.com
paths:
  /items:
    post:
      operationId: items/create
      tags: [items]
      requestBody:
        $ref: "#/components/requestBodies/missing"
      responses:
        '201':
          description: created
components:
  requestBodies: {}
"##;
        let doc = parse_openapi_content(SPEC).unwrap();
        let api = import_openapi(
            &doc,
            &OpenApiImportOptions {
                nest_by: OpenApiNestBy::Tag,
                ..Default::default()
            },
        )
        .unwrap();

        let create = api
            .commands
            .get("items")
            .unwrap()
            .commands
            .as_ref()
            .unwrap()
            .get("create")
            .unwrap();
        assert!(create.body.is_none());
    }

#[test]
    fn test_import_tolerates_broken_schema_ref_in_body() {
        const SPEC: &str = r##"
openapi: 3.0.3
info:
  title: Broken Refs API
  version: "1.0.0"
servers:
  - url: https://api.example.com
paths:
  /items:
    post:
      operationId: items/create
      tags: [items]
      requestBody:
        required: true
        content:
          application/json:
            schema:
              $ref: "#/components/schemas/Missing"
      responses:
        '201':
          description: created
components:
  schemas: {}
"##;
        let doc = parse_openapi_content(SPEC).unwrap();
        let api = import_openapi(
            &doc,
            &OpenApiImportOptions {
                nest_by: OpenApiNestBy::Tag,
                ..Default::default()
            },
        )
        .unwrap();

        let create = api
            .commands
            .get("items")
            .unwrap()
            .commands
            .as_ref()
            .unwrap()
            .get("create")
            .unwrap();
        let body = create.body.as_ref().expect("body scaffold expected");
        let json = body.json.as_ref().expect("json body expected");
        assert!(matches!(json, JsonValue::Object(members) if members.is_empty()));
        assert!(create.params.is_empty());
    }

#[test]
    fn test_import_tolerates_broken_path_level_parameter_ref() {
        const SPEC: &str = r##"
openapi: 3.0.3
info:
  title: Broken Refs API
  version: "1.0.0"
servers:
  - url: https://api.example.com
paths:
  /items/{id}:
    parameters:
      - $ref: "#/components/parameters/missing-id"
    get:
      operationId: items/get
      tags: [items]
      responses:
        '200':
          description: ok
components:
  parameters: {}
"##;
        let doc = parse_openapi_content(SPEC).unwrap();
        let api = import_openapi(
            &doc,
            &OpenApiImportOptions {
                nest_by: OpenApiNestBy::Tag,
                ..Default::default()
            },
        )
        .unwrap();

        let get = api
            .commands
            .get("items")
            .unwrap()
            .commands
            .as_ref()
            .unwrap()
            .get("get")
            .unwrap();
        assert_eq!(get.endpoint.as_deref(), Some("/items/{id}"));
        assert!(get.params.is_empty());
    }

#[test]
    fn test_import_tolerates_circular_schema_ref() {
        const SPEC: &str = r##"
openapi: 3.0.3
info:
  title: Broken Refs API
  version: "1.0.0"
servers:
  - url: https://api.example.com
paths:
  /items:
    post:
      operationId: items/create
      tags: [items]
      requestBody:
        required: true
        content:
          application/json:
            schema:
              $ref: "#/components/schemas/Node"
      responses:
        '201':
          description: created
components:
  schemas:
    Node:
      type: object
      properties:
        child:
          $ref: "#/components/schemas/Node"
"##;
        let doc = parse_openapi_content(SPEC).unwrap();
        let api = import_openapi(
            &doc,
            &OpenApiImportOptions {
                nest_by: OpenApiNestBy::Tag,
                ..Default::default()
            },
        )
        .expect("circular schema refs should not abort import");

        let create = api
            .commands
            .get("items")
            .unwrap()
            .commands
            .as_ref()
            .unwrap()
            .get("create")
            .unwrap();
        assert!(create.body.is_some());
    }

#[test]
    fn test_import_api_errors_from_github_schemas() {
        let doc = parse_openapi_content(GITHUB_ERROR_SCHEMAS_OPENAPI).unwrap();
        let api = import_openapi(&doc, &OpenApiImportOptions::default()).unwrap();

        let errors = api.errors.as_ref().expect("api errors expected");
        assert_eq!(errors.default.as_ref().unwrap().message, "{output.message}");
        assert_eq!(
            errors.codes.get("422").unwrap().message,
            "{output.message} ({output.errors.0.field}: {output.errors.0.message})"
        );
    }

#[test]
    fn test_import_success_messages_from_response_schemas() {
        let doc = parse_openapi_content(GITHUB_ERROR_SCHEMAS_OPENAPI).unwrap();
        let api = import_openapi(
            &doc,
            &OpenApiImportOptions {
                nest_by: OpenApiNestBy::Tag,
                ..Default::default()
            },
        )
        .unwrap();

        let create = api
            .commands
            .get("issues")
            .unwrap()
            .commands
            .as_ref()
            .unwrap()
            .get("create")
            .unwrap();
        let responses = create.responses.as_ref().unwrap();
        assert_eq!(
            responses.success.as_ref().unwrap().message,
            "#{output.number}: {output.title}"
        );

        let list = api
            .commands
            .get("issues")
            .unwrap()
            .commands
            .as_ref()
            .unwrap()
            .get("list")
            .unwrap();
        let list_responses = list.responses.as_ref().unwrap();
        assert_eq!(
            list_responses.success.as_ref().unwrap().message,
            "#{output.0.number}: {output.0.title}"
        );
    }

#[test]
    fn test_import_operation_error_codes_deduplicate_api_defaults() {
        let doc = parse_openapi_content(GITHUB_ERROR_SCHEMAS_OPENAPI).unwrap();
        let api = import_openapi(
            &doc,
            &OpenApiImportOptions {
                nest_by: OpenApiNestBy::Tag,
                ..Default::default()
            },
        )
        .unwrap();

        let create = api
            .commands
            .get("issues")
            .unwrap()
            .commands
            .as_ref()
            .unwrap()
            .get("create")
            .unwrap();
        let responses = create.responses.as_ref().unwrap();
        assert!(responses.failure.is_none());
        assert!(!responses.codes.contains_key("404"));
        assert!(!responses.codes.contains_key("422"));
    }

#[test]
    fn test_github_auto_preset_adds_headers_and_auth_for_ghes() {
        const GHES: &str = r##"
openapi: 3.0.3
info:
  title: GitHub v3 REST API
  version: "1.0.0"
servers:
  - url: "{protocol}://{hostname}/api/v3"
    variables:
      hostname:
        default: HOSTNAME
      protocol:
        default: http
paths:
  /repos/{owner}/{repo}/issues:
    get:
      operationId: repos/list-issues
      tags: [issues]
      responses:
        '200':
          description: ok
components:
  schemas: {}
"##;
        let doc = parse_openapi_content(GHES).unwrap();
        let api = import_openapi(
            &doc,
            &OpenApiImportOptions {
                nest_by: OpenApiNestBy::Tag,
                ..Default::default()
            },
        )
        .unwrap();

        assert!(api.auth.contains_key("github"));
        assert!(api.env.iter().any(|e| e.name == "GITHUB_TOKEN"));

        let list = api
            .commands
            .get("issues")
            .unwrap()
            .commands
            .as_ref()
            .unwrap()
            .get("list")
            .unwrap();
        assert_eq!(
            list.headers.get("Accept").map(String::as_str),
            Some("application/vnd.github.v3+json")
        );
        assert_eq!(list.auth.as_deref(), Some("github"));
    }

#[test]
    fn test_github_preset_none_skips_headers() {
        const GHES: &str = r##"
openapi: 3.0.3
info:
  title: GitHub v3 REST API
  version: "1.0.0"
servers:
  - url: http://HOSTNAME/api/v3
paths:
  /repos/{owner}/{repo}/issues:
    get:
      operationId: repos/list-issues
      responses:
        '200':
          description: ok
"##;
        let doc = parse_openapi_content(GHES).unwrap();
        let api = import_openapi(
            &doc,
            &OpenApiImportOptions {
                preset: OpenApiPreset::Off,
                ..Default::default()
            },
        )
        .unwrap();

        assert!(api.auth.is_empty());
        assert!(api.env.is_empty());
        let list = api
            .commands
            .get("repos")
            .unwrap()
            .commands
            .as_ref()
            .unwrap()
            .get("issues")
            .unwrap()
            .commands
            .as_ref()
            .unwrap()
            .get("list-issues")
            .unwrap();
        assert!(!list.headers.contains_key("Accept"));
    }

#[test]
    fn test_import_auth_and_env_includes_github_headers() {
        let doc = parse_openapi_content(MINIMAL_OPENAPI).unwrap();
        let api = import_openapi(
            &doc,
            &OpenApiImportOptions {
                name: Some("github".to_string()),
                ..Default::default()
            },
        )
        .unwrap();
        assert!(api.auth.contains_key("github"));
        assert!(api.env.iter().any(|e| e.name == "GITHUB_TOKEN"));

        let post = api
            .commands
            .get("repos")
            .unwrap()
            .commands
            .as_ref()
            .unwrap()
            .get("issues")
            .unwrap()
            .commands
            .as_ref()
            .unwrap()
            .get("create-issue")
            .unwrap();
        assert_eq!(
            post.headers.get("Accept").map(String::as_str),
            Some("application/vnd.github.v3+json")
        );
    }

#[test]
fn test_runtime_auth_parsers_native() {
    let token = JsonValue::Object(vec![("token".to_string(), JsonValue::Str("t".to_string()))]);
    let bearer = ycallr_core::runtime_auth::parse_runtime_auth("bearer", &token).unwrap();
    assert!(matches!(bearer, AuthConfig::Bearer { .. }));

    let key = JsonValue::Object(vec![
        ("key".to_string(), JsonValue::Str("k".to_string())),
        ("name".to_string(), JsonValue::Str("H".to_string())),
        ("in".to_string(), JsonValue::Str("cookie".to_string())),
    ]);
    let api_key = ycallr_core::runtime_auth::parse_runtime_auth("api_key", &key).unwrap();
    assert!(matches!(api_key, AuthConfig::ApiKey { .. }));

    assert!(ycallr_core::runtime_auth::parse_runtime_auth("unknown", &JsonValue::Object(vec![])).is_err());
    let empty = JsonValue::Object(vec![("token".to_string(), JsonValue::Str(String::new()))]);
    assert!(ycallr_core::runtime_auth::parse_runtime_auth("bearer", &empty).is_err());
}

#[test]
fn runtime_auth_messages_and_defaults() {
    let data = JsonValue::Object(vec![("key".to_string(), JsonValue::Str("k".to_string()))]);
    match parse_runtime_auth("api_key", &data).unwrap() {
        AuthConfig::ApiKey { key, name, in_ } => {
            assert_eq!(key, "k");
            assert_eq!(name, "X-API-Key");
            assert_eq!(in_, ycallr_core::ApiKeyLocation::Header);
        },
        other => panic!("unexpected {:?}", other),
    }
    let bad_in = JsonValue::Object(vec![
        ("key".to_string(), JsonValue::Str("k".to_string())),
        ("in".to_string(), JsonValue::Str("body".to_string())),
    ]);
    assert_eq!(
        parse_runtime_auth("api_key", &bad_in).unwrap_err(),
        "Unknown api_key location 'body': expected header, query, or cookie"
    );
    assert_eq!(parse_runtime_auth("digest", &data).unwrap_err(), "Unknown auth type 'digest'");
    let basic = JsonValue::Object(vec![
        ("username".to_string(), JsonValue::Str("u".to_string())),
        ("password".to_string(), JsonValue::Str("  ".to_string())),
    ]);
    assert_eq!(
        parse_runtime_auth("http_basic", &basic).unwrap_err(),
        "http_basic auth requires non-empty 'password'"
    );
    let custom = JsonValue::Object(vec![
        ("prefix".to_string(), JsonValue::Str("Token".to_string())),
        ("token".to_string(), JsonValue::Str("abc".to_string())),
    ]);
    match parse_runtime_auth("http_custom", &custom).unwrap() {
        AuthConfig::Http { scheme, prefix, token, .. } => {
            assert_eq!(scheme, "custom");
            assert_eq!(prefix.as_deref(), Some("Token"));
            assert_eq!(token.as_deref(), Some("abc"));
        },
        other => panic!("unexpected {:?}", other),
    }
}

#[test]
fn importer_names_slugs_and_segments() {
    assert_eq!(slugify_name("GitHub REST  API!"), "github-rest-api");
    assert_eq!(slugify_name("---"), "api");
    assert_eq!(sanitize_segment("Enterprise Admin"), "enterprise-admin");
    assert_eq!(sanitize_segment("--a__b--"), "a__b");
    assert_eq!(path_segments("/repos//{owner}/issues/"), vec!["repos", "{owner}", "issues"]);
    assert!(is_path_param_segment("{owner}"));
    assert!(!is_path_param_segment("owner}"));
    assert_eq!(parse_http_method("Patch"), Some(HttpMethod::PATCH));
    assert_eq!(parse_http_method("head"), None);
    assert_eq!(parse_response_status_code("404"), Some(404));
    assert_eq!(parse_response_status_code("4XX"), None);
    assert_eq!(parse_response_status_code("2000"), None);
}

#[test]
fn importer_shortens_leaf_names() {
    let segs = vec!["repos".to_string(), "issues".to_string()];
    assert_eq!(shorten_leaf_name("list-issues", &segs, Some("repos/list-issues")), "list");
    assert_eq!(shorten_leaf_name("repos-get-issue", &segs, None), "get");
    assert_eq!(shorten_leaf_name("issues", &segs, None), "issues");
}

#[test]
fn importer_server_urls() {
    let vars = JsonValue::Object(vec![(
        "host".to_string(),
        JsonValue::Object(vec![("default".to_string(), JsonValue::Str("gh.local".to_string()))]),
    )]);
    assert_eq!(resolve_server_url("https://{host}/{version}/", Some(&vars)), "https://gh.local/example.com");
    assert_eq!(resolve_server_url("https://{open", None), "https://{open");
    assert_eq!(extract_base_url(&JsonValue::Object(vec![])), "https://api.example.com");
}

#[test]
fn importer_refuses_cyclic_parameter_refs() {
    const CYCLE: &str = r##"
openapi: 3.0.3
info:
  title: Cycle
  version: "1.0.0"
paths:
  /items:
    get:
      parameters:
        $ref: "#/components/parameters/loop"
components:
  parameters:
    loop:
      $ref: "#/components/parameters/loop"
"##;
    let doc = parse_openapi_content(CYCLE).unwrap();
    assert!(!openapi_params_end(&doc));
    let ok = parse_openapi_content(MINIMAL_OPENAPI).unwrap();
    assert!(openapi_params_end(&ok));
}

#[test]
fn importer_duplicate_operation_gets_numbered_key() {
    const DUP: &str = r##"
openapi: 3.0.3
info:
  title: Dup
  version: "2.0"
  description: "First line\nsecond line"
servers:
  - url: https://api.example.com/
paths:
  /things:
    get:
      operationId: things
    post:
      operationId: things
"##;
    let doc = parse_openapi_content(DUP).unwrap();
    let api = import_openapi(&doc, &OpenApiImportOptions::default()).unwrap();
    assert_eq!(api.name, "dup");
    assert_eq!(api.version, "2.0");
    assert_eq!(api.description, "First line");
    assert_eq!(api.base_url, "https://api.example.com");
    let things = api.commands.get("things").unwrap().commands.as_ref().unwrap();
    assert_eq!(things.get("things").unwrap().method, Some(HttpMethod::GET));
    assert_eq!(things.get("things-2").unwrap().method, Some(HttpMethod::POST));
    let _ = ParamType::String;
}

fn param(required: bool) -> ycallr_core::Parameter {
    ycallr_core::Parameter { description: "p".to_string(), param_type: ParamType::String, required }
}

fn leaf(endpoint: &str, method: HttpMethod) -> Command {
    Command {
        description: None,
        endpoint: Some(endpoint.to_string()),
        method: Some(method),
        auth: None,
        headers: Dict::new(),
        params: Dict::new(),
        body: None,
        responses: None,
        commands: None,
    }
}

#[test]
fn test_missing_required_params_helper() {
    let mut cmd = leaf("/repos/{owner}/{repo}", HttpMethod::GET);
    cmd.params.insert("owner".to_string(), param(true));
    cmd.params.insert("repo".to_string(), param(true));
    let mut commands = Dict::new();
    commands.insert("get-repo".to_string(), cmd);
    let def = ycallr_core::ApiDefinition {
        name: "g".to_string(),
        version: "1".to_string(),
        description: String::new(),
        base_url: "https://api.example.com".to_string(),
        env: vec![],
        auth: Dict::new(),
        commands,
        errors: None,
    };
    let mut params = Dict::new();
    params.insert("owner".to_string(), "o".to_string());
    let json = ycallr_core::bindings::compute_missing_params_json(&def, "get-repo", &params).unwrap();
    assert_eq!(json, r#"["repo"]"#);
    assert!(ycallr_core::bindings::compute_missing_params_json(&def, "nope", &params).is_err());
}

#[test]
fn missing_params_include_undeclared_path_placeholders_once() {
    let mut cmd = leaf("/orgs/{org}/teams/{team}/{org}", HttpMethod::GET);
    cmd.params.insert("q".to_string(), param(true));
    cmd.params.insert("page".to_string(), param(false));
    let mut given = Dict::new();
    given.insert("team".to_string(), "t".to_string());
    let missing = ycallr_core::bindings::missing_required_params(&cmd, &given);
    assert_eq!(missing, vec!["q".to_string(), "org".to_string()]);
}

#[test]
fn implicit_body_for_write_commands_only() {
    let post = leaf("/repos/{owner}/issues", HttpMethod::POST);
    let mut given = Dict::new();
    given.insert("owner".to_string(), "me".to_string());
    given.insert("title".to_string(), "Bug".to_string());
    let body = build_implicit_body(&post, &given).unwrap();
    assert_eq!(body, JsonValue::Object(vec![("title".to_string(), JsonValue::Str("Bug".to_string()))]));
    let get = leaf("/repos/{owner}/issues", HttpMethod::GET);
    assert!(build_implicit_body(&get, &given).is_none());
    let mut only_path = Dict::new();
    only_path.insert("owner".to_string(), "me".to_string());
    assert!(build_implicit_body(&post, &only_path).is_none());
}

#[test]
fn include_entries_are_checked_before_reading() {
    use_check_include();
}

fn use_check_include() {
    let no_dir = ycallr_core::includes::check_include("commands.repos", false, "./repos.yaml", false).unwrap_err();
    assert!(no_dir.message().contains("requires parsing from a YAML file"));
    let both = ycallr_core::includes::check_include("commands.repos", true, "./repos.yaml", true).unwrap_err();
    assert!(both.message().contains("cannot use both 'include' and inline 'commands'"));
    let blank = ycallr_core::includes::check_include("commands.repos", false, "  ", true).unwrap_err();
    assert!(blank.message().contains("'include' path cannot be empty"));
    assert!(ycallr_core::includes::check_include("commands.repos", false, "./repos.yaml", true).is_ok());
    let circular = ycallr_core::includes::circular_include_error("commands.root.child", "./a.yaml");
    assert!(circular.message().contains("circular include"));
    assert_eq!(ycallr_core::includes::child_command_path("commands", "repos"), "commands.repos");
}

const ENUM_SCHEMAS: &str = r##"{
  "openapi": "3.0.3",
  "components": {
    "schemas": {
      "State": { "type": "string", "enum": ["open", "closed", "all"] },
      "Level": { "enum": [1, 2.5, true, null, {"x": 1}] },
      "Empty": { "enum": [null] },
      "Wrapped": { "allOf": [ { "type": "string" }, { "$ref": "#/components/schemas/State" } ] },
      "Choice": { "anyOf": [ { "$ref": "#/components/schemas/Empty" } ], "oneOf": [ { "enum": ["a"] } ] },
      "Plain": { "type": "string" }
    }
  }
}"##;

fn enum_schema<'a>(doc: &'a JsonValue, name: &str) -> &'a JsonValue {
    doc.get_key("components").unwrap().get_key("schemas").unwrap().get_key(name).unwrap()
}

fn some_texts(xs: &[&str]) -> Option<Vec<String>> {
    Some(xs.iter().map(|s| s.to_string()).collect())
}

#[test]
fn test_enum_values_own_list() {
    let doc = parse_openapi_content(ENUM_SCHEMAS).unwrap();
    let got = extract_enum_values_from_schema(enum_schema(&doc, "State"), &doc);
    assert_eq!(got, some_texts(&["open", "closed", "all"]));
}

#[test]
fn test_enum_values_numbers_and_booleans() {
    let doc = parse_openapi_content(ENUM_SCHEMAS).unwrap();
    let got = extract_enum_values_from_schema(enum_schema(&doc, "Level"), &doc);
    assert_eq!(got, some_texts(&["1", "2.5", "true"]));
}

#[test]
fn test_enum_values_through_ref_and_all_of() {
    let doc = parse_openapi_content(ENUM_SCHEMAS).unwrap();
    let reference = parse_openapi_content(r##"{"$ref": "#/components/schemas/State"}"##).unwrap();
    assert_eq!(
        extract_enum_values_from_schema(&reference, &doc), some_texts(&["open", "closed", "all"])
    );
    assert_eq!(
        extract_enum_values_from_schema(enum_schema(&doc, "Wrapped"), &doc), some_texts(&["open", "closed", "all"])
    );
}

#[test]
fn test_enum_values_skip_empty_lists_in_order() {
    let doc = parse_openapi_content(ENUM_SCHEMAS).unwrap();
    assert_eq!(extract_enum_values_from_schema(enum_schema(&doc, "Empty"), &doc), None);
    assert_eq!(
        extract_enum_values_from_schema(enum_schema(&doc, "Choice"), &doc), some_texts(&["a"])
    );
    assert_eq!(extract_enum_values_from_schema(enum_schema(&doc, "Plain"), &doc), None);
}

#[test]
fn test_enum_array_to_strings_cases() {
    let arr = parse_openapi_content(r#"["x", 3, false]"#).unwrap();
    assert_eq!(enum_array_to_strings(&arr), some_texts(&["x", "3", "false"]));
    let none = parse_openapi_content(r#"[null, []]"#).unwrap();
    assert_eq!(enum_array_to_strings(&none), None);
    let obj = parse_openapi_content(r#"{"a": "b"}"#).unwrap();
    assert_eq!(enum_array_to_strings(&obj), None);
}

#[test]
fn test_slugify_name_shape_and_idempotence() {
    for title in ["!!Hello--World!!", "GitHub REST  API!", "!!!", "a", "Été 2024 -- v2", "--x--y--"] {
        let s = slugify_name(title);
        assert!(!s.is_empty());
        assert!(s.chars().all(|c| c.is_ascii_lowercase() || c.is_ascii_digit() || c == '-'));
        assert!(!s.contains("--"));
        assert!(!s.starts_with('-') && !s.ends_with('-'));
        assert_eq!(slugify_name(&s), s);
    }
    assert_eq!(slugify_name("!!!"), "api");
    assert_eq!(slugify_name("!!Hello--World!!"), "hello-world");
}

#[test]
fn importer_reports_version_before_following_parameter_refs() {
    const SWAGGER_CYCLE: &str = r##"
swagger: "2.0"
info:
  title: Cycle
  version: "1.0.0"
paths:
  /items:
    get:
      parameters:
        $ref: "#/components/parameters/loop"
components:
  parameters:
    loop:
      $ref: "#/components/parameters/loop"
"##;
    let doc = parse_openapi_content(SWAGGER_CYCLE).unwrap();
    assert_eq!(ycallr_core::openapi_importer::openapi_version(&doc), "2.0");
    assert!(!openapi_params_end(&doc));
    assert_err_contains(
        import_openapi(&doc, &OpenApiImportOptions::default()),
        "Unsupported OpenAPI version '2.0' (expected 3.x)",
    );
}

#[test]
fn importer_marks_every_variable_required() {
    let doc = parse_openapi_content(MINIMAL_OPENAPI).unwrap();
    let api = import_openapi(&doc, &OpenApiImportOptions::default()).unwrap();
    assert!(api.env.iter().all(|e| e.required));
}

#[test]
fn include_stack_refuses_a_file_already_being_read() {
    let mut stack: Vec<String> = Vec::new();
    assert!(enter_include(&mut stack, "/p/a.yaml", "commands.a", "./a.yaml").is_ok());
    assert!(enter_include(&mut stack, "/p/b.yaml", "commands.a.b", "./b.yaml").is_ok());
    let err = enter_include(&mut stack, "/p/a.yaml", "commands.a.b.c", "../a.yaml").unwrap_err();
    assert_eq!(
        err.message(),
        "Invalid API definition: Command 'commands.a.b.c': circular include detected for '../a.yaml'"
    );
    assert_eq!(stack, vec!["/p/a.yaml".to_string(), "/p/b.yaml".to_string()]);
    leave_include(&mut stack);
    leave_include(&mut stack);
    assert!(stack.is_empty());
    assert!(enter_include(&mut stack, "/p/a.yaml", "commands.x", "./a.yaml").is_ok());
}
