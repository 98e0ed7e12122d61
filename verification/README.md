# ycallr_core

The verified core of the ycallr API execution engine, written in Verus.

- `src/` is the library: API profile models and their validation, endpoint and
  template resolution, request preparation (`call_engine`), the protobuf model
  conversions (`compiler`, `proto`), the client builder, profile names, runtime
  auth parsing, the OpenAPI 3.x importer (`openapi_importer`) and the include
  checks. Every function carries a contract over spec models (`Seq`, `Map`,
  the `Json` view of `JsonValue`) and is proved by Verus; the laws stand as
  public proof functions (`*/laws.rs`, `law_*`).
- `src/outside.rs` holds the few trusted wrappers around outside crates
  (`serde_json`, `serde_yaml`, `base64`, `percent-encoding`, `dirs`).
- `app/` is ordinary Rust around the library: YAML and protobuf files, the
  HTTP transport, the environment, and the serde copies of the library types.
- `tests/` exercises the library from outside.
