//! Verified core of the ycallr API execution engine: API profile models,
//! validation, endpoint and template resolution, request preparation and
//! protobuf model conversions.

pub mod text;
pub mod dict;
pub mod json;
pub mod error;
pub mod models;
pub mod outside;
pub mod urlencode;
pub mod literals;
pub mod templates;
pub mod call_engine;
pub mod proto;
pub mod compiler;
pub mod client;
pub mod profile_store;
pub mod openapi_importer;
pub mod runtime_auth;
pub mod bindings;
pub mod includes;
pub mod test_utils;

pub use error::YcallrError;
pub use dict::Dict;
pub use json::JsonValue;
pub use models::types::{
    ApiDefinition, ApiErrorConfig, ApiKeyLocation, AuthConfig, BodyConfig, Command, EnvVar, HttpMethod,
    MultipartField, ParamType, Parameter, ResponseConfig, ResponseEntry,
};
pub use models::details::CommandDetails;
pub use call_engine::types::{ApiError, ApiResponse, EnvMode};
pub use client::{YcallrClient, YcallrClientBuilder};
