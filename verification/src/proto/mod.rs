//! The compiled (protobuf) form of an API profile, message by message.
//! Maps are tables of entries; enum fields hold their numeric codes.

pub mod auth_config;

use vstd::prelude::*;
use crate::dict::Dict;

verus! {

/// HTTP method codes of the compiled form.
#[derive(Debug, Clone, Copy, PartialEq, Eq, Structural)]
pub enum HttpMethod {
    Get,
    Post,
    Put,
    Delete,
    Patch,
}

/// Parameter type codes of the compiled form.
#[derive(Debug, Clone, Copy, PartialEq, Eq, Structural)]
pub enum ParamType {
    String,
    Number,
    Boolean,
    Array,
}

/// API key location codes of the compiled form.
#[derive(Debug, Clone, Copy, PartialEq, Eq, Structural)]
pub enum ApiKeyLocation {
    Header,
    Query,
    Cookie,
}

pub open spec fn method_code(m: HttpMethod) -> i32 {
    match m {
        HttpMethod::Get => 0,
        HttpMethod::Post => 1,
        HttpMethod::Put => 2,
        HttpMethod::Delete => 3,
        HttpMethod::Patch => 4,
    }
}

pub open spec fn type_code(t: ParamType) -> i32 {
    match t {
        ParamType::String => 0,
        ParamType::Number => 1,
        ParamType::Boolean => 2,
        ParamType::Array => 3,
    }
}

pub open spec fn location_code(l: ApiKeyLocation) -> i32 {
    match l {
        ApiKeyLocation::Header => 0,
        ApiKeyLocation::Query => 1,
        ApiKeyLocation::Cookie => 2,
    }
}

impl HttpMethod {
    /// The numeric code.
    pub fn code(&self) -> (r: i32)
        ensures
            r == method_code(*self),
    {
        match self {
            HttpMethod::Get => 0,
            HttpMethod::Post => 1,
            HttpMethod::Put => 2,
            HttpMethod::Delete => 3,
            HttpMethod::Patch => 4,
        }
    }
}

impl ParamType {
    /// The numeric code.
    pub fn code(&self) -> (r: i32)
        ensures
            r == type_code(*self),
    {
        match self {
            ParamType::String => 0,
            ParamType::Number => 1,
            ParamType::Boolean => 2,
            ParamType::Array => 3,
        }
    }
}

impl ApiKeyLocation {
    /// The numeric code.
    pub fn code(&self) -> (r: i32)
        ensures
            r == location_code(*self),
    {
        match self {
            ApiKeyLocation::Header => 0,
            ApiKeyLocation::Query => 1,
            ApiKeyLocation::Cookie => 2,
        }
    }
}

#[derive(Debug, PartialEq)]
pub struct Parameter {
    pub description: String,
    pub param_type: i32,
    pub required: bool,
}

#[derive(Debug, PartialEq)]
pub struct EnvVar {
    pub name: String,
    pub required: bool,
}

#[derive(Debug, PartialEq)]
pub struct BearerAuth {
    pub token: String,
}

#[derive(Debug, PartialEq)]
pub struct ApiKeyAuth {
    pub key: String,
    pub name: String,
    pub location: i32,
}

#[derive(Debug, PartialEq)]
pub struct HttpAuth {
    pub scheme: String,
    pub token: Option<String>,
    pub username: Option<String>,
    pub password: Option<String>,
    pub prefix: Option<String>,
}

#[derive(Debug, PartialEq)]
pub struct AuthConfig {
    pub kind: Option<auth_config::Kind>,
}

#[derive(Debug, PartialEq)]
pub struct MultipartField {
    pub name: String,
    pub text: Option<String>,
    pub file: Option<String>,
}

/// A body: JSON as text, form fields, raw text and multipart fields (empty
/// tables stand for "not set").
#[derive(Debug, PartialEq)]
pub struct BodyConfig {
    pub json: Option<String>,
    pub fields: Dict<String>,
    pub raw: Option<String>,
    pub multipart: Vec<MultipartField>,
}

#[derive(Debug, PartialEq)]
pub struct ResponseEntry {
    pub message: String,
}

#[derive(Debug, PartialEq)]
pub struct ResponseConfig {
    pub success: Option<ResponseEntry>,
    pub failure: Option<ResponseEntry>,
    pub warn: Option<ResponseEntry>,
    pub codes: Dict<ResponseEntry>,
}

#[derive(Debug, PartialEq)]
pub struct ApiErrorConfig {
    pub default_entry: Option<ResponseEntry>,
    pub codes: Dict<ResponseEntry>,
}

/// A command; an empty sub-command table stands for "no sub-commands".
#[derive(Debug, PartialEq)]
pub struct Command {
    pub description: Option<String>,
    pub endpoint: Option<String>,
    pub method: Option<i32>,
    pub headers: Dict<String>,
    pub params: Dict<Parameter>,
    pub commands: Vec<(String, Command)>,
    pub body: Option<BodyConfig>,
    pub responses: Option<ResponseConfig>,
    pub auth: Option<String>,
}

#[derive(Debug, PartialEq)]
pub struct ApiDefinition {
    pub name: String,
    pub version: String,
    pub description: String,
    pub base_url: String,
    pub commands: Dict<Command>,
    pub env: Vec<EnvVar>,
    pub auth: Dict<AuthConfig>,
    pub errors: Option<ApiErrorConfig>,
}

// ---------------------------------------------------------------- models

pub struct BodyMessage {
    pub json: Option<Seq<char>>,
    pub fields: Seq<(String, String)>,
    pub raw: Option<String>,
    pub multipart: Seq<MultipartField>,
}

pub struct ResponsesMessage {
    pub success: Option<ResponseEntry>,
    pub failure: Option<ResponseEntry>,
    pub warn: Option<ResponseEntry>,
    pub codes: Seq<(String, ResponseEntry)>,
}

pub struct ErrorsMessage {
    pub default_entry: Option<ResponseEntry>,
    pub codes: Seq<(String, ResponseEntry)>,
}

pub struct CommandMessage {
    pub description: Option<String>,
    pub endpoint: Option<String>,
    pub method: Option<i32>,
    pub headers: Seq<(String, String)>,
    pub params: Seq<(String, Parameter)>,
    pub commands: Seq<(String, CommandMessage)>,
    pub body: Option<BodyMessage>,
    pub responses: Option<ResponsesMessage>,
    pub auth: Option<String>,
}

pub struct ApiMessage {
    pub name: String,
    pub version: String,
    pub description: String,
    pub base_url: String,
    pub commands: Seq<(String, CommandMessage)>,
    pub env: Seq<EnvVar>,
    pub auth: Seq<(String, AuthConfig)>,
    pub errors: Option<ErrorsMessage>,
}

impl View for BodyConfig {
    type V = BodyMessage;

    open spec fn view(&self) -> BodyMessage {
        BodyMessage {
            json: match self.json {
                Some(s) => Some(s@),
                None => None,
            },
            fields: self.fields.entries@,
            raw: self.raw,
            multipart: self.multipart@,
        }
    }
}

impl View for ResponseConfig {
    type V = ResponsesMessage;

    open spec fn view(&self) -> ResponsesMessage {
        ResponsesMessage { success: self.success, failure: self.failure, warn: self.warn, codes: self.codes.entries@ }
    }
}

impl View for ApiErrorConfig {
    type V = ErrorsMessage;

    open spec fn view(&self) -> ErrorsMessage {
        ErrorsMessage { default_entry: self.default_entry, codes: self.codes.entries@ }
    }
}

/// Model of a compiled command and, recursively, of its sub-commands.
pub open spec fn command_message(c: Command) -> CommandMessage
    decreases c,
{
    CommandMessage {
        description: c.description,
        endpoint: c.endpoint,
        method: c.method,
        headers: c.headers.entries@,
        params: c.params.entries@,
        commands: Seq::new(
            c.commands@.len(),
            |i: int|
                if 0 <= i < c.commands@.len() {
                    (c.commands@[i].0, command_message(c.commands@[i].1))
                } else {
                    arbitrary()
                },
        ),
        body: match c.body {
            Some(b) => Some(b@),
            None => None,
        },
        responses: match c.responses {
            Some(r) => Some(r@),
            None => None,
        },
        auth: c.auth,
    }
}

impl View for Command {
    type V = CommandMessage;

    open spec fn view(&self) -> CommandMessage {
        command_message(*self)
    }
}

/// Models of the commands of a compiled table, with their names.
pub open spec fn command_messages(es: Seq<(String, Command)>) -> Seq<(String, CommandMessage)> {
    Seq::new(
        es.len(),
        |i: int|
            if 0 <= i < es.len() {
                (es[i].0, command_message(es[i].1))
            } else {
                arbitrary()
            },
    )
}

impl View for ApiDefinition {
    type V = ApiMessage;

    open spec fn view(&self) -> ApiMessage {
        ApiMessage {
            name: self.name,
            version: self.version,
            description: self.description,
            base_url: self.base_url,
            commands: command_messages(self.commands.entries@),
            env: self.env@,
            auth: self.auth.entries@,
            errors: match self.errors {
                Some(e) => Some(e@),
                None => None,
            },
        }
    }
}

} // verus!
