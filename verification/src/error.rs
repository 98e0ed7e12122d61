//! Errors reported by the library.

use vstd::prelude::*;
use crate::text::owned;

verus! {

/// What went wrong. Each variant carries the human-readable detail.
#[derive(Debug, PartialEq)]
pub enum YcallrError {
    YamlParse(String),
    InvalidDefinition(String),
    CommandNotFound(String),
    ParamValidation(String),
    Protobuf(String),
    Io(String),
    Serialization(String),
    HttpClient(String),
    EnvVar(String),
    ProfileNotInstalled { name: String, message: String },
    ProfileInstall(String),
    OpenApiParse(String),
}

/// Model of an error: its kind and its detail text.
pub enum ErrorModel {
    YamlParse(Seq<char>),
    InvalidDefinition(Seq<char>),
    CommandNotFound(Seq<char>),
    ParamValidation(Seq<char>),
    Protobuf(Seq<char>),
    Io(Seq<char>),
    Serialization(Seq<char>),
    HttpClient(Seq<char>),
    EnvVar(Seq<char>),
    ProfileNotInstalled { name: Seq<char>, message: Seq<char> },
    ProfileInstall(Seq<char>),
    OpenApiParse(Seq<char>),
}

impl View for YcallrError {
    type V = ErrorModel;

    open spec fn view(&self) -> ErrorModel {
        match self {
            YcallrError::YamlParse(m) => ErrorModel::YamlParse(m@),
            YcallrError::InvalidDefinition(m) => ErrorModel::InvalidDefinition(m@),
            YcallrError::CommandNotFound(m) => ErrorModel::CommandNotFound(m@),
            YcallrError::ParamValidation(m) => ErrorModel::ParamValidation(m@),
            YcallrError::Protobuf(m) => ErrorModel::Protobuf(m@),
            YcallrError::Io(m) => ErrorModel::Io(m@),
            YcallrError::Serialization(m) => ErrorModel::Serialization(m@),
            YcallrError::HttpClient(m) => ErrorModel::HttpClient(m@),
            YcallrError::EnvVar(m) => ErrorModel::EnvVar(m@),
            YcallrError::ProfileNotInstalled { name, message } => ErrorModel::ProfileNotInstalled {
                name: name@,
                message: message@,
            },
            YcallrError::ProfileInstall(m) => ErrorModel::ProfileInstall(m@),
            YcallrError::OpenApiParse(m) => ErrorModel::OpenApiParse(m@),
        }
    }
}

/// Model of a result that carries text.
pub open spec fn text_result(r: Result<String, YcallrError>) -> Result<Seq<char>, ErrorModel> {
    match r {
        Ok(s) => Ok(s@),
        Err(e) => Err(e@),
    }
}

/// Model of a result that carries nothing.
pub open spec fn unit_result(r: Result<(), YcallrError>) -> Result<(), ErrorModel> {
    match r {
        Ok(()) => Ok(()),
        Err(e) => Err(e@),
    }
}

/// The text an error displays: a fixed prefix per kind, then the detail.
pub open spec fn error_text(e: YcallrError) -> Seq<char> {
    match e {
        YcallrError::YamlParse(m) => "YAML parse error: "@ + m@,
        YcallrError::InvalidDefinition(m) => "Invalid API definition: "@ + m@,
        YcallrError::CommandNotFound(m) => "Command not found: "@ + m@,
        YcallrError::ParamValidation(m) => "Parameter validation error: "@ + m@,
        YcallrError::Protobuf(m) => "Protobuf error: "@ + m@,
        YcallrError::Io(m) => "IO error: "@ + m@,
        YcallrError::Serialization(m) => "Serialization error: "@ + m@,
        YcallrError::HttpClient(m) => "HTTP client error: "@ + m@,
        YcallrError::EnvVar(m) => "Environment variable error: "@ + m@,
        YcallrError::ProfileNotInstalled { name, message } => message@,
        YcallrError::ProfileInstall(m) => "Profile install error: "@ + m@,
        YcallrError::OpenApiParse(m) => "OpenAPI parse error: "@ + m@,
    }
}

impl YcallrError {
    /// The error's display text.
    pub fn message(&self) -> (r: String)
        ensures
            r@ == error_text(*self),
    {
        let (prefix, detail): (&str, &String) = match self {
            YcallrError::YamlParse(m) => ("YAML parse error: ", m),
            YcallrError::InvalidDefinition(m) => ("Invalid API definition: ", m),
            YcallrError::CommandNotFound(m) => ("Command not found: ", m),
            YcallrError::ParamValidation(m) => ("Parameter validation error: ", m),
            YcallrError::Protobuf(m) => ("Protobuf error: ", m),
            YcallrError::Io(m) => ("IO error: ", m),
            YcallrError::Serialization(m) => ("Serialization error: ", m),
            YcallrError::HttpClient(m) => ("HTTP client error: ", m),
            YcallrError::EnvVar(m) => ("Environment variable error: ", m),
            YcallrError::ProfileNotInstalled { name, message } => ("", message),
            YcallrError::ProfileInstall(m) => ("Profile install error: ", m),
            YcallrError::OpenApiParse(m) => ("OpenAPI parse error: ", m),
        };
        let mut r = owned(prefix);
        r.append(detail.as_str());
        proof {
            reveal_strlit("");
            assert(""@ + detail@ =~= detail@);
        }
        r
    }
}

} // verus!
