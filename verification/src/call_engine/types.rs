//! Values the call engine hands back.

use vstd::prelude::*;
use crate::dict::Dict;
use crate::json::JsonValue;
use crate::models::types::copy_strings;

verus! {

/// Where declared environment variables are read from: the process
/// environment first (`Auto`), or only the values given to the client (`Manual`).
#[derive(Debug, Clone, Copy, PartialEq, Eq, Structural)]
pub enum EnvMode {
    Auto,
    Manual,
}

/// A reply: status, headers, body (JSON, or the text as a JSON string) and
/// the message the profile gives for it.
#[derive(Debug, PartialEq)]
pub struct ApiResponse {
    pub status: u16,
    pub headers: Dict<String>,
    pub body: JsonValue,
    pub message: Option<String>,
}

/// A failed call as reported to callers.
#[derive(Debug, PartialEq)]
pub struct ApiError {
    pub status: u16,
    pub message: String,
    pub body: Option<JsonValue>,
}

impl Clone for ApiResponse {
    fn clone(&self) -> (r: Self)
        ensures
            r.status == self.status,
            r.headers.entries@ == self.headers.entries@,
            r.body@ == self.body@,
            r.message == self.message,
    {
        ApiResponse {
            status: self.status,
            headers: copy_strings(&self.headers),
            body: self.body.clone(),
            message: self.message.clone(),
        }
    }
}

impl Clone for ApiError {
    fn clone(&self) -> (r: Self)
        ensures
            r.status == self.status,
            r.message == self.message,
            r.body.is_some() == self.body.is_some(),
            self.body matches Some(b) ==> r.body->0@ == b@,
    {
        ApiError {
            status: self.status,
            message: self.message.clone(),
            body: match &self.body {
                Some(b) => Some(b.clone()),
                None => None,
            },
        }
    }
}

} // verus!
