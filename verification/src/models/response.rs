//! Response message selection by HTTP status.

use vstd::prelude::*;
use crate::dict::lookup;
use crate::models::types::{
    ApiErrorConfig, ErrorsModel, ResponseConfig, ResponseEntry, ResponseModel,
};
use crate::text::{contains, contains_str, decimal, u16_decimal};

verus! {

/// API `errors:` templates must not reference `{input.*}`: callers may omit parameters.
pub fn api_error_template_references_input(message: &str) -> (r: bool)
    ensures
        r == contains(message@, "{input."@),
{
    contains_str(message, "{input.")
}

/// Entry of a command's responses for `status`: the exact code first, then
/// success (2xx), warn (3xx) or failure (4xx and 5xx).
pub open spec fn entry_for_status(r: ResponseModel, status: u16) -> Option<ResponseEntry> {
    match lookup(r.codes, decimal(status as nat)) {
        Some(e) => Some(e),
        None => if 200 <= status <= 299 {
            r.success
        } else if 300 <= status <= 399 {
            r.warn
        } else if 400 <= status <= 599 {
            r.failure
        } else {
            None
        },
    }
}

/// Entry of the API errors for `status`: the exact code first, then the default
/// for error statuses (400 and above).
pub open spec fn error_entry_for_status(e: ErrorsModel, status: u16) -> Option<ResponseEntry> {
    match lookup(e.codes, decimal(status as nat)) {
        Some(x) => Some(x),
        None => if status >= 400 {
            e.default
        } else {
            None
        },
    }
}

impl ResponseConfig {
    /// The message entry for `status`.
    pub fn get_entry_for_status(&self, status: u16) -> (r: Option<&ResponseEntry>)
        ensures
            match r {
                Some(e) => entry_for_status(self@, status) == Some(*e),
                None => entry_for_status(self@, status) is None,
            },
    {
        let code = u16_decimal(status);
        match self.codes.get(code.as_str()) {
            Some(e) => {
                return Some(e);
            },
            None => {},
        }
        if 200 <= status && status <= 299 {
            self.success.as_ref()
        } else if 300 <= status && status <= 399 {
            self.warn.as_ref()
        } else if 400 <= status && status <= 599 {
            self.failure.as_ref()
        } else {
            None
        }
    }
}

impl ApiErrorConfig {
    /// Exact status code in `errors`, then `default` for HTTP error responses (status >= 400).
    pub fn get_entry_for_status(&self, status: u16) -> (r: Option<&ResponseEntry>)
        ensures
            match r {
                Some(e) => error_entry_for_status(self@, status) == Some(*e),
                None => error_entry_for_status(self@, status) is None,
            },
    {
        let code = u16_decimal(status);
        match self.codes.get(code.as_str()) {
            Some(e) => {
                return Some(e);
            },
            None => {},
        }
        if status >= 400 {
            self.default.as_ref()
        } else {
            None
        }
    }
}

/// Built-in message when neither the command's responses nor the API errors
/// define one.
pub open spec fn builtin_template(status: u16) -> Seq<char> {
    if 200 <= status <= 299 {
        "Request succeeded (HTTP {status})"@
    } else if 300 <= status <= 399 {
        "Request completed (HTTP {status})"@
    } else if 400 <= status <= 599 {
        "Request failed (HTTP {status})"@
    } else {
        "HTTP {status}"@
    }
}

/// Built-in fallback template for `status`.
pub fn builtin_response_template(status: u16) -> (r: &'static str)
    ensures
        r@ == builtin_template(status),
{
    if 200 <= status && status <= 299 {
        "Request succeeded (HTTP {status})"
    } else if 300 <= status && status <= 399 {
        "Request completed (HTTP {status})"
    } else if 400 <= status && status <= 499 {
        "Request failed (HTTP {status})"
    } else if 500 <= status && status <= 599 {
        "Request failed (HTTP {status})"
    } else {
        "HTTP {status}"
    }
}

} // verus!
