//! Auth settings handed to a client at run time as an auth type and a JSON object.

use vstd::prelude::*;
use crate::json::{str_member, str_member_of, Json, JsonValue};
use crate::models::command::quoted;
use crate::models::types::{ApiKeyLocation, AuthConfig};
use crate::text::{is_blank, is_blank_str, owned, str_eq};

verus! {

/// The text of member `k`, where it is a string that is not blank.
pub open spec fn filled_member(v: Json, k: Seq<char>) -> Option<Seq<char>> {
    match str_member(v, k) {
        Some(s) => if is_blank(s) {
            None
        } else {
            Some(s)
        },
        None => None,
    }
}

/// The shape of an auth setting built at run time.
pub enum RuntimeAuth {
    Bearer { token: Seq<char> },
    ApiKey { key: Seq<char>, name: Seq<char>, in_: ApiKeyLocation },
    Basic { username: Seq<char>, password: Seq<char> },
    Custom { prefix: Seq<char>, token: Seq<char> },
}

/// What an auth config is, as a run-time auth setting (if it is one).
pub open spec fn runtime_shape(a: AuthConfig) -> Option<RuntimeAuth> {
    match a {
        AuthConfig::Bearer { token } => Some(RuntimeAuth::Bearer { token: token@ }),
        AuthConfig::ApiKey { key, name, in_ } => Some(RuntimeAuth::ApiKey { key: key@, name: name@, in_ }),
        AuthConfig::Http { scheme, token, username, password, prefix } => {
            if scheme@ == "basic"@ && token is None && prefix is None && username is Some
                && password is Some {
                Some(RuntimeAuth::Basic { username: username->0@, password: password->0@ })
            } else if scheme@ == "custom"@ && username is None && password is None && prefix is Some
                && token is Some {
                Some(RuntimeAuth::Custom { prefix: prefix->0@, token: token->0@ })
            } else {
                None
            }
        },
    }
}

/// The location an `in` setting names.
pub open spec fn location_named(s: Seq<char>) -> Option<ApiKeyLocation> {
    if s == "header"@ {
        Some(ApiKeyLocation::Header)
    } else if s == "query"@ {
        Some(ApiKeyLocation::Query)
    } else if s == "cookie"@ {
        Some(ApiKeyLocation::Cookie)
    } else {
        None
    }
}

/// The auth setting that `auth_type` and the object `data` describe, or the error message.
pub open spec fn runtime_auth(auth_type: Seq<char>, data: Json) -> Result<RuntimeAuth, Seq<char>> {
    if auth_type == "bearer"@ {
        match filled_member(data, "token"@) {
            Some(t) => Ok(RuntimeAuth::Bearer { token: t }),
            None => Err("bearer auth requires non-empty 'token'"@),
        }
    } else if auth_type == "api_key"@ {
        match filled_member(data, "key"@) {
            None => Err("api_key auth requires non-empty 'key'"@),
            Some(k) => {
                let name = match filled_member(data, "name"@) {
                    Some(n) => n,
                    None => "X-API-Key"@,
                };
                let in_text = match str_member(data, "in"@) {
                    Some(s) => s,
                    None => "header"@,
                };
                match location_named(in_text) {
                    Some(loc) => Ok(RuntimeAuth::ApiKey { key: k, name, in_: loc }),
                    None => Err(
                        "Unknown api_key location '"@ + in_text + "': expected header, query, or cookie"@,
                    ),
                }
            },
        }
    } else if auth_type == "http_basic"@ {
        match (filled_member(data, "username"@), filled_member(data, "password"@)) {
            (None, _) => Err("http_basic auth requires non-empty 'username'"@),
            (Some(_), None) => Err("http_basic auth requires non-empty 'password'"@),
            (Some(u), Some(p)) => Ok(RuntimeAuth::Basic { username: u, password: p }),
        }
    } else if auth_type == "http_custom"@ {
        match (filled_member(data, "prefix"@), filled_member(data, "token"@)) {
            (None, _) => Err("http_custom auth requires non-empty 'prefix'"@),
            (Some(_), None) => Err("http_custom auth requires non-empty 'token'"@),
            (Some(p), Some(t)) => Ok(RuntimeAuth::Custom { prefix: p, token: t }),
        }
    } else {
        Err("Unknown auth type '"@ + auth_type + "'"@)
    }
}

/// The string member `key` of `data` where it is not blank.
fn filled_member_of<'a>(data: &'a JsonValue, key: &str) -> (r: Option<&'a str>)
    ensures
        match r {
            Some(s) => filled_member(data@, key@) == Some(s@),
            None => filled_member(data@, key@) is None,
        },
{
    match str_member_of(data, key) {
        Some(s) => if is_blank_str(s) {
            None
        } else {
            Some(s)
        },
        None => None,
    }
}

/// Builds the auth setting that `auth_type` and the object `auth_data` describe.
pub fn parse_runtime_auth(auth_type: &str, auth_data: &JsonValue) -> (r: Result<AuthConfig, String>)
    ensures
        r is Ok <==> runtime_auth(auth_type@, auth_data@) is Ok,
        r matches Ok(a) ==> runtime_shape(a) == Some(runtime_auth(auth_type@, auth_data@)->Ok_0),
        r matches Err(m) ==> runtime_auth(auth_type@, auth_data@) == Err::<RuntimeAuth, Seq<char>>(m@),
{
    if str_eq(auth_type, "bearer") {
        match filled_member_of(auth_data, "token") {
            Some(t) => Ok(AuthConfig::bearer(owned(t))),
            None => Err(owned("bearer auth requires non-empty 'token'")),
        }
    } else if str_eq(auth_type, "api_key") {
        let key = match filled_member_of(auth_data, "key") {
            Some(k) => k,
            None => {
                return Err(owned("api_key auth requires non-empty 'key'"));
            },
        };
        let name = match filled_member_of(auth_data, "name") {
            Some(n) => n,
            None => "X-API-Key",
        };
        let in_text = match str_member_of(auth_data, "in") {
            Some(s) => s,
            None => "header",
        };
        let loc = if str_eq(in_text, "header") {
            ApiKeyLocation::Header
        } else if str_eq(in_text, "query") {
            ApiKeyLocation::Query
        } else if str_eq(in_text, "cookie") {
            ApiKeyLocation::Cookie
        } else {
            return Err(quoted("Unknown api_key location '", in_text, "': expected header, query, or cookie"));
        };
        Ok(AuthConfig::api_key_in(owned(key), owned(name), loc))
    } else if str_eq(auth_type, "http_basic") {
        let username = match filled_member_of(auth_data, "username") {
            Some(u) => u,
            None => {
                return Err(owned("http_basic auth requires non-empty 'username'"));
            },
        };
        let password = match filled_member_of(auth_data, "password") {
            Some(p) => p,
            None => {
                return Err(owned("http_basic auth requires non-empty 'password'"));
            },
        };
        Ok(AuthConfig::http_basic(owned(username), owned(password)))
    } else if str_eq(auth_type, "http_custom") {
        let prefix = match filled_member_of(auth_data, "prefix") {
            Some(p) => p,
            None => {
                return Err(owned("http_custom auth requires non-empty 'prefix'"));
            },
        };
        let token = match filled_member_of(auth_data, "token") {
            Some(t) => t,
            None => {
                return Err(owned("http_custom auth requires non-empty 'token'"));
            },
        };
        Ok(AuthConfig::http_custom(owned(prefix), owned(token)))
    } else {
        Err(quoted("Unknown auth type '", auth_type, "'"))
    }
}

} // verus!
