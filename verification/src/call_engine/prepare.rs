//! Building the HTTP request for a call, and the response for a reply.

use vstd::prelude::*;
use crate::dict::{insert_pair, lookup, pair_views, put, Dict};
use crate::error::{unit_result, ErrorModel, YcallrError};
use crate::json::{Json, JsonValue};
use crate::models::command::{
    joined, opt_model, params_valid, path_names, quoted, resolved_endpoint,
};
use crate::models::types::{
    copy_strings, ApiErrorConfig, ApiKeyLocation, AuthConfig, BodyConfig, BodyModel, Command,
    ErrorsModel, HttpMethod, MultipartField, ResponseConfig, ResponseModel,
};
use crate::outside::{
    base64_standard, base64_text, lowercase, to_lowercase, to_uppercase, uppercase,
};
use crate::templates::{env_resolve, resolve_env_vars};
use crate::text::{
    contains, contains_str, has_char, has_char_str, is_blank, is_blank_str, join, join_strings,
    owned, str_eq, to_chars,
};
use crate::urlencode::{encode_component, percent_encode};
use crate::call_engine::context::ClientContext;

verus! {

broadcast use vstd::std_specs::vec::group_vec_axioms;

// ---------------------------------------------------------------- prepared values

/// Everything needed to send a call.
#[derive(Debug)]
pub struct PreparedHttpRequest {
    pub method: HttpMethod,
    pub url: String,
    pub headers: Dict<String>,
    pub body: PreparedBody,
    pub responses: Option<ResponseConfig>,
    pub params: Dict<String>,
}

/// The body to send.
#[derive(Debug)]
pub enum PreparedBody {
    Empty,
    Json(JsonValue),
    Form(Vec<(String, String)>),
    Raw { content_type: String, body: String },
    MultipartNative(Vec<NativeMultipartPart>),
}

/// One part of a multipart body: a text value, or a file to read.
#[derive(Debug)]
pub enum NativeMultipartPart {
    Text { name: String, value: String },
    File { name: String, path: String },
}

/// Model of a multipart part: its name and its text or file path.
pub enum PartPlan {
    Text(Seq<char>, Seq<char>),
    File(Seq<char>, Seq<char>),
}

/// Model of a prepared body.
pub enum BodyPlan {
    Empty,
    Json(Json),
    Form(Seq<(Seq<char>, Seq<char>)>),
    Raw(Seq<char>, Seq<char>),
    Multipart(Seq<PartPlan>),
}

/// Model of a prepared request.
pub struct RequestPlan {
    pub method: HttpMethod,
    pub url: Seq<char>,
    pub headers: Seq<(Seq<char>, Seq<char>)>,
    pub body: BodyPlan,
    pub responses: Option<ResponseModel>,
    pub params: Seq<(Seq<char>, Seq<char>)>,
}

impl View for NativeMultipartPart {
    type V = PartPlan;

    open spec fn view(&self) -> PartPlan {
        match self {
            NativeMultipartPart::Text { name, value } => PartPlan::Text(name@, value@),
            NativeMultipartPart::File { name, path } => PartPlan::File(name@, path@),
        }
    }
}

/// Models of a list of parts.
pub open spec fn part_views(ps: Seq<NativeMultipartPart>) -> Seq<PartPlan> {
    Seq::new(ps.len(), |i: int| ps[i]@)
}

impl View for PreparedBody {
    type V = BodyPlan;

    open spec fn view(&self) -> BodyPlan {
        match self {
            PreparedBody::Empty => BodyPlan::Empty,
            PreparedBody::Json(j) => BodyPlan::Json(j@),
            PreparedBody::Form(f) => BodyPlan::Form(pair_views(f@)),
            PreparedBody::Raw { content_type, body } => BodyPlan::Raw(content_type@, body@),
            PreparedBody::MultipartNative(ps) => BodyPlan::Multipart(part_views(ps@)),
        }
    }
}

impl View for PreparedHttpRequest {
    type V = RequestPlan;

    open spec fn view(&self) -> RequestPlan {
        RequestPlan {
            method: self.method,
            url: self.url@,
            headers: pair_views(self.headers.entries@),
            body: self.body@,
            responses: match self.responses {
                Some(r) => Some(r@),
                None => None,
            },
            params: pair_views(self.params.entries@),
        }
    }
}

// ---------------------------------------------------------------- query string

/// `key=value` with both sides percent-encoded, for each pair.
pub open spec fn query_items(ps: Seq<(Seq<char>, Seq<char>)>) -> Seq<Seq<char>> {
    Seq::new(ps.len(), |i: int| encode_component(ps[i].0) + "="@ + encode_component(ps[i].1))
}

/// `url` with the pairs appended as a query string (after `&` when the URL
/// already has a `?`).
pub open spec fn with_query(url: Seq<char>, ps: Seq<(Seq<char>, Seq<char>)>) -> Seq<char> {
    if ps.len() == 0 {
        url
    } else {
        url + (if has_char(url, '?') {
            "&"@
        } else {
            "?"@
        }) + join(query_items(ps), "&"@)
    }
}

/// Appends `key=value` query pairs to a URL.
pub fn append_query_pairs(url: &str, pairs: &[(String, String)]) -> (r: String)
    ensures
        r@ == with_query(url@, pair_views(pairs@)),
{
    if pairs.len() == 0 {
        return owned(url);
    }
    let ghost pv = pair_views(pairs@);
    let mut items: Vec<String> = Vec::new();
    let mut i: usize = 0;
    while i < pairs.len()
        invariant
            i <= pairs@.len(),
            pv == pair_views(pairs@),
            items@.len() == i,
            forall|k: int| 0 <= k < i ==> (#[trigger] items@[k])@ == query_items(pv)[k],
        decreases pairs@.len() - i,
    {
        let item = quoted(percent_encode(pairs[i].0.as_str()).as_str(), "=", percent_encode(pairs[i].1.as_str()).as_str());
        items.push(item);
        i = i + 1;
    }
    assert(Seq::new(items@.len(), |k: int| items@[k]@) =~= query_items(pv));
    let query = join_strings(&items, "&");
    if has_char_str(url, '?') {
        quoted(url, "&", query.as_str())
    } else {
        quoted(url, "?", query.as_str())
    }
}

/// Call parameters that are not path placeholders, in table order.
pub open spec fn query_params(es: Seq<(String, String)>, names: Seq<Seq<char>>) -> Seq<(String, String)>
    decreases es.len(),
{
    if es.len() == 0 {
        Seq::empty()
    } else {
        let prev = query_params(es.drop_last(), names);
        if names.contains(es.last().0@) {
            prev
        } else {
            prev.push(es.last())
        }
    }
}

/// Whether one of `names` is `k`.
fn has_name(names: &Vec<String>, k: &str) -> (r: bool)
    ensures
        r == exists|i: int| 0 <= i < names@.len() && (#[trigger] names@[i])@ == k@,
{
    let mut i: usize = 0;
    while i < names.len()
        invariant
            i <= names@.len(),
            forall|j: int| 0 <= j < i ==> (#[trigger] names@[j])@ != k@,
        decreases names@.len() - i,
    {
        if str_eq(names[i].as_str(), k) {
            return true;
        }
        i = i + 1;
    }
    false
}

/// The call parameters that go into the query string.
pub fn build_query_params(cmd: &Command, params: &Dict<String>) -> (r: Vec<(String, String)>)
    ensures
        r@ == query_params(params.entries@, path_names(*cmd)),
{
    let names = cmd.endpoint_path_param_names();
    let ghost pn = path_names(*cmd);
    let ghost es = params.entries@;
    let mut out: Vec<(String, String)> = Vec::new();
    let mut i: usize = 0;
    while i < params.entries.len()
        invariant
            i <= es.len(),
            es == params.entries@,
            pn == path_names(*cmd),
            names@.len() == pn.len(),
            forall|k: int| 0 <= k < names@.len() ==> (#[trigger] names@[k])@ == pn[k],
            out@ == query_params(es.take(i as int), pn),
        decreases es.len() - i,
    {
        assert(es.take(i + 1).drop_last() =~= es.take(i as int));
        assert(es.take(i + 1).last() == es[i as int]);
        let key = &params.entries[i].0;
        let found = has_name(&names, key.as_str());
        proof {
            if found {
                let j = choose|j: int| 0 <= j < names@.len() && (#[trigger] names@[j])@ == key@;
                assert(pn[j] == key@);
            } else {
                assert forall|j: int| 0 <= j < pn.len() implies pn[j] != key@ by {
                    assert(names@[j]@ == pn[j]);
                }
            }
        }
        if !found {
            out.push((key.clone(), params.entries[i].1.clone()));
        }
        i = i + 1;
    }
    assert(es.take(es.len() as int) =~= es);
    out
}

// ---------------------------------------------------------------- auth

/// The error for an auth value that is blank after resolution.
pub open spec fn empty_auth(field: Seq<char>) -> ErrorModel {
    ErrorModel::ParamValidation("Auth "@ + field + " is empty or unresolved"@)
}

/// Characters a cookie name or value may not hold.
pub open spec fn cookie_forbidden(c: char) -> bool {
    c == ';' || c == '\r' || c == '\n' || c == '\0'
}

pub open spec fn cookie_safe(s: Seq<char>) -> bool {
    forall|i: int| 0 <= i < s.len() ==> !cookie_forbidden(#[trigger] s[i])
}

pub open spec fn bad_cookie(label: Seq<char>) -> ErrorModel {
    ErrorModel::ParamValidation("Cookie "@ + label + " contains invalid characters"@)
}

/// Fails when an auth value is blank.
pub fn require_nonempty_auth_value(value: &str, field: &str) -> (r: Result<(), YcallrError>)
    ensures
        unit_result(r) == if is_blank(value@) {
            Err(empty_auth(field@))
        } else {
            Ok::<(), ErrorModel>(())
        },
{
    if is_blank_str(value) {
        Err(YcallrError::ParamValidation(quoted("Auth ", field, " is empty or unresolved")))
    } else {
        Ok(())
    }
}

/// Fails when a cookie name or value holds `;`, CR, LF or NUL.
pub fn validate_cookie_component(value: &str, label: &str) -> (r: Result<(), YcallrError>)
    ensures
        unit_result(r) == if cookie_safe(value@) {
            Ok::<(), ErrorModel>(())
        } else {
            Err(bad_cookie(label@))
        },
{
    let v = to_chars(value);
    let mut i: usize = 0;
    while i < v.len()
        invariant
            v@ == value@,
            i <= v@.len(),
            forall|j: int| 0 <= j < i ==> !cookie_forbidden(#[trigger] v@[j]),
        decreases v@.len() - i,
    {
        let c = v[i];
        if c == ';' || c == '\r' || c == '\n' || c == '\0' {
            assert(cookie_forbidden(v@[i as int]));
            return Err(YcallrError::ParamValidation(quoted("Cookie ", label, " contains invalid characters")));
        }
        i = i + 1;
    }
    Ok(())
}

/// The auth a command uses: its named scheme, none for `auth: none`, or the
/// client's own auth when the command names none.
pub open spec fn chosen_auth(
    named: Option<String>,
    own: Option<AuthConfig>,
    configs: Seq<(String, AuthConfig)>,
) -> Result<Option<AuthConfig>, ErrorModel> {
    match named {
        None => Ok(own),
        Some(n) => if crate::text::ascii_lower(n@) == "none"@ {
            Ok(None)
        } else {
            match lookup(configs, n@) {
                Some(a) => Ok(Some(a)),
                None => Err(ErrorModel::InvalidDefinition("Auth config '"@ + n@ + "' not found"@)),
            }
        },
    }
}

/// The auth scheme that applies to a call of `cmd`.
pub fn resolve_auth_config<'a>(cmd: &'a Command, ctx: &'a ClientContext) -> (r: Result<Option<&'a AuthConfig>, YcallrError>)
    ensures
        match r {
            Ok(a) => chosen_auth(cmd.auth, ctx.auth, ctx.auth_configs.entries@) == Ok::<
                Option<AuthConfig>,
                ErrorModel,
            >(match a {
                Some(x) => Some(*x),
                None => None,
            }),
            Err(e) => chosen_auth(cmd.auth, ctx.auth, ctx.auth_configs.entries@) == Err::<Option<AuthConfig>, ErrorModel>(e@),
        },
{
    match &cmd.auth {
        None => Ok(ctx.auth.as_ref()),
        Some(name) => {
            if crate::models::command::command_auth_is_none(name.as_str()) {
                Ok(None)
            } else {
                match ctx.auth_configs.get(name.as_str()) {
                    Some(a) => Ok(Some(a)),
                    None => Err(YcallrError::InvalidDefinition(quoted("Auth config '", name.as_str(), "' not found"))),
                }
            }
        },
    }
}

/// The resolved `(name, key)` of an API key, both non-blank.
pub open spec fn key_pair(key: String, name: String, env: Seq<(String, String)>) -> Result<(Seq<char>, Seq<char>), ErrorModel> {
    match env_resolve(key@, env) {
        Err(e) => Err(e),
        Ok(k) => match env_resolve(name@, env) {
            Err(e) => Err(e),
            Ok(n) => if is_blank(n) {
                Err(empty_auth("api_key name"@))
            } else if is_blank(k) {
                Err(empty_auth("api_key value"@))
            } else {
                Ok((n, k))
            },
        },
    }
}

/// The query pair an API key sent in the query adds.
pub open spec fn auth_query_pair(auth: AuthConfig, env: Seq<(String, String)>) -> Result<Option<(Seq<char>, Seq<char>)>, ErrorModel> {
    match auth {
        AuthConfig::ApiKey { key, name, in_ } => if in_ == ApiKeyLocation::Query {
            match key_pair(key, name, env) {
                Err(e) => Err(e),
                Ok(p) => Ok(Some(p)),
            }
        } else {
            Ok(None)
        },
        _ => Ok(None),
    }
}

/// The query pairs after adding the auth's pair; a name already present is an error.
pub open spec fn auth_query_step(
    auth: Option<AuthConfig>,
    env: Seq<(String, String)>,
    q: Seq<(Seq<char>, Seq<char>)>,
) -> Result<Seq<(Seq<char>, Seq<char>)>, ErrorModel> {
    match auth {
        None => Ok(q),
        Some(a) => match auth_query_pair(a, env) {
            Err(e) => Err(e),
            Ok(None) => Ok(q),
            Ok(Some(p)) => if exists|i: int| 0 <= i < q.len() && (#[trigger] q[i]).0 == p.0 {
                Err(ErrorModel::ParamValidation("Duplicate query parameter '"@ + p.0 + "'"@))
            } else {
                Ok(q.push(p))
            },
        },
    }
}

/// Resolves both parts of an API key and checks that neither is blank.
fn resolve_key_pair(key: &String, name: &String, env_vars: &Dict<String>) -> (r: Result<(String, String), YcallrError>)
    ensures
        match r {
            Ok(p) => key_pair(*key, *name, env_vars.entries@) == Ok::<(Seq<char>, Seq<char>), ErrorModel>((p.0@, p.1@)),
            Err(e) => key_pair(*key, *name, env_vars.entries@) == Err::<(Seq<char>, Seq<char>), ErrorModel>(e@),
        },
{
    let resolved_key = match resolve_env_vars(key.as_str(), env_vars) {
        Ok(k) => k,
        Err(e) => {
            return Err(e);
        },
    };
    let resolved_name = match resolve_env_vars(name.as_str(), env_vars) {
        Ok(n) => n,
        Err(e) => {
            return Err(e);
        },
    };
    match require_nonempty_auth_value(resolved_name.as_str(), "api_key name") {
        Ok(()) => {},
        Err(e) => {
            return Err(e);
        },
    }
    match require_nonempty_auth_value(resolved_key.as_str(), "api_key value") {
        Ok(()) => {},
        Err(e) => {
            return Err(e);
        },
    }
    Ok((resolved_name, resolved_key))
}

/// Adds the query pair of an API key sent in the query.
pub fn add_auth_query_params(auth: &AuthConfig, env_vars: &Dict<String>, query_pairs: &mut Vec<(String, String)>) -> (r: Result<(), YcallrError>)
    ensures
        match auth_query_step(Some(*auth), env_vars.entries@, pair_views(old(query_pairs)@)) {
            Ok(q) => r is Ok && pair_views(final(query_pairs)@) == q,
            Err(m) => r matches Err(e) && e@ == m && final(query_pairs)@ == old(query_pairs)@,
        },
{
    match auth {
        AuthConfig::ApiKey { key, name, in_ } => {
            match in_ {
                ApiKeyLocation::Query => {},
                _ => {
                    return Ok(());
                },
            }
            let (resolved_name, resolved_key) = match resolve_key_pair(key, name, env_vars) {
                Ok(p) => p,
                Err(e) => {
                    return Err(e);
                },
            };
            let ghost q = pair_views(query_pairs@);
            assert(auth_query_pair(*auth, env_vars.entries@) == Ok::<Option<(Seq<char>, Seq<char>)>, ErrorModel>(
                Some((resolved_name@, resolved_key@)),
            ));
            let mut i: usize = 0;
            while i < query_pairs.len()
                invariant
                    i <= query_pairs@.len(),
                    query_pairs@ == old(query_pairs)@,
                    q == pair_views(query_pairs@),
                    auth_query_pair(*auth, env_vars.entries@) == Ok::<Option<(Seq<char>, Seq<char>)>, ErrorModel>(
                        Some((resolved_name@, resolved_key@)),
                    ),
                    forall|j: int| 0 <= j < i ==> (#[trigger] q[j]).0 != resolved_name@,
                decreases query_pairs@.len() - i,
            {
                if str_eq(query_pairs[i].0.as_str(), resolved_name.as_str()) {
                    assert(q[i as int].0 == resolved_name@);
                    return Err(YcallrError::ParamValidation(quoted("Duplicate query parameter '", resolved_name.as_str(), "'")));
                }
                i = i + 1;
            }
            query_pairs.push((resolved_name, resolved_key));
            assert(pair_views(query_pairs@) =~= q.push((resolved_name@, resolved_key@)));
            Ok(())
        },
        _ => Ok(()),
    }
}

/// An optional text after `${NAME}` resolution.
pub open spec fn opt_resolve(o: Option<String>, env: Seq<(String, String)>) -> Result<Option<Seq<char>>, ErrorModel> {
    match o {
        None => Ok(None),
        Some(t) => match env_resolve(t@, env) {
            Ok(x) => Ok(Some(x)),
            Err(e) => Err(e),
        },
    }
}

/// The header of `http` auth, from its scheme (compared in lower case) and
/// its resolved token and prefix.
pub open spec fn http_header(
    scheme: Seq<char>,
    token: Option<Seq<char>>,
    prefix: Option<Seq<char>>,
    username: Option<String>,
    password: Option<String>,
    env: Seq<(String, String)>,
) -> Result<Option<(Seq<char>, Seq<char>)>, ErrorModel> {
    let s = lowercase(scheme);
    if s == "bearer"@ {
        match token {
            None => Err(ErrorModel::ParamValidation("HTTP bearer auth requires token"@)),
            Some(t) => if is_blank(t) {
                Err(empty_auth("bearer token"@))
            } else {
                Ok(Some(("Authorization"@, "Bearer "@ + t)))
            },
        }
    } else if s == "basic"@ {
        match opt_resolve(username, env) {
            Err(e) => Err(e),
            Ok(None) => Err(ErrorModel::ParamValidation("HTTP basic auth requires username"@)),
            Ok(Some(u)) => match opt_resolve(password, env) {
                Err(e) => Err(e),
                Ok(None) => Err(ErrorModel::ParamValidation("HTTP basic auth requires password"@)),
                Ok(Some(p)) => if is_blank(u) {
                    Err(empty_auth("basic username"@))
                } else if is_blank(p) {
                    Err(empty_auth("basic password"@))
                } else {
                    Ok(Some(("Authorization"@, "Basic "@ + base64_text(vstd::utf8::encode_utf8(u + ":"@ + p)))))
                },
            },
        }
    } else if s == "custom"@ {
        match prefix {
            None => Err(ErrorModel::ParamValidation("HTTP custom auth requires prefix"@)),
            Some(p) => match token {
                None => Err(ErrorModel::ParamValidation("HTTP custom auth requires token"@)),
                Some(t) => if is_blank(p) {
                    Err(empty_auth("custom auth prefix"@))
                } else if is_blank(t) {
                    Err(empty_auth("custom auth token"@))
                } else {
                    Ok(Some(("Authorization"@, p + t)))
                },
            },
        }
    } else {
        match token {
            None => Err(ErrorModel::ParamValidation("HTTP auth scheme '"@ + scheme + "' requires token"@)),
            Some(t) => if is_blank(t) {
                Err(empty_auth("auth token"@))
            } else {
                Ok(Some(("Authorization"@, uppercase(scheme) + " "@ + t)))
            },
        }
    }
}

/// The header an auth scheme sends, if any: `Authorization` for bearer and
/// `http` auth, the key's own header, or `Cookie: name=value`.
pub open spec fn auth_header(auth: AuthConfig, env: Seq<(String, String)>) -> Result<Option<(Seq<char>, Seq<char>)>, ErrorModel> {
    match auth {
        AuthConfig::Bearer { token } => match env_resolve(token@, env) {
            Err(e) => Err(e),
            Ok(t) => if is_blank(t) {
                Err(empty_auth("bearer token"@))
            } else {
                Ok(Some(("Authorization"@, "Bearer "@ + t)))
            },
        },
        AuthConfig::ApiKey { key, name, in_ } => match in_ {
            ApiKeyLocation::Query => Ok(None),
            ApiKeyLocation::Header => match key_pair(key, name, env) {
                Err(e) => Err(e),
                Ok(p) => Ok(Some(p)),
            },
            ApiKeyLocation::Cookie => match key_pair(key, name, env) {
                Err(e) => Err(e),
                Ok((n, k)) => if !cookie_safe(n) {
                    Err(bad_cookie("name"@))
                } else if !cookie_safe(k) {
                    Err(bad_cookie("value"@))
                } else {
                    Ok(Some(("Cookie"@, n + "="@ + k)))
                },
            },
        },
        AuthConfig::Http { scheme, token, username, password, prefix } => match opt_resolve(token, env) {
            Err(e) => Err(e),
            Ok(t) => match opt_resolve(prefix, env) {
                Err(e) => Err(e),
                Ok(p) => http_header(scheme@, t, p, username, password, env),
            },
        },
    }
}

/// The headers after the auth's header is stored.
pub open spec fn auth_header_step(
    auth: Option<AuthConfig>,
    env: Seq<(String, String)>,
    h: Seq<(Seq<char>, Seq<char>)>,
) -> Result<Seq<(Seq<char>, Seq<char>)>, ErrorModel> {
    match auth {
        None => Ok(h),
        Some(a) => match auth_header(a, env) {
            Err(e) => Err(e),
            Ok(None) => Ok(h),
            Ok(Some((k, v))) => Ok(insert_pair(h, k, v)),
        },
    }
}

/// Model of an optional text pair result.
pub open spec fn pair_result(r: Result<Option<(String, String)>, YcallrError>) -> Result<Option<(Seq<char>, Seq<char>)>, ErrorModel> {
    match r {
        Ok(Some(p)) => Ok(Some((p.0@, p.1@))),
        Ok(None) => Ok(None),
        Err(e) => Err(e@),
    }
}

/// Resolves an optional text.
fn resolve_opt(o: &Option<String>, env_vars: &Dict<String>) -> (r: Result<Option<String>, YcallrError>)
    ensures
        match r {
            Ok(Some(x)) => opt_resolve(*o, env_vars.entries@) == Ok::<Option<Seq<char>>, ErrorModel>(Some(x@)),
            Ok(None) => opt_resolve(*o, env_vars.entries@) == Ok::<Option<Seq<char>>, ErrorModel>(None),
            Err(e) => opt_resolve(*o, env_vars.entries@) == Err::<Option<Seq<char>>, ErrorModel>(e@),
        },
{
    match o {
        None => Ok(None),
        Some(t) => match resolve_env_vars(t.as_str(), env_vars) {
            Ok(x) => Ok(Some(x)),
            Err(e) => Err(e),
        },
    }
}

/// The `Authorization` header of `http` auth.
fn http_auth_header(
    scheme: &String,
    token: Option<String>,
    prefix: Option<String>,
    username: &Option<String>,
    password: &Option<String>,
    env_vars: &Dict<String>,
) -> (r: Result<Option<(String, String)>, YcallrError>)
    ensures
        pair_result(r) == http_header(
            scheme@,
            match token {
                Some(t) => Some(t@),
                None => None,
            },
            match prefix {
                Some(p) => Some(p@),
                None => None,
            },
            *username,
            *password,
            env_vars.entries@,
        ),
{
    let lower = to_lowercase(scheme.as_str());
    if str_eq(lower.as_str(), "bearer") {
        match token {
            None => Err(YcallrError::ParamValidation(owned("HTTP bearer auth requires token"))),
            Some(t) => {
                match require_nonempty_auth_value(t.as_str(), "bearer token") {
                    Ok(()) => {},
                    Err(e) => {
                        return Err(e);
                    },
                }
                Ok(Some((owned("Authorization"), joined("Bearer ", t.as_str()))))
            },
        }
    } else if str_eq(lower.as_str(), "basic") {
        let user = match resolve_opt(username, env_vars) {
            Err(e) => {
                return Err(e);
            },
            Ok(None) => {
                return Err(YcallrError::ParamValidation(owned("HTTP basic auth requires username")));
            },
            Ok(Some(u)) => u,
        };
        let pass = match resolve_opt(password, env_vars) {
            Err(e) => {
                return Err(e);
            },
            Ok(None) => {
                return Err(YcallrError::ParamValidation(owned("HTTP basic auth requires password")));
            },
            Ok(Some(p)) => p,
        };
        match require_nonempty_auth_value(user.as_str(), "basic username") {
            Ok(()) => {},
            Err(e) => {
                return Err(e);
            },
        }
        match require_nonempty_auth_value(pass.as_str(), "basic password") {
            Ok(()) => {},
            Err(e) => {
                return Err(e);
            },
        }
        let credentials = quoted(user.as_str(), ":", pass.as_str());
        let encoded = base64_standard(credentials.as_str());
        Ok(Some((owned("Authorization"), joined("Basic ", encoded.as_str()))))
    } else if str_eq(lower.as_str(), "custom") {
        let p = match prefix {
            None => {
                return Err(YcallrError::ParamValidation(owned("HTTP custom auth requires prefix")));
            },
            Some(p) => p,
        };
        let t = match token {
            None => {
                return Err(YcallrError::ParamValidation(owned("HTTP custom auth requires token")));
            },
            Some(t) => t,
        };
        match require_nonempty_auth_value(p.as_str(), "custom auth prefix") {
            Ok(()) => {},
            Err(e) => {
                return Err(e);
            },
        }
        match require_nonempty_auth_value(t.as_str(), "custom auth token") {
            Ok(()) => {},
            Err(e) => {
                return Err(e);
            },
        }
        Ok(Some((owned("Authorization"), joined(p.as_str(), t.as_str()))))
    } else {
        match token {
            None => Err(YcallrError::ParamValidation(quoted("HTTP auth scheme '", scheme.as_str(), "' requires token"))),
            Some(t) => {
                match require_nonempty_auth_value(t.as_str(), "auth token") {
                    Ok(()) => {},
                    Err(e) => {
                        return Err(e);
                    },
                }
                let upper = to_uppercase(scheme.as_str());
                Ok(Some((owned("Authorization"), quoted(upper.as_str(), " ", t.as_str()))))
            },
        }
    }
}

/// The header an auth scheme sends, resolved against the environment.
fn auth_header_for(auth: &AuthConfig, env_vars: &Dict<String>) -> (r: Result<Option<(String, String)>, YcallrError>)
    ensures
        pair_result(r) == auth_header(*auth, env_vars.entries@),
{
    match auth {
        AuthConfig::Bearer { token } => {
            let t = match resolve_env_vars(token.as_str(), env_vars) {
                Ok(t) => t,
                Err(e) => {
                    return Err(e);
                },
            };
            match require_nonempty_auth_value(t.as_str(), "bearer token") {
                Ok(()) => {},
                Err(e) => {
                    return Err(e);
                },
            }
            Ok(Some((owned("Authorization"), joined("Bearer ", t.as_str()))))
        },
        AuthConfig::ApiKey { key, name, in_ } => match in_ {
            ApiKeyLocation::Query => Ok(None),
            ApiKeyLocation::Header => match resolve_key_pair(key, name, env_vars) {
                Ok(p) => Ok(Some(p)),
                Err(e) => Err(e),
            },
            ApiKeyLocation::Cookie => {
                let (n, k) = match resolve_key_pair(key, name, env_vars) {
                    Ok(p) => p,
                    Err(e) => {
                        return Err(e);
                    },
                };
                match validate_cookie_component(n.as_str(), "name") {
                    Ok(()) => {},
                    Err(e) => {
                        return Err(e);
                    },
                }
                match validate_cookie_component(k.as_str(), "value") {
                    Ok(()) => {},
                    Err(e) => {
                        return Err(e);
                    },
                }
                Ok(Some((owned("Cookie"), quoted(n.as_str(), "=", k.as_str()))))
            },
        },
        AuthConfig::Http { scheme, token, username, password, prefix } => {
            let t = match resolve_opt(token, env_vars) {
                Ok(t) => t,
                Err(e) => {
                    return Err(e);
                },
            };
            let p = match resolve_opt(prefix, env_vars) {
                Ok(p) => p,
                Err(e) => {
                    return Err(e);
                },
            };
            http_auth_header(scheme, t, p, username, password, env_vars)
        },
    }
}

/// Stores the header of an auth scheme.
pub fn apply_auth_headers(auth: &AuthConfig, env_vars: &Dict<String>, headers: &mut Dict<String>) -> (r: Result<(), YcallrError>)
    ensures
        match auth_header_step(Some(*auth), env_vars.entries@, pair_views(old(headers).entries@)) {
            Ok(h) => r is Ok && pair_views(final(headers).entries@) == h,
            Err(m) => r matches Err(e) && e@ == m && final(headers).entries@ == old(headers).entries@,
        },
{
    match auth_header_for(auth, env_vars) {
        Err(e) => Err(e),
        Ok(None) => Ok(()),
        Ok(Some((k, v))) => {
            put(headers, k, v);
            Ok(())
        },
    }
}

// ---------------------------------------------------------------- headers and body

/// The command's headers with `${NAME}` references resolved, stored in order.
pub open spec fn resolved_headers(hs: Seq<(String, String)>, env: Seq<(String, String)>) -> Result<
    Seq<(Seq<char>, Seq<char>)>,
    ErrorModel,
>
    decreases hs.len(),
{
    if hs.len() == 0 {
        Ok(Seq::empty())
    } else {
        match resolved_headers(hs.drop_last(), env) {
            Err(e) => Err(e),
            Ok(prev) => match env_resolve(hs.last().1@, env) {
                Err(e) => Err(e),
                Ok(v) => Ok(insert_pair(prev, hs.last().0@, v)),
            },
        }
    }
}

/// Once a prefix of the headers fails, all of them fail the same way.
proof fn lemma_headers_err_extends(hs: Seq<(String, String)>, env: Seq<(String, String)>, k: int)
    requires
        0 <= k <= hs.len(),
        resolved_headers(hs.take(k), env) is Err,
    ensures
        resolved_headers(hs, env) == resolved_headers(hs.take(k), env),
    decreases hs.len() - k,
{
    if k < hs.len() {
        assert(hs.take(k + 1).drop_last() =~= hs.take(k));
        lemma_headers_err_extends(hs, env, k + 1);
    } else {
        assert(hs.take(k) =~= hs);
    }
}

/// The command's headers, each value resolved against the environment.
pub fn headers_map(cmd: &Command, env_vars: &Dict<String>) -> (r: Result<Dict<String>, YcallrError>)
    ensures
        match r {
            Ok(d) => resolved_headers(cmd.headers.entries@, env_vars.entries@) == Ok::<
                Seq<(Seq<char>, Seq<char>)>,
                ErrorModel,
            >(pair_views(d.entries@)),
            Err(e) => resolved_headers(cmd.headers.entries@, env_vars.entries@) == Err::<
                Seq<(Seq<char>, Seq<char>)>,
                ErrorModel,
            >(e@),
        },
{
    let ghost hs = cmd.headers.entries@;
    let mut headers: Dict<String> = Dict::new();
    assert(pair_views(headers.entries@) =~= Seq::<(Seq<char>, Seq<char>)>::empty());
    assert(hs.take(0) =~= Seq::<(String, String)>::empty());
    let mut i: usize = 0;
    while i < cmd.headers.entries.len()
        invariant
            i <= hs.len(),
            hs == cmd.headers.entries@,
            resolved_headers(hs.take(i as int), env_vars.entries@) == Ok::<Seq<(Seq<char>, Seq<char>)>, ErrorModel>(
                pair_views(headers.entries@),
            ),
        decreases hs.len() - i,
    {
        assert(hs.take(i + 1).drop_last() =~= hs.take(i as int));
        assert(hs.take(i + 1).last() == hs[i as int]);
        let value = match resolve_env_vars(cmd.headers.entries[i].1.as_str(), env_vars) {
            Ok(v) => v,
            Err(e) => {
                proof {
                    lemma_headers_err_extends(hs, env_vars.entries@, i + 1);
                }
                return Err(e);
            },
        };
        put(&mut headers, cmd.headers.entries[i].0.clone(), value);
        i = i + 1;
    }
    assert(hs.take(hs.len() as int) =~= hs);
    Ok(headers)
}

/// Why a multipart file path is refused: blank, or holding `..`.
pub open spec fn file_path_problem(p: Seq<char>) -> Option<ErrorModel> {
    if is_blank(p) {
        Some(ErrorModel::ParamValidation("Multipart file path cannot be empty"@))
    } else if contains(p, ".."@) {
        Some(ErrorModel::ParamValidation("Multipart file path cannot contain '..'"@))
    } else {
        None
    }
}

/// Checks a multipart file path before the file is looked up.
pub fn check_multipart_file_path(file_path: &str) -> (r: Result<(), YcallrError>)
    ensures
        unit_result(r) == match file_path_problem(file_path@) {
            Some(e) => Err(e),
            None => Ok::<(), ErrorModel>(()),
        },
{
    if is_blank_str(file_path) {
        return Err(YcallrError::ParamValidation(owned("Multipart file path cannot be empty")));
    }
    if contains_str(file_path, "..") {
        return Err(YcallrError::ParamValidation(owned("Multipart file path cannot contain '..'")));
    }
    Ok(())
}

/// Multipart parts of fields whose names and texts are taken through `f`:
/// a text field gives a text part, a file field a file part (its path
/// checked), a field with neither gives nothing.
pub open spec fn parts_plan(fs: Seq<MultipartField>, params: Seq<(String, String)>) -> Result<Seq<PartPlan>, ErrorModel>
    decreases fs.len(),
{
    if fs.len() == 0 {
        Ok(Seq::empty())
    } else {
        match parts_plan(fs.drop_last(), params) {
            Err(e) => Err(e),
            Ok(prev) => {
                let f = fs.last();
                let name = crate::templates::params_applied(f.name@, params);
                match f.text {
                    Some(t) => Ok(prev.push(PartPlan::Text(name, crate::templates::params_applied(t@, params)))),
                    None => match f.file {
                        Some(p) => match file_path_problem(p@) {
                            Some(e) => Err(e),
                            None => Ok(prev.push(PartPlan::File(name, p@))),
                        },
                        None => Ok(prev),
                    },
                }
            },
        }
    }
}

/// The body a profile's body configuration sends, its `{key}` parameters
/// applied: JSON first, then form, raw text (`text/plain`) and multipart.
pub open spec fn body_plan(b: BodyModel, params: Seq<(String, String)>) -> Result<BodyPlan, ErrorModel> {
    match b.json {
        Some(j) => Ok(BodyPlan::Json(crate::templates::json_applied(j, params))),
        None => match b.form {
            Some(f) => Ok(BodyPlan::Form(crate::templates::form_applied(f, params))),
            None => match b.raw {
                Some(x) => Ok(BodyPlan::Raw("text/plain"@, crate::templates::params_applied(x@, params))),
                None => match b.multipart {
                    Some(fs) => match parts_plan(fs, params) {
                        Err(e) => Err(e),
                        Ok(ps) => if ps.len() == 0 {
                            Ok(BodyPlan::Empty)
                        } else {
                            Ok(BodyPlan::Multipart(ps))
                        },
                    },
                    None => Ok(BodyPlan::Empty),
                },
            },
        },
    }
}

/// The body a configuration sends as it stands (no parameters to apply).
pub open spec fn plain_body_plan(b: BodyModel) -> Result<BodyPlan, ErrorModel> {
    match b.json {
        Some(j) => Ok(BodyPlan::Json(j)),
        None => match b.form {
            Some(f) => Ok(BodyPlan::Form(pair_views(f))),
            None => match b.raw {
                Some(x) => Ok(BodyPlan::Raw("text/plain"@, x@)),
                None => match b.multipart {
                    Some(fs) => match plain_parts(fs) {
                        Err(e) => Err(e),
                        Ok(ps) => if ps.len() == 0 {
                            Ok(BodyPlan::Empty)
                        } else {
                            Ok(BodyPlan::Multipart(ps))
                        },
                    },
                    None => Ok(BodyPlan::Empty),
                },
            },
        },
    }
}

/// Multipart parts of fields as they stand.
pub open spec fn plain_parts(fs: Seq<MultipartField>) -> Result<Seq<PartPlan>, ErrorModel>
    decreases fs.len(),
{
    if fs.len() == 0 {
        Ok(Seq::empty())
    } else {
        match plain_parts(fs.drop_last()) {
            Err(e) => Err(e),
            Ok(prev) => {
                let f = fs.last();
                match f.text {
                    Some(t) => Ok(prev.push(PartPlan::Text(f.name@, t@))),
                    None => match f.file {
                        Some(p) => match file_path_problem(p@) {
                            Some(e) => Err(e),
                            None => Ok(prev.push(PartPlan::File(f.name@, p@))),
                        },
                        None => Ok(prev),
                    },
                }
            },
        }
    }
}

/// Fields whose names and texts are those of `fs` with parameters applied
/// give the parts of `fs` with parameters applied.
pub proof fn lemma_parts_applied(out: Seq<MultipartField>, fs: Seq<MultipartField>, params: Seq<(String, String)>)
    requires
        out.len() == fs.len(),
        forall|i: int| 0 <= i < fs.len() ==> {
            &&& (#[trigger] out[i]).name@ == crate::templates::params_applied(fs[i].name@, params)
            &&& out[i].file == fs[i].file
            &&& out[i].text.is_some() == fs[i].text.is_some()
            &&& (fs[i].text matches Some(t) ==> out[i].text->0@ == crate::templates::params_applied(t@, params))
        },
    ensures
        plain_parts(out) == parts_plan(fs, params),
    decreases fs.len(),
{
    if fs.len() > 0 {
        let n = fs.len() - 1;
        assert(out[n].name@ == crate::templates::params_applied(fs[n].name@, params));
        lemma_parts_applied(out.drop_last(), fs.drop_last(), params);
    }
}

/// The body a resolved body configuration sends.
pub fn prepare_yaml_body(body_config: &BodyConfig) -> (r: Result<PreparedBody, YcallrError>)
    ensures
        match r {
            Ok(b) => plain_body_plan(body_config@) == Ok::<BodyPlan, ErrorModel>(b@),
            Err(e) => plain_body_plan(body_config@) == Err::<BodyPlan, ErrorModel>(e@),
        },
{
    match &body_config.json {
        Some(j) => {
            return Ok(PreparedBody::Json(j.clone()));
        },
        None => {},
    }
    match &body_config.form {
        Some(f) => {
            let mut out: Vec<(String, String)> = Vec::new();
            let mut i: usize = 0;
            while i < f.entries.len()
                invariant
                    i <= f.entries@.len(),
                    out@.len() == i,
                    forall|k: int| 0 <= k < i ==> (#[trigger] out@[k]) == f.entries@[k],
                decreases f.entries@.len() - i,
            {
                out.push((f.entries[i].0.clone(), f.entries[i].1.clone()));
                i = i + 1;
            }
            assert(out@ =~= f.entries@);
            return Ok(PreparedBody::Form(out));
        },
        None => {},
    }
    match &body_config.raw {
        Some(x) => {
            proof {
                reveal_strlit("text/plain");
            }
            return Ok(PreparedBody::Raw { content_type: owned("text/plain"), body: x.clone() });
        },
        None => {},
    }
    match &body_config.multipart {
        Some(fields) => {
            let mut parts: Vec<NativeMultipartPart> = Vec::new();
            assert(part_views(parts@) =~= Seq::<PartPlan>::empty());
            assert(fields@.take(0) =~= Seq::<MultipartField>::empty());
            let mut i: usize = 0;
            while i < fields.len()
                invariant
                    body_config.multipart == Some(*fields),
                    body_config.json is None,
                    body_config.form is None,
                    body_config.raw is None,
                    i <= fields@.len(),
                    plain_parts(fields@.take(i as int)) == Ok::<Seq<PartPlan>, ErrorModel>(part_views(parts@)),
                decreases fields@.len() - i,
            {
                let f = &fields[i];
                assert(fields@.take(i + 1).drop_last() =~= fields@.take(i as int));
                assert(fields@.take(i + 1).last() == *f);
                let ghost before = parts@;
                match &f.text {
                    Some(t) => {
                        parts.push(NativeMultipartPart::Text { name: f.name.clone(), value: t.clone() });
                        assert(part_views(parts@) =~= part_views(before).push(PartPlan::Text(f.name@, t@)));
                    },
                    None => match &f.file {
                        Some(p) => {
                            match check_multipart_file_path(p.as_str()) {
                                Ok(()) => {},
                                Err(e) => {
                                    proof {
                                        lemma_parts_err_extends(fields@, i as int + 1);
                                    }
                                    return Err(e);
                                },
                            }
                            parts.push(NativeMultipartPart::File { name: f.name.clone(), path: p.clone() });
                            assert(part_views(parts@) =~= part_views(before).push(PartPlan::File(f.name@, p@)));
                        },
                        None => {},
                    },
                }
                i = i + 1;
            }
            assert(fields@.take(fields@.len() as int) =~= fields@);
            if parts.len() == 0 {
                Ok(PreparedBody::Empty)
            } else {
                Ok(PreparedBody::MultipartNative(parts))
            }
        },
        None => Ok(PreparedBody::Empty),
    }
}

/// Once a prefix of the fields fails, all of them fail the same way.
proof fn lemma_parts_err_extends(fs: Seq<MultipartField>, k: int)
    requires
        0 <= k <= fs.len(),
        plain_parts(fs.take(k)) is Err,
    ensures
        plain_parts(fs) == plain_parts(fs.take(k)),
    decreases fs.len() - k,
{
    if k < fs.len() {
        assert(fs.take(k + 1).drop_last() =~= fs.take(k));
        lemma_parts_err_extends(fs, k + 1);
    } else {
        assert(fs.take(k) =~= fs);
    }
}

// ---------------------------------------------------------------- request

/// `s` without its trailing `c` characters.
pub open spec fn without_trailing(s: Seq<char>, c: char) -> Seq<char>
    decreases s.len(),
{
    if s.len() > 0 && s.last() == c {
        without_trailing(s.drop_last(), c)
    } else {
        s
    }
}

/// `str::trim_end_matches(c)`.
pub fn trim_end_char(s: &str, c: char) -> (r: String)
    ensures
        r@ == without_trailing(s@, c),
{
    let v = to_chars(s);
    let mut end: usize = v.len();
    assert(v@.take(v@.len() as int) =~= v@);
    while end > 0 && v[end - 1] == c
        invariant
            end <= v@.len(),
            v@ == s@,
            without_trailing(v@.take(end as int), c) == without_trailing(s@, c),
        decreases end,
    {
        assert(v@.take(end as int).drop_last() =~= v@.take(end - 1));
        end = end - 1;
    }
    assert(v@.take(end as int) =~= v@.subrange(0, end as int));
    crate::text::from_chars_range(&v, 0, end)
}

/// The body of a call: the body given with the call, else the command's
/// configured body with parameters applied, else none.
pub open spec fn body_step(body: Option<Json>, configured: Option<BodyModel>, params: Seq<(String, String)>) -> Result<
    BodyPlan,
    ErrorModel,
> {
    match body {
        Some(j) => Ok(BodyPlan::Json(j)),
        None => match configured {
            Some(b) => body_plan(b, params),
            None => Ok(BodyPlan::Empty),
        },
    }
}

/// What a call of command `c` with valid parameters prepares: the endpoint
/// resolved (parameters, then `${NAME}`) after the base URL without its
/// trailing `/`; the method; the non-path parameters and an API key sent in
/// the query as the query string; the resolved headers and the auth header;
/// and the body.
pub open spec fn request_outcome(
    ctx: ClientContext,
    c: Command,
    params: Seq<(String, String)>,
    body: Option<Json>,
) -> Result<RequestPlan, ErrorModel> {
    let env = ctx.env_vars.entries@;
    match resolved_endpoint(c, params) {
        Err(m) => Err(ErrorModel::ParamValidation(m)),
        Ok(ep) => match env_resolve(ep, env) {
            Err(e) => Err(e),
            Ok(rep) => match c.method {
                None => Err(ErrorModel::ParamValidation("Command has no method"@)),
                Some(method) => match chosen_auth(c.auth, ctx.auth, ctx.auth_configs.entries@) {
                    Err(e) => Err(e),
                    Ok(auth) => match auth_query_step(auth, env, pair_views(query_params(params, path_names(c)))) {
                        Err(e) => Err(e),
                        Ok(q) => match resolved_headers(c.headers.entries@, env) {
                            Err(e) => Err(e),
                            Ok(h0) => match auth_header_step(auth, env, h0) {
                                Err(e) => Err(e),
                                Ok(h) => match body_step(body, command_body(c), params) {
                                    Err(e) => Err(e),
                                    Ok(b) => Ok(
                                        RequestPlan {
                                            method,
                                            url: with_query(without_trailing(ctx.api.base_url@, '/') + rep, q),
                                            headers: h,
                                            body: b,
                                            responses: match c.responses {
                                                Some(r) => Some(r@),
                                                None => None,
                                            },
                                            params: pair_views(params),
                                        },
                                    ),
                                },
                            },
                        },
                    },
                },
            },
        },
    }
}

/// Model of a command's body configuration.
pub open spec fn command_body(c: Command) -> Option<BodyModel> {
    match c.body {
        Some(b) => Some(b@),
        None => None,
    }
}

/// The outcome depends on the context only through its models.
pub proof fn lemma_outcome_same_context(
    a: ClientContext,
    b: ClientContext,
    c: Command,
    params: Seq<(String, String)>,
    body: Option<Json>,
)
    requires
        a.api@ == b.api@,
        a.auth == b.auth,
        a.auth_configs.entries@ == b.auth_configs.entries@,
        a.env_vars.entries@ == b.env_vars.entries@,
    ensures
        request_outcome(a, c, params, body) == request_outcome(b, c, params, body),
{
    assert(a.api.base_url == b.api.base_url);
}

/// Whether a call is valid, and its outcome, depend on the command only
/// through its model.
pub proof fn lemma_outcome_by_model(
    ctx: ClientContext,
    a: Command,
    b: Command,
    params: Seq<(String, String)>,
    body: Option<Json>,
)
    requires
        a@ == b@,
    ensures
        params_valid(a, params, body) == params_valid(b, params, body),
        crate::models::command::params_problem(a, params, body) == crate::models::command::params_problem(
            b,
            params,
            body,
        ),
        request_outcome(ctx, a, params, body) == request_outcome(ctx, b, params, body),
{
    assert(a.endpoint == b.endpoint);
    assert(a.params.entries@ == b.params.entries@);
    assert(a.headers.entries@ == b.headers.entries@);
    assert(command_body(a) == command_body(b));
    assert(crate::models::command::path_names(a) == crate::models::command::path_names(b));
    assert(crate::models::command::declared_problems(a, params, body)
        =~= crate::models::command::declared_problems(b, params, body));
    assert(crate::models::command::path_problems(a, params, body) =~= crate::models::command::path_problems(
        b,
        params,
        body,
    ));
    assert(crate::models::command::unknown_problems(a, params) =~= crate::models::command::unknown_problems(
        b,
        params,
    ));
}

/// Model of a prepared-request result.
pub open spec fn request_result(r: Result<PreparedHttpRequest, YcallrError>) -> Result<RequestPlan, ErrorModel> {
    match r {
        Ok(p) => Ok(p@),
        Err(e) => Err(e@),
    }
}

/// Prepares the request for a call of `cmd` whose parameters were checked.
fn prepare_command_request(ctx: &ClientContext, cmd: &Command, params: &Dict<String>, body: Option<&JsonValue>) -> (r:
    Result<PreparedHttpRequest, YcallrError>)
    ensures
        request_result(r) == request_outcome(*ctx, *cmd, params.entries@, opt_model(body)),
{
    let endpoint = match cmd.resolve_endpoint(params) {
        Ok(e) => e,
        Err(e) => {
            return Err(e);
        },
    };
    let resolved = match resolve_env_vars(endpoint.as_str(), &ctx.env_vars) {
        Ok(x) => x,
        Err(e) => {
            return Err(e);
        },
    };
    let base = trim_end_char(ctx.api.base_url.as_str(), '/');
    let base_url = joined(base.as_str(), resolved.as_str());
    let method = match cmd.method {
        Some(m) => m,
        None => {
            return Err(YcallrError::ParamValidation(owned("Command has no method")));
        },
    };
    let mut query_pairs = build_query_params(cmd, params);
    let auth_config = match resolve_auth_config(cmd, ctx) {
        Ok(a) => a,
        Err(e) => {
            return Err(e);
        },
    };
    match auth_config {
        Some(a) => match add_auth_query_params(a, &ctx.env_vars, &mut query_pairs) {
            Ok(()) => {},
            Err(e) => {
                return Err(e);
            },
        },
        None => {},
    }
    let mut headers = match headers_map(cmd, &ctx.env_vars) {
        Ok(h) => h,
        Err(e) => {
            return Err(e);
        },
    };
    match auth_config {
        Some(a) => match apply_auth_headers(a, &ctx.env_vars, &mut headers) {
            Ok(()) => {},
            Err(e) => {
                return Err(e);
            },
        },
        None => {},
    }
    let url = append_query_pairs(base_url.as_str(), query_pairs.as_slice());
    let prepared_body = match body {
        Some(runtime_body) => PreparedBody::Json(runtime_body.clone()),
        None => match &cmd.body {
            Some(body_config) => {
                let resolved_body = match crate::templates::resolve_body(body_config, params) {
                    Ok(b) => b,
                    Err(e) => {
                        return Err(e);
                    },
                };
                proof {
                    match body_config@.multipart {
                        Some(fs) => {
                            lemma_parts_applied(resolved_body@.multipart->0, fs, params.entries@);
                        },
                        None => {},
                    }
                }
                match prepare_yaml_body(&resolved_body) {
                    Ok(b) => b,
                    Err(e) => {
                        return Err(e);
                    },
                }
            },
            None => PreparedBody::Empty,
        },
    };
    let responses = match &cmd.responses {
        Some(x) => Some(x.clone()),
        None => None,
    };
    Ok(PreparedHttpRequest { method, url, headers, body: prepared_body, responses, params: copy_strings(params) })
}

/// Prepares the HTTP request for a call of the command at a dotted path:
/// the command must exist, the parameters must be valid, then the request
/// is as [`request_outcome`] describes.
pub fn prepare_http_request(ctx: &ClientContext, command: &str, params: &Dict<String>, body: Option<&JsonValue>) -> (r:
    Result<PreparedHttpRequest, YcallrError>)
    ensures
        match crate::models::api::find_command(ctx.api@, command@) {
            Err(m) => r matches Err(e) && e@ == ErrorModel::CommandNotFound(m),
            Ok(cm) => (exists|c: Command| #[trigger] c@ == cm) && forall|c: Command|
                #[trigger] c@ == cm ==> if params_valid(c, params.entries@, opt_model(body)) {
                    request_result(r) == request_outcome(*ctx, c, params.entries@, opt_model(body))
                } else {
                    r matches Err(e) && e@ == ErrorModel::ParamValidation(
                        crate::models::command::params_problem(c, params.entries@, opt_model(body))->0,
                    )
                },
        },
{
    let cmd = match ctx.api.get_command(command) {
        Ok(c) => c,
        Err(e) => {
            return Err(e);
        },
    };
    let ghost cm = cmd@;
    let ghost c0 = *cmd;
    match cmd.validate_params(params, body) {
        Ok(()) => {},
        Err(e) => {
            let r: Result<PreparedHttpRequest, YcallrError> = Err(e);
            proof {
                assert forall|c: Command| #[trigger] c@ == cm implies !params_valid(
                    c,
                    params.entries@,
                    opt_model(body),
                ) && (r matches Err(e) && e@ == ErrorModel::ParamValidation(
                    crate::models::command::params_problem(c, params.entries@, opt_model(body))->0,
                )) by {
                    lemma_outcome_by_model(*ctx, c0, c, params.entries@, opt_model(body));
                }
            }
            return r;
        },
    }
    let r = prepare_command_request(ctx, cmd, params, body);
    proof {
        assert forall|c: Command| #[trigger] c@ == cm implies params_valid(c, params.entries@, opt_model(body))
            && request_result(r) == request_outcome(*ctx, c, params.entries@, opt_model(body)) by {
            lemma_outcome_by_model(*ctx, c0, c, params.entries@, opt_model(body));
        }
    }
    r
}

// ---------------------------------------------------------------- response

/// The reply body: the text's JSON value, or the text itself as a JSON string.
pub open spec fn reply_body(text: Seq<char>) -> Json {
    match crate::outside::json_parse(text) {
        Some(j) => j,
        None => Json::Str(text),
    }
}

/// The message template for a status: the command's responses first, then
/// the API errors, then the built-in one.
pub open spec fn message_template(responses: Option<ResponseModel>, errors: Option<ErrorsModel>, status: u16) -> Seq<char> {
    let from_command = match responses {
        Some(rc) => crate::models::response::entry_for_status(rc, status),
        None => None,
    };
    let from_errors = match errors {
        Some(ec) => crate::models::response::error_entry_for_status(ec, status),
        None => None,
    };
    match from_command {
        Some(e) => e.message@,
        None => match from_errors {
            Some(e) => e.message@,
            None => crate::models::response::builtin_template(status),
        },
    }
}

/// The response for a reply whose body is already a value.
pub fn api_response(
    status: u16,
    headers: Dict<String>,
    body: JsonValue,
    responses: Option<&ResponseConfig>,
    api_errors: Option<&ApiErrorConfig>,
    params: &Dict<String>,
) -> (r: crate::call_engine::types::ApiResponse)
    ensures
        r.status == status,
        r.headers == headers,
        r.body@ == body@,
        r.message matches Some(m) && m@ == crate::templates::response_message(
            message_template(
                match responses {
                    Some(x) => Some(x@),
                    None => None,
                },
                match api_errors {
                    Some(x) => Some(x@),
                    None => None,
                },
                status,
            ),
            status,
            params.entries@,
            body@,
        ),
{
    let from_command = match responses {
        Some(rc) => rc.get_entry_for_status(status),
        None => None,
    };
    let from_errors = match api_errors {
        Some(ec) => ec.get_entry_for_status(status),
        None => None,
    };
    let template: &str = match from_command {
        Some(e) => e.message.as_str(),
        None => match from_errors {
            Some(e) => e.message.as_str(),
            None => crate::models::response::builtin_response_template(status),
        },
    };
    let message = crate::templates::resolve_response_template(template, status, params, &body);
    crate::call_engine::types::ApiResponse { status, headers, body, message: Some(message) }
}

/// The response for a reply: the body text is parsed as JSON when it is JSON.
pub fn build_api_response(
    status: u16,
    headers: Dict<String>,
    body_text: String,
    responses: Option<&ResponseConfig>,
    api_errors: Option<&ApiErrorConfig>,
    params: &Dict<String>,
) -> (r: crate::call_engine::types::ApiResponse)
    ensures
        r.status == status,
        r.headers == headers,
        r.body@ == reply_body(body_text@),
        r.message matches Some(m) && m@ == crate::templates::response_message(
            message_template(
                match responses {
                    Some(x) => Some(x@),
                    None => None,
                },
                match api_errors {
                    Some(x) => Some(x@),
                    None => None,
                },
                status,
            ),
            status,
            params.entries@,
            reply_body(body_text@),
        ),
{
    let body = match crate::outside::json_from_text(body_text.as_str()) {
        Ok(v) => v,
        Err(_) => JsonValue::Str(body_text),
    };
    api_response(status, headers, body, responses, api_errors, params)
}

} // verus!
