//! Conversions between the profile model and its compiled form.

use vstd::prelude::*;
use crate::dict::Dict;
use crate::error::{ErrorModel, YcallrError};
use crate::json::Json;
use crate::models::types::{
    copy_strings, ApiErrorConfig, ApiKeyLocation, AuthConfig, BodyConfig, BodyModel, Command,
    CommandModel, EnvVar, ErrorsModel, HttpMethod, MultipartField, ParamType, Parameter,
    ResponseConfig, ResponseEntry, ResponseModel,
};
use crate::models::command::joined;
use crate::outside::{json_from_text, json_read, json_text, json_to_text};
use crate::proto;
use crate::proto::auth_config::Kind;
use crate::text::{i32_decimal, int_decimal, owned};

verus! {

broadcast use vstd::std_specs::vec::group_vec_axioms;

// ---------------------------------------------------------------- results in order

/// The first error among results taken in order.
pub open spec fn first_error<T>(rs: Seq<Result<T, ErrorModel>>) -> Option<ErrorModel>
    decreases rs.len(),
{
    if rs.len() == 0 {
        None
    } else {
        match first_error(rs.drop_last()) {
            Some(e) => Some(e),
            None => match rs.last() {
                Err(e) => Some(e),
                Ok(_) => None,
            },
        }
    }
}

/// Once a prefix has an error, the whole sequence has that error first.
pub proof fn lemma_first_error_extends<T>(rs: Seq<Result<T, ErrorModel>>, k: int)
    requires
        0 <= k <= rs.len(),
        first_error(rs.take(k)) is Some,
    ensures
        first_error(rs) == first_error(rs.take(k)),
    decreases rs.len() - k,
{
    if k < rs.len() {
        assert(rs.take(k + 1).drop_last() =~= rs.take(k));
        lemma_first_error_extends(rs, k + 1);
    } else {
        assert(rs.take(k) =~= rs);
    }
}

/// Without an error, every result is a value.
pub proof fn lemma_no_error<T>(rs: Seq<Result<T, ErrorModel>>)
    requires
        first_error(rs) is None,
    ensures
        forall|i: int| 0 <= i < rs.len() ==> (#[trigger] rs[i]) is Ok,
    decreases rs.len(),
{
    if rs.len() > 0 {
        lemma_no_error(rs.drop_last());
        assert forall|i: int| 0 <= i < rs.len() implies (#[trigger] rs[i]) is Ok by {
            if i < rs.len() - 1 {
                assert(rs.drop_last()[i] == rs[i]);
            }
        }
    }
}

// ---------------------------------------------------------------- enums

pub open spec fn method_message(m: HttpMethod) -> proto::HttpMethod {
    match m {
        HttpMethod::GET => proto::HttpMethod::Get,
        HttpMethod::POST => proto::HttpMethod::Post,
        HttpMethod::PUT => proto::HttpMethod::Put,
        HttpMethod::DELETE => proto::HttpMethod::Delete,
        HttpMethod::PATCH => proto::HttpMethod::Patch,
    }
}

/// The method a code stands for, or the error for an unknown code.
pub open spec fn method_of_code(v: i32) -> Result<HttpMethod, ErrorModel> {
    if v == 0 {
        Ok(HttpMethod::GET)
    } else if v == 1 {
        Ok(HttpMethod::POST)
    } else if v == 2 {
        Ok(HttpMethod::PUT)
    } else if v == 3 {
        Ok(HttpMethod::DELETE)
    } else if v == 4 {
        Ok(HttpMethod::PATCH)
    } else {
        Err(ErrorModel::Protobuf("Unknown HTTP method enum value: "@ + int_decimal(v as int)))
    }
}

pub open spec fn type_message(t: ParamType) -> proto::ParamType {
    match t {
        ParamType::String => proto::ParamType::String,
        ParamType::Number => proto::ParamType::Number,
        ParamType::Boolean => proto::ParamType::Boolean,
        ParamType::Array => proto::ParamType::Array,
    }
}

pub open spec fn type_of_code(v: i32) -> Result<ParamType, ErrorModel> {
    if v == 0 {
        Ok(ParamType::String)
    } else if v == 1 {
        Ok(ParamType::Number)
    } else if v == 2 {
        Ok(ParamType::Boolean)
    } else if v == 3 {
        Ok(ParamType::Array)
    } else {
        Err(ErrorModel::Protobuf("Unknown parameter type enum value: "@ + int_decimal(v as int)))
    }
}

pub open spec fn location_message(l: ApiKeyLocation) -> proto::ApiKeyLocation {
    match l {
        ApiKeyLocation::Header => proto::ApiKeyLocation::Header,
        ApiKeyLocation::Query => proto::ApiKeyLocation::Query,
        ApiKeyLocation::Cookie => proto::ApiKeyLocation::Cookie,
    }
}

pub open spec fn location_of_code(v: i32) -> Result<ApiKeyLocation, ErrorModel> {
    if v == 0 {
        Ok(ApiKeyLocation::Header)
    } else if v == 1 {
        Ok(ApiKeyLocation::Query)
    } else if v == 2 {
        Ok(ApiKeyLocation::Cookie)
    } else {
        Err(ErrorModel::Protobuf("Unknown API key location enum value: "@ + int_decimal(v as int)))
    }
}

pub fn method_to_proto(method: &HttpMethod) -> (r: proto::HttpMethod)
    ensures
        r == method_message(*method),
{
    match method {
        HttpMethod::GET => proto::HttpMethod::Get,
        HttpMethod::POST => proto::HttpMethod::Post,
        HttpMethod::PUT => proto::HttpMethod::Put,
        HttpMethod::DELETE => proto::HttpMethod::Delete,
        HttpMethod::PATCH => proto::HttpMethod::Patch,
    }
}

pub fn method_from_i32(method: i32) -> (r: Result<HttpMethod, YcallrError>)
    ensures
        match r {
            Ok(m) => method_of_code(method) == Ok::<HttpMethod, ErrorModel>(m),
            Err(e) => method_of_code(method) == Err::<HttpMethod, ErrorModel>(e@),
        },
{
    match method {
        0 => Ok(HttpMethod::GET),
        1 => Ok(HttpMethod::POST),
        2 => Ok(HttpMethod::PUT),
        3 => Ok(HttpMethod::DELETE),
        4 => Ok(HttpMethod::PATCH),
        _ => Err(YcallrError::Protobuf(joined("Unknown HTTP method enum value: ", i32_decimal(method).as_str()))),
    }
}

pub fn type_to_proto(t: &ParamType) -> (r: proto::ParamType)
    ensures
        r == type_message(*t),
{
    match t {
        ParamType::String => proto::ParamType::String,
        ParamType::Number => proto::ParamType::Number,
        ParamType::Boolean => proto::ParamType::Boolean,
        ParamType::Array => proto::ParamType::Array,
    }
}

pub fn type_from_i32(t: i32) -> (r: Result<ParamType, YcallrError>)
    ensures
        match r {
            Ok(x) => type_of_code(t) == Ok::<ParamType, ErrorModel>(x),
            Err(e) => type_of_code(t) == Err::<ParamType, ErrorModel>(e@),
        },
{
    match t {
        0 => Ok(ParamType::String),
        1 => Ok(ParamType::Number),
        2 => Ok(ParamType::Boolean),
        3 => Ok(ParamType::Array),
        _ => Err(YcallrError::Protobuf(joined("Unknown parameter type enum value: ", i32_decimal(t).as_str()))),
    }
}

pub fn api_key_location_to_proto(location: &ApiKeyLocation) -> (r: proto::ApiKeyLocation)
    ensures
        r == location_message(*location),
{
    match location {
        ApiKeyLocation::Header => proto::ApiKeyLocation::Header,
        ApiKeyLocation::Query => proto::ApiKeyLocation::Query,
        ApiKeyLocation::Cookie => proto::ApiKeyLocation::Cookie,
    }
}

pub fn api_key_location_from_i32(location: i32) -> (r: Result<ApiKeyLocation, YcallrError>)
    ensures
        match r {
            Ok(x) => location_of_code(location) == Ok::<ApiKeyLocation, ErrorModel>(x),
            Err(e) => location_of_code(location) == Err::<ApiKeyLocation, ErrorModel>(e@),
        },
{
    match location {
        0 => Ok(ApiKeyLocation::Header),
        1 => Ok(ApiKeyLocation::Query),
        2 => Ok(ApiKeyLocation::Cookie),
        _ => Err(YcallrError::Protobuf(joined("Unknown API key location enum value: ", i32_decimal(location).as_str()))),
    }
}

// ---------------------------------------------------------------- parameters, env, entries

pub open spec fn param_message(p: Parameter) -> proto::Parameter {
    proto::Parameter {
        description: p.description,
        param_type: proto::type_code(type_message(p.param_type)),
        required: p.required,
    }
}

pub open spec fn param_of_message(p: proto::Parameter) -> Result<Parameter, ErrorModel> {
    match type_of_code(p.param_type) {
        Ok(t) => Ok(Parameter { description: p.description, param_type: t, required: p.required }),
        Err(e) => Err(e),
    }
}

pub fn param_to_proto(param: &Parameter) -> (r: proto::Parameter)
    ensures
        r == param_message(*param),
{
    proto::Parameter {
        description: param.description.clone(),
        param_type: type_to_proto(&param.param_type).code(),
        required: param.required,
    }
}

pub fn param_from_proto(param: &proto::Parameter) -> (r: Result<Parameter, YcallrError>)
    ensures
        match r {
            Ok(p) => param_of_message(*param) == Ok::<Parameter, ErrorModel>(p),
            Err(e) => param_of_message(*param) == Err::<Parameter, ErrorModel>(e@),
        },
{
    let t = match type_from_i32(param.param_type) {
        Ok(t) => t,
        Err(e) => {
            return Err(e);
        },
    };
    Ok(Parameter { description: param.description.clone(), param_type: t, required: param.required })
}

pub open spec fn env_message(e: EnvVar) -> proto::EnvVar {
    proto::EnvVar { name: e.name, required: e.required }
}

pub open spec fn env_of_message(e: proto::EnvVar) -> EnvVar {
    EnvVar { name: e.name, required: e.required }
}

pub fn env_to_proto(env: &EnvVar) -> (r: proto::EnvVar)
    ensures
        r == env_message(*env),
{
    proto::EnvVar { name: env.name.clone(), required: env.required }
}

pub fn env_from_proto(env: &proto::EnvVar) -> (r: EnvVar)
    ensures
        r == env_of_message(*env),
{
    EnvVar { name: env.name.clone(), required: env.required }
}

pub open spec fn entry_message(e: ResponseEntry) -> proto::ResponseEntry {
    proto::ResponseEntry { message: e.message }
}

pub open spec fn entry_of_message(e: proto::ResponseEntry) -> ResponseEntry {
    ResponseEntry { message: e.message }
}

pub open spec fn opt_entry_message(e: Option<ResponseEntry>) -> Option<proto::ResponseEntry> {
    match e {
        Some(x) => Some(entry_message(x)),
        None => None,
    }
}

pub open spec fn opt_entry_of_message(e: Option<proto::ResponseEntry>) -> Option<ResponseEntry> {
    match e {
        Some(x) => Some(entry_of_message(x)),
        None => None,
    }
}

pub open spec fn entries_message(es: Seq<(String, ResponseEntry)>) -> Seq<(String, proto::ResponseEntry)> {
    Seq::new(es.len(), |i: int| (es[i].0, entry_message(es[i].1)))
}

pub open spec fn entries_of_message(es: Seq<(String, proto::ResponseEntry)>) -> Seq<(String, ResponseEntry)> {
    Seq::new(es.len(), |i: int| (es[i].0, entry_of_message(es[i].1)))
}

fn response_entry_to_proto(entry: &ResponseEntry) -> (r: proto::ResponseEntry)
    ensures
        r == entry_message(*entry),
{
    proto::ResponseEntry { message: entry.message.clone() }
}

fn response_entry_from_proto(entry: &proto::ResponseEntry) -> (r: ResponseEntry)
    ensures
        r == entry_of_message(*entry),
{
    ResponseEntry { message: entry.message.clone() }
}

fn opt_entry_to_proto(e: &Option<ResponseEntry>) -> (r: Option<proto::ResponseEntry>)
    ensures
        r == opt_entry_message(*e),
{
    match e {
        Some(x) => Some(response_entry_to_proto(x)),
        None => None,
    }
}

fn opt_entry_from_proto(e: &Option<proto::ResponseEntry>) -> (r: Option<ResponseEntry>)
    ensures
        r == opt_entry_of_message(*e),
{
    match e {
        Some(x) => Some(response_entry_from_proto(x)),
        None => None,
    }
}

fn entries_to_proto(d: &Dict<ResponseEntry>) -> (r: Dict<proto::ResponseEntry>)
    ensures
        r.entries@ == entries_message(d.entries@),
{
    let mut out: Vec<(String, proto::ResponseEntry)> = Vec::new();
    let mut i: usize = 0;
    while i < d.entries.len()
        invariant
            i <= d.entries@.len(),
            out@.len() == i,
            forall|k: int| 0 <= k < i ==> (#[trigger] out@[k]) == (d.entries@[k].0, entry_message(d.entries@[k].1)),
        decreases d.entries@.len() - i,
    {
        out.push((d.entries[i].0.clone(), response_entry_to_proto(&d.entries[i].1)));
        i = i + 1;
    }
    assert(out@ =~= entries_message(d.entries@));
    Dict { entries: out }
}

fn entries_from_proto(d: &Dict<proto::ResponseEntry>) -> (r: Dict<ResponseEntry>)
    ensures
        r.entries@ == entries_of_message(d.entries@),
{
    let mut out: Vec<(String, ResponseEntry)> = Vec::new();
    let mut i: usize = 0;
    while i < d.entries.len()
        invariant
            i <= d.entries@.len(),
            out@.len() == i,
            forall|k: int| 0 <= k < i ==> (#[trigger] out@[k]) == (d.entries@[k].0, entry_of_message(d.entries@[k].1)),
        decreases d.entries@.len() - i,
    {
        out.push((d.entries[i].0.clone(), response_entry_from_proto(&d.entries[i].1)));
        i = i + 1;
    }
    assert(out@ =~= entries_of_message(d.entries@));
    Dict { entries: out }
}

// ---------------------------------------------------------------- responses and errors

pub open spec fn responses_message(r: ResponseModel) -> proto::ResponsesMessage {
    proto::ResponsesMessage {
        success: opt_entry_message(r.success),
        failure: opt_entry_message(r.failure),
        warn: opt_entry_message(r.warn),
        codes: entries_message(r.codes),
    }
}

pub open spec fn responses_of_message(r: proto::ResponsesMessage) -> ResponseModel {
    ResponseModel {
        success: opt_entry_of_message(r.success),
        failure: opt_entry_of_message(r.failure),
        warn: opt_entry_of_message(r.warn),
        codes: entries_of_message(r.codes),
    }
}

pub open spec fn errors_message(e: ErrorsModel) -> proto::ErrorsMessage {
    proto::ErrorsMessage { default_entry: opt_entry_message(e.default), codes: entries_message(e.codes) }
}

pub open spec fn errors_of_message(e: proto::ErrorsMessage) -> ErrorsModel {
    ErrorsModel { default: opt_entry_of_message(e.default_entry), codes: entries_of_message(e.codes) }
}

pub fn response_config_to_proto(config: &ResponseConfig) -> (r: proto::ResponseConfig)
    ensures
        r@ == responses_message(config@),
{
    proto::ResponseConfig {
        success: opt_entry_to_proto(&config.success),
        failure: opt_entry_to_proto(&config.failure),
        warn: opt_entry_to_proto(&config.warn),
        codes: entries_to_proto(&config.codes),
    }
}

pub fn response_config_from_proto(config: &proto::ResponseConfig) -> (r: ResponseConfig)
    ensures
        r@ == responses_of_message(config@),
{
    ResponseConfig {
        success: opt_entry_from_proto(&config.success),
        failure: opt_entry_from_proto(&config.failure),
        warn: opt_entry_from_proto(&config.warn),
        codes: entries_from_proto(&config.codes),
    }
}

pub fn api_error_config_to_proto(config: &ApiErrorConfig) -> (r: proto::ApiErrorConfig)
    ensures
        r@ == errors_message(config@),
{
    proto::ApiErrorConfig { default_entry: opt_entry_to_proto(&config.default), codes: entries_to_proto(&config.codes) }
}

pub fn api_error_config_from_proto(config: &proto::ApiErrorConfig) -> (r: ApiErrorConfig)
    ensures
        r@ == errors_of_message(config@),
{
    ApiErrorConfig { default: opt_entry_from_proto(&config.default_entry), codes: entries_from_proto(&config.codes) }
}

// ---------------------------------------------------------------- auth

pub open spec fn auth_message(a: AuthConfig) -> proto::AuthConfig {
    proto::AuthConfig {
        kind: Some(
            match a {
                AuthConfig::Bearer { token } => Kind::Bearer(proto::BearerAuth { token }),
                AuthConfig::ApiKey { key, name, in_ } => Kind::ApiKey(
                    proto::ApiKeyAuth { key, name, location: proto::location_code(location_message(in_)) },
                ),
                AuthConfig::Http { scheme, token, username, password, prefix } => Kind::Http(
                    proto::HttpAuth { scheme, token, username, password, prefix },
                ),
            },
        ),
    }
}

pub open spec fn auth_of_message(a: proto::AuthConfig) -> Result<AuthConfig, ErrorModel> {
    match a.kind {
        Some(Kind::Bearer(b)) => Ok(AuthConfig::Bearer { token: b.token }),
        Some(Kind::ApiKey(k)) => match location_of_code(k.location) {
            Ok(l) => Ok(AuthConfig::ApiKey { key: k.key, name: k.name, in_: l }),
            Err(e) => Err(e),
        },
        Some(Kind::Http(h)) => Ok(
            AuthConfig::Http {
                scheme: h.scheme,
                token: h.token,
                username: h.username,
                password: h.password,
                prefix: h.prefix,
            },
        ),
        None => Err(ErrorModel::Protobuf("AuthConfig has no variant set"@)),
    }
}

pub fn auth_to_proto(auth: &AuthConfig) -> (r: proto::AuthConfig)
    ensures
        r == auth_message(*auth),
{
    match auth {
        AuthConfig::Bearer { token } => proto::AuthConfig {
            kind: Some(Kind::Bearer(proto::BearerAuth { token: token.clone() })),
        },
        AuthConfig::ApiKey { key, name, in_ } => proto::AuthConfig {
            kind: Some(
                Kind::ApiKey(
                    proto::ApiKeyAuth { key: key.clone(), name: name.clone(), location: api_key_location_to_proto(in_).code() },
                ),
            ),
        },
        AuthConfig::Http { scheme, token, username, password, prefix } => proto::AuthConfig {
            kind: Some(
                Kind::Http(
                    proto::HttpAuth {
                        scheme: scheme.clone(),
                        token: token.clone(),
                        username: username.clone(),
                        password: password.clone(),
                        prefix: prefix.clone(),
                    },
                ),
            ),
        },
    }
}

pub fn auth_from_proto(auth: &proto::AuthConfig) -> (r: Result<AuthConfig, YcallrError>)
    ensures
        match r {
            Ok(a) => auth_of_message(*auth) == Ok::<AuthConfig, ErrorModel>(a),
            Err(e) => auth_of_message(*auth) == Err::<AuthConfig, ErrorModel>(e@),
        },
{
    match &auth.kind {
        Some(Kind::Bearer(bearer)) => Ok(AuthConfig::Bearer { token: bearer.token.clone() }),
        Some(Kind::ApiKey(api_key)) => {
            let l = match api_key_location_from_i32(api_key.location) {
                Ok(l) => l,
                Err(e) => {
                    return Err(e);
                },
            };
            Ok(AuthConfig::ApiKey { key: api_key.key.clone(), name: api_key.name.clone(), in_: l })
        },
        Some(Kind::Http(http)) => Ok(
            AuthConfig::Http {
                scheme: http.scheme.clone(),
                token: http.token.clone(),
                username: http.username.clone(),
                password: http.password.clone(),
                prefix: http.prefix.clone(),
            },
        ),
        None => Err(YcallrError::Protobuf(owned("AuthConfig has no variant set"))),
    }
}

// ---------------------------------------------------------------- bodies

pub open spec fn field_message(f: MultipartField) -> proto::MultipartField {
    proto::MultipartField { name: f.name, text: f.text, file: f.file }
}

pub open spec fn field_of_message(f: proto::MultipartField) -> MultipartField {
    MultipartField { name: f.name, text: f.text, file: f.file }
}

/// The compiled body: JSON as compact text; a missing form or multipart list
/// becomes an empty one.
pub open spec fn body_message(b: BodyModel) -> proto::BodyMessage {
    proto::BodyMessage {
        json: match b.json {
            Some(j) => Some(json_text(j)),
            None => None,
        },
        fields: match b.form {
            Some(f) => f,
            None => Seq::empty(),
        },
        raw: b.raw,
        multipart: match b.multipart {
            Some(fs) => Seq::new(fs.len(), |i: int| field_message(fs[i])),
            None => Seq::empty(),
        },
    }
}

/// The body a compiled body stands for: the JSON text parsed (an error when it
/// is not JSON); empty form and multipart lists mean none.
pub open spec fn body_of_message(b: proto::BodyMessage) -> Result<BodyModel, ErrorModel> {
    let json: Result<Option<Json>, ErrorModel> = match b.json {
        Some(s) => match json_read(s) {
            Ok(j) => Ok(Some(j)),
            Err(m) => Err(ErrorModel::Protobuf("Invalid JSON in body.json: "@ + m)),
        },
        None => Ok(None),
    };
    match json {
        Err(e) => Err(e),
        Ok(j) => Ok(
            BodyModel {
                json: j,
                form: if b.fields.len() == 0 {
                    None
                } else {
                    Some(b.fields)
                },
                raw: b.raw,
                multipart: if b.multipart.len() == 0 {
                    None
                } else {
                    Some(Seq::new(b.multipart.len(), |i: int| field_of_message(b.multipart[i])))
                },
            },
        ),
    }
}

pub fn body_to_proto(body: &BodyConfig) -> (r: proto::BodyConfig)
    ensures
        r@ == body_message(body@),
{
    let json = match &body.json {
        Some(v) => Some(json_to_text(v)),
        None => None,
    };
    let fields = match &body.form {
        Some(m) => copy_strings(m),
        None => Dict::new(),
    };
    let mut multipart: Vec<proto::MultipartField> = Vec::new();
    match &body.multipart {
        Some(fs) => {
            let mut i: usize = 0;
            while i < fs.len()
                invariant
                    i <= fs@.len(),
                    multipart@.len() == i,
                    forall|k: int| 0 <= k < i ==> (#[trigger] multipart@[k]) == field_message(fs@[k]),
                decreases fs@.len() - i,
            {
                multipart.push(
                    proto::MultipartField { name: fs[i].name.clone(), text: fs[i].text.clone(), file: fs[i].file.clone() },
                );
                i = i + 1;
            }
            assert(multipart@ =~= Seq::new(fs@.len(), |k: int| field_message(fs@[k])));
        },
        None => {
            assert(multipart@ =~= Seq::<proto::MultipartField>::empty());
        },
    }
    proto::BodyConfig { json, fields, raw: body.raw.clone(), multipart }
}

pub fn body_from_proto(body: &proto::BodyConfig) -> (r: Result<BodyConfig, YcallrError>)
    ensures
        match r {
            Ok(b) => body_of_message(body@) == Ok::<BodyModel, ErrorModel>(b@),
            Err(e) => body_of_message(body@) == Err::<BodyModel, ErrorModel>(e@),
        },
{
    let json = match &body.json {
        Some(s) => match json_from_text(s.as_str()) {
            Ok(v) => Some(v),
            Err(m) => {
                return Err(YcallrError::Protobuf(joined("Invalid JSON in body.json: ", m.as_str())));
            },
        },
        None => None,
    };
    let form = if body.fields.is_empty() {
        None
    } else {
        Some(copy_strings(&body.fields))
    };
    let multipart = if body.multipart.len() == 0 {
        None
    } else {
        let mut out: Vec<MultipartField> = Vec::new();
        let mut i: usize = 0;
        while i < body.multipart.len()
            invariant
                i <= body.multipart@.len(),
                out@.len() == i,
                forall|k: int| 0 <= k < i ==> (#[trigger] out@[k]) == field_of_message(body.multipart@[k]),
            decreases body.multipart@.len() - i,
        {
            let f = &body.multipart[i];
            out.push(MultipartField { name: f.name.clone(), text: f.text.clone(), file: f.file.clone() });
            i = i + 1;
        }
        assert(out@ =~= Seq::new(body.multipart@.len(), |k: int| field_of_message(body.multipart@[k])));
        Some(out)
    };
    Ok(BodyConfig { json, form, raw: body.raw.clone(), multipart })
}

// ---------------------------------------------------------------- commands

/// The compiled form of a command and, recursively, of its sub-commands.
pub open spec fn command_to_message(c: CommandModel) -> proto::CommandMessage
    decreases c,
{
    proto::CommandMessage {
        description: c.description,
        endpoint: c.endpoint,
        method: match c.method {
            Some(m) => Some(proto::method_code(method_message(m))),
            None => None,
        },
        headers: c.headers,
        params: Seq::new(c.params.len(), |i: int| (c.params[i].0, param_message(c.params[i].1))),
        commands: match c.commands {
            Some(es) => Seq::new(
                es.len(),
                |i: int|
                    if 0 <= i < es.len() {
                        (es[i].0, command_to_message(es[i].1))
                    } else {
                        arbitrary()
                    },
            ),
            None => Seq::empty(),
        },
        body: match c.body {
            Some(b) => Some(body_message(b)),
            None => None,
        },
        responses: match c.responses {
            Some(r) => Some(responses_message(r)),
            None => None,
        },
        auth: c.auth,
    }
}

pub open spec fn opt_method_of_code(m: Option<i32>) -> Result<Option<HttpMethod>, ErrorModel> {
    match m {
        Some(v) => match method_of_code(v) {
            Ok(x) => Ok(Some(x)),
            Err(e) => Err(e),
        },
        None => Ok(None),
    }
}

pub open spec fn opt_body_of_message(b: Option<proto::BodyMessage>) -> Result<Option<BodyModel>, ErrorModel> {
    match b {
        Some(x) => match body_of_message(x) {
            Ok(y) => Ok(Some(y)),
            Err(e) => Err(e),
        },
        None => Ok(None),
    }
}

/// Results of converting each compiled parameter.
pub open spec fn param_results(ps: Seq<(String, proto::Parameter)>) -> Seq<Result<Parameter, ErrorModel>> {
    Seq::new(ps.len(), |i: int| param_of_message(ps[i].1))
}

/// Results of converting each compiled sub-command.
pub open spec fn sub_command_results(p: proto::CommandMessage) -> Seq<Result<CommandModel, ErrorModel>>
    decreases p, 0int,
{
    Seq::new(
        p.commands.len(),
        |i: int|
            if 0 <= i < p.commands.len() {
                command_of_message(p.commands[i].1)
            } else {
                arbitrary()
            },
    )
}

/// The command a compiled command stands for: parameters, then sub-commands,
/// then the method code, then the body must convert; an empty sub-command
/// table means none.
pub open spec fn command_of_message(p: proto::CommandMessage) -> Result<CommandModel, ErrorModel>
    decreases p, 1int,
{
    let prs = param_results(p.params);
    let crs = sub_command_results(p);
    match first_error(prs) {
        Some(e) => Err(e),
        None => match first_error(crs) {
            Some(e) => Err(e),
            None => match opt_method_of_code(p.method) {
                Err(e) => Err(e),
                Ok(m) => match opt_body_of_message(p.body) {
                    Err(e) => Err(e),
                    Ok(b) => Ok(
                        CommandModel {
                            description: p.description,
                            endpoint: p.endpoint,
                            method: m,
                            auth: p.auth,
                            headers: p.headers,
                            params: Seq::new(p.params.len(), |i: int| (p.params[i].0, prs[i]->Ok_0)),
                            body: b,
                            responses: match p.responses {
                                Some(r) => Some(responses_of_message(r)),
                                None => None,
                            },
                            commands: if p.commands.len() == 0 {
                                None
                            } else {
                                Some(Seq::new(p.commands.len(), |i: int| (p.commands[i].0, crs[i]->Ok_0)))
                            },
                        },
                    ),
                },
            },
        },
    }
}

pub fn command_to_proto(cmd: &Command) -> (r: proto::Command)
    ensures
        r@ == command_to_message(cmd@),
    decreases cmd,
{
    let mut commands: Vec<(String, proto::Command)> = Vec::new();
    match &cmd.commands {
        Some(d) => {
            let mut i: usize = 0;
            while i < d.entries.len()
                invariant
                    cmd.commands == Some(*d),
                    i <= d.entries@.len(),
                    commands@.len() == i,
                    forall|k: int|
                        0 <= k < i ==> (#[trigger] commands@[k]).0 == d.entries@[k].0 && commands@[k].1@
                            == command_to_message(d.entries@[k].1@),
                decreases d.entries@.len() - i,
            {
                assert(decreases_to!(*cmd => cmd.commands));
                assert(decreases_to!(cmd.commands => (cmd.commands)->0));
                assert(decreases_to!(*d => d.entries));
                assert(decreases_to!(d.entries => d.entries@[i as int]));
                assert(decreases_to!(d.entries@[i as int] => d.entries@[i as int].1));
                let sub = command_to_proto(&d.entries[i].1);
                commands.push((d.entries[i].0.clone(), sub));
                i = i + 1;
            }
        },
        None => {},
    }
    let mut params: Vec<(String, proto::Parameter)> = Vec::new();
    let mut j: usize = 0;
    while j < cmd.params.entries.len()
        invariant
            j <= cmd.params.entries@.len(),
            params@.len() == j,
            forall|k: int|
                0 <= k < j ==> (#[trigger] params@[k]) == (cmd.params.entries@[k].0, param_message(cmd.params.entries@[k].1)),
        decreases cmd.params.entries@.len() - j,
    {
        params.push((cmd.params.entries[j].0.clone(), param_to_proto(&cmd.params.entries[j].1)));
        j = j + 1;
    }
    let r = proto::Command {
        description: cmd.description.clone(),
        endpoint: cmd.endpoint.clone(),
        method: match cmd.method {
            Some(m) => Some(method_to_proto(&m).code()),
            None => None,
        },
        headers: copy_strings(&cmd.headers),
        params: Dict { entries: params },
        commands,
        body: match &cmd.body {
            Some(b) => Some(body_to_proto(b)),
            None => None,
        },
        responses: match &cmd.responses {
            Some(x) => Some(response_config_to_proto(x)),
            None => None,
        },
        auth: cmd.auth.clone(),
    };
    proof {
        assert(r@.params =~= command_to_message(cmd@).params);
        assert(r@.commands =~= command_to_message(cmd@).commands);
    }
    r
}

pub fn command_from_proto(cmd: &proto::Command) -> (r: Result<Command, YcallrError>)
    ensures
        match r {
            Ok(c) => command_of_message(cmd@) == Ok::<CommandModel, ErrorModel>(c@),
            Err(e) => command_of_message(cmd@) == Err::<CommandModel, ErrorModel>(e@),
        },
    decreases cmd,
{
    let ghost p = cmd@;
    let ghost prs = param_results(p.params);
    let ghost crs = sub_command_results(p);
    let mut params: Vec<(String, Parameter)> = Vec::new();
    let mut j: usize = 0;
    while j < cmd.params.entries.len()
        invariant
            p == cmd@,
            prs == param_results(p.params),
            j <= cmd.params.entries@.len(),
            params@.len() == j,
            first_error(prs.take(j as int)) is None,
            forall|k: int|
                0 <= k < j ==> (#[trigger] params@[k]).0 == cmd.params.entries@[k].0 && prs[k] == Ok::<
                    Parameter,
                    ErrorModel,
                >(params@[k].1),
        decreases cmd.params.entries@.len() - j,
    {
        assert(prs.take(j + 1).drop_last() =~= prs.take(j as int));
        assert(prs.take(j + 1).last() == prs[j as int]);
        let x = match param_from_proto(&cmd.params.entries[j].1) {
            Ok(x) => x,
            Err(e) => {
                proof {
                    lemma_first_error_extends(prs, j + 1);
                    assert(first_error(prs) == Some(e@));
                }
                return Err(e);
            },
        };
        params.push((cmd.params.entries[j].0.clone(), x));
        j = j + 1;
    }
    assert(prs.take(prs.len() as int) =~= prs);
    let mut commands: Vec<(String, Command)> = Vec::new();
    let mut i: usize = 0;
    while i < cmd.commands.len()
        invariant
            p == cmd@,
            prs == param_results(p.params),
            first_error(prs) is None,
            crs == sub_command_results(p),
            crs.len() == p.commands.len(),
            forall|k: int| 0 <= k < p.commands.len() ==> #[trigger] crs[k] == command_of_message(p.commands[k].1),
            i <= cmd.commands@.len(),
            commands@.len() == i,
            first_error(crs.take(i as int)) is None,
            forall|k: int|
                0 <= k < i ==> (#[trigger] commands@[k]).0 == cmd.commands@[k].0 && crs[k] == Ok::<
                    CommandModel,
                    ErrorModel,
                >(commands@[k].1@),
        decreases cmd.commands@.len() - i,
    {
        assert(crs.take(i + 1).drop_last() =~= crs.take(i as int));
        assert(decreases_to!(*cmd => cmd.commands));
        assert(decreases_to!(cmd.commands => cmd.commands@[i as int]));
        assert(decreases_to!(cmd.commands@[i as int] => cmd.commands@[i as int].1));
        assert(p.commands[i as int].1 == cmd.commands@[i as int].1@);
        assert(crs.take(i + 1).last() == crs[i as int]);
        let sub = match command_from_proto(&cmd.commands[i].1) {
            Ok(c) => c,
            Err(e) => {
                proof {
                    lemma_first_error_extends(crs, i + 1);
                    assert(first_error(crs) == Some(e@));
                }
                return Err(e);
            },
        };
        commands.push((cmd.commands[i].0.clone(), sub));
        i = i + 1;
    }
    assert(crs.take(crs.len() as int) =~= crs);
    let method = match cmd.method {
        Some(v) => match method_from_i32(v) {
            Ok(m) => Some(m),
            Err(e) => {
                return Err(e);
            },
        },
        None => None,
    };
    let body = match &cmd.body {
        Some(b) => match body_from_proto(b) {
            Ok(x) => Some(x),
            Err(e) => {
                return Err(e);
            },
        },
        None => None,
    };
    let no_commands = commands.len() == 0;
    let r = Command {
        description: cmd.description.clone(),
        endpoint: cmd.endpoint.clone(),
        method,
        auth: cmd.auth.clone(),
        headers: copy_strings(&cmd.headers),
        params: Dict { entries: params },
        body,
        responses: match &cmd.responses {
            Some(x) => Some(response_config_from_proto(x)),
            None => None,
        },
        commands: if no_commands {
            None
        } else {
            Some(Dict { entries: commands })
        },
    };
    proof {
        let m = command_of_message(p);
        assert(m is Ok);
        assert(r@.params =~= m->Ok_0.params);
        if !no_commands {
            assert(r@.commands->0 =~= m->Ok_0.commands->0);
        }
    }
    Ok(r)
}

} // verus!

verus! {

// ---------------------------------------------------------------- whole profiles

/// The compiled form of a profile.
pub open spec fn api_to_message(a: crate::models::types::ApiModel) -> proto::ApiMessage {
    proto::ApiMessage {
        name: a.name,
        version: a.version,
        description: a.description,
        base_url: a.base_url,
        commands: Seq::new(a.commands.len(), |i: int| (a.commands[i].0, command_to_message(a.commands[i].1))),
        env: Seq::new(a.env.len(), |i: int| env_message(a.env[i])),
        auth: Seq::new(a.auth.len(), |i: int| (a.auth[i].0, auth_message(a.auth[i].1))),
        errors: match a.errors {
            Some(e) => Some(errors_message(e)),
            None => None,
        },
    }
}

/// Results of converting each compiled top-level command.
pub open spec fn api_command_results(p: proto::ApiMessage) -> Seq<Result<CommandModel, ErrorModel>> {
    Seq::new(p.commands.len(), |i: int| command_of_message(p.commands[i].1))
}

/// Results of converting each compiled auth scheme.
pub open spec fn api_auth_results(p: proto::ApiMessage) -> Seq<Result<AuthConfig, ErrorModel>> {
    Seq::new(p.auth.len(), |i: int| auth_of_message(p.auth[i].1))
}

/// The profile a compiled profile stands for: commands, then auth schemes
/// must convert, then the basic checks of name and base URL must pass.
pub open spec fn api_of_message(p: proto::ApiMessage) -> Result<crate::models::types::ApiModel, ErrorModel> {
    let crs = api_command_results(p);
    let ars = api_auth_results(p);
    match first_error(crs) {
        Some(e) => Err(e),
        None => match first_error(ars) {
            Some(e) => Err(e),
            None => match crate::models::api::basic_problem(p.name@, p.base_url@) {
                Some(m) => Err(ErrorModel::InvalidDefinition(m)),
                None => Ok(
                    crate::models::types::ApiModel {
                        name: p.name,
                        version: p.version,
                        description: p.description,
                        base_url: p.base_url,
                        env: Seq::new(p.env.len(), |i: int| env_of_message(p.env[i])),
                        auth: Seq::new(p.auth.len(), |i: int| (p.auth[i].0, ars[i]->Ok_0)),
                        commands: Seq::new(p.commands.len(), |i: int| (p.commands[i].0, crs[i]->Ok_0)),
                        errors: match p.errors {
                            Some(e) => Some(errors_of_message(e)),
                            None => None,
                        },
                    },
                ),
            },
        },
    }
}

} // verus!
