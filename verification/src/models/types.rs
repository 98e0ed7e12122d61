//! The API profile data model.

use vstd::prelude::*;
use crate::dict::Dict;
use crate::json::{Json, JsonValue};
use crate::text::owned;

verus! {

broadcast use vstd::std_specs::vec::group_vec_axioms;

/// Where an API key is sent.
#[derive(Debug, Clone, Copy, PartialEq, Eq, Structural)]
pub enum ApiKeyLocation {
    Header,
    Query,
    Cookie,
}

/// A named authentication scheme of a profile.
#[derive(Debug, PartialEq)]
#[allow(inconsistent_fields)]
pub enum AuthConfig {
    Bearer { token: String },
    ApiKey { key: String, name: String, in_: ApiKeyLocation },
    Http {
        scheme: String,
        token: Option<String>,
        username: Option<String>,
        password: Option<String>,
        prefix: Option<String>,
    },
}

/// HTTP verbs a command can use.
#[derive(Debug, Clone, Copy, PartialEq, Eq, Structural)]
pub enum HttpMethod {
    GET,
    POST,
    PUT,
    DELETE,
    PATCH,
}

/// Declared type of a parameter.
#[derive(Debug, Clone, Copy, PartialEq, Eq, Structural)]
pub enum ParamType {
    String,
    Number,
    Boolean,
    Array,
}

/// A declared command parameter.
#[derive(Debug, PartialEq)]
pub struct Parameter {
    pub description: String,
    pub param_type: ParamType,
    pub required: bool,
}

/// An environment variable the profile declares.
#[derive(Debug, PartialEq)]
pub struct EnvVar {
    pub name: String,
    pub required: bool,
}

/// One part of a multipart body: text or a file path.
#[derive(Debug, PartialEq)]
pub struct MultipartField {
    pub name: String,
    pub text: Option<String>,
    pub file: Option<String>,
}

/// A message template for a response.
#[derive(Debug, PartialEq)]
pub struct ResponseEntry {
    pub message: String,
}

/// The request body a command sends.
#[derive(Debug, PartialEq)]
pub struct BodyConfig {
    pub json: Option<JsonValue>,
    pub form: Option<Dict<String>>,
    pub multipart: Option<Vec<MultipartField>>,
    pub raw: Option<String>,
}

/// Per-command response messages: by exact status code, else by class.
#[derive(Debug, PartialEq)]
pub struct ResponseConfig {
    pub success: Option<ResponseEntry>,
    pub failure: Option<ResponseEntry>,
    pub warn: Option<ResponseEntry>,
    pub codes: Dict<ResponseEntry>,
}

/// API-wide error message templates (`errors:` in a profile).
#[derive(Debug, PartialEq)]
pub struct ApiErrorConfig {
    pub default: Option<ResponseEntry>,
    pub codes: Dict<ResponseEntry>,
}

/// A command: callable (endpoint and method) and/or a group of sub-commands.
#[derive(Debug, PartialEq)]
pub struct Command {
    pub description: Option<String>,
    pub endpoint: Option<String>,
    pub method: Option<HttpMethod>,
    pub auth: Option<String>,
    pub headers: Dict<String>,
    pub params: Dict<Parameter>,
    pub body: Option<BodyConfig>,
    pub responses: Option<ResponseConfig>,
    pub commands: Option<Dict<Command>>,
}

/// An API profile.
#[derive(Debug, PartialEq)]
pub struct ApiDefinition {
    pub name: String,
    pub version: String,
    pub description: String,
    pub base_url: String,
    pub env: Vec<EnvVar>,
    pub auth: Dict<AuthConfig>,
    pub commands: Dict<Command>,
    pub errors: Option<ApiErrorConfig>,
}

// ---------------------------------------------------------------- models

pub struct BodyModel {
    pub json: Option<Json>,
    pub form: Option<Seq<(String, String)>>,
    pub multipart: Option<Seq<MultipartField>>,
    pub raw: Option<String>,
}

pub struct ResponseModel {
    pub success: Option<ResponseEntry>,
    pub failure: Option<ResponseEntry>,
    pub warn: Option<ResponseEntry>,
    pub codes: Seq<(String, ResponseEntry)>,
}

pub struct ErrorsModel {
    pub default: Option<ResponseEntry>,
    pub codes: Seq<(String, ResponseEntry)>,
}

pub struct CommandModel {
    pub description: Option<String>,
    pub endpoint: Option<String>,
    pub method: Option<HttpMethod>,
    pub auth: Option<String>,
    pub headers: Seq<(String, String)>,
    pub params: Seq<(String, Parameter)>,
    pub body: Option<BodyModel>,
    pub responses: Option<ResponseModel>,
    pub commands: Option<Seq<(String, CommandModel)>>,
}

pub struct ApiModel {
    pub name: String,
    pub version: String,
    pub description: String,
    pub base_url: String,
    pub env: Seq<EnvVar>,
    pub auth: Seq<(String, AuthConfig)>,
    pub commands: Seq<(String, CommandModel)>,
    pub errors: Option<ErrorsModel>,
}

impl View for BodyConfig {
    type V = BodyModel;

    open spec fn view(&self) -> BodyModel {
        BodyModel {
            json: match self.json {
                Some(j) => Some(j@),
                None => None,
            },
            form: match self.form {
                Some(f) => Some(f.entries@),
                None => None,
            },
            multipart: match self.multipart {
                Some(m) => Some(m@),
                None => None,
            },
            raw: self.raw,
        }
    }
}

impl View for ResponseConfig {
    type V = ResponseModel;

    open spec fn view(&self) -> ResponseModel {
        ResponseModel {
            success: self.success,
            failure: self.failure,
            warn: self.warn,
            codes: self.codes.entries@,
        }
    }
}

impl View for ApiErrorConfig {
    type V = ErrorsModel;

    open spec fn view(&self) -> ErrorsModel {
        ErrorsModel { default: self.default, codes: self.codes.entries@ }
    }
}

/// Model of a command and, recursively, of its sub-commands.
pub open spec fn command_model(c: Command) -> CommandModel
    decreases c,
{
    CommandModel {
        description: c.description,
        endpoint: c.endpoint,
        method: c.method,
        auth: c.auth,
        headers: c.headers.entries@,
        params: c.params.entries@,
        body: match c.body {
            Some(b) => Some(b@),
            None => None,
        },
        responses: match c.responses {
            Some(r) => Some(r@),
            None => None,
        },
        commands: match c.commands {
            Some(d) => Some(
                Seq::new(
                    d.entries@.len(),
                    |i: int|
                        if 0 <= i < d.entries@.len() {
                            (d.entries@[i].0, command_model(d.entries@[i].1))
                        } else {
                            arbitrary()
                        },
                ),
            ),
            None => None,
        },
    }
}

impl View for Command {
    type V = CommandModel;

    open spec fn view(&self) -> CommandModel {
        command_model(*self)
    }
}

/// Models of the commands of a table, with their names.
pub open spec fn commands_model(es: Seq<(String, Command)>) -> Seq<(String, CommandModel)> {
    Seq::new(
        es.len(),
        |i: int|
            if 0 <= i < es.len() {
                (es[i].0, command_model(es[i].1))
            } else {
                arbitrary()
            },
    )
}

/// The model of a command's sub-commands is the model of its table.
pub proof fn lemma_sub_commands_model(c: Command)
    requires
        c.commands is Some,
    ensures
        command_model(c).commands == Some(commands_model(c.commands->0.entries@)),
{
    assert(command_model(c).commands->0 =~= commands_model(c.commands->0.entries@));
}

impl View for ApiDefinition {
    type V = ApiModel;

    open spec fn view(&self) -> ApiModel {
        ApiModel {
            name: self.name,
            version: self.version,
            description: self.description,
            base_url: self.base_url,
            env: self.env@,
            auth: self.auth.entries@,
            commands: commands_model(self.commands.entries@),
            errors: match self.errors {
                Some(e) => Some(e@),
                None => None,
            },
        }
    }
}

// ---------------------------------------------------------------- copies

impl Clone for AuthConfig {
    fn clone(&self) -> (r: Self)
        ensures
            r == *self,
    {
        match self {
            AuthConfig::Bearer { token } => AuthConfig::Bearer { token: token.clone() },
            AuthConfig::ApiKey { key, name, in_ } => AuthConfig::ApiKey {
                key: key.clone(),
                name: name.clone(),
                in_: *in_,
            },
            AuthConfig::Http { scheme, token, username, password, prefix } => AuthConfig::Http {
                scheme: scheme.clone(),
                token: token.clone(),
                username: username.clone(),
                password: password.clone(),
                prefix: prefix.clone(),
            },
        }
    }
}

impl Clone for Parameter {
    fn clone(&self) -> (r: Self)
        ensures
            r == *self,
    {
        Parameter {
            description: self.description.clone(),
            param_type: self.param_type,
            required: self.required,
        }
    }
}

impl Clone for EnvVar {
    fn clone(&self) -> (r: Self)
        ensures
            r == *self,
    {
        EnvVar { name: self.name.clone(), required: self.required }
    }
}

impl Clone for MultipartField {
    fn clone(&self) -> (r: Self)
        ensures
            r == *self,
    {
        MultipartField { name: self.name.clone(), text: self.text.clone(), file: self.file.clone() }
    }
}

impl Clone for ResponseEntry {
    fn clone(&self) -> (r: Self)
        ensures
            r == *self,
    {
        ResponseEntry { message: self.message.clone() }
    }
}

/// A copy of a string table.
pub fn copy_strings(d: &Dict<String>) -> (r: Dict<String>)
    ensures
        r.entries@ == d.entries@,
{
    let r = d.clone();
    assert(r.entries@ =~= d.entries@);
    r
}

/// A copy of a parameter table.
pub fn copy_params(d: &Dict<Parameter>) -> (r: Dict<Parameter>)
    ensures
        r.entries@ == d.entries@,
{
    let r = d.clone();
    assert(r.entries@ =~= d.entries@);
    r
}

/// A copy of a response-entry table.
pub fn copy_entries(d: &Dict<ResponseEntry>) -> (r: Dict<ResponseEntry>)
    ensures
        r.entries@ == d.entries@,
{
    let r = d.clone();
    assert(r.entries@ =~= d.entries@);
    r
}

/// A copy of an auth table.
pub fn copy_auths(d: &Dict<AuthConfig>) -> (r: Dict<AuthConfig>)
    ensures
        r.entries@ == d.entries@,
{
    let r = d.clone();
    assert(r.entries@ =~= d.entries@);
    r
}

/// A copy of a list of multipart fields.
pub fn copy_fields(v: &Vec<MultipartField>) -> (r: Vec<MultipartField>)
    ensures
        r@ == v@,
{
    let r = v.clone();
    assert(r@ =~= v@);
    r
}

/// A copy of the declared environment variables.
pub fn copy_env(v: &Vec<EnvVar>) -> (r: Vec<EnvVar>)
    ensures
        r@ == v@,
{
    let r = v.clone();
    assert(r@ =~= v@);
    r
}

impl Clone for BodyConfig {
    fn clone(&self) -> (r: Self)
        ensures
            r@ == self@,
    {
        BodyConfig {
            json: match &self.json {
                Some(j) => Some(j.clone()),
                None => None,
            },
            form: match &self.form {
                Some(f) => Some(copy_strings(f)),
                None => None,
            },
            multipart: match &self.multipart {
                Some(m) => Some(copy_fields(m)),
                None => None,
            },
            raw: self.raw.clone(),
        }
    }
}

impl Clone for ResponseConfig {
    fn clone(&self) -> (r: Self)
        ensures
            r@ == self@,
    {
        ResponseConfig {
            success: self.success.clone(),
            failure: self.failure.clone(),
            warn: self.warn.clone(),
            codes: copy_entries(&self.codes),
        }
    }
}

impl Clone for ApiErrorConfig {
    fn clone(&self) -> (r: Self)
        ensures
            r@ == self@,
    {
        ApiErrorConfig { default: self.default.clone(), codes: copy_entries(&self.codes) }
    }
}

impl Clone for Command {
    fn clone(&self) -> (r: Self)
        ensures
            r@ == self@,
        decreases self,
    {
        let commands = match &self.commands {
            Some(d) => {
                let mut out: Vec<(String, Command)> = Vec::new();
                let mut i: usize = 0;
                while i < d.entries.len()
                    invariant
                        self.commands == Some(*d),
                        i <= d.entries@.len(),
                        out@.len() == i,
                        forall|j: int|
                            0 <= j < i ==> (#[trigger] out@[j]).0 == d.entries@[j].0 && out@[j].1@
                                == d.entries@[j].1@,
                    decreases d.entries@.len() - i,
                {
                    assert(decreases_to!(*self => self.commands));
                    assert(decreases_to!(self.commands => (self.commands)->0));
                    assert(decreases_to!(*d => d.entries));
                    assert(decreases_to!(d.entries => d.entries@[i as int]));
                    assert(decreases_to!(d.entries@[i as int] => d.entries@[i as int].1));
                    let c = d.entries[i].1.clone();
                    out.push((d.entries[i].0.clone(), c));
                    i = i + 1;
                }
                Some(Dict { entries: out })
            },
            None => None,
        };
        let r = Command {
            description: self.description.clone(),
            endpoint: self.endpoint.clone(),
            method: self.method,
            auth: self.auth.clone(),
            headers: copy_strings(&self.headers),
            params: copy_params(&self.params),
            body: match &self.body {
                Some(b) => Some(b.clone()),
                None => None,
            },
            responses: match &self.responses {
                Some(x) => Some(x.clone()),
                None => None,
            },
            commands,
        };
        proof {
            if self.commands is Some {
                assert(r@.commands->0 =~= self@.commands->0);
            }
        }
        r
    }
}

impl Clone for ApiDefinition {
    fn clone(&self) -> (r: Self)
        ensures
            r@ == self@,
    {
        let mut out: Vec<(String, Command)> = Vec::new();
        let mut i: usize = 0;
        while i < self.commands.entries.len()
            invariant
                i <= self.commands.entries@.len(),
                out@.len() == i,
                forall|j: int|
                    0 <= j < i ==> (#[trigger] out@[j]).0 == self.commands.entries@[j].0
                        && out@[j].1@ == self.commands.entries@[j].1@,
            decreases self.commands.entries@.len() - i,
        {
            let c = self.commands.entries[i].1.clone();
            out.push((self.commands.entries[i].0.clone(), c));
            i = i + 1;
        }
        let r = ApiDefinition {
            name: self.name.clone(),
            version: self.version.clone(),
            description: self.description.clone(),
            base_url: self.base_url.clone(),
            env: copy_env(&self.env),
            auth: copy_auths(&self.auth),
            commands: Dict { entries: out },
            errors: match &self.errors {
                Some(e) => Some(e.clone()),
                None => None,
            },
        };
        assert(commands_model(r.commands.entries@) =~= commands_model(self.commands.entries@));
        r
    }
}

// ---------------------------------------------------------------- constructors

impl AuthConfig {
    /// Bearer-token auth.
    pub fn bearer(token: String) -> (r: Self)
        ensures
            r == (AuthConfig::Bearer { token }),
    {
        AuthConfig::Bearer { token }
    }

    /// API key sent in the header `header`.
    pub fn api_key(key: String, header: String) -> (r: Self)
        ensures
            r == (AuthConfig::ApiKey { key, name: header, in_: ApiKeyLocation::Header }),
    {
        AuthConfig::ApiKey { key, name: header, in_: ApiKeyLocation::Header }
    }

    /// API key sent under `name` at `in_`.
    pub fn api_key_in(key: String, name: String, in_: ApiKeyLocation) -> (r: Self)
        ensures
            r == (AuthConfig::ApiKey { key, name, in_ }),
    {
        AuthConfig::ApiKey { key, name, in_ }
    }

    /// HTTP basic auth with `username` and `password`.
    pub fn http_basic(username: String, password: String) -> (r: Self)
        ensures
            r matches AuthConfig::Http { scheme, token, username: u, password: p, prefix } && scheme@
                == "basic"@ && token is None && u == Some(username) && p == Some(password)
                && prefix is None,
    {
        AuthConfig::Http {
            scheme: owned("basic"),
            token: None,
            username: Some(username),
            password: Some(password),
            prefix: None,
        }
    }

    /// HTTP auth sending `prefix` followed by `token`.
    pub fn http_custom(prefix: String, token: String) -> (r: Self)
        ensures
            r matches AuthConfig::Http { scheme, token: t, username, password, prefix: p } && scheme@
                == "custom"@ && t == Some(token) && username is None && password is None && p
                == Some(prefix),
    {
        AuthConfig::Http {
            scheme: owned("custom"),
            token: Some(token),
            username: None,
            password: None,
            prefix: Some(prefix),
        }
    }
}

/// Default `name` of an API key: the `X-API-Key` header.
pub fn default_header_name() -> (r: String)
    ensures
        r@ == "X-API-Key"@,
{
    owned("X-API-Key")
}

/// Default location of an API key: a header.
pub fn default_api_key_location() -> (r: ApiKeyLocation)
    ensures
        r == ApiKeyLocation::Header,
{
    ApiKeyLocation::Header
}

/// Environment variables are required unless a profile says otherwise.
pub fn default_true() -> (r: bool)
    ensures
        r,
{
    true
}

// ---------------------------------------------------------------- body kinds

/// The body kinds configured, in the order json, form, raw, multipart; form,
/// raw and multipart count only when non-empty.
pub open spec fn kinds_of(b: BodyModel) -> Seq<Seq<char>> {
    let s0: Seq<Seq<char>> = if b.json is Some { seq!["json"@] } else { Seq::empty() };
    let s1 = if b.form is Some && b.form->0.len() > 0 { s0.push("form"@) } else { s0 };
    let s2 = if b.raw is Some && b.raw->0@.len() > 0 { s1.push("raw"@) } else { s1 };
    if b.multipart is Some && b.multipart->0.len() > 0 { s2.push("multipart"@) } else { s2 }
}

impl BodyConfig {
    /// The non-empty body kinds configured.
    pub fn body_kinds(&self) -> (r: Vec<&'static str>)
        ensures
            r@.len() == kinds_of(self@).len(),
            forall|i: int| 0 <= i < r@.len() ==> (#[trigger] r@[i])@ == kinds_of(self@)[i],
    {
        let mut kinds: Vec<&'static str> = Vec::new();
        if self.json.is_some() {
            kinds.push("json");
        }
        match &self.form {
            Some(f) => {
                if f.len() > 0 {
                    kinds.push("form");
                }
            },
            None => {},
        }
        match &self.raw {
            Some(r) => {
                if !r.as_str().is_empty() {
                    kinds.push("raw");
                }
            },
            None => {},
        }
        match &self.multipart {
            Some(m) => {
                if m.len() > 0 {
                    kinds.push("multipart");
                }
            },
            None => {},
        }
        kinds
    }

    /// The first configured body kind.
    pub fn active_body_kind(&self) -> (r: Option<&'static str>)
        ensures
            match r {
                Some(k) => kinds_of(self@).len() > 0 && k@ == kinds_of(self@)[0],
                None => kinds_of(self@).len() == 0,
            },
    {
        let kinds = self.body_kinds();
        if kinds.len() > 0 {
            Some(kinds[0])
        } else {
            None
        }
    }
}

} // verus!
