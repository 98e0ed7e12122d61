//! The client: a validated profile with its auth and resolved environment,
//! and the steps of a call that do not touch the network.

use vstd::prelude::*;
use crate::dict::{
    insert_pair, pair_lookup, lemma_first_index, lemma_pair_index, lookup, pair_views, put, Dict,
};
use crate::error::{unit_result, ErrorModel, YcallrError};
use crate::json::JsonValue;
use crate::models::api::find_command;
use crate::models::command::{opt_model, params_valid, quoted};
use crate::models::details::CommandDetails;
use crate::models::types::{
    copy_auths, copy_strings, ApiDefinition, AuthConfig, BodyConfig, Command, EnvVar,
};
use crate::models::validation::api_ok;
use crate::call_engine::context::{
    client_env, declared, empty_required_message, resolve_client_env, undeclared_message,
    validate_declared_env_key, ClientContext,
};
use crate::call_engine::prepare::{build_api_response, prepare_http_request, PreparedHttpRequest};
use crate::call_engine::types::{ApiResponse, EnvMode};
use crate::text::{is_blank, is_blank_str, str_eq};

verus! {

broadcast use vstd::std_specs::vec::group_vec_axioms;

/// Settings for a client before its environment is resolved.
pub struct YcallrClientBuilder {
    pub api: ApiDefinition,
    pub auth: Option<AuthConfig>,
    pub env_mode: EnvMode,
    pub env_vars: Dict<String>,
}

/// A client ready to call: a profile that passed client validation, the
/// client's own auth, the profile's auth schemes and the resolved environment.
pub struct YcallrClient {
    pub api: ApiDefinition,
    pub auth: Option<AuthConfig>,
    pub auth_configs: Dict<AuthConfig>,
    pub env_mode: EnvMode,
    pub env_vars: Dict<String>,
}

/// `base` with each pair of `added` stored in turn.
pub open spec fn inserted_all(base: Seq<(Seq<char>, Seq<char>)>, added: Seq<(Seq<char>, Seq<char>)>) -> Seq<
    (Seq<char>, Seq<char>),
>
    decreases added.len(),
{
    if added.len() == 0 {
        base
    } else {
        let prev = inserted_all(base, added.drop_last());
        insert_pair(prev, added.last().0, added.last().1)
    }
}

/// Outcome of building: the resolved environment when the profile passes
/// client validation and its environment resolves.
pub open spec fn built_env(b: YcallrClientBuilder, process: Seq<(String, String)>) -> Result<
    Seq<(Seq<char>, Seq<char>)>,
    ErrorModel,
> {
    client_env(b.api.env@, b.env_mode, b.env_vars.entries@, process)
}

impl YcallrClientBuilder {
    /// Settings for `api`: no auth, `Auto` environment, no given values.
    pub fn new(api: ApiDefinition) -> (r: Self)
        ensures
            r.api == api,
            r.auth is None,
            r.env_mode == EnvMode::Auto,
            r.env_vars.entries@.len() == 0,
    {
        YcallrClientBuilder { api, auth: None, env_mode: EnvMode::Auto, env_vars: Dict::new() }
    }

    /// The same settings with the client's own auth.
    pub fn auth(self, auth: AuthConfig) -> (r: Self)
        ensures
            r.api == self.api,
            r.auth == Some(auth),
            r.env_mode == self.env_mode,
            r.env_vars == self.env_vars,
    {
        YcallrClientBuilder { api: self.api, auth: Some(auth), env_mode: self.env_mode, env_vars: self.env_vars }
    }

    /// The same settings with another environment mode.
    pub fn env_mode(self, mode: EnvMode) -> (r: Self)
        ensures
            r.api == self.api,
            r.auth == self.auth,
            r.env_mode == mode,
            r.env_vars == self.env_vars,
    {
        YcallrClientBuilder { api: self.api, auth: self.auth, env_mode: mode, env_vars: self.env_vars }
    }

    /// The same settings with `key` given the value `value`.
    pub fn env(self, key: &str, value: &str) -> (r: Self)
        ensures
            r.api == self.api,
            r.auth == self.auth,
            r.env_mode == self.env_mode,
            pair_views(r.env_vars.entries@) == insert_pair(pair_views(self.env_vars.entries@), key@, value@),
    {
        let mut b = self;
        put(&mut b.env_vars, key.to_string(), value.to_string());
        b
    }

    /// The same settings with each of `vars` given, in turn.
    pub fn envs(self, vars: Dict<String>) -> (r: Self)
        ensures
            r.api == self.api,
            r.auth == self.auth,
            r.env_mode == self.env_mode,
            pair_views(r.env_vars.entries@) == inserted_all(pair_views(self.env_vars.entries@), pair_views(vars.entries@)),
    {
        let mut b = self;
        let ghost base = pair_views(b.env_vars.entries@);
        let ghost added = pair_views(vars.entries@);
        let mut i: usize = 0;
        while i < vars.entries.len()
            invariant
                i <= vars.entries@.len(),
                added == pair_views(vars.entries@),
                b.api == self.api,
                b.auth == self.auth,
                b.env_mode == self.env_mode,
                pair_views(b.env_vars.entries@) == inserted_all(base, added.take(i as int)),
            decreases vars.entries@.len() - i,
        {
            assert(added.take(i + 1).drop_last() =~= added.take(i as int));
            put(&mut b.env_vars, vars.entries[i].0.clone(), vars.entries[i].1.clone());
            i = i + 1;
        }
        assert(added.take(added.len() as int) =~= added);
        b
    }

    /// The call context: the profile must pass client validation and its
    /// environment must resolve (`process` holds the values found in the
    /// process environment).
    pub fn build_context(&self, process: &Dict<String>) -> (r: Result<ClientContext, YcallrError>)
        ensures
            match r {
                Ok(ctx) => api_ok(self.api, false) && built_env(*self, process.entries@) == Ok::<
                    Seq<(Seq<char>, Seq<char>)>,
                    ErrorModel,
                >(pair_views(ctx.env_vars.entries@)) && ctx.api@ == self.api@ && ctx.auth == self.auth
                    && ctx.auth_configs.entries@ == self.api.auth.entries@,
                Err(e) => if api_ok(self.api, false) {
                    built_env(*self, process.entries@) == Err::<Seq<(Seq<char>, Seq<char>)>, ErrorModel>(e@)
                } else {
                    crate::models::validation::problem_result(crate::models::validation::api_problem(self.api, false)) == Err::<
                        (),
                        ErrorModel,
                    >(e@)
                },
            },
    {
        match self.api.validate_for_client() {
            Ok(()) => {},
            Err(e) => {
                return Err(e);
            },
        }
        let resolved = match resolve_client_env(&self.api, &self.env_mode, &self.env_vars, process) {
            Ok(d) => d,
            Err(e) => {
                return Err(e);
            },
        };
        Ok(
            ClientContext {
                api: self.api.clone(),
                auth: match &self.auth {
                    Some(a) => Some(a.clone()),
                    None => None,
                },
                auth_configs: copy_auths(&self.api.auth),
                env_vars: resolved,
            },
        )
    }

    /// The client, under the same conditions as [`Self::build_context`].
    pub fn build(self, process: &Dict<String>) -> (r: Result<YcallrClient, YcallrError>)
        ensures
            match r {
                Ok(c) => api_ok(self.api, false) && built_env(self, process.entries@) == Ok::<
                    Seq<(Seq<char>, Seq<char>)>,
                    ErrorModel,
                >(pair_views(c.env_vars.entries@)) && c.api == self.api && c.auth == self.auth && c.env_mode
                    == self.env_mode && c.auth_configs.entries@ == self.api.auth.entries@,
                Err(e) => if api_ok(self.api, false) {
                    built_env(self, process.entries@) == Err::<Seq<(Seq<char>, Seq<char>)>, ErrorModel>(e@)
                } else {
                    crate::models::validation::problem_result(crate::models::validation::api_problem(self.api, false)) == Err::<
                        (),
                        ErrorModel,
                    >(e@)
                },
            },
    {
        match self.api.validate_for_client() {
            Ok(()) => {},
            Err(e) => {
                return Err(e);
            },
        }
        let resolved = match resolve_client_env(&self.api, &self.env_mode, &self.env_vars, process) {
            Ok(d) => d,
            Err(e) => {
                return Err(e);
            },
        };
        let auth_configs = copy_auths(&self.api.auth);
        Ok(YcallrClient { api: self.api, auth: self.auth, auth_configs, env_mode: self.env_mode, env_vars: resolved })
    }
}

/// The first declared variable named `key`.
pub open spec fn first_declared(env: Seq<EnvVar>, key: Seq<char>) -> Option<EnvVar>
    decreases env.len(),
{
    if env.len() == 0 {
        None
    } else if env[0].name@ == key {
        Some(env[0])
    } else {
        first_declared(env.drop_first(), key)
    }
}

/// Outcome of setting `key` to `value`: the key must be declared, and a
/// required variable cannot be set blank.
pub open spec fn set_env_outcome(env: Seq<EnvVar>, key: Seq<char>, value: Seq<char>) -> Result<(), ErrorModel> {
    if !declared(env, key) {
        Err(ErrorModel::EnvVar(undeclared_message(key)))
    } else if (first_declared(env, key) matches Some(e) && e.required) && is_blank(value) {
        Err(ErrorModel::EnvVar(empty_required_message(key)))
    } else {
        Ok(())
    }
}

/// The first declared variable named `key`, found by a scan.
fn find_env<'a>(env: &'a Vec<EnvVar>, key: &str) -> (r: Option<&'a EnvVar>)
    ensures
        match r {
            Some(e) => first_declared(env@, key@) == Some(*e),
            None => first_declared(env@, key@) is None,
        },
{
    let mut i: usize = 0;
    assert(env@.skip(0) =~= env@);
    while i < env.len()
        invariant
            i <= env@.len(),
            first_declared(env@, key@) == first_declared(env@.skip(i as int), key@),
        decreases env@.len() - i,
    {
        assert(env@.skip(i as int).drop_first() =~= env@.skip(i + 1));
        assert(env@.skip(i as int)[0] == env@[i as int]);
        if str_eq(env[i].name.as_str(), key) {
            return Some(&env[i]);
        }
        i = i + 1;
    }
    None
}

impl YcallrClient {
    /// A client for `api` with default settings.
    pub fn new(api: ApiDefinition, process: &Dict<String>) -> (r: Result<YcallrClient, YcallrError>)
        ensures
            match r {
                Ok(c) => api_ok(api, false) && c.api == api && c.auth is None && c.env_mode == EnvMode::Auto
                    && client_env(api.env@, EnvMode::Auto, Seq::empty(), process.entries@) == Ok::<
                    Seq<(Seq<char>, Seq<char>)>,
                    ErrorModel,
                >(pair_views(c.env_vars.entries@)),
                Err(e) => if api_ok(api, false) {
                    client_env(api.env@, EnvMode::Auto, Seq::empty(), process.entries@) == Err::<
                        Seq<(Seq<char>, Seq<char>)>,
                        ErrorModel,
                    >(e@)
                } else {
                    crate::models::validation::problem_result(crate::models::validation::api_problem(api, false)) == Err::<
                        (),
                        ErrorModel,
                    >(e@)
                },
            },
    {
        let b = YcallrClientBuilder::new(api);
        assert(b.env_vars.entries@ =~= Seq::<(String, String)>::empty());
        b.build(process)
    }

    /// A client for `api` with its own auth.
    pub fn with_auth(api: ApiDefinition, auth: AuthConfig, process: &Dict<String>) -> (r: Result<YcallrClient, YcallrError>)
        ensures
            match r {
                Ok(c) => api_ok(api, false) && c.api == api && c.auth == Some(auth) && c.env_mode == EnvMode::Auto
                    && client_env(api.env@, EnvMode::Auto, Seq::empty(), process.entries@) == Ok::<
                    Seq<(Seq<char>, Seq<char>)>,
                    ErrorModel,
                >(pair_views(c.env_vars.entries@)),
                Err(e) => if api_ok(api, false) {
                    client_env(api.env@, EnvMode::Auto, Seq::empty(), process.entries@) == Err::<
                        Seq<(Seq<char>, Seq<char>)>,
                        ErrorModel,
                    >(e@)
                } else {
                    crate::models::validation::problem_result(crate::models::validation::api_problem(api, false)) == Err::<
                        (),
                        ErrorModel,
                    >(e@)
                },
            },
    {
        let b = YcallrClientBuilder::new(api).auth(auth);
        assert(b.env_vars.entries@ =~= Seq::<(String, String)>::empty());
        b.build(process)
    }

    /// Settings for a client of `api`.
    pub fn builder(api: ApiDefinition) -> (r: YcallrClientBuilder)
        ensures
            r.api == api,
            r.auth is None,
            r.env_mode == EnvMode::Auto,
            r.env_vars.entries@.len() == 0,
    {
        YcallrClientBuilder::new(api)
    }

    pub fn env_mode(&self) -> (r: &EnvMode)
        ensures
            *r == self.env_mode,
    {
        &self.env_mode
    }

    /// Sets a declared variable; a required one cannot be set blank.
    pub fn set_env(&mut self, key: &str, value: &str) -> (r: Result<(), YcallrError>)
        ensures
            unit_result(r) == set_env_outcome(old(self).api.env@, key@, value@),
            final(self).api == old(self).api,
            final(self).auth == old(self).auth,
            final(self).auth_configs == old(self).auth_configs,
            final(self).env_mode == old(self).env_mode,
            match r {
                Ok(()) => pair_views(final(self).env_vars.entries@) == insert_pair(
                    pair_views(old(self).env_vars.entries@),
                    key@,
                    value@,
                ),
                Err(_) => final(self).env_vars == old(self).env_vars,
            },
    {
        match validate_declared_env_key(&self.api, key) {
            Ok(()) => {},
            Err(e) => {
                return Err(e);
            },
        }
        match find_env(&self.api.env, key) {
            Some(env_var) => {
                if env_var.required && is_blank_str(value) {
                    return Err(YcallrError::EnvVar(quoted("Required environment variable '", key, "' cannot be empty")));
                }
            },
            None => {},
        }
        put(&mut self.env_vars, key.to_string(), value.to_string());
        Ok(())
    }

    /// The value of a variable.
    pub fn get_env(&self, key: &str) -> (r: Option<&str>)
        ensures
            match r {
                Some(v) => pair_lookup(pair_views(self.env_vars.entries@), key@) == Some(v@),
                None => pair_lookup(pair_views(self.env_vars.entries@), key@) is None,
            },
    {
        proof {
            lemma_pair_index(self.env_vars.entries@, key@);
            lemma_first_index(self.env_vars.entries@, key@);
        }
        match self.env_vars.get(key) {
            Some(v) => Some(v.as_str()),
            None => None,
        }
    }

    /// `${NAME}` references of `text` resolved against the client's environment.
    pub fn resolve_env_vars(&self, text: &str) -> (r: Result<String, YcallrError>)
        ensures
            crate::error::text_result(r) == crate::templates::env_resolve(text@, self.env_vars.entries@),
    {
        crate::templates::resolve_env_vars(text, &self.env_vars)
    }

    /// A body configuration with call parameters applied.
    pub fn resolve_body(&self, body_config: &BodyConfig, params: &Dict<String>) -> (r: Result<BodyConfig, YcallrError>)
        ensures
            r matches Ok(b) && crate::call_engine::prepare::plain_body_plan(b@) == crate::call_engine::prepare::body_plan(
                body_config@,
                params.entries@,
            ),
    {
        let r = crate::templates::resolve_body(body_config, params);
        proof {
            match body_config@.multipart {
                Some(fs) => {
                    crate::call_engine::prepare::lemma_parts_applied(r->Ok_0@.multipart->0, fs, params.entries@);
                },
                None => {},
            }
        }
        r
    }

    /// A JSON value with call parameters applied to its strings.
    pub fn resolve_json_templates(&self, value: &JsonValue, params: &Dict<String>) -> (r: Result<JsonValue, YcallrError>)
        ensures
            r matches Ok(v) && v@ == crate::templates::json_applied(value@, params.entries@),
    {
        crate::templates::resolve_json_templates(value, params)
    }

    /// The context a call runs in.
    pub fn context(&self) -> (r: ClientContext)
        ensures
            r.api@ == self.api@,
            r.auth == self.auth,
            r.auth_configs.entries@ == self.auth_configs.entries@,
            r.env_vars.entries@ == self.env_vars.entries@,
    {
        ClientContext {
            api: self.api.clone(),
            auth: match &self.auth {
                Some(a) => Some(a.clone()),
                None => None,
            },
            auth_configs: copy_auths(&self.auth_configs),
            env_vars: copy_strings(&self.env_vars),
        }
    }

    /// The request a call of `command` sends.
    pub fn prepare_call(&self, command: &str, params: &Dict<String>, body: Option<&JsonValue>) -> (r: Result<PreparedHttpRequest, YcallrError>)
        ensures
            match find_command(self.api@, command@) {
                Err(m) => r matches Err(e) && e@ == ErrorModel::CommandNotFound(m),
                Ok(cm) => (exists|c: Command| #[trigger] c@ == cm) && forall|c: Command|
                    #[trigger] c@ == cm ==> if params_valid(c, params.entries@, opt_model(body)) {
                        crate::call_engine::prepare::request_result(r) == crate::call_engine::prepare::request_outcome(
                            ClientContext {
                                api: self.api,
                                auth: self.auth,
                                auth_configs: self.auth_configs,
                                env_vars: self.env_vars,
                            },
                            c,
                            params.entries@,
                            opt_model(body),
                        )
                    } else {
                        r matches Err(e) && e@ == ErrorModel::ParamValidation(
                        crate::models::command::params_problem(c, params.entries@, opt_model(body))->0,
                    )
                    },
            },
    {
        let ctx = ClientContext {
            api: self.api.clone(),
            auth: match &self.auth {
                Some(a) => Some(a.clone()),
                None => None,
            },
            auth_configs: copy_auths(&self.auth_configs),
            env_vars: copy_strings(&self.env_vars),
        };
        let r = prepare_http_request(&ctx, command, params, body);
        proof {
            let sc = ClientContext {
                api: self.api,
                auth: self.auth,
                auth_configs: self.auth_configs,
                env_vars: self.env_vars,
            };
            match find_command(self.api@, command@) {
                Ok(cm) => {
                    assert forall|c: Command| #[trigger] c@ == cm implies (if params_valid(
                        c,
                        params.entries@,
                        opt_model(body),
                    ) {
                        crate::call_engine::prepare::request_result(r) == crate::call_engine::prepare::request_outcome(
                            sc,
                            c,
                            params.entries@,
                            opt_model(body),
                        )
                    } else {
                        r matches Err(e) && e@ == ErrorModel::ParamValidation(
                        crate::models::command::params_problem(c, params.entries@, opt_model(body))->0,
                    )
                    }) by {
                        crate::call_engine::prepare::lemma_outcome_same_context(ctx, sc, c, params.entries@, opt_model(body));
                    }
                },
                Err(_) => {},
            }
        }
        r
    }

    /// The response for a reply to a prepared call: the reply body parsed
    /// when it is JSON, and the message the command's responses, the
    /// profile's errors or the built-in templates give for the status.
    pub fn finish_call(&self, prepared: &PreparedHttpRequest, status: u16, headers: Dict<String>, body_text: String) -> (r: ApiResponse)
        ensures
            r.status == status,
            r.headers == headers,
            r.body@ == crate::call_engine::prepare::reply_body(body_text@),
            r.message matches Some(m) && m@ == crate::templates::response_message(
                crate::call_engine::prepare::message_template(
                    match prepared.responses {
                        Some(x) => Some(x@),
                        None => None,
                    },
                    match self.api.errors {
                        Some(x) => Some(x@),
                        None => None,
                    },
                    status,
                ),
                status,
                prepared.params.entries@,
                crate::call_engine::prepare::reply_body(body_text@),
            ),
    {
        build_api_response(status, headers, body_text, prepared.responses.as_ref(), self.api.errors.as_ref(), &prepared.params)
    }

    /// Checks a call's parameters against the command at `command`.
    pub fn validate_params(&self, command: &str, params: &Dict<String>, body: Option<&JsonValue>) -> (r: Result<(), YcallrError>)
        ensures
            match find_command(self.api@, command@) {
                Err(m) => r matches Err(e) && e@ == ErrorModel::CommandNotFound(m),
                Ok(cm) => (exists|c: Command| #[trigger] c@ == cm) && forall|c: Command|
                    #[trigger] c@ == cm ==> (r is Ok <==> params_valid(c, params.entries@, opt_model(body)))
                        && crate::error::unit_result(r) == crate::models::command::param_result(
                        crate::models::command::params_problem(c, params.entries@, opt_model(body)),
                    ),
            },
    {
        let cmd = match self.api.get_command(command) {
            Ok(c) => c,
            Err(e) => {
                return Err(e);
            },
        };
        let r = cmd.validate_params(params, body);
        proof {
            let c0 = *cmd;
            assert(c0@ == cmd@);
            assert forall|c: Command| #[trigger] c@ == c0@ implies (r is Ok <==> params_valid(
                c,
                params.entries@,
                opt_model(body),
            )) && crate::error::unit_result(r) == crate::models::command::param_result(
                crate::models::command::params_problem(c, params.entries@, opt_model(body)),
            ) by {
                let ctx = ClientContext {
                    api: self.api,
                    auth: self.auth,
                    auth_configs: self.auth_configs,
                    env_vars: self.env_vars,
                };
                crate::call_engine::prepare::lemma_outcome_by_model(ctx, c0, c, params.entries@, opt_model(body));
            }
        }
        r
    }

    pub fn api(&self) -> (r: &ApiDefinition)
        ensures
            *r == self.api,
    {
        &self.api
    }

    /// The profile's auth scheme named `name`.
    pub fn get_auth_config(&self, name: &str) -> (r: Option<&AuthConfig>)
        ensures
            match r {
                Some(a) => lookup(self.auth_configs.entries@, name@) == Some(*a),
                None => lookup(self.auth_configs.entries@, name@) is None,
            },
    {
        self.auth_configs.get(name)
    }

    /// Details of the command at `command`.
    pub fn command_details(&self, command: &str) -> (r: Result<CommandDetails, YcallrError>)
        ensures
            match r {
                Ok(d) => find_command(self.api@, command@) is Ok && d.path@ == command@ && d.description
                    == find_command(self.api@, command@)->Ok_0.description && d.endpoint == find_command(
                    self.api@,
                    command@,
                )->Ok_0.endpoint && d.method == find_command(self.api@, command@)->Ok_0.method
                    && d.headers.entries@ == find_command(self.api@, command@)->Ok_0.headers
                    && d.params.entries@ == find_command(self.api@, command@)->Ok_0.params,
                Err(e) => e@ == ErrorModel::CommandNotFound(find_command(self.api@, command@)->Err_0)
                    && find_command(self.api@, command@) is Err,
            },
    {
        self.api.command_details(command)
    }

    /// Sorted names of the sub-commands of the command at `command`.
    pub fn list_subcommands(&self, command: &str) -> (r: Result<Vec<String>, YcallrError>)
        ensures
            match r {
                Ok(names) => find_command(self.api@, command@) is Ok && crate::text::sorted(names@)
                    && names@.to_multiset() == crate::models::api::model_sub_names(
                    find_command(self.api@, command@)->Ok_0,
                ).to_multiset(),
                Err(e) => e@ == ErrorModel::CommandNotFound(find_command(self.api@, command@)->Err_0)
                    && find_command(self.api@, command@) is Err,
            },
    {
        self.api.list_subcommands(command)
    }
}

} // verus!
