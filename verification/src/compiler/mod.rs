//! Compiling a profile to its protobuf message form and back.

pub mod conversions;
pub mod laws;

use vstd::prelude::*;
use crate::dict::Dict;
use crate::error::{ErrorModel, YcallrError};
use crate::models::types::{ApiDefinition, ApiModel, AuthConfig, Command, EnvVar};
use crate::proto;
use crate::compiler::conversions::{
    api_auth_results, api_command_results, api_error_config_from_proto, api_error_config_to_proto,
    api_of_message, api_to_message, auth_from_proto, auth_to_proto, command_from_proto,
    command_to_proto, env_from_proto, env_of_message, env_to_proto, first_error,
    lemma_first_error_extends,
};

verus! {

broadcast use vstd::std_specs::vec::group_vec_axioms;

/// Compiles profiles to their message form and reads them back.
pub struct Compiler;

impl Compiler {
    /// The compiled form of a profile that passes client validation.
    pub fn yaml_to_proto(api: &ApiDefinition) -> (r: Result<proto::ApiDefinition, YcallrError>)
        ensures
            match r {
                Ok(p) => crate::models::validation::api_ok(*api, false) && p@ == api_to_message(api@),
                Err(e) => !crate::models::validation::api_ok(*api, false) && crate::models::validation::problem_result(
                    crate::models::validation::api_problem(*api, false),
                ) == Err::<(), crate::error::ErrorModel>(e@),
            },
    {
        match api.validate_for_client() {
            Ok(()) => {},
            Err(e) => {
                return Err(e);
            },
        }
        let mut commands: Vec<(String, proto::Command)> = Vec::new();
        let mut i: usize = 0;
        while i < api.commands.entries.len()
            invariant
                i <= api.commands.entries@.len(),
                commands@.len() == i,
                forall|k: int|
                    0 <= k < i ==> (#[trigger] commands@[k]).0 == api.commands.entries@[k].0 && commands@[k].1@
                        == conversions::command_to_message(api.commands.entries@[k].1@),
            decreases api.commands.entries@.len() - i,
        {
            commands.push((api.commands.entries[i].0.clone(), command_to_proto(&api.commands.entries[i].1)));
            i = i + 1;
        }
        let mut env: Vec<proto::EnvVar> = Vec::new();
        let mut j: usize = 0;
        while j < api.env.len()
            invariant
                j <= api.env@.len(),
                env@.len() == j,
                forall|k: int| 0 <= k < j ==> (#[trigger] env@[k]) == conversions::env_message(api.env@[k]),
            decreases api.env@.len() - j,
        {
            env.push(env_to_proto(&api.env[j]));
            j = j + 1;
        }
        let mut auth: Vec<(String, proto::AuthConfig)> = Vec::new();
        let mut k: usize = 0;
        while k < api.auth.entries.len()
            invariant
                k <= api.auth.entries@.len(),
                auth@.len() == k,
                forall|m: int|
                    0 <= m < k ==> (#[trigger] auth@[m]) == (api.auth.entries@[m].0, conversions::auth_message(
                        api.auth.entries@[m].1,
                    )),
            decreases api.auth.entries@.len() - k,
        {
            auth.push((api.auth.entries[k].0.clone(), auth_to_proto(&api.auth.entries[k].1)));
            k = k + 1;
        }
        let p = proto::ApiDefinition {
            name: api.name.clone(),
            version: api.version.clone(),
            description: api.description.clone(),
            base_url: api.base_url.clone(),
            commands: Dict { entries: commands },
            env,
            auth: Dict { entries: auth },
            errors: match &api.errors {
                Some(e) => Some(api_error_config_to_proto(e)),
                None => None,
            },
        };
        proof {
            let m = api_to_message(api@);
            assert(p@.commands =~= m.commands);
            assert(p@.env =~= m.env);
            assert(p@.auth =~= m.auth);
        }
        Ok(p)
    }

    /// The profile a compiled profile stands for.
    pub fn proto_to_yaml(data: &proto::ApiDefinition) -> (r: Result<ApiDefinition, YcallrError>)
        ensures
            match r {
                Ok(a) => api_of_message(data@) == Ok::<ApiModel, ErrorModel>(a@),
                Err(e) => api_of_message(data@) == Err::<ApiModel, ErrorModel>(e@),
            },
    {
        let ghost p = data@;
        let ghost crs = api_command_results(p);
        let ghost ars = api_auth_results(p);
        let mut commands: Vec<(String, Command)> = Vec::new();
        let mut i: usize = 0;
        while i < data.commands.entries.len()
            invariant
                p == data@,
                crs == api_command_results(p),
                i <= data.commands.entries@.len(),
                commands@.len() == i,
                first_error(crs.take(i as int)) is None,
                forall|k: int|
                    0 <= k < i ==> (#[trigger] commands@[k]).0 == data.commands.entries@[k].0 && crs[k] == Ok::<
                        crate::models::types::CommandModel,
                        ErrorModel,
                    >(commands@[k].1@),
            decreases data.commands.entries@.len() - i,
        {
            assert(crs.take(i + 1).drop_last() =~= crs.take(i as int));
            assert(crs.take(i + 1).last() == crs[i as int]);
            let c = match command_from_proto(&data.commands.entries[i].1) {
                Ok(c) => c,
                Err(e) => {
                    proof {
                        lemma_first_error_extends(crs, i + 1);
                        assert(first_error(crs) == Some(e@));
                    }
                    return Err(e);
                },
            };
            commands.push((data.commands.entries[i].0.clone(), c));
            i = i + 1;
        }
        assert(crs.take(crs.len() as int) =~= crs);
        let mut env: Vec<EnvVar> = Vec::new();
        let mut j: usize = 0;
        while j < data.env.len()
            invariant
                j <= data.env@.len(),
                env@.len() == j,
                forall|k: int| 0 <= k < j ==> (#[trigger] env@[k]) == env_of_message(data.env@[k]),
            decreases data.env@.len() - j,
        {
            env.push(env_from_proto(&data.env[j]));
            j = j + 1;
        }
        let mut auth: Vec<(String, AuthConfig)> = Vec::new();
        let mut k: usize = 0;
        while k < data.auth.entries.len()
            invariant
                p == data@,
                ars == api_auth_results(p),
                crs == api_command_results(p),
                first_error(crs) is None,
                k <= data.auth.entries@.len(),
                auth@.len() == k,
                first_error(ars.take(k as int)) is None,
                forall|m: int|
                    0 <= m < k ==> (#[trigger] auth@[m]).0 == data.auth.entries@[m].0 && ars[m] == Ok::<
                        AuthConfig,
                        ErrorModel,
                    >(auth@[m].1),
            decreases data.auth.entries@.len() - k,
        {
            assert(ars.take(k + 1).drop_last() =~= ars.take(k as int));
            assert(ars.take(k + 1).last() == ars[k as int]);
            let a = match auth_from_proto(&data.auth.entries[k].1) {
                Ok(a) => a,
                Err(e) => {
                    proof {
                        lemma_first_error_extends(ars, k + 1);
                        assert(first_error(ars) == Some(e@));
                    }
                    return Err(e);
                },
            };
            auth.push((data.auth.entries[k].0.clone(), a));
            k = k + 1;
        }
        assert(ars.take(ars.len() as int) =~= ars);
        let api = ApiDefinition {
            name: data.name.clone(),
            version: data.version.clone(),
            description: data.description.clone(),
            base_url: data.base_url.clone(),
            env,
            auth: Dict { entries: auth },
            commands: Dict { entries: commands },
            errors: match &data.errors {
                Some(e) => Some(api_error_config_from_proto(e)),
                None => None,
            },
        };
        match api.validate() {
            Ok(()) => {},
            Err(e) => {
                return Err(e);
            },
        }
        proof {
            let m = api_of_message(p);
            assert(m is Ok);
            assert(api@.commands =~= m->Ok_0.commands);
            assert(api@.env =~= m->Ok_0.env);
            assert(api@.auth =~= m->Ok_0.auth);
        }
        Ok(api)
    }
}

} // verus!
