//! The state a call runs in, and the resolution of declared environment variables.

use vstd::prelude::*;
use crate::dict::{
    insert_pair, pair_lookup, lemma_first_index, lemma_pair_index, lookup, pair_views, put,
    seq_pair_index, Dict,
};
use crate::error::{unit_result, ErrorModel, YcallrError};
use crate::models::command::quoted;
use crate::models::types::{copy_auths, copy_strings, ApiDefinition, AuthConfig, EnvVar};
use crate::text::{is_blank, is_blank_str, owned, str_eq};
use crate::call_engine::types::EnvMode;

verus! {

broadcast use vstd::std_specs::vec::group_vec_axioms;

/// Everything a call needs: the profile, the client's own auth, the profile's
/// named auth schemes and the resolved environment.
#[derive(Debug)]
pub struct ClientContext {
    pub api: ApiDefinition,
    pub auth: Option<AuthConfig>,
    pub auth_configs: Dict<AuthConfig>,
    pub env_vars: Dict<String>,
}

impl Clone for ClientContext {
    fn clone(&self) -> (r: Self)
        ensures
            r.api@ == self.api@,
            r.auth == self.auth,
            r.auth_configs.entries@ == self.auth_configs.entries@,
            r.env_vars.entries@ == self.env_vars.entries@,
    {
        ClientContext {
            api: self.api.clone(),
            auth: match &self.auth {
                Some(a) => Some(a.clone()),
                None => None,
            },
            auth_configs: copy_auths(&self.auth_configs),
            env_vars: copy_strings(&self.env_vars),
        }
    }
}

/// The profile declares a variable named `key`.
pub open spec fn declared(env: Seq<EnvVar>, key: Seq<char>) -> bool {
    exists|i: int| 0 <= i < env.len() && (#[trigger] env[i]).name@ == key
}

pub open spec fn undeclared_message(key: Seq<char>) -> Seq<char> {
    "Environment variable '"@ + key + "' is not declared in the API profile"@
}

/// The first given key (in table order) that the profile does not declare.
pub open spec fn first_undeclared(given: Seq<(String, String)>, env: Seq<EnvVar>) -> Option<Seq<char>>
    decreases given.len(),
{
    if given.len() == 0 {
        None
    } else if !declared(env, given[0].0@) {
        Some(given[0].0@)
    } else {
        first_undeclared(given.drop_first(), env)
    }
}

/// Where a declared variable's value comes from: in `Auto` mode the process
/// environment, then the given values; in `Manual` mode the given values only.
pub open spec fn env_source(
    name: Seq<char>,
    mode: EnvMode,
    given: Seq<(String, String)>,
    process: Seq<(String, String)>,
) -> Option<Seq<char>> {
    let from_given = match lookup(given, name) {
        Some(v) => Some(v@),
        None => None,
    };
    match mode {
        EnvMode::Auto => match lookup(process, name) {
            Some(v) => Some(v@),
            None => from_given,
        },
        EnvMode::Manual => from_given,
    }
}

/// The declared variables that have a value, stored in declaration order.
pub open spec fn gathered(
    env: Seq<EnvVar>,
    mode: EnvMode,
    given: Seq<(String, String)>,
    process: Seq<(String, String)>,
) -> Seq<(Seq<char>, Seq<char>)>
    decreases env.len(),
{
    if env.len() == 0 {
        Seq::empty()
    } else {
        let prev = gathered(env.drop_last(), mode, given, process);
        let name = env.last().name@;
        match env_source(name, mode, given, process) {
            Some(v) => insert_pair(prev, name, v),
            None => prev,
        }
    }
}

/// `base` with every optional variable that has no value stored as empty text.
pub open spec fn with_defaults(env: Seq<EnvVar>, base: Seq<(Seq<char>, Seq<char>)>) -> Seq<(Seq<char>, Seq<char>)>
    decreases env.len(),
{
    if env.len() == 0 {
        base
    } else {
        let prev = with_defaults(env.drop_last(), base);
        let e = env.last();
        if !e.required && seq_pair_index(prev, e.name@) is None {
            insert_pair(prev, e.name@, Seq::empty())
        } else {
            prev
        }
    }
}

pub open spec fn not_set_message(name: Seq<char>) -> Seq<char> {
    "Required environment variable '"@ + name + "' is not set (set "@ + name + ", "@ + name
        + "_FILE, use --env-file, or enter interactively)"@
}

pub open spec fn empty_required_message(name: Seq<char>) -> Seq<char> {
    "Required environment variable '"@ + name + "' cannot be empty"@
}

/// The first required variable (in declaration order) that is missing or
/// blank in `resolved`, as its error text.
pub open spec fn env_problem(env: Seq<EnvVar>, resolved: Seq<(Seq<char>, Seq<char>)>) -> Option<Seq<char>>
    decreases env.len(),
{
    if env.len() == 0 {
        None
    } else {
        let prev = env_problem(env.drop_last(), resolved);
        let e = env.last();
        if prev is Some {
            prev
        } else if !e.required {
            None
        } else {
            match pair_lookup(resolved, e.name@) {
                None => Some(not_set_message(e.name@)),
                Some(v) => if is_blank(v) {
                    Some(empty_required_message(e.name@))
                } else {
                    None
                },
            }
        }
    }
}

/// The table of resolved variables, or the error text.
pub open spec fn client_env(
    env: Seq<EnvVar>,
    mode: EnvMode,
    given: Seq<(String, String)>,
    process: Seq<(String, String)>,
) -> Result<Seq<(Seq<char>, Seq<char>)>, ErrorModel> {
    match first_undeclared(given, env) {
        Some(k) => Err(ErrorModel::EnvVar(undeclared_message(k))),
        None => {
            let resolved = with_defaults(env, gathered(env, mode, given, process));
            match env_problem(env, resolved) {
                Some(m) => Err(ErrorModel::EnvVar(m)),
                None => Ok(resolved),
            }
        },
    }
}

proof fn lemma_pair_lookup(es: Seq<(String, String)>, k: Seq<char>)
    ensures
        pair_lookup(pair_views(es), k) == match lookup(es, k) {
            Some(v) => Some(v@),
            None => None::<Seq<char>>,
        },
{
    lemma_pair_index(es, k);
    lemma_first_index(es, k);
}

/// Checks that the profile declares `key`.
pub fn validate_declared_env_key(api: &ApiDefinition, key: &str) -> (r: Result<(), YcallrError>)
    ensures
        unit_result(r) == if declared(api.env@, key@) {
            Ok::<(), ErrorModel>(())
        } else {
            Err(ErrorModel::EnvVar(undeclared_message(key@)))
        },
{
    let mut i: usize = 0;
    while i < api.env.len()
        invariant
            i <= api.env@.len(),
            forall|j: int| 0 <= j < i ==> (#[trigger] api.env@[j]).name@ != key@,
        decreases api.env@.len() - i,
    {
        if str_eq(api.env[i].name.as_str(), key) {
            return Ok(());
        }
        i = i + 1;
    }
    Err(YcallrError::EnvVar(quoted("Environment variable '", key, "' is not declared in the API profile")))
}

/// Checks every required variable: present, and not blank.
pub fn validate_resolved_env_vars(api: &ApiDefinition, resolved_env: &Dict<String>) -> (r: Result<(), YcallrError>)
    ensures
        unit_result(r) == match env_problem(api.env@, pair_views(resolved_env.entries@)) {
            Some(m) => Err(ErrorModel::EnvVar(m)),
            None => Ok::<(), ErrorModel>(()),
        },
{
    let ghost rv = pair_views(resolved_env.entries@);
    let mut i: usize = 0;
    while i < api.env.len()
        invariant
            i <= api.env@.len(),
            rv == pair_views(resolved_env.entries@),
            env_problem(api.env@.take(i as int), rv) is None,
        decreases api.env@.len() - i,
    {
        let e = &api.env[i];
        assert(api.env@.take(i + 1).drop_last() =~= api.env@.take(i as int));
        assert(api.env@.take(i + 1).last() == *e);
        proof {
            lemma_pair_lookup(resolved_env.entries@, e.name@);
        }
        if e.required {
            match resolved_env.get(e.name.as_str()) {
                None => {
                    let mut m = quoted("Required environment variable '", e.name.as_str(), "' is not set (set ");
                    m.append(e.name.as_str());
                    m.append(", ");
                    m.append(e.name.as_str());
                    m.append("_FILE, use --env-file, or enter interactively)");
                    proof {
                        lemma_env_problem_extends(api.env@, rv, i as int + 1);
                    }
                    return Err(YcallrError::EnvVar(m));
                },
                Some(value) => {
                    if is_blank_str(value.as_str()) {
                        proof {
                            lemma_env_problem_extends(api.env@, rv, i as int + 1);
                        }
                        return Err(YcallrError::EnvVar(quoted("Required environment variable '", e.name.as_str(), "' cannot be empty")));
                    }
                },
            }
        }
        i = i + 1;
    }
    assert(api.env@.take(api.env@.len() as int) =~= api.env@);
    Ok(())
}

/// Once a prefix of the declarations has a problem, the whole list has that problem.
proof fn lemma_env_problem_extends(env: Seq<EnvVar>, resolved: Seq<(Seq<char>, Seq<char>)>, k: int)
    requires
        0 <= k <= env.len(),
        env_problem(env.take(k), resolved) is Some,
    ensures
        env_problem(env, resolved) == env_problem(env.take(k), resolved),
    decreases env.len() - k,
{
    if k < env.len() {
        assert(env.take(k + 1).drop_last() =~= env.take(k));
        lemma_env_problem_extends(env, resolved, k + 1);
    } else {
        assert(env.take(k) =~= env);
    }
}

/// Resolves the declared environment variables of `api`: each given key must
/// be declared; each declared variable takes its value from `process` (the
/// values found in the process environment, `Auto` mode only) or from
/// `env_vars`; optional variables without a value become empty; required
/// ones must end up non-blank.
pub fn resolve_client_env(
    api: &ApiDefinition,
    env_mode: &EnvMode,
    env_vars: &Dict<String>,
    process: &Dict<String>,
) -> (r: Result<Dict<String>, YcallrError>)
    ensures
        match r {
            Ok(d) => client_env(api.env@, *env_mode, env_vars.entries@, process.entries@) == Ok::<
                Seq<(Seq<char>, Seq<char>)>,
                ErrorModel,
            >(pair_views(d.entries@)),
            Err(e) => client_env(api.env@, *env_mode, env_vars.entries@, process.entries@) == Err::<
                Seq<(Seq<char>, Seq<char>)>,
                ErrorModel,
            >(e@),
        },
{
    let ghost given = env_vars.entries@;
    let ghost env = api.env@;
    assert(given.skip(0) =~= given);
    let mut k: usize = 0;
    while k < env_vars.entries.len()
        invariant
            k <= given.len(),
            given == env_vars.entries@,
            env == api.env@,
            first_undeclared(given, env) == first_undeclared(given.skip(k as int), env),
        decreases given.len() - k,
    {
        assert(given.skip(k as int).drop_first() =~= given.skip(k + 1));
        assert(given.skip(k as int)[0] == given[k as int]);
        let checked = validate_declared_env_key(api, env_vars.entries[k].0.as_str());
        match checked {
            Ok(()) => {},
            Err(e) => {
                return Err(e);
            },
        }
        k = k + 1;
    }
    let mut resolved: Dict<String> = Dict::new();
    let mut i: usize = 0;
    while i < api.env.len()
        invariant
            i <= env.len(),
            env == api.env@,
            pair_views(resolved.entries@) == gathered(env.take(i as int), *env_mode, env_vars.entries@, process.entries@),
        decreases env.len() - i,
    {
        let e = &api.env[i];
        assert(env.take(i + 1).drop_last() =~= env.take(i as int));
        assert(env.take(i + 1).last() == *e);
        proof {
            lemma_first_index(env_vars.entries@, e.name@);
            lemma_first_index(process.entries@, e.name@);
        }
        let from_process = match env_mode {
            EnvMode::Auto => process.get(e.name.as_str()),
            EnvMode::Manual => None,
        };
        match from_process {
            Some(v) => {
                put(&mut resolved, e.name.clone(), v.clone());
            },
            None => match env_vars.get(e.name.as_str()) {
                Some(v) => {
                    put(&mut resolved, e.name.clone(), v.clone());
                },
                None => {},
            },
        }
        i = i + 1;
    }
    assert(env.take(env.len() as int) =~= env);
    let ghost base = pair_views(resolved.entries@);
    let mut j: usize = 0;
    while j < api.env.len()
        invariant
            j <= env.len(),
            env == api.env@,
            pair_views(resolved.entries@) == with_defaults(env.take(j as int), base),
        decreases env.len() - j,
    {
        let e = &api.env[j];
        assert(env.take(j + 1).drop_last() =~= env.take(j as int));
        assert(env.take(j + 1).last() == *e);
        proof {
            lemma_pair_index(resolved.entries@, e.name@);
            lemma_first_index(resolved.entries@, e.name@);
        }
        let ghost prev = pair_views(resolved.entries@);
        if !e.required && !resolved.contains_key(e.name.as_str()) {
            let empty = owned("");
            proof {
                reveal_strlit("");
                assert(empty@ =~= Seq::<char>::empty());
                assert(seq_pair_index(prev, e.name@) is None);
            }
            put(&mut resolved, e.name.clone(), empty);
        } else {
            assert(e.required || seq_pair_index(prev, e.name@) is Some);
        }
        j = j + 1;
    }
    assert(env.take(env.len() as int) =~= env);
    let checked = validate_resolved_env_vars(api, &resolved);
    match checked {
        Ok(()) => Ok(resolved),
        Err(e) => Err(e),
    }
}

/// Text of a secret file: the contents without trailing line breaks; empty is an error.
pub open spec fn secret_value(path: Seq<char>, contents: Seq<char>) -> Result<Seq<char>, ErrorModel> {
    let v = strip_line_ends(contents);
    if v.len() == 0 {
        Err(ErrorModel::EnvVar("Secret file '"@ + path + "' is empty"@))
    } else {
        Ok(v)
    }
}

/// `contents` without its trailing `\n` and `\r` characters.
pub open spec fn strip_line_ends(s: Seq<char>) -> Seq<char>
    decreases s.len(),
{
    if s.len() > 0 && (s.last() == '\n' || s.last() == '\r') {
        strip_line_ends(s.drop_last())
    } else {
        s
    }
}

/// The value a secret file holds (`VAR_FILE`), from the file's contents.
pub fn secret_from_file_contents(path: &str, contents: &str) -> (r: Result<String, YcallrError>)
    ensures
        crate::error::text_result(r) == secret_value(path@, contents@),
{
    let v = crate::text::to_chars(contents);
    let mut end: usize = v.len();
    assert(v@.take(v@.len() as int) =~= v@);
    while end > 0 && (v[end - 1] == '\n' || v[end - 1] == '\r')
        invariant
            end <= v@.len(),
            v@ == contents@,
            strip_line_ends(v@.take(end as int)) == strip_line_ends(contents@),
        decreases end,
    {
        assert(v@.take(end as int).drop_last() =~= v@.take(end - 1));
        end = end - 1;
    }
    assert(v@.take(end as int) =~= v@.subrange(0, end as int));
    if end == 0 {
        assert(strip_line_ends(v@.take(0)) == v@.take(0));
        return Err(YcallrError::EnvVar(quoted("Secret file '", path, "' is empty")));
    }
    let value = crate::text::from_chars_range(&v, 0, end);
    Ok(value)
}

} // verus!
