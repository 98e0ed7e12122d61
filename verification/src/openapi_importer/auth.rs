//! Auth schemes and their environment variables read from `components.securitySchemes`.

use vstd::prelude::*;
use crate::dict::{first_index, lemma_first_index, Dict};
use crate::json::{get_key, str_member, str_member_of, Json, JsonValue};
use crate::models::types::{ApiKeyLocation, AuthConfig, EnvVar};
use crate::openapi_importer::messages::as_object;
use crate::openapi_importer::refs::{resolve_value, resolved};
use crate::runtime_auth::{runtime_shape, RuntimeAuth};
use crate::text::{
    ascii_lower, ascii_lower_str, ascii_upper, ascii_upper_str, owned, replace_all, replace_str,
    str_eq,
};

verus! {

broadcast use vstd::std_specs::vec::group_vec_axioms;

/// The environment variable stem of a scheme name: upper case, `-` as `_`.
pub open spec fn env_stem(name: Seq<char>) -> Seq<char> {
    replace_all(ascii_upper(name), "-"@, "_"@)
}

/// `${NAME}`.
pub open spec fn env_ref(name: Seq<char>) -> Seq<char> {
    "${"@ + name + "}"@
}

/// `env` with `name` appended unless it already holds it.
pub open spec fn env_push(env: Seq<Seq<char>>, name: Seq<char>) -> Seq<Seq<char>> {
    if env.contains(name) {
        env
    } else {
        env.push(name)
    }
}

/// Position of the first pair with key `k`.
pub open spec fn shape_index(s: Seq<(Seq<char>, RuntimeAuth)>, k: Seq<char>) -> Option<int>
    decreases s.len(),
{
    if s.len() == 0 {
        None
    } else if s[0].0 == k {
        Some(0)
    } else {
        match shape_index(s.drop_first(), k) {
            Some(i) => Some(i + 1),
            None => None,
        }
    }
}

/// A scheme table after storing `a` under `k`.
pub open spec fn shape_put(s: Seq<(Seq<char>, RuntimeAuth)>, k: Seq<char>, a: RuntimeAuth) -> Seq<
    (Seq<char>, RuntimeAuth),
> {
    match shape_index(s, k) {
        Some(i) => s.update(i, (k, a)),
        None => s.push((k, a)),
    }
}

/// Schemes read so far and the environment variables they need.
pub struct AuthScan {
    pub auth: Seq<(Seq<char>, RuntimeAuth)>,
    pub env: Seq<Seq<char>>,
}

/// One security scheme read into the scan.
pub open spec fn scheme_step(st: AuthScan, name: Seq<char>, scheme: Json, doc: Json) -> AuthScan {
    let s = resolved(scheme, doc);
    let ty = match str_member(s, "type"@) {
        Some(t) => t,
        None => Seq::empty(),
    };
    let stem = env_stem(name);
    if ty == "http"@ {
        let hs = ascii_lower(
            match str_member(s, "scheme"@) {
                Some(x) => x,
                None => "bearer"@,
            },
        );
        if hs == "bearer"@ {
            let e = stem + "_TOKEN"@;
            AuthScan {
                auth: shape_put(st.auth, name, RuntimeAuth::Bearer { token: env_ref(e) }),
                env: env_push(st.env, e),
            }
        } else if hs == "basic"@ {
            let u = stem + "_USERNAME"@;
            let p = stem + "_PASSWORD"@;
            AuthScan {
                auth: shape_put(st.auth, name, RuntimeAuth::Basic { username: env_ref(u), password: env_ref(p) }),
                env: env_push(env_push(st.env, u), p),
            }
        } else {
            st
        }
    } else if ty == "apiKey"@ {
        let key_name = match str_member(s, "name"@) {
            Some(n) => n,
            None => "X-API-Key"@,
        };
        let loc = match str_member(s, "in"@) {
            Some(l) => if l == "query"@ {
                ApiKeyLocation::Query
            } else if l == "cookie"@ {
                ApiKeyLocation::Cookie
            } else {
                ApiKeyLocation::Header
            },
            None => ApiKeyLocation::Header,
        };
        let e = stem + "_KEY"@;
        AuthScan {
            auth: shape_put(st.auth, name, RuntimeAuth::ApiKey { key: env_ref(e), name: key_name, in_: loc }),
            env: env_push(st.env, e),
        }
    } else if ty == "oauth2"@ || ty == "openIdConnect"@ {
        let e = stem + "_TOKEN"@;
        AuthScan {
            auth: shape_put(st.auth, name, RuntimeAuth::Bearer { token: env_ref(e) }),
            env: env_push(st.env, e),
        }
    } else {
        st
    }
}

/// The scan of the schemes `ms`, in order.
pub open spec fn scheme_scan(ms: Seq<(Seq<char>, Json)>, doc: Json) -> AuthScan
    decreases ms.len(),
{
    if ms.len() == 0 {
        AuthScan { auth: Seq::empty(), env: Seq::empty() }
    } else {
        scheme_step(scheme_scan(ms.drop_last(), doc), ms.last().0, ms.last().1, doc)
    }
}

/// Auth schemes and environment variables of a document.
pub open spec fn auth_of(doc: Json) -> AuthScan {
    match get_key(doc, "components"@) {
        Some(c) => match get_key(c, "securitySchemes"@) {
            Some(Json::Object(ms)) => scheme_scan(ms, doc),
            _ => AuthScan { auth: Seq::empty(), env: Seq::empty() },
        },
        None => AuthScan { auth: Seq::empty(), env: Seq::empty() },
    }
}

/// Names and shapes of an auth table (a scheme that is no run-time shape shows as a bearer
/// with an empty token; the importer builds none such).
pub open spec fn auth_shapes(es: Seq<(String, AuthConfig)>) -> Seq<(Seq<char>, RuntimeAuth)> {
    Seq::new(
        es.len(),
        |i: int|
            (
                es[i].0@,
                match runtime_shape(es[i].1) {
                    Some(a) => a,
                    None => RuntimeAuth::Bearer { token: Seq::empty() },
                },
            ),
    )
}

/// The names of environment variables, all required.
pub open spec fn env_names(env: Seq<EnvVar>) -> Seq<Seq<char>> {
    Seq::new(env.len(), |i: int| env[i].name@)
}

/// Every variable is required.
pub open spec fn all_required(env: Seq<EnvVar>) -> bool {
    forall|i: int| 0 <= i < env.len() ==> (#[trigger] env[i]).required
}

proof fn lemma_shape_index(es: Seq<(String, AuthConfig)>, k: Seq<char>)
    ensures
        shape_index(auth_shapes(es), k) == first_index(es, k),
    decreases es.len(),
{
    if es.len() > 0 {
        assert(auth_shapes(es).drop_first() =~= auth_shapes(es.drop_first()));
        lemma_shape_index(es.drop_first(), k);
    }
}

/// Stores `a` under `k`.
fn put_auth(d: &mut Dict<AuthConfig>, k: String, a: AuthConfig)
    requires
        runtime_shape(a) is Some,
        forall|i: int| 0 <= i < old(d).entries@.len() ==> runtime_shape(#[trigger] old(d).entries@[i].1) is Some,
    ensures
        auth_shapes(final(d).entries@) == shape_put(auth_shapes(old(d).entries@), k@, runtime_shape(a)->0),
        forall|i: int| 0 <= i < final(d).entries@.len() ==> runtime_shape(#[trigger] final(d).entries@[i].1) is Some,
{
    proof {
        lemma_shape_index(d.entries@, k@);
        lemma_first_index(d.entries@, k@);
    }
    let ghost before = d.entries@;
    let ghost kv = k@;
    let ghost av = runtime_shape(a)->0;
    d.insert(k, a);
    proof {
        match first_index(before, kv) {
            Some(j) => {
                assert(auth_shapes(d.entries@) =~= auth_shapes(before).update(j, (kv, av)));
            },
            None => {
                assert(auth_shapes(d.entries@) =~= auth_shapes(before).push((kv, av)));
            },
        }
    }
}

/// Appends the required variable `name` unless it is already listed.
pub fn push_env(env: &mut Vec<EnvVar>, name: &str)
    requires
        all_required(old(env)@),
    ensures
        env_names(final(env)@) == env_push(env_names(old(env)@), name@),
        all_required(final(env)@),
{
    let mut i: usize = 0;
    while i < env.len()
        invariant
            env@ == old(env)@,
            all_required(env@),
            i <= env@.len(),
            forall|j: int| 0 <= j < i ==> env_names(env@)[j] != name@,
        decreases env@.len() - i,
    {
        if str_eq(env[i].name.as_str(), name) {
            assert(env_names(env@)[i as int] == name@);
            assert(env_names(env@).contains(name@));
            return;
        }
        i = i + 1;
    }
    assert(!env_names(env@).contains(name@));
    let ghost before = env@;
    env.push(EnvVar { name: owned(name), required: true });
    assert(env_names(env@) =~= env_names(before).push(name@));
}

/// `<stem><suffix>`.
fn suffixed(stem: &str, suffix: &str) -> (r: String)
    ensures
        r@ == stem@ + suffix@,
{
    let mut s = owned(stem);
    s.append(suffix);
    s
}

/// `${<name>}`.
fn env_ref_exec(name: &str) -> (r: String)
    ensures
        r@ == env_ref(name@),
{
    let mut s = owned("${");
    s.append(name);
    s.append("}");
    s
}

/// Auth schemes and the environment variables they read, from
/// `components.securitySchemes`: HTTP bearer, OAuth2 and OpenID Connect become
/// bearer tokens, HTTP basic a username and password, API keys a key in their place.
pub fn extract_auth(doc: &JsonValue) -> (r: (Dict<AuthConfig>, Vec<EnvVar>))
    ensures
        auth_shapes(r.0.entries@) == auth_of(doc@).auth,
        forall|i: int| 0 <= i < r.0.entries@.len() ==> runtime_shape(#[trigger] r.0.entries@[i].1) is Some,
        env_names(r.1@) == auth_of(doc@).env,
        all_required(r.1@),
{
    let mut auth: Dict<AuthConfig> = Dict::new();
    let mut env: Vec<EnvVar> = Vec::new();
    assert(auth_shapes(auth.entries@) =~= Seq::<(Seq<char>, RuntimeAuth)>::empty());
    assert(env_names(env@) =~= Seq::<Seq<char>>::empty());
    let components = match doc.get_key("components") {
        Some(c) => c,
        None => {
            return (auth, env);
        },
    };
    let schemes = match components.get_key("securitySchemes") {
        Some(s) => s,
        None => {
            return (auth, env);
        },
    };
    let ms = match as_object(schemes) {
        Some(ms) => ms,
        None => {
            return (auth, env);
        },
    };
    let ghost vs = Seq::new(ms@.len(), |i: int| (ms@[i].0@, ms@[i].1@));
    let mut i: usize = 0;
    assert(vs.take(0) =~= Seq::<(Seq<char>, Json)>::empty());
    while i < ms.len()
        invariant
            vs == Seq::new(ms@.len(), |i: int| (ms@[i].0@, ms@[i].1@)),
            i <= ms@.len(),
            auth_shapes(auth.entries@) == scheme_scan(vs.take(i as int), doc@).auth,
            forall|k: int| 0 <= k < auth.entries@.len() ==> runtime_shape(#[trigger] auth.entries@[k].1) is Some,
            env_names(env@) == scheme_scan(vs.take(i as int), doc@).env,
            all_required(env@),
        decreases ms@.len() - i,
    {
        assert(vs.take(i + 1).drop_last() =~= vs.take(i as int));
        assert(vs.take(i + 1).last() == vs[i as int]);
        let name = &ms[i].0;
        let s = resolve_value(&ms[i].1, doc);
        let ty = match str_member_of(s, "type") {
            Some(t) => t,
            None => "",
        };
        proof {
            reveal_strlit("");
            assert(""@ =~= Seq::<char>::empty());
        }
        let upper = ascii_upper_str(name.as_str());
        let stem = replace_str(upper.as_str(), "-", "_");
        if str_eq(ty, "http") {
            let raw = match str_member_of(s, "scheme") {
                Some(x) => x,
                None => "bearer",
            };
            let hs = ascii_lower_str(raw);
            if str_eq(hs.as_str(), "bearer") {
                let e = suffixed(stem.as_str(), "_TOKEN");
                push_env(&mut env, e.as_str());
                put_auth(&mut auth, name.clone(), AuthConfig::bearer(env_ref_exec(e.as_str())));
            } else if str_eq(hs.as_str(), "basic") {
                let u = suffixed(stem.as_str(), "_USERNAME");
                let p = suffixed(stem.as_str(), "_PASSWORD");
                push_env(&mut env, u.as_str());
                push_env(&mut env, p.as_str());
                put_auth(
                    &mut auth,
                    name.clone(),
                    AuthConfig::http_basic(env_ref_exec(u.as_str()), env_ref_exec(p.as_str())),
                );
            }
        } else if str_eq(ty, "apiKey") {
            let key_name = match str_member_of(s, "name") {
                Some(n) => n,
                None => "X-API-Key",
            };
            let loc = match str_member_of(s, "in") {
                Some(l) => if str_eq(l, "query") {
                    ApiKeyLocation::Query
                } else if str_eq(l, "cookie") {
                    ApiKeyLocation::Cookie
                } else {
                    ApiKeyLocation::Header
                },
                None => ApiKeyLocation::Header,
            };
            let e = suffixed(stem.as_str(), "_KEY");
            push_env(&mut env, e.as_str());
            put_auth(&mut auth, name.clone(), AuthConfig::api_key_in(env_ref_exec(e.as_str()), owned(key_name), loc));
        } else if str_eq(ty, "oauth2") || str_eq(ty, "openIdConnect") {
            let e = suffixed(stem.as_str(), "_TOKEN");
            push_env(&mut env, e.as_str());
            put_auth(&mut auth, name.clone(), AuthConfig::bearer(env_ref_exec(e.as_str())));
        }
        i = i + 1;
    }
    assert(vs.take(ms@.len() as int) =~= vs);
    (auth, env)
}

} // verus!
