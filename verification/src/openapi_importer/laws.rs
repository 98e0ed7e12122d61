//! What holds of every import.

use vstd::prelude::*;
use crate::json::Json;
use crate::openapi_importer::auth::{
    auth_of, env_push, env_ref, scheme_scan, scheme_step, shape_index, shape_put, AuthScan,
};
use crate::openapi_importer::import::imported;
use crate::openapi_importer::presets::github_auth;
use crate::openapi_importer::OpenApiImportOptions;
use crate::runtime_auth::RuntimeAuth;

verus! {

/// `s` is a `${NAME}` reference to an environment variable.
pub open spec fn is_env_ref(s: Seq<char>) -> bool {
    exists|n: Seq<char>| s == #[trigger] env_ref(n)
}

/// Every secret of an auth setting is an environment variable reference.
pub open spec fn reads_env(a: RuntimeAuth) -> bool {
    match a {
        RuntimeAuth::Bearer { token } => is_env_ref(token),
        RuntimeAuth::ApiKey { key, .. } => is_env_ref(key),
        RuntimeAuth::Basic { username, password } => is_env_ref(username) && is_env_ref(password),
        RuntimeAuth::Custom { token, .. } => is_env_ref(token),
    }
}

/// Every scheme of a table reads its secrets from the environment.
pub open spec fn all_read_env(auth: Seq<(Seq<char>, RuntimeAuth)>) -> bool {
    forall|i: int| 0 <= i < auth.len() ==> reads_env(#[trigger] auth[i].1)
}

proof fn lemma_shape_index_bounds(s: Seq<(Seq<char>, RuntimeAuth)>, k: Seq<char>)
    ensures
        shape_index(s, k) matches Some(i) ==> 0 <= i < s.len(),
    decreases s.len(),
{
    if s.len() > 0 && s[0].0 != k {
        lemma_shape_index_bounds(s.drop_first(), k);
    }
}

proof fn lemma_put_reads_env(s: Seq<(Seq<char>, RuntimeAuth)>, k: Seq<char>, a: RuntimeAuth)
    requires
        all_read_env(s),
        reads_env(a),
    ensures
        all_read_env(shape_put(s, k, a)),
{
    lemma_shape_index_bounds(s, k);
    let r = shape_put(s, k, a);
    assert forall|i: int| 0 <= i < r.len() implies reads_env(#[trigger] r[i].1) by {
        match shape_index(s, k) {
            Some(j) => {
                if i != j {
                    assert(r[i] == s[i]);
                }
            },
            None => {
                if i < s.len() {
                    assert(r[i] == s[i]);
                }
            },
        }
    }
}

proof fn lemma_step_reads_env(st: AuthScan, name: Seq<char>, scheme: Json, doc: Json)
    requires
        all_read_env(st.auth),
    ensures
        all_read_env(scheme_step(st, name, scheme, doc).auth),
{
    let stem = crate::openapi_importer::auth::env_stem(name);
    let t = env_ref(stem + "_TOKEN"@);
    let k = env_ref(stem + "_KEY"@);
    let u = env_ref(stem + "_USERNAME"@);
    let p = env_ref(stem + "_PASSWORD"@);
    assert(is_env_ref(t));
    assert(is_env_ref(k));
    assert(is_env_ref(u));
    assert(is_env_ref(p));
    let key_name = match crate::json::str_member(crate::openapi_importer::refs::resolved(scheme, doc), "name"@) {
        Some(n) => n,
        None => "X-API-Key"@,
    };
    lemma_put_reads_env(st.auth, name, RuntimeAuth::Bearer { token: t });
    lemma_put_reads_env(st.auth, name, RuntimeAuth::Basic { username: u, password: p });
    lemma_put_reads_env(st.auth, name, RuntimeAuth::ApiKey { key: k, name: key_name, in_: crate::models::types::ApiKeyLocation::Header });
    lemma_put_reads_env(st.auth, name, RuntimeAuth::ApiKey { key: k, name: key_name, in_: crate::models::types::ApiKeyLocation::Query });
    lemma_put_reads_env(st.auth, name, RuntimeAuth::ApiKey { key: k, name: key_name, in_: crate::models::types::ApiKeyLocation::Cookie });
}

proof fn lemma_scan_reads_env(ms: Seq<(Seq<char>, Json)>, doc: Json)
    ensures
        all_read_env(scheme_scan(ms, doc).auth),
    decreases ms.len(),
{
    if ms.len() > 0 {
        lemma_scan_reads_env(ms.drop_last(), doc);
        lemma_step_reads_env(scheme_scan(ms.drop_last(), doc), ms.last().0, ms.last().1, doc);
    }
}

/// Secrets are never written into an imported profile: every auth scheme an
/// import produces (from the document's security schemes or the GitHub preset)
/// reads its token, key, username and password from a `${NAME}` environment
/// variable reference.
pub proof fn law_imported_secrets_read_env(doc: Json, options: OpenApiImportOptions)
    requires
        imported(doc, options) is Ok,
    ensures
        all_read_env(imported(doc, options)->Ok_0.auth),
{
    let au = auth_of(doc);
    match crate::json::get_key(doc, "components"@) {
        Some(c) => match crate::json::get_key(c, "securitySchemes"@) {
            Some(Json::Object(ms)) => {
                lemma_scan_reads_env(ms, doc);
            },
            _ => {},
        },
        None => {},
    }
    assert(all_read_env(au.auth));
    reveal_strlit("${");
    reveal_strlit("}");
    reveal_strlit("GITHUB_TOKEN");
    reveal_strlit("${GITHUB_TOKEN}");
    assert(env_ref("GITHUB_TOKEN"@) =~= "${GITHUB_TOKEN}"@);
    assert(is_env_ref("${GITHUB_TOKEN}"@));
    lemma_put_reads_env(au.auth, "github"@, RuntimeAuth::Bearer { token: "${GITHUB_TOKEN}"@ });
    assert(all_read_env(github_auth(au.auth, au.env).0));
}

// ---------------------------------------------------------------- env coverage

/// `v` is a `${NAME}` reference to a variable that `env` lists.
pub open spec fn covered(v: Seq<char>, env: Seq<Seq<char>>) -> bool {
    exists|n: Seq<char>| v == #[trigger] env_ref(n) && env.contains(n)
}

/// Every secret of an auth setting references a variable that `env` lists.
pub open spec fn auth_covered(a: RuntimeAuth, env: Seq<Seq<char>>) -> bool {
    match a {
        RuntimeAuth::Bearer { token } => covered(token, env),
        RuntimeAuth::ApiKey { key, .. } => covered(key, env),
        RuntimeAuth::Basic { username, password } => covered(username, env) && covered(password, env),
        RuntimeAuth::Custom { token, .. } => covered(token, env),
    }
}

/// The variables of a scan are distinct and cover every secret its schemes reference.
pub open spec fn scan_covered(st: AuthScan) -> bool {
    &&& st.env.no_duplicates()
    &&& forall|i: int| 0 <= i < st.auth.len() ==> auth_covered(#[trigger] st.auth[i].1, st.env)
}

proof fn lemma_push_keeps(env: Seq<Seq<char>>, x: Seq<char>)
    requires
        env.no_duplicates(),
    ensures
        env_push(env, x).no_duplicates(),
        env_push(env, x).contains(x),
        forall|n: Seq<char>| env.contains(n) ==> #[trigger] env_push(env, x).contains(n),
        forall|a: RuntimeAuth| auth_covered(a, env) ==> #[trigger] auth_covered(a, env_push(env, x)),
{
    let e2 = env_push(env, x);
    if !env.contains(x) {
        assert(e2[env.len() as int] == x);
        assert forall|i: int, j: int| 0 <= i < e2.len() && 0 <= j < e2.len() && i != j implies e2[i] != e2[j] by {
            if i < env.len() && j < env.len() {
            } else if i == env.len() {
                assert(env[j] == e2[j]);
            } else {
                assert(env[i] == e2[i]);
            }
        }
    }
    assert forall|n: Seq<char>| env.contains(n) implies #[trigger] e2.contains(n) by {
        let i = choose|i: int| 0 <= i < env.len() && env[i] == n;
        assert(e2[i] == n);
    }
    assert forall|a: RuntimeAuth| auth_covered(a, env) implies #[trigger] auth_covered(a, e2) by {
        assert forall|v: Seq<char>| covered(v, env) implies covered(v, e2) by {
            let n = choose|n: Seq<char>| v == #[trigger] env_ref(n) && env.contains(n);
            assert(e2.contains(n));
        }
    }
}

proof fn lemma_put_covered(s: Seq<(Seq<char>, RuntimeAuth)>, k: Seq<char>, a: RuntimeAuth, env: Seq<Seq<char>>)
    requires
        forall|i: int| 0 <= i < s.len() ==> auth_covered(#[trigger] s[i].1, env),
        auth_covered(a, env),
    ensures
        forall|i: int| 0 <= i < shape_put(s, k, a).len() ==> auth_covered(#[trigger] shape_put(s, k, a)[i].1, env),
{
    lemma_shape_index_bounds(s, k);
    let r = shape_put(s, k, a);
    assert forall|i: int| 0 <= i < r.len() implies auth_covered(#[trigger] r[i].1, env) by {
        match shape_index(s, k) {
            Some(j) => {
                if i != j {
                    assert(r[i] == s[i]);
                }
            },
            None => {
                if i < s.len() {
                    assert(r[i] == s[i]);
                }
            },
        }
    }
}

proof fn lemma_step_covered(st: AuthScan, name: Seq<char>, scheme: Json, doc: Json)
    requires
        scan_covered(st),
    ensures
        scan_covered(scheme_step(st, name, scheme, doc)),
{
    let stem = crate::openapi_importer::auth::env_stem(name);
    let t = stem + "_TOKEN"@;
    let k = stem + "_KEY"@;
    let u = stem + "_USERNAME"@;
    let p = stem + "_PASSWORD"@;
    let key_name = match crate::json::str_member(crate::openapi_importer::refs::resolved(scheme, doc), "name"@) {
        Some(n) => n,
        None => "X-API-Key"@,
    };
    let r = scheme_step(st, name, scheme, doc);
    lemma_push_keeps(st.env, t);
    lemma_push_keeps(st.env, k);
    lemma_push_keeps(st.env, u);
    let eu = env_push(st.env, u);
    lemma_push_keeps(eu, p);
    let eup = env_push(eu, p);
    assert(eup.contains(u));
    assert forall|i: int| 0 <= i < st.auth.len() implies auth_covered(#[trigger] st.auth[i].1, eup) by {
        assert(auth_covered(st.auth[i].1, eu));
    }
    assert(covered(env_ref(t), env_push(st.env, t)));
    assert(covered(env_ref(k), env_push(st.env, k)));
    assert(covered(env_ref(u), eup));
    assert(covered(env_ref(p), eup));
    lemma_put_covered(st.auth, name, RuntimeAuth::Bearer { token: env_ref(t) }, env_push(st.env, t));
    lemma_put_covered(st.auth, name, RuntimeAuth::Basic { username: env_ref(u), password: env_ref(p) }, eup);
    lemma_put_covered(
        st.auth,
        name,
        RuntimeAuth::ApiKey { key: env_ref(k), name: key_name, in_: crate::models::types::ApiKeyLocation::Header },
        env_push(st.env, k),
    );
    lemma_put_covered(
        st.auth,
        name,
        RuntimeAuth::ApiKey { key: env_ref(k), name: key_name, in_: crate::models::types::ApiKeyLocation::Query },
        env_push(st.env, k),
    );
    lemma_put_covered(
        st.auth,
        name,
        RuntimeAuth::ApiKey { key: env_ref(k), name: key_name, in_: crate::models::types::ApiKeyLocation::Cookie },
        env_push(st.env, k),
    );
}

proof fn lemma_scan_covered(ms: Seq<(Seq<char>, Json)>, doc: Json)
    ensures
        scan_covered(scheme_scan(ms, doc)),
    decreases ms.len(),
{
    if ms.len() > 0 {
        lemma_scan_covered(ms.drop_last(), doc);
        lemma_step_covered(scheme_scan(ms.drop_last(), doc), ms.last().0, ms.last().1, doc);
    } else {
        assert(Seq::<Seq<char>>::empty().no_duplicates());
    }
}

/// The environment variables read from a document's security schemes (what
/// `extract_auth` returns) are distinct, and every secret of every scheme it
/// returns is a `${NAME}` reference to one of them.
pub proof fn law_auth_env_covers_schemes(doc: Json)
    ensures
        scan_covered(auth_of(doc)),
{
    match crate::json::get_key(doc, "components"@) {
        Some(c) => match crate::json::get_key(c, "securitySchemes"@) {
            Some(Json::Object(ms)) => {
                lemma_scan_covered(ms, doc);
            },
            _ => {
                assert(Seq::<Seq<char>>::empty().no_duplicates());
            },
        },
        None => {
            assert(Seq::<Seq<char>>::empty().no_duplicates());
        },
    }
}

} // verus!
