//! GitHub REST defaults: an `Accept` header on every callable command and a bearer token scheme.

use vstd::prelude::*;
use crate::dict::{first_index, lemma_first_index, lemma_pair_index, put, seq_pair_index, Dict};
use crate::models::types::{AuthConfig, Command, EnvVar};
use crate::openapi_importer::auth::{
    all_required, auth_shapes, env_names, env_push, push_env, shape_index, shape_put,
};
use crate::openapi_importer::tree::{cmd_found, cmds_found, CmdFound};
use crate::runtime_auth::{runtime_shape, RuntimeAuth};
use crate::text::owned;

verus! {

broadcast use vstd::std_specs::vec::group_vec_axioms;

/// The `Accept` value GitHub's REST API documents.
pub open spec fn github_accept() -> Seq<char> {
    "application/vnd.github.v3+json"@
}

/// A callable command (no sub-command table) with the edit applied: without a
/// scheme, an `Accept` header where none is set; with one, that auth where none is set.
pub open spec fn leaf_edited(c: CmdFound, scheme: Option<Seq<char>>) -> CmdFound {
    if c.endpoint is Some && c.method is Some {
        match scheme {
            None => if seq_pair_index(c.headers, "Accept"@) is None {
                CmdFound { headers: c.headers.push(("Accept"@, github_accept())), ..c }
            } else {
                c
            },
            Some(s) => if c.auth is None {
                CmdFound { auth: Some(s), ..c }
            } else {
                c
            },
        }
    } else {
        c
    }
}

/// A command with the edit applied to every command below it that has no sub-command table.
pub open spec fn edited(c: CmdFound, scheme: Option<Seq<char>>) -> CmdFound
    decreases c,
{
    match c.commands {
        Some(children) => CmdFound {
            commands: Some(
                Seq::new(
                    children.len(),
                    |i: int|
                        if 0 <= i < children.len() {
                            (children[i].0, edited(children[i].1, scheme))
                        } else {
                            arbitrary()
                        },
                ),
            ),
            ..c
        },
        None => leaf_edited(c, scheme),
    }
}

/// A command table with the edit applied throughout.
pub open spec fn table_edited(s: Seq<(Seq<char>, CmdFound)>, scheme: Option<Seq<char>>) -> Seq<
    (Seq<char>, CmdFound),
> {
    Seq::new(s.len(), |i: int| (s[i].0, edited(s[i].1, scheme)))
}

/// Applies the edit to a command with no sub-command table.
fn edit_leaf(c: Command, scheme: Option<&str>) -> (r: Command)
    requires
        c.commands is None,
    ensures
        cmd_found(r) == leaf_edited(
            cmd_found(c),
            match scheme {
                Some(s) => Some(s@),
                None => None,
            },
        ),
        r.commands is None,
{
    if !(c.endpoint.is_some() && c.method.is_some()) {
        return c;
    }
    match scheme {
        None => {
            let mut c = c;
            proof {
                lemma_pair_index(c.headers.entries@, "Accept"@);
                lemma_first_index(c.headers.entries@, "Accept"@);
            }
            if !c.headers.contains_key("Accept") {
                put(&mut c.headers, owned("Accept"), owned("application/vnd.github.v3+json"));
            }
            c
        },
        Some(s) => {
            if c.auth.is_none() {
                let mut c = c;
                c.auth = Some(owned(s));
                c
            } else {
                c
            }
        },
    }
}

/// Applies the edit throughout a command.
fn edit_command(c: Command, scheme: Option<&str>) -> (r: Command)
    ensures
        cmd_found(r) == edited(
            cmd_found(c),
            match scheme {
                Some(s) => Some(s@),
                None => None,
            },
        ),
    decreases c, 1nat,
{
    let ghost sc = match scheme {
        Some(s) => Some(s@),
        None => None,
    };
    let ghost orig = c;
    let Command { description, endpoint, method, auth, headers, params, body, responses, commands } = c;
    match commands {
        Some(d) => {
            assert(decreases_to!(orig => orig.commands));
            assert(decreases_to!(orig.commands => orig.commands->0));
            let ghost d0 = d;
            let t = edit_table(d, scheme);
            let r = Command { description, endpoint, method, auth, headers, params, body, responses, commands: Some(t) };
            proof {
                assert(cmd_found(r).commands->0 =~= cmds_found(t.entries@));
                assert(cmd_found(orig).commands->0 =~= cmds_found(d0.entries@));
                assert(cmds_found(t.entries@) =~= table_edited(cmds_found(d0.entries@), sc));
                assert(edited(cmd_found(orig), sc).commands->0 =~= table_edited(cmds_found(d0.entries@), sc));
            }
            r
        },
        None => {
            let c2 = Command { description, endpoint, method, auth, headers, params, body, responses, commands: None };
            assert(c2 == orig);
            edit_leaf(c2, scheme)
        },
    }
}

/// Applies the edit throughout a command table.
fn edit_table(d: Dict<Command>, scheme: Option<&str>) -> (r: Dict<Command>)
    ensures
        cmds_found(r.entries@) == table_edited(
            cmds_found(d.entries@),
            match scheme {
                Some(s) => Some(s@),
                None => None,
            },
        ),
    decreases d, 0nat,
{
    let ghost sc = match scheme {
        Some(s) => Some(s@),
        None => None,
    };
    let ghost orig = d;
    let mut entries = d.entries;
    let n = entries.len();
    let mut out: Vec<(String, Command)> = Vec::new();
    let mut j: usize = 0;
    assert(entries@.skip(0) =~= entries@);
    while j < n
        invariant
            orig == d,
            sc == match scheme {
                Some(s) => Some(s@),
                None => None,
            },
            n == orig.entries@.len(),
            j <= n,
            entries@ == orig.entries@.skip(j as int),
            out@.len() == j,
            forall|k: int|
                0 <= k < j ==> (#[trigger] cmds_found(out@)[k]) == table_edited(cmds_found(orig.entries@), sc)[k],
        decreases n - j,
    {
        let (key, c) = entries.remove(0);
        assert(c == orig.entries@[j as int].1);
        assert(key == orig.entries@[j as int].0);
        assert(decreases_to!(orig => orig.entries));
        assert(decreases_to!(orig.entries => orig.entries@[j as int]));
        assert(decreases_to!(orig.entries@[j as int] => orig.entries@[j as int].1));
        let e = edit_command(c, scheme);
        let ghost o = out@;
        out.push((key, e));
        proof {
            assert(entries@ =~= orig.entries@.skip(j + 1));
            assert(out@[j as int] == (key, e));
            assert(cmds_found(out@)[j as int] == (key@, cmd_found(e)));
            assert forall|k: int| 0 <= k < j + 1 implies (#[trigger] cmds_found(out@)[k]) == table_edited(
                cmds_found(orig.entries@),
                sc,
            )[k] by {
                if k < j {
                    assert(cmds_found(out@)[k] == cmds_found(o)[k]);
                }
            }
        }
        j = j + 1;
    }
    let r = Dict { entries: out };
    assert(cmds_found(r.entries@) =~= table_edited(cmds_found(orig.entries@), sc));
    r
}

/// Adds `Accept: application/vnd.github.v3+json` to every callable command that sets no `Accept`.
pub fn apply_default_headers_to_leaves(commands: Dict<Command>) -> (r: Dict<Command>)
    ensures
        cmds_found(r.entries@) == table_edited(cmds_found(commands.entries@), None),
{
    edit_table(commands, None)
}

/// Sets auth `scheme` on every callable command that names none.
pub fn link_commands_to_auth(commands: Dict<Command>, scheme: &str) -> (r: Dict<Command>)
    ensures
        cmds_found(r.entries@) == table_edited(cmds_found(commands.entries@), Some(scheme@)),
{
    edit_table(commands, Some(scheme))
}

/// The auth schemes and environment variables with the GitHub token scheme
/// added, unless a `github` scheme or a bearer scheme exists.
pub open spec fn github_auth(auth: Seq<(Seq<char>, RuntimeAuth)>, env: Seq<Seq<char>>) -> (
    Seq<(Seq<char>, RuntimeAuth)>,
    Seq<Seq<char>>,
) {
    if shape_index(auth, "github"@) is Some || exists|i: int| 0 <= i < auth.len() && (#[trigger] auth[i]).1 is Bearer {
        (auth, env)
    } else {
        (shape_put(auth, "github"@, RuntimeAuth::Bearer { token: "${GITHUB_TOKEN}"@ }), env_push(env, "GITHUB_TOKEN"@))
    }
}

/// The importer's tables: every scheme a run-time shape, every variable required.
pub open spec fn tables_ok(auth: Seq<(String, AuthConfig)>, env: Seq<EnvVar>) -> bool {
    &&& forall|i: int| 0 <= i < auth.len() ==> runtime_shape(#[trigger] auth[i].1) is Some
    &&& all_required(env)
}

pub proof fn lemma_auth_index(es: Seq<(String, AuthConfig)>, k: Seq<char>)
    ensures
        shape_index(auth_shapes(es), k) == first_index(es, k),
    decreases es.len(),
{
    if es.len() > 0 {
        assert(auth_shapes(es).drop_first() =~= auth_shapes(es.drop_first()));
        lemma_auth_index(es.drop_first(), k);
    }
}

/// Adds the `github` bearer scheme reading `GITHUB_TOKEN`, unless a `github`
/// or a bearer scheme exists.
pub fn apply_github_auth(auth: &mut Dict<AuthConfig>, env: &mut Vec<EnvVar>)
    requires
        tables_ok(old(auth).entries@, old(env)@),
    ensures
        (auth_shapes(final(auth).entries@), env_names(final(env)@)) == github_auth(
            auth_shapes(old(auth).entries@),
            env_names(old(env)@),
        ),
        tables_ok(final(auth).entries@, final(env)@),
{
    proof {
        lemma_auth_index(auth.entries@, "github"@);
        lemma_first_index(auth.entries@, "github"@);
    }
    if auth.contains_key("github") {
        return;
    }
    let ghost shapes = auth_shapes(auth.entries@);
    let mut i: usize = 0;
    while i < auth.entries.len()
        invariant
            shapes == auth_shapes(auth.entries@),
            tables_ok(auth.entries@, env@),
            i <= auth.entries@.len(),
            forall|k: int| 0 <= k < i ==> !((#[trigger] shapes[k]).1 is Bearer),
        decreases auth.entries@.len() - i,
    {
        let is_bearer = match &auth.entries[i].1 {
            AuthConfig::Bearer { .. } => true,
            _ => false,
        };
        if is_bearer {
            assert(shapes[i as int].1 is Bearer);
            return;
        }
        i = i + 1;
    }
    assert(!exists|k: int| 0 <= k < shapes.len() && (#[trigger] shapes[k]).1 is Bearer);
    let ghost before = auth.entries@;
    auth.insert(owned("github"), AuthConfig::bearer(owned("${GITHUB_TOKEN}")));
    proof {
        assert(auth_shapes(auth.entries@) =~= shapes.push(("github"@, RuntimeAuth::Bearer { token: "${GITHUB_TOKEN}"@ })));
    }
    push_env(env, "GITHUB_TOKEN");
}

} // verus!
