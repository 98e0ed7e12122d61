//! The client checks of a profile, stated over the values an import produces.

use vstd::prelude::*;
use crate::dict::lemma_first_index;
use crate::models::types::{ApiDefinition, AuthConfig, Command};
use crate::models::validation::{
    api_ok, auth_ok, base_url_ok, body_ok, command_ok, env_ok, filled, name_ok,
};
use crate::openapi_importer::auth::{auth_shapes, env_names, shape_index};
use crate::openapi_importer::import::{api_found, ApiFound};
use crate::openapi_importer::params::{body_found, BodyFound};
use crate::openapi_importer::presets::{lemma_auth_index, tables_ok};
use crate::openapi_importer::tree::{cmd_found, cmds_found, CmdFound};
use crate::outside::lowercase;
use crate::runtime_auth::{runtime_shape, RuntimeAuth};
use crate::text::{ascii_lower, is_ascii_alnum, is_blank};

verus! {

broadcast use vstd::std_specs::vec::group_vec_axioms;

/// The credentials of an auth setting are present and not blank.
pub open spec fn shape_ok(a: RuntimeAuth) -> bool {
    match a {
        RuntimeAuth::Bearer { token } => !is_blank(token),
        RuntimeAuth::ApiKey { key, name, .. } => !is_blank(key) && !is_blank(name),
        RuntimeAuth::Basic { username, password } => {
            let s = lowercase("basic"@);
            s == "basic"@ && !is_blank(username) && !is_blank(password)
        },
        RuntimeAuth::Custom { prefix, token } => {
            let s = lowercase("custom"@);
            if s == "basic"@ {
                false
            } else if s == "custom"@ {
                !is_blank(prefix) && !is_blank(token)
            } else {
                !is_blank(token)
            }
        },
    }
}

/// Environment variable names: non-blank, ASCII letters, digits and `_`, no repeats.
pub open spec fn env_names_ok(names: Seq<Seq<char>>) -> bool {
    &&& forall|i: int| 0 <= i < names.len() ==> !is_blank(#[trigger] names[i])
    &&& forall|i: int, j: int|
        0 <= i < names.len() && 0 <= j < names[i].len() ==> is_ascii_alnum(#[trigger] names[i][j])
            || names[i][j] == '_'
    &&& forall|i: int, j: int| 0 <= i < j < names.len() ==> (#[trigger] names[i]) != (#[trigger] names[j])
}

/// A body passes the body checks.
pub open spec fn body_found_ok(b: BodyFound) -> bool {
    match b {
        BodyFound::Json(_) => true,
        BodyFound::Form(_) => true,
        BodyFound::Other(m) => body_ok(m),
    }
}

/// A command and its sub-commands pass the command checks against the schemes `auth`.
pub open spec fn cmd_ok(c: CmdFound, auth: Seq<(Seq<char>, RuntimeAuth)>) -> bool
    decreases c,
{
    &&& (c.endpoint is Some) == (c.method is Some)
    &&& c.auth matches Some(a) ==> (ascii_lower(a) == "none"@ || shape_index(auth, a) is Some)
    &&& c.body matches Some(b) ==> body_found_ok(b)
    &&& c.commands matches Some(ch) ==> forall|i: int|
        0 <= i < ch.len() ==> cmd_ok(#[trigger] ch[i].1, auth)
}

/// An imported definition passes the client checks.
pub open spec fn found_ok(f: ApiFound) -> bool {
    &&& name_ok(f.name)
    &&& f.base_url.len() > 0
    &&& base_url_ok(f.base_url, false)
    &&& forall|i: int| 0 <= i < f.auth.len() ==> shape_ok(#[trigger] f.auth[i].1)
    &&& env_names_ok(f.env)
    &&& forall|i: int| 0 <= i < f.commands.len() ==> cmd_ok(#[trigger] f.commands[i].1, f.auth)
}

proof fn lemma_body_found(b: Option<crate::models::types::BodyConfig>)
    requires
        b is Some,
    ensures
        body_found(b) matches Some(x) && (body_found_ok(x) == body_ok(b->0@)),
{
    let c = b->0;
    if c.json is Some && c.form is None && c.multipart is None && c.raw is None {
        assert(crate::models::types::kinds_of(c@).len() <= 1);
    } else if c.json is None && c.form is Some && c.multipart is None && c.raw is None {
        assert(crate::models::types::kinds_of(c@).len() <= 1);
    }
}

proof fn lemma_cmd_ok(c: Command, auths: Seq<(String, AuthConfig)>)
    ensures
        command_ok(c, auths) == cmd_ok(cmd_found(c), auth_shapes(auths)),
    decreases c,
{
    match c.auth {
        Some(a) => {
            lemma_auth_index(auths, a@);
            lemma_first_index(auths, a@);
        },
        None => {},
    }
    if c.body is Some {
        lemma_body_found(c.body);
    }
    match c.commands {
        Some(d) => {
            let ch = cmd_found(c).commands->0;
            assert(ch =~= cmds_found(d.entries@));
            assert forall|i: int| 0 <= i < d.entries@.len() implies command_ok(
                #[trigger] d.entries@[i].1,
                auths,
            ) == cmd_ok(ch[i].1, auth_shapes(auths)) by {
                assert(decreases_to!(c => c.commands));
                assert(decreases_to!(c.commands => c.commands->0));
                assert(decreases_to!(c.commands->0 => c.commands->0.entries));
                assert(decreases_to!(c.commands->0.entries => c.commands->0.entries@[i]));
                assert(decreases_to!(c.commands->0.entries@[i] => c.commands->0.entries@[i].1));
                lemma_cmd_ok(d.entries@[i].1, auths);
            }
            if command_ok(c, auths) {
                assert forall|i: int| 0 <= i < ch.len() implies cmd_ok(#[trigger] ch[i].1, auth_shapes(auths)) by {
                    assert(command_ok(d.entries@[i].1, auths));
                }
            }
            if cmd_ok(cmd_found(c), auth_shapes(auths)) {
                assert forall|i: int| 0 <= i < d.entries@.len() implies command_ok(
                    #[trigger] d.entries@[i].1,
                    auths,
                ) by {
                    assert(cmd_ok(ch[i].1, auth_shapes(auths)));
                }
            }
        },
        None => {},
    }
}

proof fn lemma_shape_ok(a: AuthConfig)
    requires
        runtime_shape(a) is Some,
    ensures
        auth_ok(a) == shape_ok(runtime_shape(a)->0),
{
    reveal_strlit("basic");
    reveal_strlit("bearer");
    reveal_strlit("custom");
    assert("basic"@ != "bearer"@ && "basic"@ != "custom"@ && "bearer"@ != "custom"@) by {
        assert("basic"@[1] != "bearer"@[1]);
        assert("basic"@[0] != "custom"@[0]);
        assert("bearer"@[0] != "custom"@[0]);
    }
    match a {
        AuthConfig::Http { scheme, token, username, password, prefix } => {
            if scheme@ == "basic"@ && token is None && prefix is None && username is Some && password is Some {
                assert(lowercase(scheme@) == lowercase("basic"@));
                assert(filled(username) == !is_blank(username->0@));
                assert(filled(password) == !is_blank(password->0@));
                assert(!filled(token));
                assert(!filled(prefix));
            } else {
                assert(lowercase(scheme@) == lowercase("custom"@));
                assert(filled(token) == !is_blank(token->0@));
                assert(filled(prefix) == !is_blank(prefix->0@));
                assert(!filled(username));
                assert(!filled(password));
            }
        },
        _ => {},
    }
}

/// For a definition whose schemes are all run-time settings, the client checks
/// hold exactly when they hold of its values.
pub proof fn lemma_found_ok(a: ApiDefinition)
    requires
        tables_ok(a.auth.entries@, a.env@),
    ensures
        api_ok(a, false) == found_ok(api_found(a)),
{
    let f = api_found(a);
    assert forall|i: int| 0 <= i < a.auth.entries@.len() implies auth_ok(#[trigger] a.auth.entries@[i].1)
        == shape_ok(f.auth[i].1) by {
        lemma_shape_ok(a.auth.entries@[i].1);
    }
    assert forall|i: int| 0 <= i < a.commands.entries@.len() implies command_ok(
        #[trigger] a.commands.entries@[i].1,
        a.auth.entries@,
    ) == cmd_ok(f.commands[i].1, f.auth) by {
        lemma_cmd_ok(a.commands.entries@[i].1, a.auth.entries@);
    }
    let names = env_names(a.env@);
    if env_ok(a.env@) {
        assert forall|i: int, j: int| 0 <= i < j < names.len() implies (#[trigger] names[i]) != (
        #[trigger] names[j]) by {
            assert(a.env@[i].name@ != a.env@[j].name@);
        }
        assert forall|i: int, j: int|
            0 <= i < names.len() && 0 <= j < names[i].len() implies is_ascii_alnum(#[trigger] names[i][j])
            || names[i][j] == '_' by {
            assert(a.env@[i].name@[j] == names[i][j]);
        }
    }
    if env_names_ok(names) {
        assert forall|i: int, j: int| 0 <= i < j < a.env@.len() implies (#[trigger] a.env@[i]).name@ != (
        #[trigger] a.env@[j]).name@ by {
            assert(names[i] != names[j]);
        }
        assert forall|i: int, j: int|
            0 <= i < a.env@.len() && 0 <= j < a.env@[i].name@.len() implies is_ascii_alnum(
            #[trigger] a.env@[i].name@[j],
        ) || a.env@[i].name@[j] == '_' by {
            assert(names[i][j] == a.env@[i].name@[j]);
        }
        assert forall|i: int| 0 <= i < a.env@.len() implies !is_blank((#[trigger] a.env@[i]).name@) by {
            assert(names[i] == a.env@[i].name@);
        }
    }
    if env_ok(a.env@) {
        assert forall|i: int| 0 <= i < names.len() implies !is_blank(#[trigger] names[i]) by {
            assert(names[i] == a.env@[i].name@);
        }
    }
}

} // verus!
