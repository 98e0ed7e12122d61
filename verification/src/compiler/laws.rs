//! What compiling a profile and reading it back preserves.

use vstd::prelude::*;
use crate::error::ErrorModel;
use crate::json::Json;
use crate::models::types::{
    ApiDefinition, ApiKeyLocation, ApiModel, AuthConfig, BodyModel, CommandModel, EnvVar,
    ErrorsModel, HttpMethod, ParamType, Parameter, ResponseModel,
};
use crate::outside::{json_read, json_text};
use crate::proto;
use crate::compiler::conversions::{
    api_auth_results, api_command_results, api_of_message, api_to_message, auth_message,
    auth_of_message, body_message, body_of_message, command_of_message, command_to_message,
    entries_message, entries_of_message, env_message, env_of_message, errors_message,
    errors_of_message, first_error, location_message, location_of_code, method_message,
    method_of_code, param_message, param_of_message, param_results, responses_message,
    responses_of_message, sub_command_results, type_message, type_of_code,
};

verus! {

/// Results that are all values have no first error.
proof fn lemma_all_ok<T>(rs: Seq<Result<T, ErrorModel>>)
    requires
        forall|i: int| 0 <= i < rs.len() ==> (#[trigger] rs[i]) is Ok,
    ensures
        first_error(rs) is None,
    decreases rs.len(),
{
    if rs.len() > 0 {
        assert forall|i: int| 0 <= i < rs.drop_last().len() implies (#[trigger] rs.drop_last()[i]) is Ok by {
            assert(rs.drop_last()[i] == rs[i]);
        }
        lemma_all_ok(rs.drop_last());
        assert(rs.last() == rs[rs.len() - 1]);
    }
}

/// A method's code reads back as the method.
pub proof fn law_method_code_roundtrip(m: HttpMethod)
    ensures
        method_of_code(proto::method_code(method_message(m))) == Ok::<HttpMethod, ErrorModel>(m),
{
}

/// A parameter type's code reads back as the type.
pub proof fn law_type_code_roundtrip(t: ParamType)
    ensures
        type_of_code(proto::type_code(type_message(t))) == Ok::<ParamType, ErrorModel>(t),
{
}

/// An API key location's code reads back as the location.
pub proof fn law_location_code_roundtrip(l: ApiKeyLocation)
    ensures
        location_of_code(proto::location_code(location_message(l))) == Ok::<ApiKeyLocation, ErrorModel>(l),
{
}

/// A compiled auth scheme reads back as the scheme.
pub proof fn law_auth_roundtrip(a: AuthConfig)
    ensures
        auth_of_message(auth_message(a)) == Ok::<AuthConfig, ErrorModel>(a),
{
}

/// A compiled parameter reads back as the parameter.
pub proof fn law_param_roundtrip(p: Parameter)
    ensures
        param_of_message(param_message(p)) == Ok::<Parameter, ErrorModel>(p),
{
}

/// A compiled environment variable reads back as the variable.
pub proof fn law_env_roundtrip(e: EnvVar)
    ensures
        env_of_message(env_message(e)) == e,
{
}

/// Compiled response messages read back as the messages.
pub proof fn law_responses_roundtrip(r: ResponseModel)
    ensures
        responses_of_message(responses_message(r)) == r,
{
    assert(entries_of_message(entries_message(r.codes)) =~= r.codes);
}

/// Compiled API error messages read back as the messages.
pub proof fn law_errors_roundtrip(e: ErrorsModel)
    ensures
        errors_of_message(errors_message(e)) == e,
{
    assert(entries_of_message(entries_message(e.codes)) =~= e.codes);
}

/// A body survives compilation when its JSON text reads back as its JSON
/// value and its form and multipart lists, when present, are not empty.
pub open spec fn body_compiles_back(b: BodyModel) -> bool {
    &&& (b.json matches Some(j) ==> json_read(json_text(j)) == Ok::<Json, Seq<char>>(j))
    &&& (b.form matches Some(f) ==> f.len() > 0)
    &&& (b.multipart matches Some(fs) ==> fs.len() > 0)
}

/// A compiled body reads back as the body, where the body survives compilation.
pub proof fn law_body_roundtrip(b: BodyModel)
    requires
        body_compiles_back(b),
    ensures
        body_of_message(body_message(b)) == Ok::<BodyModel, ErrorModel>(b),
{
    let r = body_of_message(body_message(b));
    assert(r is Ok);
    match b.multipart {
        Some(fs) => {
            assert(r->Ok_0.multipart->0 =~= fs);
        },
        None => {},
    }
}

/// A command survives compilation when its body does and each sub-command
/// table it has is non-empty, all the way down.
pub open spec fn compiles_back(c: CommandModel) -> bool
    decreases c,
{
    &&& (c.body matches Some(b) ==> body_compiles_back(b))
    &&& match c.commands {
        Some(es) => es.len() > 0 && forall|i: int| 0 <= i < es.len() ==> compiles_back(#[trigger] es[i].1),
        None => true,
    }
}

/// A compiled command reads back as the command, sub-commands included,
/// where the command survives compilation.
pub proof fn law_command_roundtrip(c: CommandModel)
    requires
        compiles_back(c),
    ensures
        command_of_message(command_to_message(c)) == Ok::<CommandModel, ErrorModel>(c),
    decreases c,
{
    let m = command_to_message(c);
    let prs = param_results(m.params);
    assert forall|i: int| 0 <= i < prs.len() implies (#[trigger] prs[i]) == Ok::<Parameter, ErrorModel>(c.params[i].1) by {
        law_param_roundtrip(c.params[i].1);
    }
    lemma_all_ok(prs);
    let crs = sub_command_results(m);
    match c.commands {
        Some(es) => {
            assert forall|i: int| 0 <= i < crs.len() implies (#[trigger] crs[i]) == Ok::<CommandModel, ErrorModel>(es[i].1) by {
                assert(decreases_to!(c => c.commands));
                assert(decreases_to!(c.commands => es));
                assert(decreases_to!(es => es[i]));
                assert(decreases_to!(es[i] => es[i].1));
                assert(compiles_back(es[i].1));
                law_command_roundtrip(es[i].1);
            }
        },
        None => {},
    }
    lemma_all_ok(crs);
    match c.body {
        Some(b) => {
            law_body_roundtrip(b);
        },
        None => {},
    }
    match c.responses {
        Some(r) => {
            law_responses_roundtrip(r);
        },
        None => {},
    }
    let r = command_of_message(m);
    assert(r is Ok);
    assert(r->Ok_0.params =~= c.params);
    match c.commands {
        Some(es) => {
            assert(r->Ok_0.commands->0 =~= es);
        },
        None => {},
    }
}

/// Compiling a profile that passes client validation and reading it back
/// gives the profile, where each of its commands survives compilation.
pub proof fn law_api_roundtrip(api: ApiDefinition)
    requires
        crate::models::validation::api_ok(api, false),
        forall|i: int| 0 <= i < api@.commands.len() ==> compiles_back(#[trigger] api@.commands[i].1),
    ensures
        api_of_message(api_to_message(api@)) == Ok::<ApiModel, ErrorModel>(api@),
{
    let a = api@;
    let m = api_to_message(a);
    let crs = api_command_results(m);
    assert forall|i: int| 0 <= i < crs.len() implies (#[trigger] crs[i]) == Ok::<CommandModel, ErrorModel>(a.commands[i].1) by {
        law_command_roundtrip(a.commands[i].1);
    }
    lemma_all_ok(crs);
    let ars = api_auth_results(m);
    assert forall|i: int| 0 <= i < ars.len() implies (#[trigger] ars[i]) == Ok::<AuthConfig, ErrorModel>(a.auth[i].1) by {
        law_auth_roundtrip(a.auth[i].1);
    }
    lemma_all_ok(ars);
    match a.errors {
        Some(e) => {
            law_errors_roundtrip(e);
        },
        None => {},
    }
    let r = api_of_message(m);
    assert(r is Ok);
    assert(r->Ok_0.commands =~= a.commands);
    assert(r->Ok_0.auth =~= a.auth);
    assert(r->Ok_0.env =~= a.env);
}

} // verus!
