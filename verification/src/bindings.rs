//! Helpers for foreign-language callers: the parameters a call still lacks, and
//! the JSON body implied by the parameters of a body-less write command.

use vstd::prelude::*;
use crate::dict::{has_key, Dict};
use crate::json::{Json, JsonValue};
use crate::models::api::find_command;
use crate::models::command::{dedup, path_names, placeholders};
use crate::models::types::{ApiDefinition, Command, CommandModel, HttpMethod};
use crate::outside::{json_text, json_to_text};
use crate::text::str_eq;

verus! {

broadcast use vstd::std_specs::vec::group_vec_axioms;

/// Required declared parameters the call does not give, in table order.
pub open spec fn missing_required(ps: Seq<(String, crate::models::types::Parameter)>, given: Seq<(String, String)>) -> Seq<
    Seq<char>,
>
    decreases ps.len(),
{
    if ps.len() == 0 {
        Seq::empty()
    } else {
        let m = missing_required(ps.drop_last(), given);
        if ps.last().1.required && !has_key(given, ps.last().0@) {
            m.push(ps.last().0@)
        } else {
            m
        }
    }
}

/// `acc` followed by the path placeholders of `names` that are neither declared
/// nor given, each once.
pub open spec fn missing_path(
    names: Seq<Seq<char>>,
    ps: Seq<(String, crate::models::types::Parameter)>,
    given: Seq<(String, String)>,
    acc: Seq<Seq<char>>,
) -> Seq<Seq<char>>
    decreases names.len(),
{
    if names.len() == 0 {
        acc
    } else {
        let m = missing_path(names.drop_last(), ps, given, acc);
        let n = names.last();
        if !has_key(ps, n) && !has_key(given, n) && !m.contains(n) {
            m.push(n)
        } else {
            m
        }
    }
}

/// Unique path placeholder names of a command model's endpoint, in order of
/// first occurrence.
pub open spec fn model_path_names(c: CommandModel) -> Seq<Seq<char>> {
    dedup(
        placeholders(
            match c.endpoint {
                Some(e) => e@,
                None => Seq::empty(),
            },
        ),
    )
}

/// The parameters a call of `c` with `given` still lacks: required declared
/// ones first, then undeclared path placeholders.
pub open spec fn missing_params(c: CommandModel, given: Seq<(String, String)>) -> Seq<Seq<char>> {
    missing_path(model_path_names(c), c.params, given, missing_required(c.params, given))
}

/// The texts of a list.
pub open spec fn texts(v: Seq<String>) -> Seq<Seq<char>> {
    Seq::new(v.len(), |i: int| v[i]@)
}

/// Whether `v` holds `s`.
fn holds(v: &Vec<String>, s: &str) -> (r: bool)
    ensures
        r == texts(v@).contains(s@),
{
    let mut i: usize = 0;
    while i < v.len()
        invariant
            i <= v@.len(),
            forall|k: int| 0 <= k < i ==> texts(v@)[k] != s@,
        decreases v@.len() - i,
    {
        if str_eq(v[i].as_str(), s) {
            assert(texts(v@)[i as int] == s@);
            return true;
        }
        i = i + 1;
    }
    false
}

/// The parameters a call of `cmd` with `params` still lacks: required declared
/// parameters that are not given, then path placeholders that are neither
/// declared nor given (each once).
pub fn missing_required_params(cmd: &Command, params: &Dict<String>) -> (r: Vec<String>)
    ensures
        texts(r@) == missing_params(cmd@, params.entries@),
{
    assert(model_path_names(cmd@) == path_names(*cmd));
    let ghost ps = cmd.params.entries@;
    let mut missing: Vec<String> = Vec::new();
    let mut i: usize = 0;
    assert(ps.take(0) =~= Seq::<(String, crate::models::types::Parameter)>::empty());
    assert(texts(missing@) =~= Seq::<Seq<char>>::empty());
    while i < cmd.params.entries.len()
        invariant
            ps == cmd.params.entries@,
            i <= ps.len(),
            texts(missing@) == missing_required(ps.take(i as int), params.entries@),
        decreases ps.len() - i,
    {
        assert(ps.take(i + 1).drop_last() =~= ps.take(i as int));
        assert(ps.take(i + 1).last() == ps[i as int]);
        let name = &cmd.params.entries[i].0;
        if cmd.params.entries[i].1.required && !params.contains_key(name.as_str()) {
            let ghost m0 = missing@;
            missing.push(name.clone());
            assert(texts(missing@) =~= texts(m0).push(name@));
        }
        i = i + 1;
    }
    assert(ps.take(ps.len() as int) =~= ps);
    let names = cmd.endpoint_path_param_names();
    let ghost ns = path_names(*cmd);
    let ghost acc = texts(missing@);
    let mut j: usize = 0;
    assert(ns.take(0) =~= Seq::<Seq<char>>::empty());
    while j < names.len()
        invariant
            ns == path_names(*cmd),
            names@.len() == ns.len(),
            forall|k: int| 0 <= k < ns.len() ==> (#[trigger] names@[k])@ == ns[k],
            acc == missing_required(cmd.params.entries@, params.entries@),
            j <= ns.len(),
            texts(missing@) == missing_path(ns.take(j as int), cmd.params.entries@, params.entries@, acc),
        decreases ns.len() - j,
    {
        assert(ns.take(j + 1).drop_last() =~= ns.take(j as int));
        assert(ns.take(j + 1).last() == ns[j as int]);
        let n = names[j].as_str();
        if !cmd.params.contains_key(n) && !params.contains_key(n) && !holds(&missing, n) {
            let ghost m0 = missing@;
            missing.push(names[j].clone());
            assert(texts(missing@) =~= texts(m0).push(n@));
        }
        j = j + 1;
    }
    assert(ns.take(ns.len() as int) =~= ns);
    missing
}

/// The call parameters that are not path placeholders, as string members.
pub open spec fn implicit_members(given: Seq<(String, String)>, path: Seq<Seq<char>>) -> Seq<(Seq<char>, Json)>
    decreases given.len(),
{
    if given.len() == 0 {
        Seq::empty()
    } else {
        let m = implicit_members(given.drop_last(), path);
        if path.contains(given.last().0@) {
            m
        } else {
            m.push((given.last().0@, Json::Str(given.last().1@)))
        }
    }
}

/// The JSON body a write command (POST, PUT, PATCH) without a configured body
/// sends: an object of the call parameters that are not path placeholders.
pub open spec fn implicit_body(c: CommandModel, given: Seq<(String, String)>) -> Option<Json> {
    if c.body is Some {
        None
    } else {
        match c.method {
            Some(HttpMethod::POST) | Some(HttpMethod::PUT) | Some(HttpMethod::PATCH) => {
                let ms = implicit_members(given, model_path_names(c));
                if ms.len() == 0 {
                    None
                } else {
                    Some(Json::Object(ms))
                }
            },
            _ => None,
        }
    }
}

/// The JSON body implied for a body-less write command: the call parameters
/// that are not path placeholders, as strings; nothing for other commands or
/// when no such parameter is given.
pub fn build_implicit_body(cmd: &Command, params: &Dict<String>) -> (r: Option<JsonValue>)
    ensures
        match r {
            Some(v) => implicit_body(cmd@, params.entries@) == Some(v@),
            None => implicit_body(cmd@, params.entries@) is None,
        },
{
    assert(model_path_names(cmd@) == path_names(*cmd));
    if cmd.body.is_some() {
        return None;
    }
    let writes = match cmd.method {
        Some(HttpMethod::POST) | Some(HttpMethod::PUT) | Some(HttpMethod::PATCH) => true,
        _ => false,
    };
    if !writes {
        return None;
    }
    let path_params = cmd.endpoint_path_param_names();
    assert(texts(path_params@) =~= path_names(*cmd));
    let ghost given = params.entries@;
    let mut members: Vec<(String, JsonValue)> = Vec::new();
    let mut i: usize = 0;
    assert(given.take(0) =~= Seq::<(String, String)>::empty());
    while i < params.entries.len()
        invariant
            given == params.entries@,
            texts(path_params@) == path_names(*cmd),
            i <= given.len(),
            Seq::new(members@.len(), |k: int| (members@[k].0@, members@[k].1@)) == implicit_members(
                given.take(i as int),
                path_names(*cmd),
            ),
        decreases given.len() - i,
    {
        assert(given.take(i + 1).drop_last() =~= given.take(i as int));
        assert(given.take(i + 1).last() == given[i as int]);
        let key = &params.entries[i].0;
        if !holds(&path_params, key.as_str()) {
            let ghost m0 = members@;
            let v = JsonValue::Str(params.entries[i].1.clone());
            members.push((key.clone(), v));
            assert(Seq::new(members@.len(), |k: int| (members@[k].0@, members@[k].1@)) =~= Seq::new(
                m0.len(),
                |k: int| (m0[k].0@, m0[k].1@),
            ).push((key@, Json::Str(given[i as int].1@))));
        }
        i = i + 1;
    }
    assert(given.take(given.len() as int) =~= given);
    if members.len() == 0 {
        return None;
    }
    let r = JsonValue::Object(members);
    assert(r@->Object_0 =~= Seq::new(members@.len(), |k: int| (members@[k].0@, members@[k].1@)));
    Some(r)
}

/// The missing parameters of the command at `command_path`, as a JSON array
/// text; the lookup error's text when there is no such command.
pub fn compute_missing_params_json(api: &ApiDefinition, command_path: &str, params: &Dict<String>) -> (r: Result<
    String,
    String,
>)
    ensures
        match r {
            Ok(t) => find_command(api@, command_path@) is Ok && t@ == json_text(
                Json::Array(
                    Seq::new(
                        missing_params(find_command(api@, command_path@)->Ok_0, params.entries@).len(),
                        |i: int| Json::Str(missing_params(find_command(api@, command_path@)->Ok_0, params.entries@)[i]),
                    ),
                ),
            ),
            Err(m) => find_command(api@, command_path@) is Err && m@ == "Command not found: "@
                + find_command(api@, command_path@)->Err_0,
        },
{
    let cmd = match api.get_command(command_path) {
        Ok(c) => c,
        Err(e) => {
            return Err(e.message());
        },
    };
    let missing = missing_required_params(cmd, params);
    let mut items: Vec<JsonValue> = Vec::new();
    let mut i: usize = 0;
    while i < missing.len()
        invariant
            i <= missing@.len(),
            items@.len() == i,
            forall|k: int| 0 <= k < i ==> (#[trigger] items@[k])@ == Json::Str(missing@[k]@),
        decreases missing@.len() - i,
    {
        items.push(JsonValue::Str(missing[i].clone()));
        i = i + 1;
    }
    let arr = JsonValue::Array(items);
    proof {
        let ms = missing_params(cmd@, params.entries@);
        assert(arr@->Array_0 =~= Seq::new(ms.len(), |i: int| Json::Str(ms[i])));
    }
    Ok(json_to_text(&arr))
}

/// The implied JSON body of the command at `command_path` as JSON text, if
/// there is such a command and it implies one.
pub fn compute_implicit_body_json(api: &ApiDefinition, command_path: &str, params: &Dict<String>) -> (r: Option<
    String,
>)
    ensures
        match r {
            Some(t) => find_command(api@, command_path@) is Ok && implicit_body(
                find_command(api@, command_path@)->Ok_0,
                params.entries@,
            ) is Some && t@ == json_text(implicit_body(find_command(api@, command_path@)->Ok_0, params.entries@)->0),
            None => find_command(api@, command_path@) is Err || implicit_body(
                find_command(api@, command_path@)->Ok_0,
                params.entries@,
            ) is None,
        },
{
    let cmd = match api.get_command(command_path) {
        Ok(c) => c,
        Err(_) => {
            return None;
        },
    };
    match build_implicit_body(cmd, params) {
        Some(b) => Some(json_to_text(&b)),
        None => None,
    }
}

} // verus!
