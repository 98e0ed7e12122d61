//! Commands: path placeholders, parameter validation, endpoint resolution and
//! sub-command lookup.

use vstd::prelude::*;
use crate::dict::{first_index, has_key, lookup, lemma_first_index, Dict};
use crate::error::{ErrorModel, YcallrError};
use crate::models::validation::first_problem;
use crate::json::{get_key, Json, JsonValue};
use crate::literals::{boolean_literal, float_literal, is_boolean_literal, is_float_literal};
use crate::models::types::{
    command_model, commands_model, lemma_sub_commands_model, Command, CommandModel, HttpMethod,
    ParamType, Parameter,
};
use crate::outside::{json_from_text, json_parse, json_text, json_to_text};
use crate::text::{
    ascii_lower, ascii_lower_str, find_char_from, from_chars_range, has_char, has_char_str,
    index_of, is_blank, is_blank_str, join, join_strings, owned, replace_all, replace_str, str_eq,
    to_chars,
};
use crate::urlencode::{encode_component, percent_encode};
use vstd::slice::slice_subrange;

verus! {

broadcast use vstd::std_specs::vec::group_vec_axioms;

/// YAML value `auth: none`: explicit opt-out from the client's global auth.
pub const COMMAND_AUTH_NONE: &'static str = "none";

/// Whether a command's `auth` value means "no auth" (`none` in any ASCII case).
pub fn command_auth_is_none(auth: &str) -> (r: bool)
    ensures
        r == (ascii_lower(auth@) == "none"@),
{
    let l = ascii_lower_str(auth);
    str_eq(l.as_str(), "none")
}

/// Names between `{` and the next `}` in an endpoint, left to right; scanning
/// stops at a `{` without a closing `}`.
pub open spec fn placeholders(s: Seq<char>) -> Seq<Seq<char>>
    decreases s.len(),
{
    match index_of(s, '{') {
        Some(st) => {
            if 0 <= st < s.len() {
                let after = s.skip(st + 1);
                match index_of(after, '}') {
                    Some(e) => {
                        if 0 <= e < after.len() {
                            seq![after.take(e)] + placeholders(after.skip(e + 1))
                        } else {
                            Seq::empty()
                        }
                    },
                    None => Seq::empty(),
                }
            } else {
                Seq::empty()
            }
        },
        None => Seq::empty(),
    }
}

/// The elements of `s` in order of first occurrence, each once.
pub open spec fn dedup(s: Seq<Seq<char>>) -> Seq<Seq<char>>
    decreases s.len(),
{
    if s.len() == 0 {
        Seq::empty()
    } else {
        let d = dedup(s.drop_last());
        if d.contains(s.last()) {
            d
        } else {
            d.push(s.last())
        }
    }
}

/// The endpoint text of a command (empty when it has none).
pub open spec fn endpoint_text(c: Command) -> Seq<char> {
    match c.endpoint {
        Some(e) => e@,
        None => Seq::empty(),
    }
}

/// Unique path placeholder names of a command, in order of first occurrence.
pub open spec fn path_names(c: Command) -> Seq<Seq<char>> {
    dedup(placeholders(endpoint_text(c)))
}

/// Value of a parameter as the call supplies it: a non-blank call parameter,
/// else the body member of that name turned into text.
pub open spec fn call_value(
    name: Seq<char>,
    params: Seq<(String, String)>,
    body: Option<Json>,
) -> Option<Seq<char>> {
    match lookup(params, name) {
        Some(v) if !is_blank(v@) => Some(v@),
        _ => match body {
            Some(b) => match get_key(b, name) {
                Some(x) => param_text(x),
                None => None,
            },
            None => None,
        },
    }
}

/// Text of a JSON body member used as a parameter value.
pub open spec fn param_text(x: Json) -> Option<Seq<char>> {
    match x {
        Json::Str(s) => if is_blank(s) {
            None
        } else {
            Some(s)
        },
        Json::Number(n) => Some(n),
        Json::Bool(b) => Some(if b { "true"@ } else { "false"@ }),
        Json::Array(_) => Some(json_text(x)),
        Json::Object(_) => Some(json_text(x)),
        Json::Null => None,
    }
}

/// Whether `v` is acceptable for a parameter of type `t`.
pub open spec fn type_ok(t: ParamType, v: Seq<char>) -> bool {
    match t {
        ParamType::String => true,
        ParamType::Number => float_literal(v),
        ParamType::Boolean => boolean_literal(v),
        ParamType::Array => json_parse(v) matches Some(Json::Array(_)),
    }
}

/// The rules a call's parameters must meet: required parameters are given,
/// given values have their declared type, undeclared path placeholders are
/// given non-blank, and every call parameter is declared or a placeholder.
pub open spec fn params_valid(
    c: Command,
    params: Seq<(String, String)>,
    body: Option<Json>,
) -> bool {
    let declared = c.params.entries@;
    let names = path_names(c);
    &&& forall|i: int|
        0 <= i < declared.len() ==> {
            let v = call_value((#[trigger] declared[i]).0@, params, body);
            &&& declared[i].1.required ==> v is Some
            &&& (v is Some && !is_blank(v->0)) ==> type_ok(declared[i].1.param_type, v->0)
        }
    &&& forall|i: int|
        0 <= i < names.len() && !has_key(declared, #[trigger] names[i]) ==> {
            let v = call_value(names[i], params, body);
            v is Some && !is_blank(v->0)
        }
    &&& forall|i: int|
        0 <= i < params.len() ==> has_key(declared, (#[trigger] params[i]).0@) || names.contains(
            params[i].0@,
        )
}

/// The check's result: the problem, if any, as a parameter-validation error.
pub open spec fn param_result(p: Option<Seq<char>>) -> Result<(), ErrorModel> {
    match p {
        Some(m) => Err(ErrorModel::ParamValidation(m)),
        None => Ok(()),
    }
}

/// What is wrong with `value` for a parameter `name` of type `t`, if anything.
pub open spec fn type_problem(name: Seq<char>, t: ParamType, value: Seq<char>) -> Option<Seq<char>> {
    if type_ok(t, value) {
        None
    } else {
        let middle = match t {
            ParamType::Number => "' must be a number, got '"@,
            ParamType::Boolean => "' must be a boolean (true/false), got '"@,
            _ => "' must be a JSON array, got '"@,
        };
        Some("Parameter '"@ + name + middle + value + "'"@)
    }
}

/// What is wrong with the call's value for declared parameter `name`, if anything.
pub open spec fn declared_problem(
    name: Seq<char>,
    p: Parameter,
    params: Seq<(String, String)>,
    body: Option<Json>,
) -> Option<Seq<char>> {
    match call_value(name, params, body) {
        None => if p.required {
            Some("Missing required parameter '"@ + name + "'"@)
        } else {
            None
        },
        Some(v) => if !is_blank(v) {
            type_problem(name, p.param_type, v)
        } else {
            None
        },
    }
}

/// What is wrong with the call's value for path placeholder `n`, if anything.
pub open spec fn path_problem(
    c: Command,
    n: Seq<char>,
    params: Seq<(String, String)>,
    body: Option<Json>,
) -> Option<Seq<char>> {
    let v = call_value(n, params, body);
    if !has_key(c.params.entries@, n) && (v is None || is_blank(v->0)) {
        Some("Missing required path parameter '"@ + n + "'"@)
    } else {
        None
    }
}

/// Call parameter `key` is neither declared nor a path placeholder.
pub open spec fn unknown_problem(c: Command, key: Seq<char>) -> Option<Seq<char>> {
    if !has_key(c.params.entries@, key) && !path_names(c).contains(key) {
        Some("Unknown parameter '"@ + key + "'"@)
    } else {
        None
    }
}

/// The problems of the declared parameters, in table order.
pub open spec fn declared_problems(c: Command, params: Seq<(String, String)>, body: Option<Json>) -> Seq<
    Option<Seq<char>>,
> {
    let d = c.params.entries@;
    Seq::new(d.len(), |i: int| declared_problem(d[i].0@, d[i].1, params, body))
}

/// The problems of the path placeholders, in order.
pub open spec fn path_problems(c: Command, params: Seq<(String, String)>, body: Option<Json>) -> Seq<
    Option<Seq<char>>,
> {
    let names = path_names(c);
    Seq::new(names.len(), |j: int| path_problem(c, names[j], params, body))
}

/// The problems of the call parameters, in order.
pub open spec fn unknown_problems(c: Command, params: Seq<(String, String)>) -> Seq<Option<Seq<char>>> {
    Seq::new(params.len(), |k: int| unknown_problem(c, params[k].0@))
}

/// The first thing wrong with a call's parameters: declared parameters in
/// table order, then path placeholders, then undeclared call parameters.
pub open spec fn params_problem(c: Command, params: Seq<(String, String)>, body: Option<Json>) -> Option<
    Seq<char>,
> {
    match first_problem(declared_problems(c, params, body)) {
        Some(m) => Some(m),
        None => match first_problem(path_problems(c, params, body)) {
            Some(m) => Some(m),
            None => first_problem(unknown_problems(c, params)),
        },
    }
}

/// `endpoint` after replacing `{name}` by the encoded value of each name that
/// has a non-blank call parameter, names taken in order.
pub open spec fn substitute(
    endpoint: Seq<char>,
    names: Seq<Seq<char>>,
    params: Seq<(String, String)>,
) -> Seq<char>
    decreases names.len(),
{
    if names.len() == 0 {
        endpoint
    } else {
        let prev = substitute(endpoint, names.drop_last(), params);
        let k = names.last();
        match lookup(params, k) {
            Some(v) if !is_blank(v@) => replace_all(
                prev,
                seq!['{'] + k + seq!['}'],
                encode_component(v@),
            ),
            _ => prev,
        }
    }
}

/// Names without a non-blank call parameter, in order.
pub open spec fn missing_names(names: Seq<Seq<char>>, params: Seq<(String, String)>) -> Seq<
    Seq<char>,
>
    decreases names.len(),
{
    if names.len() == 0 {
        Seq::empty()
    } else {
        let prev = missing_names(names.drop_last(), params);
        match lookup(params, names.last()) {
            Some(v) if !is_blank(v@) => prev,
            _ => prev.push(names.last()),
        }
    }
}

/// Outcome of `resolve_endpoint`: the resolved path, or the error detail.
pub open spec fn resolved_endpoint(c: Command, params: Seq<(String, String)>) -> Result<
    Seq<char>,
    Seq<char>,
> {
    match c.endpoint {
        None => Err("Command has no endpoint"@),
        Some(e) => {
            let names = path_names(c);
            let missing = missing_names(names, params);
            let s = substitute(e@, names, params);
            if missing.len() > 0 {
                Err("Missing path parameters: "@ + join(missing, ", "@))
            } else if has_char(s, '{') {
                Err("Unresolved parameters in endpoint: "@ + s)
            } else {
                Ok(s)
            }
        },
    }
}

/// Outcome of following `parts` down the sub-commands of `c`.
pub open spec fn descend(c: CommandModel, parts: Seq<Seq<char>>) -> Result<CommandModel, Seq<char>>
    decreases parts.len(),
{
    if parts.len() == 0 {
        Ok(c)
    } else {
        let name = parts[0];
        match c.commands {
            None => Err(name + " has no sub-commands"@),
            Some(es) => match lookup(es, name) {
                None => Err(name),
                Some(sub) => if parts.len() == 1 {
                    Ok(sub)
                } else {
                    descend(sub, parts.drop_first())
                },
            },
        }
    }
}

/// Lookups in two tables with the same keys find the same position.
pub proof fn lemma_first_index_same_keys<A, B>(a: Seq<(String, A)>, b: Seq<(String, B)>, k: Seq<char>)
    requires
        a.len() == b.len(),
        forall|i: int| 0 <= i < a.len() ==> (#[trigger] a[i]).0 == b[i].0,
    ensures
        first_index(a, k) == first_index(b, k),
    decreases a.len(),
{
    if a.len() > 0 {
        assert forall|i: int| 0 <= i < a.drop_first().len() implies (#[trigger] a.drop_first()[i]).0
            == b.drop_first()[i].0 by {
            assert(a.drop_first()[i] == a[i + 1]);
            assert(b.drop_first()[i] == b[i + 1]);
        }
        lemma_first_index_same_keys(a.drop_first(), b.drop_first(), k);
    }
}

impl HttpMethod {
    /// The method's name as sent on the wire.
    pub fn as_str(&self) -> (r: &'static str)
        ensures
            r@ == method_name(*self),
    {
        match self {
            HttpMethod::GET => "GET",
            HttpMethod::POST => "POST",
            HttpMethod::PUT => "PUT",
            HttpMethod::DELETE => "DELETE",
            HttpMethod::PATCH => "PATCH",
        }
    }
}

/// Wire name of a method.
pub open spec fn method_name(m: HttpMethod) -> Seq<char> {
    match m {
        HttpMethod::GET => "GET"@,
        HttpMethod::POST => "POST"@,
        HttpMethod::PUT => "PUT"@,
        HttpMethod::DELETE => "DELETE"@,
        HttpMethod::PATCH => "PATCH"@,
    }
}

/// Text of a body member used as a parameter value.
pub fn json_value_to_param_string(x: &JsonValue) -> (r: Option<String>)
    ensures
        match r {
            Some(s) => param_text(x@) == Some(s@),
            None => param_text(x@) is None,
        },
{
    match x {
        JsonValue::Str(s) => {
            if is_blank_str(s.as_str()) {
                None
            } else {
                Some(s.clone())
            }
        },
        JsonValue::Number(n) => Some(n.clone()),
        JsonValue::Bool(b) => Some(if *b { owned("true") } else { owned("false") }),
        JsonValue::Array(_) => Some(json_to_text(x)),
        JsonValue::Object(_) => Some(json_to_text(x)),
        JsonValue::Null => None,
    }
}

/// Value of parameter `name` in a call: a non-blank call parameter, else the
/// body member of that name.
pub fn param_value_from_call(name: &str, params: &Dict<String>, body: Option<&JsonValue>) -> (r:
    Option<String>)
    ensures
        match r {
            Some(s) => call_value(name@, params.entries@, opt_model(body)) == Some(s@),
            None => call_value(name@, params.entries@, opt_model(body)) is None,
        },
{
    match params.get(name) {
        Some(v) => {
            if !is_blank_str(v.as_str()) {
                return Some(v.clone());
            }
        },
        None => {},
    }
    match body {
        Some(b) => match b.get_key(name) {
            Some(x) => json_value_to_param_string(x),
            None => None,
        },
        None => None,
    }
}

/// Model of an optional body.
pub open spec fn opt_model(body: Option<&JsonValue>) -> Option<Json> {
    match body {
        Some(b) => Some(b@),
        None => None,
    }
}

/// Checks `value` against the declared type of parameter `name`.
pub fn validate_param_type(name: &str, param_type: &ParamType, value: &str) -> (r: Result<(), YcallrError>)
    ensures
        r is Ok <==> type_ok(*param_type, value@),
        crate::error::unit_result(r) == param_result(type_problem(name@, *param_type, value@)),
{
    match param_type {
        ParamType::String => Ok(()),
        ParamType::Number => {
            if is_float_literal(value) {
                Ok(())
            } else {
                Err(YcallrError::ParamValidation(type_message(name, "' must be a number, got '", value)))
            }
        },
        ParamType::Boolean => {
            if is_boolean_literal(value) {
                Ok(())
            } else {
                Err(YcallrError::ParamValidation(type_message(name, "' must be a boolean (true/false), got '", value)))
            }
        },
        ParamType::Array => {
            let parsed = json_from_text(value);
            match parsed {
                Ok(v) => {
                    if v.is_array() {
                        Ok(())
                    } else {
                        Err(YcallrError::ParamValidation(type_message(name, "' must be a JSON array, got '", value)))
                    }
                },
                Err(_) => Err(YcallrError::ParamValidation(type_message(name, "' must be a JSON array, got '", value))),
            }
        },
    }
}

/// `Parameter '<name><middle><value>'`.
fn type_message(name: &str, middle: &str, value: &str) -> (r: String)
    ensures
        r@ == "Parameter '"@ + name@ + middle@ + value@ + "'"@,
{
    let mut m = owned("Parameter '");
    m.append(name);
    m.append(middle);
    m.append(value);
    m.append("'");
    m
}

/// `<prefix><name><suffix>`.
pub fn quoted(prefix: &str, name: &str, suffix: &str) -> (r: String)
    ensures
        r@ == prefix@ + name@ + suffix@,
{
    let mut m = owned(prefix);
    m.append(name);
    m.append(suffix);
    m
}

/// `<first><second>`.
pub fn joined(first: &str, second: &str) -> (r: String)
    ensures
        r@ == first@ + second@,
{
    let mut m = owned(first);
    m.append(second);
    m
}

impl Command {
    /// Placeholder names of the endpoint, left to right, repeats included.
    pub fn endpoint_param_names(&self) -> (r: Vec<String>)
        ensures
            r@.len() == placeholders(endpoint_text(*self)).len(),
            forall|i: int| 0 <= i < r@.len() ==> (#[trigger] r@[i])@ == placeholders(endpoint_text(*self))[i],
    {
        let text = match &self.endpoint {
            Some(e) => to_chars(e.as_str()),
            None => Vec::new(),
        };
        assert(text@ =~= endpoint_text(*self));
        let mut names: Vec<String> = Vec::new();
        let mut pos: usize = 0;
        let ghost mut done: Seq<Seq<char>> = Seq::empty();
        assert(text@.skip(0) =~= text@);
        loop
            invariant
                text@ == endpoint_text(*self),
                text.len() == text@.len(),
                pos <= text@.len(),
                names@.len() == done.len(),
                forall|i: int| 0 <= i < names@.len() ==> (#[trigger] names@[i])@ == done[i],
                done + placeholders(text@.skip(pos as int)) == placeholders(endpoint_text(*self)),
            decreases text@.len() - pos,
        {
            let ghost rest = text@.skip(pos as int);
            match find_char_from(&text, pos, '{') {
                Some(st) => {
                    let ghost after = rest.skip(st - pos + 1);
                    assert(after =~= text@.skip(st + 1));
                    match find_char_from(&text, st + 1, '}') {
                        Some(e) => {
                            let name = from_chars_range(&text, st + 1, e);
                            proof {
                                assert(name@ =~= after.take(e - st - 1));
                                assert(after.skip(e - st - 1 + 1) =~= text@.skip(e + 1));
                                assert(placeholders(rest) == seq![after.take(e - st - 1)] + placeholders(after.skip(e - st)));
                                assert(done.push(name@) + placeholders(text@.skip(e + 1)) =~= done + placeholders(rest));
                                done = done.push(name@);
                            }
                            names.push(name);
                            pos = e + 1;
                        },
                        None => {
                            proof {
                                assert(placeholders(rest) =~= Seq::empty());
                                assert(done =~= placeholders(endpoint_text(*self)));
                            }
                            return names;
                        },
                    }
                },
                None => {
                    proof {
                        assert(placeholders(rest) =~= Seq::empty());
                        assert(done =~= placeholders(endpoint_text(*self)));
                    }
                    return names;
                },
            }
        }
    }

    /// Unique placeholder names, in order of first occurrence.
    pub fn endpoint_path_param_names(&self) -> (r: Vec<String>)
        ensures
            r@.len() == path_names(*self).len(),
            forall|i: int| 0 <= i < r@.len() ==> (#[trigger] r@[i])@ == path_names(*self)[i],
    {
        let all = self.endpoint_param_names();
        let ghost ps = placeholders(endpoint_text(*self));
        let mut unique: Vec<String> = Vec::new();
        let mut i: usize = 0;
        while i < all.len()
            invariant
                i <= all@.len(),
                all@.len() == ps.len(),
                ps == placeholders(endpoint_text(*self)),
                forall|k: int| 0 <= k < all@.len() ==> (#[trigger] all@[k])@ == ps[k],
                unique@.len() == dedup(ps.take(i as int)).len(),
                forall|k: int| 0 <= k < unique@.len() ==> (#[trigger] unique@[k])@ == dedup(ps.take(i as int))[k],
            decreases all@.len() - i,
        {
            let ghost d = dedup(ps.take(i as int));
            assert(ps.take(i + 1).drop_last() =~= ps.take(i as int));
            assert(ps.take(i + 1).last() == ps[i as int]);
            let mut seen = false;
            let mut j: usize = 0;
            while j < unique.len()
                invariant
                    j <= unique@.len(),
                    unique@.len() == d.len(),
                    forall|k: int| 0 <= k < unique@.len() ==> (#[trigger] unique@[k])@ == d[k],
                    seen == (exists|k: int| 0 <= k < j && d[k] == ps[i as int]),
                    i < all@.len(),
                    all@[i as int]@ == ps[i as int],
                decreases unique@.len() - j,
            {
                if str_eq(unique[j].as_str(), all[i].as_str()) {
                    seen = true;
                }
                j = j + 1;
            }
            proof {
                if seen {
                    let k = choose|k: int| 0 <= k < j && d[k] == ps[i as int];
                    assert(d.contains(ps[i as int]));
                } else {
                    assert(!d.contains(ps[i as int])) by {
                        if d.contains(ps[i as int]) {
                            let k = choose|k: int| 0 <= k < d.len() && d[k] == ps[i as int];
                        }
                    }
                }
            }
            if !seen {
                unique.push(all[i].clone());
            }
            i = i + 1;
        }
        assert(ps.take(all@.len() as int) =~= ps);
        unique
    }

    /// Checks a call's parameters against the command's declarations.
    pub fn validate_params(&self, params: &Dict<String>, body: Option<&JsonValue>) -> (r: Result<(), YcallrError>)
        ensures
            r is Ok <==> params_valid(*self, params.entries@, opt_model(body)),
            crate::error::unit_result(r) == param_result(params_problem(*self, params.entries@, opt_model(body))),
    {
        let declared = &self.params.entries;
        let ghost ps = params.entries@;
        let ghost b = opt_model(body);
        let ghost dps = declared_problems(*self, ps, b);
        let mut i: usize = 0;
        assert(dps.skip(0) =~= dps);
        while i < declared.len()
            invariant
                declared == &self.params.entries,
                ps == params.entries@,
                b == opt_model(body),
                i <= declared@.len(),
                dps == declared_problems(*self, ps, b),
                first_problem(dps) == first_problem(dps.skip(i as int)),
                forall|k: int|
                    0 <= k < i ==> {
                        let v = call_value((#[trigger] declared@[k]).0@, ps, b);
                        &&& declared@[k].1.required ==> v is Some
                        &&& (v is Some && !is_blank(v->0)) ==> type_ok(declared@[k].1.param_type, v->0)
                    },
            decreases declared@.len() - i,
        {
            assert(dps.skip(i as int)[0] == dps[i as int]);
            assert(dps.skip(i as int).drop_first() =~= dps.skip(i + 1));
            let name = &declared[i].0;
            let param = &declared[i].1;
            let value = param_value_from_call(name.as_str(), params, body);
            match value {
                None => {
                    if param.required {
                        return Err(YcallrError::ParamValidation(quoted("Missing required parameter '", name.as_str(), "'")));
                    }
                },
                Some(v) => {
                    if !is_blank_str(v.as_str()) {
                        let checked = validate_param_type(name.as_str(), &param.param_type, v.as_str());
                        match checked {
                            Ok(()) => {},
                            Err(e) => {
                                return Err(e);
                            },
                        }
                    }
                },
            }
            i = i + 1;
        }
        assert(dps.skip(i as int).len() == 0);
        let path_params = self.endpoint_path_param_names();
        let ghost names = path_names(*self);
        let ghost pps = path_problems(*self, ps, b);
        let mut j: usize = 0;
        assert(pps.skip(0) =~= pps);
        while j < path_params.len()
            invariant
                ps == params.entries@,
                b == opt_model(body),
                names == path_names(*self),
                first_problem(declared_problems(*self, ps, b)) is None,
                pps == path_problems(*self, ps, b),
                first_problem(pps) == first_problem(pps.skip(j as int)),
                j <= path_params@.len(),
                path_params@.len() == names.len(),
                forall|k: int| 0 <= k < path_params@.len() ==> (#[trigger] path_params@[k])@ == names[k],
                forall|k: int|
                    0 <= k < j && !has_key(self.params.entries@, #[trigger] names[k]) ==> {
                        let v = call_value(names[k], ps, b);
                        v is Some && !is_blank(v->0)
                    },
            decreases path_params@.len() - j,
        {
            assert(pps.skip(j as int)[0] == pps[j as int]);
            assert(pps.skip(j as int).drop_first() =~= pps.skip(j + 1));
            let key = &path_params[j];
            if !self.params.contains_key(key.as_str()) {
                let value = param_value_from_call(key.as_str(), params, body);
                match value {
                    None => {
                        assert(names[j as int] == key@);
                        return Err(YcallrError::ParamValidation(quoted("Missing required path parameter '", key.as_str(), "'")));
                    },
                    Some(v) => {
                        if is_blank_str(v.as_str()) {
                            assert(names[j as int] == key@);
                            return Err(YcallrError::ParamValidation(quoted("Missing required path parameter '", key.as_str(), "'")));
                        }
                    },
                }
            }
            j = j + 1;
        }
        assert(pps.skip(j as int).len() == 0);
        let ghost ups = unknown_problems(*self, ps);
        let mut k: usize = 0;
        assert(ups.skip(0) =~= ups);
        while k < params.entries.len()
            invariant
                k <= ps.len(),
                ps == params.entries@,
                b == opt_model(body),
                names == path_names(*self),
                first_problem(declared_problems(*self, ps, b)) is None,
                first_problem(path_problems(*self, ps, b)) is None,
                ups == unknown_problems(*self, ps),
                first_problem(ups) == first_problem(ups.skip(k as int)),
                path_params@.len() == names.len(),
                forall|m: int| 0 <= m < path_params@.len() ==> (#[trigger] path_params@[m])@ == names[m],
                forall|m: int|
                    0 <= m < k ==> has_key(self.params.entries@, (#[trigger] ps[m]).0@) || names.contains(ps[m].0@),
            decreases ps.len() - k,
        {
            assert(ups.skip(k as int)[0] == ups[k as int]);
            assert(ups.skip(k as int).drop_first() =~= ups.skip(k + 1));
            let key = &params.entries[k].0;
            if !self.params.contains_key(key.as_str()) {
                let mut found = false;
                let mut m: usize = 0;
                while m < path_params.len()
                    invariant
                        m <= path_params@.len(),
                        path_params@.len() == names.len(),
                        forall|q: int| 0 <= q < path_params@.len() ==> (#[trigger] path_params@[q])@ == names[q],
                        found == (exists|q: int| 0 <= q < m && names[q] == key@),
                    decreases path_params@.len() - m,
                {
                    if str_eq(path_params[m].as_str(), key.as_str()) {
                        found = true;
                    }
                    m = m + 1;
                }
                if !found {
                    proof {
                        assert(ps[k as int].0 == *key);
                        assert(!names.contains(key@)) by {
                            if names.contains(key@) {
                                let q = choose|q: int| 0 <= q < names.len() && names[q] == key@;
                            }
                        }
                    }
                    return Err(YcallrError::ParamValidation(quoted("Unknown parameter '", key.as_str(), "'")));
                }
            }
            k = k + 1;
        }
        assert(ups.skip(k as int).len() == 0);
        Ok(())
    }
}

/// Views of a slice of strings.
pub open spec fn str_views(parts: Seq<&str>) -> Seq<Seq<char>> {
    Seq::new(parts.len(), |i: int| parts[i]@)
}

/// Lookup in a command table finds the model of the command found in the exec table.
pub proof fn lemma_lookup_commands(es: Seq<(String, Command)>, k: Seq<char>)
    ensures
        match lookup(es, k) {
            Some(c) => lookup(commands_model(es), k) == Some(command_model(c)),
            None => lookup(commands_model(es), k) is None,
        },
{
    let ms = commands_model(es);
    assert forall|i: int| 0 <= i < es.len() implies (#[trigger] es[i]).0 == ms[i].0 by {}
    lemma_first_index_same_keys(es, ms, k);
    lemma_first_index(es, k);
}

impl Command {
    /// The endpoint with its `{name}` placeholders replaced by the encoded call
    /// parameters of those names.
    pub fn resolve_endpoint(&self, params: &Dict<String>) -> (r: Result<String, YcallrError>)
        ensures
            match r {
                Ok(s) => resolved_endpoint(*self, params.entries@) == Ok::<Seq<char>, Seq<char>>(s@),
                Err(e) => e matches YcallrError::ParamValidation(m) && resolved_endpoint(*self, params.entries@)
                    == Err::<Seq<char>, Seq<char>>(m@),
            },
    {
        let endpoint = match &self.endpoint {
            None => {
                return Err(YcallrError::ParamValidation(owned("Command has no endpoint")));
            },
            Some(e) => e,
        };
        let ghost ps = params.entries@;
        let mut resolved = endpoint.clone();
        let path_params = self.endpoint_path_param_names();
        let ghost names = path_names(*self);
        let mut missing: Vec<String> = Vec::new();
        let mut j: usize = 0;
        assert(names.take(0) =~= Seq::<Seq<char>>::empty());
        while j < path_params.len()
            invariant
                ps == params.entries@,
                names == path_names(*self),
                j <= path_params@.len(),
                path_params@.len() == names.len(),
                forall|k: int| 0 <= k < path_params@.len() ==> (#[trigger] path_params@[k])@ == names[k],
                resolved@ == substitute(endpoint@, names.take(j as int), ps),
                missing@.len() == missing_names(names.take(j as int), ps).len(),
                forall|k: int| 0 <= k < missing@.len() ==> (#[trigger] missing@[k])@ == missing_names(names.take(j as int), ps)[k],
            decreases path_params@.len() - j,
        {
            let key = &path_params[j];
            assert(names.take(j + 1).drop_last() =~= names.take(j as int));
            assert(names.take(j + 1).last() == key@);
            match params.get(key.as_str()) {
                Some(v) => {
                    if !is_blank_str(v.as_str()) {
                        let encoded = percent_encode(v.as_str());
                        let pattern = quoted("{", key.as_str(), "}");
                        proof {
                            reveal_strlit("{");
                            reveal_strlit("}");
                            assert(pattern@ =~= seq!['{'] + key@ + seq!['}']);
                        }
                        resolved = replace_str(resolved.as_str(), pattern.as_str(), encoded.as_str());
                    } else {
                        missing.push(key.clone());
                    }
                },
                None => {
                    missing.push(key.clone());
                },
            }
            j = j + 1;
        }
        assert(names.take(path_params@.len() as int) =~= names);
        if missing.len() > 0 {
            let listed = join_strings(&missing, ", ");
            assert(Seq::new(missing@.len(), |i: int| missing@[i]@) =~= missing_names(names, ps));
            proof {
                reveal_strlit("");
                assert(listed@ + ""@ =~= listed@);
            }
            return Err(YcallrError::ParamValidation(quoted("Missing path parameters: ", listed.as_str(), "")));
        }
        proof {
            assert(missing_names(names, ps).len() == 0);
        }
        if has_char_str(resolved.as_str(), '{') {
            proof {
                reveal_strlit("");
                assert(resolved@ + ""@ =~= resolved@);
            }
            return Err(YcallrError::ParamValidation(quoted("Unresolved parameters in endpoint: ", resolved.as_str(), "")));
        }
        Ok(resolved)
    }

    /// Follows `parts` down the sub-commands: `parts[0]` among this command's
    /// sub-commands, the rest below it.
    pub fn get_command_recursive(&self, parts: &[&str]) -> (r: Result<&Command, YcallrError>)
        requires
            parts@.len() >= 1,
        ensures
            match r {
                Ok(c) => descend(self@, str_views(parts@)) == Ok::<CommandModel, Seq<char>>(c@),
                Err(e) => e matches YcallrError::CommandNotFound(m) && descend(self@, str_views(parts@))
                    == Err::<CommandModel, Seq<char>>(m@),
            },
        decreases parts@.len(),
    {
        let name = parts[0];
        let ghost pv = str_views(parts@);
        assert(pv[0] == name@);
        let commands = match &self.commands {
            None => {
                proof {
                    reveal_strlit("");
                    assert(""@ + name@ =~= name@);
                }
                return Err(YcallrError::CommandNotFound(quoted("", name, " has no sub-commands")));
            },
            Some(c) => c,
        };
        proof {
            lemma_sub_commands_model(*self);
            lemma_lookup_commands(commands.entries@, name@);
        }
        let cmd = match commands.get(name) {
            None => {
                return Err(YcallrError::CommandNotFound(owned(name)));
            },
            Some(c) => c,
        };
        if parts.len() == 1 {
            Ok(cmd)
        } else {
            let rest = slice_subrange(parts, 1, parts.len());
            assert(str_views(rest@) =~= pv.drop_first());
            cmd.get_command_recursive(rest)
        }
    }

    /// Callable: has both an endpoint and a method.
    pub fn is_leaf(&self) -> (b: bool)
        ensures
            b == (self.endpoint is Some && self.method is Some),
    {
        self.endpoint.is_some() && self.method.is_some()
    }

    /// Has at least one sub-command.
    pub fn is_branch(&self) -> (b: bool)
        ensures
            b == (self.commands is Some && self.commands->0.entries@.len() > 0),
    {
        match &self.commands {
            Some(c) => c.len() > 0,
            None => false,
        }
    }
}

} // verus!
