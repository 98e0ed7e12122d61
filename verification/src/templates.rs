//! Template resolution: `${VAR}` environment references, `{param}` call
//! parameters, and `{status}` / `{input.x}` / `{output.x}` response messages.

use vstd::prelude::*;
use crate::dict::{insert_pair, lookup, pair_views, put, Dict};
use crate::error::{text_result, ErrorModel, YcallrError};
use crate::json::{get_index, get_key, Json, JsonValue};
use crate::models::command::quoted;
use crate::models::types::{BodyConfig, MultipartField};
use crate::outside::{json_text, json_to_text};
use crate::text::{
    decimal, find_char_from, from_chars_range, index_of, lemma_index_of, owned, parse_unsigned,
    parse_unsigned_exec, replace_all, replace_str, split_char, split_on, to_chars, u16_decimal,
};

verus! {

broadcast use vstd::std_specs::vec::group_vec_axioms;

// ---------------------------------------------------------------- ${VAR}

/// Names referenced as `${NAME}` (non-empty, no `}` inside), left to right,
/// as the pattern `\$\{([^}]+)\}` finds them.
pub open spec fn env_refs(s: Seq<char>) -> Seq<Seq<char>>
    decreases s.len(),
{
    if s.len() < 2 {
        Seq::empty()
    } else if s[0] == '$' && s[1] == '{' && (index_of(s.skip(2), '}') matches Some(e) && e > 0) {
        let r = s.skip(2);
        let e = index_of(r, '}')->0;
        if 0 < e < r.len() {
            seq![r.take(e)] + env_refs(r.skip(e + 1))
        } else {
            Seq::empty()
        }
    } else {
        env_refs(s.drop_first())
    }
}

/// `text` with each referenced variable replaced in turn by its value; the
/// first reference without a value is the error.
pub open spec fn env_resolved(text: Seq<char>, refs: Seq<Seq<char>>, env: Seq<(String, String)>) -> Result<
    Seq<char>,
    Seq<char>,
>
    decreases refs.len(),
{
    if refs.len() == 0 {
        Ok(text)
    } else {
        match env_resolved(text, refs.drop_last(), env) {
            Err(n) => Err(n),
            Ok(prev) => match lookup(env, refs.last()) {
                None => Err(refs.last()),
                Some(v) => Ok(replace_all(prev, "${"@ + refs.last() + "}"@, v@)),
            },
        }
    }
}

/// Once a prefix of the references fails, the whole resolution fails.
proof fn lemma_env_err_extends(text: Seq<char>, rs: Seq<Seq<char>>, env: Seq<(String, String)>, k: int)
    requires
        0 <= k <= rs.len(),
        env_resolved(text, rs.take(k), env) is Err,
    ensures
        env_resolved(text, rs, env) == env_resolved(text, rs.take(k), env),
    decreases rs.len() - k,
{
    if k < rs.len() {
        assert(rs.take(k + 1).drop_last() =~= rs.take(k));
        lemma_env_err_extends(text, rs, env, k + 1);
    } else {
        assert(rs.take(k) =~= rs);
    }
}

/// Outcome of resolving the `${NAME}` references of `text` against `env`.
pub open spec fn env_resolve(text: Seq<char>, env: Seq<(String, String)>) -> Result<Seq<char>, ErrorModel> {
    match env_resolved(text, env_refs(text), env) {
        Ok(s) => Ok(s),
        Err(n) => Err(ErrorModel::EnvVar("Unknown environment variable '"@ + n + "' in template"@)),
    }
}

/// The `${NAME}` references of `s`.
pub fn env_ref_names(s: &str) -> (r: Vec<String>)
    ensures
        r@.len() == env_refs(s@).len(),
        forall|i: int| 0 <= i < r@.len() ==> (#[trigger] r@[i])@ == env_refs(s@)[i],
{
    let v = to_chars(s);
    let mut out: Vec<String> = Vec::new();
    let mut pos: usize = 0;
    let ghost mut done: Seq<Seq<char>> = Seq::empty();
    assert(v@.skip(0) =~= v@);
    while pos < v.len()
        invariant
            v@ == s@,
            v.len() == v@.len(),
            pos <= v@.len(),
            out@.len() == done.len(),
            forall|i: int| 0 <= i < out@.len() ==> (#[trigger] out@[i])@ == done[i],
            done + env_refs(v@.skip(pos as int)) == env_refs(s@),
        decreases v@.len() - pos,
    {
        let ghost rest = v@.skip(pos as int);
        if pos + 1 < v.len() && v[pos] == '$' && v[pos + 1] == '{' {
            assert(rest[0] == '$' && rest[1] == '{');
            assert(rest.skip(2) =~= v@.skip(pos + 2));
            match find_char_from(&v, pos + 2, '}') {
                Some(e) => {
                    if e > pos + 2 {
                        let name = from_chars_range(&v, pos + 2, e);
                        proof {
                            let r = rest.skip(2);
                            lemma_index_of(r, '}');
                            assert(name@ =~= r.take(e - pos - 2));
                            assert(r.skip(e - pos - 2 + 1) =~= v@.skip(e + 1));
                            assert(done.push(name@) + env_refs(v@.skip(e + 1)) =~= done + env_refs(rest));
                            done = done.push(name@);
                        }
                        out.push(name);
                        pos = e + 1;
                    } else {
                        proof {
                            assert(rest.drop_first() =~= v@.skip(pos + 1));
                        }
                        pos = pos + 1;
                    }
                },
                None => {
                    proof {
                        assert(env_refs(rest) == env_refs(rest.drop_first()));
                        assert(rest.drop_first() =~= v@.skip(pos + 1));
                    }
                    pos = pos + 1;
                },
            }
        } else {
            proof {
                if rest.len() >= 2 {
                    assert(rest[0] == v@[pos as int]);
                    assert(rest[1] == v@[pos + 1]);
                }
                assert(rest.drop_first() =~= v@.skip(pos + 1));
            }
            pos = pos + 1;
        }
    }
    assert(v@.skip(pos as int).len() == 0);
    assert(done =~= env_refs(s@));
    out
}

/// Replaces each `${NAME}` with the value of `NAME`; an unknown name is an error.
pub fn resolve_env_vars(text: &str, env_vars: &Dict<String>) -> (r: Result<String, YcallrError>)
    ensures
        text_result(r) == env_resolve(text@, env_vars.entries@),
{
    let refs = env_ref_names(text);
    let ghost rs = env_refs(text@);
    let mut result = owned(text);
    let mut i: usize = 0;
    while i < refs.len()
        invariant
            i <= refs@.len(),
            refs@.len() == rs.len(),
            rs == env_refs(text@),
            forall|k: int| 0 <= k < refs@.len() ==> (#[trigger] refs@[k])@ == rs[k],
            env_resolved(text@, rs.take(i as int), env_vars.entries@) == Ok::<Seq<char>, Seq<char>>(result@),
        decreases refs@.len() - i,
    {
        let name = &refs[i];
        assert(rs.take(i + 1).drop_last() =~= rs.take(i as int));
        assert(rs.take(i + 1).last() == name@);
        match env_vars.get(name.as_str()) {
            None => {
                proof {
                    assert(env_resolved(text@, rs.take(i + 1), env_vars.entries@) == Err::<Seq<char>, Seq<char>>(name@));
                    lemma_env_err_extends(text@, rs, env_vars.entries@, i as int + 1);
                }
                return Err(YcallrError::EnvVar(quoted("Unknown environment variable '", name.as_str(), "' in template")));
            },
            Some(value) => {
                let pattern = quoted("${", name.as_str(), "}");
                result = replace_str(result.as_str(), pattern.as_str(), value.as_str());
            },
        }
        i = i + 1;
    }
    assert(rs.take(refs@.len() as int) =~= rs);
    Ok(result)
}

// ---------------------------------------------------------------- {param}

/// `text` after replacing `{key}` by the value of each entry in turn.
pub open spec fn params_applied(text: Seq<char>, entries: Seq<(String, String)>) -> Seq<char>
    decreases entries.len(),
{
    if entries.len() == 0 {
        text
    } else {
        let prev = params_applied(text, entries.drop_last());
        replace_all(prev, "{"@ + entries.last().0@ + "}"@, entries.last().1@)
    }
}

/// Replaces each `{key}` of `text` by the call parameter `key`.
pub fn resolve_string_templates(text: &str, params: &Dict<String>) -> (r: String)
    ensures
        r@ == params_applied(text@, params.entries@),
{
    let mut resolved = owned(text);
    let mut i: usize = 0;
    let ghost es = params.entries@;
    while i < params.entries.len()
        invariant
            es == params.entries@,
            i <= es.len(),
            resolved@ == params_applied(text@, es.take(i as int)),
        decreases es.len() - i,
    {
        assert(es.take(i + 1).drop_last() =~= es.take(i as int));
        let pattern = quoted("{", params.entries[i].0.as_str(), "}");
        resolved = replace_str(resolved.as_str(), pattern.as_str(), params.entries[i].1.as_str());
        i = i + 1;
    }
    assert(es.take(es.len() as int) =~= es);
    resolved
}

/// A JSON model with `{key}` parameters applied to every string in it.
pub open spec fn json_applied(j: Json, entries: Seq<(String, String)>) -> Json
    decreases j,
{
    match j {
        Json::Str(s) => Json::Str(params_applied(s, entries)),
        Json::Array(items) => Json::Array(
            Seq::new(
                items.len(),
                |i: int|
                    if 0 <= i < items.len() {
                        json_applied(items[i], entries)
                    } else {
                        Json::Null
                    },
            ),
        ),
        Json::Object(ms) => Json::Object(
            Seq::new(
                ms.len(),
                |i: int|
                    if 0 <= i < ms.len() {
                        (ms[i].0, json_applied(ms[i].1, entries))
                    } else {
                        (Seq::empty(), Json::Null)
                    },
            ),
        ),
        other => other,
    }
}

/// Applies `{key}` call parameters to every string of a JSON body.
pub fn resolve_json_templates(value: &JsonValue, params: &Dict<String>) -> (r: Result<JsonValue, YcallrError>)
    ensures
        r matches Ok(v) && v@ == json_applied(value@, params.entries@),
    decreases value,
{
    match value {
        JsonValue::Str(s) => Ok(JsonValue::Str(resolve_string_templates(s.as_str(), params))),
        JsonValue::Array(items) => {
            let mut out: Vec<JsonValue> = Vec::new();
            let mut i: usize = 0;
            while i < items.len()
                invariant
                    *value == JsonValue::Array(*items),
                    i <= items@.len(),
                    out@.len() == i,
                    forall|k: int| 0 <= k < i ==> (#[trigger] out@[k])@ == json_applied(items@[k]@, params.entries@),
                decreases items@.len() - i,
            {
                assert(decreases_to!(*value => (*value)->Array_0));
                assert(decreases_to!(*items => items@[i as int]));
                let item = resolve_json_templates(&items[i], params)?;
                out.push(item);
                i = i + 1;
            }
            let r = JsonValue::Array(out);
            assert(r@->Array_0 =~= json_applied(value@, params.entries@)->Array_0);
            Ok(r)
        },
        JsonValue::Object(members) => {
            let mut out: Vec<(String, JsonValue)> = Vec::new();
            let mut i: usize = 0;
            while i < members.len()
                invariant
                    *value == JsonValue::Object(*members),
                    i <= members@.len(),
                    out@.len() == i,
                    forall|k: int|
                        0 <= k < i ==> (#[trigger] out@[k]).0 == members@[k].0 && out@[k].1@ == json_applied(
                            members@[k].1@,
                            params.entries@,
                        ),
                decreases members@.len() - i,
            {
                assert(decreases_to!(*value => (*value)->Object_0));
                assert(decreases_to!(*members => members@[i as int]));
                assert(decreases_to!(members@[i as int] => members@[i as int].1));
                let v = resolve_json_templates(&members[i].1, params)?;
                out.push((members[i].0.clone(), v));
                i = i + 1;
            }
            let r = JsonValue::Object(out);
            assert(r@->Object_0 =~= json_applied(value@, params.entries@)->Object_0);
            Ok(r)
        },
        JsonValue::Null => Ok(JsonValue::Null),
        JsonValue::Bool(b) => Ok(JsonValue::Bool(*b)),
        JsonValue::Number(n) => Ok(JsonValue::Number(n.clone())),
    }
}

/// Form entries with `{key}` parameters applied to keys and values, inserted
/// in order into a table (a later equal key replaces the earlier value).
pub open spec fn form_applied(form: Seq<(String, String)>, entries: Seq<(String, String)>) -> Seq<(Seq<char>, Seq<char>)>
    decreases form.len(),
{
    if form.len() == 0 {
        Seq::empty()
    } else {
        let prev = form_applied(form.drop_last(), entries);
        let k = params_applied(form.last().0@, entries);
        let v = params_applied(form.last().1@, entries);
        insert_pair(prev, k, v)
    }
}

/// The body with `{key}` parameters applied: JSON strings, form keys and
/// values, multipart names and texts, and raw text; file paths stay as they are.
pub fn resolve_body(body_config: &BodyConfig, params: &Dict<String>) -> (r: Result<BodyConfig, YcallrError>)
    ensures
        r matches Ok(b) && {
            &&& b@.json == match body_config@.json {
                Some(j) => Some(json_applied(j, params.entries@)),
                None => None,
            }
            &&& b@.form.is_some() == body_config@.form.is_some()
            &&& (body_config@.form matches Some(f) ==> pair_views(b@.form->0) == form_applied(f, params.entries@))
            &&& b@.raw.is_some() == body_config@.raw.is_some()
            &&& (body_config@.raw matches Some(x) ==> b@.raw->0@ == params_applied(x@, params.entries@))
            &&& b@.multipart.is_some() == body_config@.multipart.is_some()
            &&& (body_config@.multipart matches Some(fs) ==> {
                let out = b@.multipart->0;
                &&& out.len() == fs.len()
                &&& forall|i: int| 0 <= i < fs.len() ==> {
                    &&& (#[trigger] out[i]).name@ == params_applied(fs[i].name@, params.entries@)
                    &&& out[i].file == fs[i].file
                    &&& out[i].text.is_some() == fs[i].text.is_some()
                    &&& (fs[i].text matches Some(t) ==> out[i].text->0@ == params_applied(t@, params.entries@))
                }
            })
        },
{
    let json = match &body_config.json {
        Some(v) => Some(resolve_json_templates(v, params)?),
        None => None,
    };
    let form = match &body_config.form {
        Some(m) => {
            let mut out: Dict<String> = Dict::new();
            let mut i: usize = 0;
            while i < m.entries.len()
                invariant
                    body_config.form == Some(*m),
                    i <= m.entries@.len(),
                    pair_views(out.entries@) == form_applied(m.entries@.take(i as int), params.entries@),
                decreases m.entries@.len() - i,
            {
                assert(m.entries@.take(i + 1).drop_last() =~= m.entries@.take(i as int));
                let k = resolve_string_templates(m.entries[i].0.as_str(), params);
                let v = resolve_string_templates(m.entries[i].1.as_str(), params);
                put(&mut out, k, v);
                i = i + 1;
            }
            assert(m.entries@.take(m.entries@.len() as int) =~= m.entries@);
            Some(out)
        },
        None => None,
    };
    let multipart = match &body_config.multipart {
        Some(fields) => {
            let mut out: Vec<MultipartField> = Vec::new();
            let mut i: usize = 0;
            while i < fields.len()
                invariant
                    body_config.multipart == Some(*fields),
                    i <= fields@.len(),
                    out@.len() == i,
                    forall|k: int| 0 <= k < i ==> {
                        &&& (#[trigger] out@[k]).name@ == params_applied(fields@[k].name@, params.entries@)
                        &&& out@[k].file == fields@[k].file
                        &&& out@[k].text.is_some() == fields@[k].text.is_some()
                        &&& (fields@[k].text matches Some(t) ==> out@[k].text->0@ == params_applied(t@, params.entries@))
                    },
                decreases fields@.len() - i,
            {
                let f = &fields[i];
                let text = match &f.text {
                    Some(t) => Some(resolve_string_templates(t.as_str(), params)),
                    None => None,
                };
                out.push(MultipartField {
                    name: resolve_string_templates(f.name.as_str(), params),
                    text,
                    file: f.file.clone(),
                });
                i = i + 1;
            }
            Some(out)
        },
        None => None,
    };
    let raw = match &body_config.raw {
        Some(r) => Some(resolve_string_templates(r.as_str(), params)),
        None => None,
    };
    Ok(BodyConfig { json, form, multipart, raw })
}

// ---------------------------------------------------------------- response messages

/// The value at a dotted path: each piece an index (when it parses as
/// `usize`) or a member name; an empty piece finds nothing.
pub open spec fn json_at(v: Json, pieces: Seq<Seq<char>>) -> Option<Json>
    decreases pieces.len(),
{
    if pieces.len() == 0 {
        Some(v)
    } else {
        let prev = json_at(v, pieces.drop_last());
        let seg = pieces.last();
        match prev {
            None => None,
            Some(cur) => if seg.len() == 0 {
                None
            } else {
                match parse_unsigned(seg, usize::MAX as nat) {
                    Some(i) => get_index(cur, i as int),
                    None => get_key(cur, seg),
                }
            },
        }
    }
}

/// `json_path(body, path)`.
pub fn json_path<'a>(value: &'a JsonValue, path: &str) -> (r: Option<&'a JsonValue>)
    ensures
        match r {
            Some(x) => json_at(value@, split_on(path@, '.')) == Some(x@),
            None => json_at(value@, split_on(path@, '.')) is None,
        },
{
    let pieces = split_char(path, '.');
    let ghost ps = split_on(path@, '.');
    let mut current: &JsonValue = value;
    let mut i: usize = 0;
    assert(ps.take(0) =~= Seq::<Seq<char>>::empty());
    while i < pieces.len()
        invariant
            i <= pieces@.len(),
            pieces@.len() == ps.len(),
            forall|k: int| 0 <= k < pieces@.len() ==> (#[trigger] pieces@[k])@ == ps[k],
            ps == split_on(path@, '.'),
            json_at(value@, ps.take(i as int)) == Some(current@),
        decreases pieces@.len() - i,
    {
        let segment = &pieces[i];
        assert(ps.take(i + 1).drop_last() =~= ps.take(i as int));
        assert(ps.take(i + 1).last() == segment@);
        if segment.as_str().is_empty() {
            proof {
                assert(json_at(value@, ps.take(i + 1)) is None);
                lemma_json_at_none_extends(value@, ps, i as int + 1);
            }
            return None;
        }
        let cs = to_chars(segment.as_str());
        let next = match parse_unsigned_exec(&cs, usize::MAX as u64) {
            Some(index) => current.get_index(index as usize),
            None => current.get_key(segment.as_str()),
        };
        match next {
            Some(n) => {
                current = n;
            },
            None => {
                proof {
                    assert(json_at(value@, ps.take(i + 1)) is None);
                    lemma_json_at_none_extends(value@, ps, i as int + 1);
                }
                return None;
            },
        }
        i = i + 1;
    }
    assert(ps.take(pieces@.len() as int) =~= ps);
    Some(current)
}

/// Once a prefix of the path finds nothing, the whole path finds nothing.
proof fn lemma_json_at_none_extends(v: Json, ps: Seq<Seq<char>>, k: int)
    requires
        0 <= k <= ps.len(),
        json_at(v, ps.take(k)) is None,
    ensures
        json_at(v, ps) is None,
    decreases ps.len() - k,
{
    if k < ps.len() {
        assert(ps.take(k + 1).drop_last() =~= ps.take(k));
        lemma_json_at_none_extends(v, ps, k + 1);
    } else {
        assert(ps.take(k) =~= ps);
    }
}

/// Text a value shows in a message: strings as they are, null as nothing,
/// anything else as compact JSON.
pub open spec fn template_text(v: Json) -> Seq<char> {
    match v {
        Json::Str(s) => s,
        Json::Null => Seq::empty(),
        other => json_text(other),
    }
}

/// `value_to_template_string`.
pub fn value_to_template_string(value: &JsonValue) -> (r: String)
    ensures
        r@ == template_text(value@),
{
    match value {
        JsonValue::Str(s) => s.clone(),
        JsonValue::Null => String::new(),
        _ => json_to_text(value),
    }
}

/// The references `\{(input|output)\.([^}]+)\}` finds in `s`, left to right.
pub open spec fn message_refs(s: Seq<char>) -> Seq<(bool, Seq<char>)>
    decreases s.len(),
{
    if s.len() == 0 {
        Seq::empty()
    } else if s[0] == '{' && ref_at(s.drop_first()) is Some {
        let (output, field, used) = ref_at(s.drop_first())->0;
        if 0 < used <= s.len() - 1 {
            seq![(output, field)] + message_refs(s.skip(1 + used))
        } else {
            Seq::empty()
        }
    } else {
        message_refs(s.drop_first())
    }
}

/// After a `{`: `input.` or `output.`, then a non-empty field up to `}`; gives
/// whether it is an output reference, the field, and the characters used.
pub open spec fn ref_at(t: Seq<char>) -> Option<(bool, Seq<char>, int)> {
    if t.len() >= 6 && t.take(6) == "input."@ {
        field_at(t.skip(6), false, 6)
    } else if t.len() >= 7 && t.take(7) == "output."@ {
        field_at(t.skip(7), true, 7)
    } else {
        None
    }
}

pub open spec fn field_at(u: Seq<char>, output: bool, head: int) -> Option<(bool, Seq<char>, int)> {
    match index_of(u, '}') {
        Some(e) => if e > 0 {
            Some((output, u.take(e), head + e + 1))
        } else {
            None
        },
        None => None,
    }
}

/// The message after replacing `{status}`, then each reference that has a
/// value (the call parameter for input, the body value for output) in turn.
pub open spec fn message_applied(
    text: Seq<char>,
    refs: Seq<(bool, Seq<char>)>,
    params: Seq<(String, String)>,
    body: Json,
) -> Seq<char>
    decreases refs.len(),
{
    if refs.len() == 0 {
        text
    } else {
        let prev = message_applied(text, refs.drop_last(), params, body);
        let (output, field) = refs.last();
        let whole = if output {
            "{output."@ + field + "}"@
        } else {
            "{input."@ + field + "}"@
        };
        let value = if output {
            match json_at(body, split_on(field, '.')) {
                Some(x) => Some(template_text(x)),
                None => None,
            }
        } else {
            match lookup(params, field) {
                Some(p) => Some(p@),
                None => None,
            }
        };
        match value {
            Some(r) => replace_all(prev, whole, r),
            None => prev,
        }
    }
}

/// The message for a response: `{status}` becomes the status code, then
/// `{input.x}` and `{output.path}` references with values are filled in.
pub open spec fn response_message(
    template: Seq<char>,
    status: u16,
    params: Seq<(String, String)>,
    body: Json,
) -> Seq<char> {
    message_applied(
        replace_all(template, "{status}"@, decimal(status as nat)),
        message_refs(template),
        params,
        body,
    )
}

/// `(output, field)` references of a message template.
fn message_ref_list(s: &str) -> (r: Vec<(bool, String)>)
    ensures
        r@.len() == message_refs(s@).len(),
        forall|i: int| 0 <= i < r@.len() ==> (#[trigger] r@[i]).0 == message_refs(s@)[i].0 && r@[i].1@
            == message_refs(s@)[i].1,
{
    let v = to_chars(s);
    let input_tag = to_chars("input.");
    let output_tag = to_chars("output.");
    proof {
        reveal_strlit("input.");
        reveal_strlit("output.");
    }
    let mut out: Vec<(bool, String)> = Vec::new();
    let mut pos: usize = 0;
    let ghost mut done: Seq<(bool, Seq<char>)> = Seq::empty();
    assert(v@.skip(0) =~= v@);
    while pos < v.len()
        invariant
            v@ == s@,
            v.len() == v@.len(),
            input_tag@ == "input."@,
            output_tag@ == "output."@,
            input_tag@.len() == 6,
            output_tag@.len() == 7,
            pos <= v@.len(),
            out@.len() == done.len(),
            forall|i: int| 0 <= i < out@.len() ==> (#[trigger] out@[i]).0 == done[i].0 && out@[i].1@ == done[i].1,
            done + message_refs(v@.skip(pos as int)) == message_refs(s@),
        decreases v@.len() - pos,
    {
        let ghost rest = v@.skip(pos as int);
        let ghost t = rest.drop_first();
        assert(t =~= v@.skip(pos + 1));
        let mut next: usize = pos + 1;
        let ghost mut matched = false;
        if v[pos] == '{' {
            let after = pos + 1;
            let hit_in = crate::text::occurs_at_exec(&v, &input_tag, after);
            let hit_out = crate::text::occurs_at_exec(&v, &output_tag, after);
            proof {
                if after + 6 <= v@.len() {
                    assert(t.take(6) =~= v@.subrange(after as int, after + 6));
                }
                if after + 7 <= v@.len() {
                    assert(t.take(7) =~= v@.subrange(after as int, after + 7));
                }
            }
            if hit_in || hit_out {
                let is_out = !hit_in;
                let head: usize = if hit_in { 6 } else { 7 };
                let start = after + head;
                assert(t.skip(head as int) =~= v@.skip(start as int));
                assert(ref_at(t) == field_at(t.skip(head as int), is_out, head as int));
                match find_char_from(&v, start, '}') {
                    Some(e) => {
                        if e > start {
                            let field = from_chars_range(&v, start, e);
                            proof {
                                let u = t.skip(head as int);
                                assert(field@ =~= u.take(e - start));
                                assert(ref_at(t) == Some((is_out, field@, head + (e - start) + 1)));
                                assert(rest.skip(1 + (head + (e - start) + 1)) =~= v@.skip(e + 1));
                                assert(message_refs(rest) == seq![(is_out, field@)] + message_refs(v@.skip(e + 1)));
                                assert(done.push((is_out, field@)) + message_refs(v@.skip(e + 1)) =~= done
                                    + message_refs(rest));
                                done = done.push((is_out, field@));
                                matched = true;
                            }
                            out.push((is_out, field));
                            next = e + 1;
                        } else {
                            assert(ref_at(t) is None);
                        }
                    },
                    None => {
                        assert(ref_at(t) is None);
                    },
                }
            } else {
                assert(ref_at(t) is None);
            }
        }
        proof {
            if !matched {
                assert(message_refs(rest) == message_refs(t));
            }
        }
        pos = next;
    }
    assert(v@.skip(pos as int).len() == 0);
    assert(done =~= message_refs(s@));
    out
}

/// Builds the message for a response with status `status`.
pub fn resolve_response_template(template: &str, status: u16, params: &Dict<String>, body: &JsonValue) -> (r: String)
    ensures
        r@ == response_message(template@, status, params.entries@, body@),
{
    let code = u16_decimal(status);
    let mut result = replace_str(template, "{status}", code.as_str());
    let refs = message_ref_list(template);
    let ghost rs = message_refs(template@);
    let ghost base = replace_all(template@, "{status}"@, decimal(status as nat));
    let mut i: usize = 0;
    while i < refs.len()
        invariant
            i <= refs@.len(),
            refs@.len() == rs.len(),
            rs == message_refs(template@),
            base == replace_all(template@, "{status}"@, decimal(status as nat)),
            forall|k: int| 0 <= k < refs@.len() ==> (#[trigger] refs@[k]).0 == rs[k].0 && refs@[k].1@ == rs[k].1,
            result@ == message_applied(base, rs.take(i as int), params.entries@, body@),
        decreases refs@.len() - i,
    {
        assert(rs.take(i + 1).drop_last() =~= rs.take(i as int));
        assert(rs.take(i + 1).last() == rs[i as int]);
        let is_out = refs[i].0;
        let field = &refs[i].1;
        let whole = if is_out {
            quoted("{output.", field.as_str(), "}")
        } else {
            quoted("{input.", field.as_str(), "}")
        };
        let replacement = if is_out {
            match json_path(body, field.as_str()) {
                Some(x) => Some(value_to_template_string(x)),
                None => None,
            }
        } else {
            match params.get(field.as_str()) {
                Some(p) => Some(p.clone()),
                None => None,
            }
        };
        match replacement {
            Some(rep) => {
                result = replace_str(result.as_str(), whole.as_str(), rep.as_str());
            },
            None => {},
        }
        i = i + 1;
    }
    assert(rs.take(refs@.len() as int) =~= rs);
    result
}

// ---------------------------------------------------------------- laws

proof fn lemma_pair_index_bounds(s: Seq<(Seq<char>, Seq<char>)>, k: Seq<char>)
    ensures
        crate::dict::seq_pair_index(s, k) matches Some(i) ==> 0 <= i < s.len(),
    decreases s.len(),
{
    if s.len() > 0 && s[0].0 != k {
        lemma_pair_index_bounds(s.drop_first(), k);
    }
}

/// Form values are resolved the way `resolve_string_templates` resolves text:
/// every entry of a resolved form is a configured entry with each `{key}` of
/// its key and of its value replaced by that call parameter, and the last
/// configured entry gives its resolved key the resolved value.
pub proof fn law_form_values_resolved(form: Seq<(String, String)>, entries: Seq<(String, String)>)
    ensures
        forall|i: int|
            0 <= i < form_applied(form, entries).len() ==> exists|j: int|
                0 <= j < form.len() && #[trigger] form_applied(form, entries)[i] == (
                    params_applied(form[j].0@, entries),
                    params_applied(form[j].1@, entries),
                ),
        form.len() > 0 ==> crate::dict::pair_lookup(form_applied(form, entries), params_applied(form.last().0@, entries))
            == Some(params_applied(form.last().1@, entries)),
    decreases form.len(),
{
    if form.len() > 0 {
        let d = form.drop_last();
        law_form_values_resolved(d, entries);
        let prev = form_applied(d, entries);
        let k = params_applied(form.last().0@, entries);
        let v = params_applied(form.last().1@, entries);
        let out = form_applied(form, entries);
        assert(out == insert_pair(prev, k, v));
        lemma_pair_index_bounds(prev, k);
        crate::dict::law_insert_then_lookup(prev, k, v);
        assert forall|i: int| 0 <= i < out.len() implies exists|j: int|
            0 <= j < form.len() && #[trigger] out[i] == (params_applied(form[j].0@, entries), params_applied(
                form[j].1@,
                entries,
            )) by {
            let last = form.len() - 1;
            if out[i] == (k, v) {
                assert(form[last] == form.last());
            } else {
                assert(i < prev.len());
                assert(out[i] == prev[i]);
                let j = choose|j: int|
                    0 <= j < d.len() && #[trigger] prev[i] == (params_applied(d[j].0@, entries), params_applied(
                        d[j].1@,
                        entries,
                    ));
                assert(form[j] == d[j]);
            }
        }
    }
}

} // verus!
