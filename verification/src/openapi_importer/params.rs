//! Command parameters and request bodies read from OpenAPI parameters and schemas.

use vstd::prelude::*;
use crate::dict::{first_index, insert_pair, lemma_first_index, pair_views, put, Dict};
use crate::json::{get_key, str_member, str_member_of, Json, JsonValue};
use crate::models::types::{BodyConfig, ParamType, Parameter};
use crate::openapi_importer::messages::{as_object, pick_media, pick_media_exec};
use crate::openapi_importer::refs::{resolve_value, resolved};
use crate::text::{
    after_last, after_last_str, contains, contains_str, find_char_from, from_chars_range, index_of,
    owned, str_eq, to_chars,
};

verus! {

broadcast use vstd::std_specs::vec::group_vec_axioms;

/// What a parameter says, as values.
pub struct ParamFound {
    pub description: Seq<char>,
    pub param_type: ParamType,
    pub required: bool,
}

/// A parameter as values.
pub open spec fn param_found(p: Parameter) -> ParamFound {
    ParamFound { description: p.description@, param_type: p.param_type, required: p.required }
}

/// Names and contents of a parameter table.
pub open spec fn param_views(es: Seq<(String, Parameter)>) -> Seq<(Seq<char>, ParamFound)> {
    Seq::new(es.len(), |i: int| (es[i].0@, param_found(es[i].1)))
}

/// Position of the first parameter named `k`.
pub open spec fn param_index(s: Seq<(Seq<char>, ParamFound)>, k: Seq<char>) -> Option<int>
    decreases s.len(),
{
    if s.len() == 0 {
        None
    } else if s[0].0 == k {
        Some(0)
    } else {
        match param_index(s.drop_first(), k) {
            Some(i) => Some(i + 1),
            None => None,
        }
    }
}

/// The table after storing `p` under `k` (replacing a parameter of that name).
pub open spec fn param_put(s: Seq<(Seq<char>, ParamFound)>, k: Seq<char>, p: ParamFound) -> Seq<
    (Seq<char>, ParamFound),
> {
    match param_index(s, k) {
        Some(i) => s.update(i, (k, p)),
        None => s.push((k, p)),
    }
}

/// The table with `p` under `k` only where no parameter of that name exists yet.
pub open spec fn param_add(s: Seq<(Seq<char>, ParamFound)>, k: Seq<char>, p: ParamFound) -> Seq<
    (Seq<char>, ParamFound),
> {
    match param_index(s, k) {
        Some(i) => s,
        None => s.push((k, p)),
    }
}

proof fn lemma_param_index(es: Seq<(String, Parameter)>, k: Seq<char>)
    ensures
        param_index(param_views(es), k) == first_index(es, k),
    decreases es.len(),
{
    if es.len() > 0 {
        assert(param_views(es).drop_first() =~= param_views(es.drop_first()));
        lemma_param_index(es.drop_first(), k);
    }
}

/// Stores `p` under `k`, replacing a parameter of that name.
pub fn put_param(d: &mut Dict<Parameter>, k: String, p: Parameter)
    ensures
        param_views(final(d).entries@) == param_put(param_views(old(d).entries@), k@, param_found(p)),
{
    proof {
        lemma_param_index(d.entries@, k@);
        lemma_first_index(d.entries@, k@);
    }
    let ghost before = d.entries@;
    let ghost kv = k@;
    let ghost pv = param_found(p);
    d.insert(k, p);
    proof {
        match first_index(before, kv) {
            Some(j) => {
                assert(param_views(d.entries@) =~= param_views(before).update(j, (kv, pv)));
            },
            None => {
                assert(param_views(d.entries@) =~= param_views(before).push((kv, pv)));
            },
        }
    }
}

/// Stores `p` under `k` unless a parameter of that name exists.
pub fn add_param(d: &mut Dict<Parameter>, k: String, p: Parameter)
    ensures
        param_views(final(d).entries@) == param_add(param_views(old(d).entries@), k@, param_found(p)),
{
    proof {
        lemma_param_index(d.entries@, k@);
        lemma_first_index(d.entries@, k@);
    }
    if d.contains_key(k.as_str()) {
        return;
    }
    let ghost before = d.entries@;
    let ghost kv = k@;
    let ghost pv = param_found(p);
    d.insert(k, p);
    proof {
        assert(param_views(d.entries@) =~= param_views(before).push((kv, pv)));
    }
}

/// The first line of a text, as `str::lines` gives it (none for an empty text).
pub open spec fn first_line(s: Seq<char>) -> Option<Seq<char>> {
    if s.len() == 0 {
        None
    } else {
        match index_of(s, '\n') {
            Some(i) => {
                let l = s.take(i);
                if l.len() > 0 && l.last() == '\r' {
                    Some(l.drop_last())
                } else {
                    Some(l)
                }
            },
            None => Some(s),
        }
    }
}

/// `s.lines().next()`.
pub fn first_line_of(s: &str) -> (r: Option<String>)
    ensures
        match r {
            Some(l) => first_line(s@) == Some(l@),
            None => first_line(s@) is None,
        },
{
    let v = to_chars(s);
    if v.len() == 0 {
        return None;
    }
    assert(v@.skip(0) =~= v@);
    match find_char_from(&v, 0, '\n') {
        Some(i) => {
            let end = if i > 0 && v[i - 1] == '\r' {
                i - 1
            } else {
                i
            };
            let l = from_chars_range(&v, 0, end);
            assert(l@ =~= (if i > 0 && v@[i - 1] == '\r' {
                v@.take(i as int).drop_last()
            } else {
                v@.take(i as int)
            }));
            Some(l)
        },
        None => Some(from_chars_range(&v, 0, v.len())),
    }
}

/// The declared type a schema gives a parameter.
pub open spec fn param_type_of(schema: Json) -> ParamType {
    match str_member(schema, "type"@) {
        Some(t) => if t == "integer"@ || t == "number"@ {
            ParamType::Number
        } else if t == "boolean"@ {
            ParamType::Boolean
        } else if t == "array"@ {
            ParamType::Array
        } else {
            ParamType::String
        },
        None => ParamType::String,
    }
}

/// A property's description (first line), or `fallback`.
pub open spec fn described(schema: Json, fallback: Seq<char>) -> Seq<char> {
    let d = match str_member(schema, "description"@) {
        Some(x) => x,
        None => fallback,
    };
    match first_line(d) {
        Some(l) => l,
        None => fallback,
    }
}

/// `schema.required` lists `field`.
pub open spec fn field_required(schema: Json, field: Seq<char>) -> bool {
    match get_key(schema, "required"@) {
        Some(Json::Array(items)) => exists|i: int| 0 <= i < items.len() && #[trigger] items[i] == Json::Str(field),
        _ => false,
    }
}

/// The declared type of a parameter with schema `schema`.
pub fn schema_to_param_type(schema: &JsonValue) -> (r: ParamType)
    ensures
        r == param_type_of(schema@),
{
    match str_member_of(schema, "type") {
        Some(t) => if str_eq(t, "integer") || str_eq(t, "number") {
            ParamType::Number
        } else if str_eq(t, "boolean") {
            ParamType::Boolean
        } else if str_eq(t, "array") {
            ParamType::Array
        } else {
            ParamType::String
        },
        None => ParamType::String,
    }
}

/// The first line of a property's description, or `fallback`.
pub fn prop_description(schema: &JsonValue, fallback: &str) -> (r: String)
    ensures
        r@ == described(schema@, fallback@),
{
    let d = match str_member_of(schema, "description") {
        Some(x) => x,
        None => fallback,
    };
    match first_line_of(d) {
        Some(l) => l,
        None => owned(fallback),
    }
}

/// Whether `schema.required` lists `field`.
pub fn schema_field_required(schema: &JsonValue, field: &str) -> (r: bool)
    ensures
        r == field_required(schema@, field@),
{
    let req = match schema.get_key("required") {
        Some(x) => x,
        None => {
            return false;
        },
    };
    match req {
        JsonValue::Array(items) => {
            let ghost its = req@->Array_0;
            assert(forall|k: int| 0 <= k < its.len() ==> its[k] == (#[trigger] items@[k])@);
            let mut i: usize = 0;
            while i < items.len()
                invariant
                    *req == JsonValue::Array(*items),
                    get_key(schema@, "required"@) == Some(req@),
                    its == req@->Array_0,
                    its.len() == items@.len(),
                    forall|k: int| 0 <= k < its.len() ==> its[k] == (#[trigger] items@[k])@,
                    i <= items@.len(),
                    forall|j: int| 0 <= j < i ==> #[trigger] its[j] != Json::Str(field@),
                decreases items@.len() - i,
            {
                match &items[i] {
                    JsonValue::Str(s) => {
                        if str_eq(s.as_str(), field) {
                            assert(its[i as int] == Json::Str(field@));
                            return true;
                        }
                    },
                    _ => {},
                }
                i = i + 1;
            }
            false
        },
        _ => false,
    }
}

// ------------------------------------------------------------------ operation parameters

/// A declared parameter, as `(name, parameter)` for the command's `params:` or
/// `(name, default)` for its `headers:`.
pub enum ParamEffect {
    Param(Seq<char>, ParamFound),
    Header(Seq<char>, Seq<char>),
    Nothing,
}

/// What an OpenAPI parameter object contributes to a command.
pub open spec fn param_effect(param: Json, root: Json) -> ParamEffect {
    match str_member(param, "name"@) {
        None => ParamEffect::Nothing,
        Some(name) => {
            let location = match str_member(param, "in"@) {
                Some(l) => l,
                None => "query"@,
            };
            let required = match get_key(param, "required"@) {
                Some(Json::Bool(b)) => b,
                _ => false,
            };
            let text = match str_member(param, "description"@) {
                Some(d) => d,
                None => Seq::empty(),
            };
            let description = match first_line(text) {
                Some(l) => l,
                None => name,
            };
            let schema = match get_key(param, "schema"@) {
                Some(s) => s,
                None => Json::Null,
            };
            let rs = resolved(schema, root);
            if location == "path"@ || location == "query"@ {
                ParamEffect::Param(
                    name,
                    ParamFound {
                        description,
                        param_type: param_type_of(rs),
                        required: required || location == "path"@,
                    },
                )
            } else if location == "header"@ {
                match str_member(schema, "default"@) {
                    Some(d) => ParamEffect::Header(name, d),
                    None => ParamEffect::Nothing,
                }
            } else {
                ParamEffect::Nothing
            }
        },
    }
}

/// Adds an OpenAPI parameter to a command: path and query parameters become
/// `params:` (path ones required), header parameters with a default become `headers:`.
pub fn apply_openapi_parameter(
    param: &JsonValue,
    root: &JsonValue,
    params: &mut Dict<Parameter>,
    headers: &mut Dict<String>,
)
    ensures
        match param_effect(param@, root@) {
            ParamEffect::Param(n, p) => param_views(final(params).entries@) == param_put(
                param_views(old(params).entries@),
                n,
                p,
            ) && *final(headers) == *old(headers),
            ParamEffect::Header(n, d) => pair_views(final(headers).entries@) == insert_pair(
                pair_views(old(headers).entries@),
                n,
                d,
            ) && *final(params) == *old(params),
            ParamEffect::Nothing => *final(params) == *old(params) && *final(headers) == *old(headers),
        },
{
    proof {
        reveal_strlit("");
        assert(""@ =~= Seq::<char>::empty());
    }
    let name = match str_member_of(param, "name") {
        Some(n) => n,
        None => {
            return;
        },
    };
    let location = match str_member_of(param, "in") {
        Some(l) => l,
        None => "query",
    };
    let required = match param.get_key("required") {
        Some(v) => match v {
            JsonValue::Bool(b) => *b,
            _ => false,
        },
        None => false,
    };
    let text = match str_member_of(param, "description") {
        Some(d) => d,
        None => "",
    };
    let description = match first_line_of(text) {
        Some(l) => l,
        None => owned(name),
    };
    let null = JsonValue::Null;
    let schema = match param.get_key("schema") {
        Some(s) => s,
        None => &null,
    };
    let rs = resolve_value(schema, root);
    let is_path = str_eq(location, "path");
    if is_path || str_eq(location, "query") {
        let p = Parameter {
            description,
            param_type: schema_to_param_type(rs),
            required: required || is_path,
        };
        put_param(params, owned(name), p);
    } else if str_eq(location, "header") {
        match str_member_of(schema, "default") {
            Some(d) => {
                put(headers, owned(name), owned(d));
            },
            None => {},
        }
    }
}

// ------------------------------------------------------------------ body templates

/// The JSON value standing for a missing schema: `{}` at the top, `"{prefix}"` below.
pub open spec fn fallback_value(prefix: Seq<char>) -> Json {
    if prefix.len() == 0 {
        Json::Object(Seq::empty())
    } else {
        Json::Str("{"@ + prefix + "}"@)
    }
}

/// The parameter a body field declares.
pub open spec fn field_param(schema: Json, prefix: Seq<char>, t: ParamType, required: bool) -> ParamFound {
    let d = described(schema, prefix);
    ParamFound {
        description: if t == ParamType::Array {
            d + " (comma-separated or JSON array)"@
        } else {
            d
        },
        param_type: t,
        required,
    }
}

/// `prefix.key`, or `key` at the top.
pub open spec fn child_prefix(prefix: Seq<char>, key: Seq<char>) -> Seq<char> {
    if prefix.len() == 0 {
        key
    } else {
        prefix + "."@ + key
    }
}

/// The body template of a schema and the parameters its fields declare, added to `params`.
pub open spec fn schema_template(
    schema: Json,
    root: Json,
    prefix: Seq<char>,
    parent: Json,
    params: Seq<(Seq<char>, ParamFound)>,
    depth: nat,
) -> (Json, Seq<(Seq<char>, ParamFound)>)
    decreases 33 - depth, 1nat, 0nat,
{
    if depth > 32 {
        (fallback_value(prefix), params)
    } else {
        let s = if get_key(schema, "$ref"@) is Some {
            resolved(schema, root)
        } else {
            schema
        };
        let required = if prefix.len() == 0 {
            false
        } else {
            field_required(parent, after_last(prefix, '.'))
        };
        let ty = str_member(s, "type"@);
        if ty == Some("object"@) {
            let props = match get_key(s, "properties"@) {
                Some(Json::Object(ps)) => ps,
                _ => Seq::empty(),
            };
            let (members, ps2) = props_template(props, root, prefix, s, params, depth + 1);
            (Json::Object(members), ps2)
        } else if ty == Some("array"@) {
            if prefix.len() == 0 {
                (Json::Array(Seq::empty()), params)
            } else {
                (
                    Json::Array(seq![Json::Str("{"@ + prefix + "}"@)]),
                    param_add(params, prefix, field_param(s, prefix, ParamType::Array, required)),
                )
            }
        } else {
            let t = if ty == Some("integer"@) || ty == Some("number"@) {
                ParamType::Number
            } else if ty == Some("boolean"@) {
                ParamType::Boolean
            } else {
                ParamType::String
            };
            if prefix.len() == 0 {
                (fallback_value(prefix), params)
            } else {
                (fallback_value(prefix), param_add(params, prefix, field_param(s, prefix, t, required)))
            }
        }
    }
}

/// The templates of the properties `props` of an object schema `parent`, in order.
pub open spec fn props_template(
    props: Seq<(Seq<char>, Json)>,
    root: Json,
    prefix: Seq<char>,
    parent: Json,
    params: Seq<(Seq<char>, ParamFound)>,
    depth: nat,
) -> (Seq<(Seq<char>, Json)>, Seq<(Seq<char>, ParamFound)>)
    decreases 33 - depth, 2nat, props.len(),
{
    if props.len() == 0 {
        (Seq::empty(), params)
    } else if depth > 33 {
        (Seq::empty(), params)
    } else {
        let (ms, ps) = props_template(props.drop_last(), root, prefix, parent, params, depth);
        let key = props.last().0;
        let (v, ps2) = schema_template(props.last().1, root, child_prefix(prefix, key), parent, ps, depth);
        (ms.push((key, v)), ps2)
    }
}

/// `"{<prefix>}"`.
fn placeholder(prefix: &str) -> (r: String)
    ensures
        r@ == "{"@ + prefix@ + "}"@,
{
    let mut s = owned("{");
    s.append(prefix);
    s.append("}");
    s
}

/// Declares the body field `name` unless a parameter of that name exists.
fn insert_schema_param(
    params: &mut Dict<Parameter>,
    name: &str,
    schema: &JsonValue,
    param_type: ParamType,
    required: bool,
)
    ensures
        param_views(final(params).entries@) == param_add(
            param_views(old(params).entries@),
            name@,
            field_param(schema@, name@, param_type, required),
        ),
{
    let mut description = prop_description(schema, name);
    if param_type == ParamType::Array {
        description.append(" (comma-separated or JSON array)");
    }
    add_param(params, owned(name), Parameter { description, param_type, required });
}

/// The body template of a schema, declaring a parameter for each leaf field
/// (named by its dotted path) in `params`.
pub fn schema_to_json_value(
    schema: &JsonValue,
    root: &JsonValue,
    prefix: &str,
    parent_schema: &JsonValue,
    params: &mut Dict<Parameter>,
    depth: usize,
) -> (r: JsonValue)
    requires
        depth <= 33,
    ensures
        (r@, param_views(final(params).entries@)) == schema_template(
            schema@,
            root@,
            prefix@,
            parent_schema@,
            param_views(old(params).entries@),
            depth as nat,
        ),
    decreases 33 - depth, 1nat, 0nat,
{
    proof {
        reveal_strlit("");
        assert(""@ =~= Seq::<char>::empty());
    }
    if depth > 32 {
        if prefix.is_empty() {
            let r = JsonValue::Object(Vec::new());
            assert(r@->Object_0 =~= Seq::<(Seq<char>, Json)>::empty());
            return r;
        }
        return JsonValue::Str(placeholder(prefix));
    }
    let s = if schema.get_key("$ref").is_some() {
        resolve_value(schema, root)
    } else {
        schema
    };
    let required = if prefix.is_empty() {
        false
    } else {
        let field = after_last_str(prefix, '.');
        schema_field_required(parent_schema, field.as_str())
    };
    let ty = str_member_of(s, "type");
    if type_is(ty, "object") {
        let null_props: Vec<(String, JsonValue)> = Vec::new();
        let props = match s.get_key("properties") {
            Some(p) => match as_object(p) {
                Some(ms) => ms,
                None => &null_props,
            },
            None => &null_props,
        };
        proof {
            let pv = Seq::new(props@.len(), |i: int| (props@[i].0@, props@[i].1@));
            match get_key(s@, "properties"@) {
                Some(Json::Object(ps)) => {
                    assert(pv =~= ps);
                },
                _ => {
                    assert(pv =~= Seq::<(Seq<char>, Json)>::empty());
                },
            }
        }
        let members = props_to_json(props, root, prefix, s, params, depth + 1);
        let r = JsonValue::Object(members);
        assert(r@->Object_0 =~= Seq::new(members@.len(), |i: int| (members@[i].0@, members@[i].1@)));
        return r;
    }
    if type_is(ty, "array") {
        if prefix.is_empty() {
            let r = JsonValue::Array(Vec::new());
            assert(r@->Array_0 =~= Seq::<Json>::empty());
            return r;
        }
        insert_schema_param(params, prefix, s, ParamType::Array, required);
        let ph = placeholder(prefix);
        let ghost phv = ph@;
        let mut items: Vec<JsonValue> = Vec::new();
        items.push(JsonValue::Str(ph));
        assert(items@.len() == 1);
        assert(items@[0]@ == Json::Str(phv));
        let r = JsonValue::Array(items);
        assert(r@->Array_0 =~= seq![Json::Str("{"@ + prefix@ + "}"@)]);
        return r;
    }
    let t = if type_is(ty, "integer") || type_is(ty, "number") {
        ParamType::Number
    } else if type_is(ty, "boolean") {
        ParamType::Boolean
    } else {
        ParamType::String
    };
    if prefix.is_empty() {
        let r = JsonValue::Object(Vec::new());
        assert(r@->Object_0 =~= Seq::<(Seq<char>, Json)>::empty());
        return r;
    }
    insert_schema_param(params, prefix, s, t, required);
    JsonValue::Str(placeholder(prefix))
}

/// Whether an optional type name is `t`.
fn type_is(ty: Option<&str>, t: &str) -> (b: bool)
    ensures
        b == (ty matches Some(x) && x@ == t@),
{
    match ty {
        Some(x) => str_eq(x, t),
        None => false,
    }
}

/// The templates of the properties of an object schema, in order.
fn props_to_json(
    props: &Vec<(String, JsonValue)>,
    root: &JsonValue,
    prefix: &str,
    parent: &JsonValue,
    params: &mut Dict<Parameter>,
    depth: usize,
) -> (r: Vec<(String, JsonValue)>)
    requires
        depth <= 33,
    ensures
        (Seq::new(r@.len(), |i: int| (r@[i].0@, r@[i].1@)), param_views(final(params).entries@))
            == props_template(
            Seq::new(props@.len(), |i: int| (props@[i].0@, props@[i].1@)),
            root@,
            prefix@,
            parent@,
            param_views(old(params).entries@),
            depth as nat,
        ),
    decreases 33 - depth, 2nat, props@.len(),
{
    let ghost vs = Seq::new(props@.len(), |i: int| (props@[i].0@, props@[i].1@));
    let mut out: Vec<(String, JsonValue)> = Vec::new();
    let mut i: usize = 0;
    assert(vs.take(0) =~= Seq::<(Seq<char>, Json)>::empty());
    while i < props.len()
        invariant
            vs == Seq::new(props@.len(), |i: int| (props@[i].0@, props@[i].1@)),
            depth <= 33,
            i <= props@.len(),
            (Seq::new(out@.len(), |k: int| (out@[k].0@, out@[k].1@)), param_views(params.entries@))
                == props_template(vs.take(i as int), root@, prefix@, parent@, param_views(old(params).entries@), depth as nat),
        decreases props@.len() - i,
    {
        assert(vs.take(i + 1).drop_last() =~= vs.take(i as int));
        assert(vs.take(i + 1).last() == vs[i as int]);
        let key = &props[i].0;
        let child = if prefix.is_empty() {
            key.clone()
        } else {
            let mut c = owned(prefix);
            c.append(".");
            c.append(key.as_str());
            c
        };
        let ghost out0 = out@;
        let v = schema_to_json_value(&props[i].1, root, child.as_str(), parent, params, depth);
        out.push((key.clone(), v));
        proof {
            assert(Seq::new(out@.len(), |k: int| (out@[k].0@, out@[k].1@)) =~= Seq::new(
                out0.len(),
                |k: int| (out0[k].0@, out0[k].1@),
            ).push((key@, v@)));
        }
        i = i + 1;
    }
    assert(vs.take(props@.len() as int) =~= vs);
    out
}

// ------------------------------------------------------------------ request bodies

/// The body template of a schema (resolved first) and the parameters it declares.
pub open spec fn json_template(schema: Json, root: Json) -> (Json, Seq<(Seq<char>, ParamFound)>) {
    let r = resolved(schema, root);
    schema_template(r, root, Seq::empty(), r, Seq::empty(), 0)
}

/// The body template of a schema and the parameters its fields declare.
pub fn schema_to_json_template(schema: &JsonValue, root: &JsonValue) -> (r: (JsonValue, Dict<Parameter>))
    ensures
        (r.0@, param_views(r.1.entries@)) == json_template(schema@, root@),
{
    let mut params: Dict<Parameter> = Dict::new();
    assert(param_views(params.entries@) =~= Seq::<(Seq<char>, ParamFound)>::empty());
    let resolved_schema = resolve_value(schema, root);
    proof {
        reveal_strlit("");
        assert(""@ =~= Seq::<char>::empty());
    }
    let json = schema_to_json_value(resolved_schema, root, "", resolved_schema, &mut params, 0);
    (json, params)
}

/// `params` with each parameter of `add` added where its name is new.
pub open spec fn params_merge(params: Seq<(Seq<char>, ParamFound)>, add: Seq<(Seq<char>, ParamFound)>) -> Seq<
    (Seq<char>, ParamFound),
>
    decreases add.len(),
{
    if add.len() == 0 {
        params
    } else {
        param_add(params_merge(params, add.drop_last()), add.last().0, add.last().1)
    }
}

/// The form fields and parameters of the properties `props` of a form schema.
pub open spec fn form_scan(
    props: Seq<(Seq<char>, Json)>,
    schema: Json,
    root: Json,
    params: Seq<(Seq<char>, ParamFound)>,
) -> (Seq<(Seq<char>, Seq<char>)>, Seq<(Seq<char>, ParamFound)>)
    decreases props.len(),
{
    if props.len() == 0 {
        (Seq::empty(), params)
    } else {
        let (fields, ps) = form_scan(props.drop_last(), schema, root, params);
        let name = props.last().0;
        let p = resolved(props.last().1, root);
        (
            insert_pair(fields, name, "{"@ + name + "}"@),
            param_add(
                ps,
                name,
                ParamFound {
                    description: described(p, name),
                    param_type: param_type_of(p),
                    required: field_required(schema, name),
                },
            ),
        )
    }
}

/// A request body: a JSON template or form fields as the importer builds them,
/// or any other body by its model.
pub enum BodyFound {
    Json(Json),
    Form(Seq<(Seq<char>, Seq<char>)>),
    Other(crate::models::types::BodyModel),
}

/// The body of an operation's `requestBody` (JSON template or form fields) and
/// the parameters it adds.
pub open spec fn body_of(request_body: Option<Json>, root: Json, params: Seq<(Seq<char>, ParamFound)>) -> (
    Option<BodyFound>,
    Seq<(Seq<char>, ParamFound)>,
) {
    match request_body {
        None => (None, params),
        Some(rb0) => {
            let rb = resolved(rb0, root);
            match get_key(rb, "content"@) {
                Some(Json::Object(content)) => match pick_media(content, "json"@, "form"@) {
                    None => (None, params),
                    Some(m) => {
                        let schema = resolved(
                            match get_key(m.1, "schema"@) {
                                Some(x) => x,
                                None => Json::Null,
                            },
                            root,
                        );
                        if contains(m.0, "json"@) {
                            let (j, bp) = json_template(schema, root);
                            (Some(BodyFound::Json(j)), params_merge(params, bp))
                        } else if contains(m.0, "form"@) {
                            let props = match get_key(schema, "properties"@) {
                                Some(Json::Object(ps)) => ps,
                                _ => Seq::empty(),
                            };
                            let (fields, ps2) = form_scan(props, schema, root, params);
                            if fields.len() == 0 {
                                (None, ps2)
                            } else {
                                (Some(BodyFound::Form(fields)), ps2)
                            }
                        } else {
                            (None, params)
                        }
                    },
                },
                _ => (None, params),
            }
        },
    }
}

/// A body config as values.
pub open spec fn body_found(b: Option<BodyConfig>) -> Option<BodyFound> {
    match b {
        None => None,
        Some(c) => if c.json is Some && c.form is None && c.multipart is None && c.raw is None {
            Some(BodyFound::Json(c.json->0@))
        } else if c.json is None && c.form is Some && c.multipart is None && c.raw is None {
            Some(BodyFound::Form(pair_views(c.form->0.entries@)))
        } else {
            Some(BodyFound::Other(c@))
        },
    }
}

/// Adds the parameters of `add` whose names are new.
fn merge_params(params: &mut Dict<Parameter>, add: Dict<Parameter>)
    ensures
        param_views(final(params).entries@) == params_merge(
            param_views(old(params).entries@),
            param_views(add.entries@),
        ),
{
    let ghost av = param_views(add.entries@);
    let ghost p0 = param_views(params.entries@);
    let mut i: usize = 0;
    assert(av.take(0) =~= Seq::<(Seq<char>, ParamFound)>::empty());
    while i < add.entries.len()
        invariant
            av == param_views(add.entries@),
            p0 == param_views(old(params).entries@),
            i <= add.entries@.len(),
            param_views(params.entries@) == params_merge(p0, av.take(i as int)),
        decreases add.entries@.len() - i,
    {
        assert(av.take(i + 1).drop_last() =~= av.take(i as int));
        assert(av.take(i + 1).last() == av[i as int]);
        let (name, p) = (add.entries[i].0.clone(), add.entries[i].1.clone());
        add_param(params, name, p);
        i = i + 1;
    }
    assert(av.take(add.entries@.len() as int) =~= av);
}

/// The body of an operation's `requestBody`: a JSON template declaring a
/// parameter per field, or form fields `{name}` with a parameter each; the new
/// parameters go into `params`.
pub fn extract_request_body(
    request_body: Option<&JsonValue>,
    root: &JsonValue,
    params: &mut Dict<Parameter>,
) -> (r: Option<BodyConfig>)
    ensures
        (body_found(r), param_views(final(params).entries@)) == body_of(
            match request_body {
                Some(x) => Some(x@),
                None => None,
            },
            root@,
            param_views(old(params).entries@),
        ),
{
    let rb0 = match request_body {
        Some(x) => x,
        None => {
            return None;
        },
    };
    let rb = resolve_value(rb0, root);
    let content = match rb.get_key("content") {
        Some(c) => c,
        None => {
            return None;
        },
    };
    let ms = match as_object(content) {
        Some(ms) => ms,
        None => {
            return None;
        },
    };
    let media = match pick_media_exec(ms, "json", "form") {
        Some(m) => m,
        None => {
            return None;
        },
    };
    let null = JsonValue::Null;
    let raw_schema = match media.1.get_key("schema") {
        Some(x) => x,
        None => &null,
    };
    let schema = resolve_value(raw_schema, root);
    if contains_str(media.0.as_str(), "json") {
        let (json, body_params) = schema_to_json_template(schema, root);
        merge_params(params, body_params);
        return Some(BodyConfig { json: Some(json), form: None, multipart: None, raw: None });
    }
    if contains_str(media.0.as_str(), "form") {
        let null_props: Vec<(String, JsonValue)> = Vec::new();
        let props = match schema.get_key("properties") {
            Some(p) => match as_object(p) {
                Some(ps) => ps,
                None => &null_props,
            },
            None => &null_props,
        };
        let ghost pv = Seq::new(props@.len(), |i: int| (props@[i].0@, props@[i].1@));
        proof {
            match get_key(schema@, "properties"@) {
                Some(Json::Object(ps)) => {
                    assert(pv =~= ps);
                },
                _ => {
                    assert(pv =~= Seq::<(Seq<char>, Json)>::empty());
                },
            }
        }
        let ghost p0 = param_views(params.entries@);
        let mut fields: Dict<String> = Dict::new();
        assert(pair_views(fields.entries@) =~= Seq::<(Seq<char>, Seq<char>)>::empty());
        let mut i: usize = 0;
        assert(pv.take(0) =~= Seq::<(Seq<char>, Json)>::empty());
        while i < props.len()
            invariant
                pv == Seq::new(props@.len(), |i: int| (props@[i].0@, props@[i].1@)),
                p0 == param_views(old(params).entries@),
                i <= props@.len(),
                (pair_views(fields.entries@), param_views(params.entries@)) == form_scan(
                    pv.take(i as int),
                    schema@,
                    root@,
                    p0,
                ),
            decreases props@.len() - i,
        {
            assert(pv.take(i + 1).drop_last() =~= pv.take(i as int));
            assert(pv.take(i + 1).last() == pv[i as int]);
            let name = &props[i].0;
            let prop = resolve_value(&props[i].1, root);
            let mut placeholder_text = owned("{");
            placeholder_text.append(name.as_str());
            placeholder_text.append("}");
            put(&mut fields, name.clone(), placeholder_text);
            let required = schema_field_required(schema, name.as_str());
            let p = Parameter {
                description: prop_description(prop, name.as_str()),
                param_type: schema_to_param_type(prop),
                required,
            };
            add_param(params, name.clone(), p);
            i = i + 1;
        }
        assert(pv.take(props@.len() as int) =~= pv);
        if fields.len() == 0 {
            return None;
        }
        return Some(BodyConfig { json: None, form: Some(fields), multipart: None, raw: None });
    }
    None
}

// ---------------------------------------------------------------- laws

proof fn lemma_type_names_differ()
    ensures
        "integer"@ != "boolean"@,
        "integer"@ != "array"@,
        "integer"@ != "object"@,
        "number"@ != "boolean"@,
        "number"@ != "array"@,
        "number"@ != "object"@,
        "boolean"@ != "array"@,
{
    reveal_strlit("integer");
    reveal_strlit("number");
    reveal_strlit("boolean");
    reveal_strlit("array");
    reveal_strlit("object");
    assert("integer"@[0] != "boolean"@[0]);
    assert("integer"@[0] != "array"@[0]);
    assert("integer"@[0] != "object"@[0]);
    assert("number"@[0] != "boolean"@[0]);
    assert("number"@[0] != "array"@[0]);
    assert("number"@[0] != "object"@[0]);
    assert("boolean"@[0] != "array"@[0]);
}

/// Parameter types follow the JSON Schema types: a path or query parameter
/// whose schema (its `$ref` followed) has type `integer` or `number` is
/// imported as a number, `boolean` as a boolean, `array` as an array, and
/// every other type as a string; the parameter keeps its name.
pub proof fn law_parameter_types(param: Json, root: Json, name: Seq<char>, t: Seq<char>)
    requires
        str_member(param, "name"@) == Some(name),
        str_member(param, "in"@) == Some("query"@) || str_member(param, "in"@) == Some("path"@),
        str_member(
            resolved(
                match get_key(param, "schema"@) {
                    Some(s) => s,
                    None => Json::Null,
                },
                root,
            ),
            "type"@,
        ) == Some(t),
    ensures
        param_effect(param, root) matches ParamEffect::Param(n, f) && n == name && {
            &&& (t == "integer"@ || t == "number"@) ==> f.param_type == ParamType::Number
            &&& t == "boolean"@ ==> f.param_type == ParamType::Boolean
            &&& t == "array"@ ==> f.param_type == ParamType::Array
            &&& !(t == "integer"@ || t == "number"@ || t == "boolean"@ || t == "array"@) ==> f.param_type
                == ParamType::String
        },
{
    let schema = match get_key(param, "schema"@) {
        Some(s) => s,
        None => Json::Null,
    };
    let rs = resolved(schema, root);
    assert(param_type_of(rs) == (if t == "integer"@ || t == "number"@ {
        ParamType::Number
    } else if t == "boolean"@ {
        ParamType::Boolean
    } else if t == "array"@ {
        ParamType::Array
    } else {
        ParamType::String
    }));
    lemma_type_names_differ();
    let location = str_member(param, "in"@)->0;
    assert(location == "path"@ || location == "query"@);
}

/// A body field whose schema has type `integer` or `number` is declared as a
/// number parameter named by its dotted path.
pub proof fn law_numeric_body_fields(
    schema: Json,
    root: Json,
    prefix: Seq<char>,
    parent: Json,
    params: Seq<(Seq<char>, ParamFound)>,
    depth: nat,
)
    requires
        depth <= 32,
        prefix.len() > 0,
        get_key(schema, "$ref"@) is None,
        str_member(schema, "type"@) == Some("integer"@) || str_member(schema, "type"@) == Some("number"@),
    ensures
        exists|required: bool|
            schema_template(schema, root, prefix, parent, params, depth).1 == param_add(
                params,
                prefix,
                #[trigger] field_param(schema, prefix, ParamType::Number, required),
            ),
{
    let required = field_required(parent, after_last(prefix, '.'));
    lemma_type_names_differ();
    let ty = str_member(schema, "type"@);
    assert(ty != Some("object"@));
    assert(ty != Some("array"@));
    assert(ty == Some("integer"@) || ty == Some("number"@));
    assert(schema_template(schema, root, prefix, parent, params, depth).1 == param_add(
        params,
        prefix,
        field_param(schema, prefix, ParamType::Number, required),
    ));
}

} // verus!
