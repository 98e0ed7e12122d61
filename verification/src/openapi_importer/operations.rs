//! OpenAPI operations as command specifications, and the names they nest under.

use vstd::prelude::*;
use crate::dict::{pair_views, Dict, insert_pair};
use crate::json::{get_key, str_member, str_member_of, Json, JsonValue};
use crate::models::command::method_name;
use crate::models::types::{ApiErrorConfig, BodyConfig, HttpMethod, Parameter, ResponseConfig};
use crate::openapi_importer::messages::has_member;
use crate::openapi_importer::names::{
    http_method_key, is_param_segment, is_path_param_segment, method_key, method_named,
    parse_http_method, path_segments, sanitize_segment, sanitized, segments_of, slug, slugify_name,
};
use crate::openapi_importer::params::{
    apply_openapi_parameter, body_found, body_of, extract_request_body, first_line, first_line_of,
    param_effect, param_put, param_views, BodyFound, ParamEffect, ParamFound,
};
use crate::openapi_importer::refs::{resolve_value, resolved};
use crate::openapi_importer::responses::{
    errors_found, ErrorsFound, extract_responses, message_views, opt_message, responses_of,
    ResponsesFound,
};
use crate::openapi_importer::servers::{first_scheme, first_security_scheme_name};
use crate::text::{after_last, after_last_str, owned, trim, trim_str};

verus! {

broadcast use vstd::std_specs::vec::group_vec_axioms;

// ------------------------------------------------------------------ parameter lists

/// The parameter objects of a `parameters` value, each resolved; a `$ref` to a
/// list is followed, at most `fuel` times.
pub open spec fn param_list(v: Json, root: Json, fuel: nat) -> Option<Seq<Json>>
    decreases fuel,
{
    match v {
        Json::Array(items) => Some(Seq::new(items.len(), |i: int| resolved(items[i], root))),
        Json::Object(ms) => if has_member(ms, "$ref"@) {
            if fuel == 0 {
                None
            } else {
                param_list(resolved(v, root), root, (fuel - 1) as nat)
            }
        } else {
            Some(Seq::empty())
        },
        _ => Some(Seq::empty()),
    }
}

/// Following `$ref` from a `parameters` value reaches a list (or a value that is not a reference).
pub open spec fn param_list_ends(v: Json, root: Json) -> bool {
    exists|n: nat| (#[trigger] param_list(v, root, n)) is Some
}

/// The resolved parameter objects of a `parameters` value.
pub open spec fn param_list_of(v: Json, root: Json) -> Seq<Json> {
    param_list(v, root, choose|n: nat| (#[trigger] param_list(v, root, n)) is Some)->0
}

proof fn lemma_param_list_fuel(v: Json, root: Json, n: nat, m: nat)
    requires
        param_list(v, root, n) is Some,
        n <= m,
    ensures
        param_list(v, root, m) == param_list(v, root, n),
    decreases n,
{
    match v {
        Json::Object(ms) => if has_member(ms, "$ref"@) {
            lemma_param_list_fuel(resolved(v, root), root, (n - 1) as nat, (m - 1) as nat);
        },
        _ => {},
    }
}

proof fn lemma_param_list_of(v: Json, root: Json, n: nat)
    requires
        param_list(v, root, n) is Some,
    ensures
        param_list_of(v, root) == param_list(v, root, n)->0,
{
    let c = choose|k: nat| (#[trigger] param_list(v, root, k)) is Some;
    if c <= n {
        lemma_param_list_fuel(v, root, c, n);
    } else {
        lemma_param_list_fuel(v, root, n, c);
    }
}

/// The parameter objects of a `parameters` value, each `$ref` resolved; a
/// reference to a list is followed.
pub fn merge_parameter_list(value: &JsonValue, root: &JsonValue) -> (r: Vec<JsonValue>)
    requires
        param_list_ends(value@, root@),
    ensures
        r@.len() == param_list_of(value@, root@).len(),
        forall|i: int| 0 <= i < r@.len() ==> (#[trigger] r@[i])@ == param_list_of(value@, root@)[i],
{
    let ghost n = choose|n: nat| (#[trigger] param_list(value@, root@, n)) is Some;
    proof {
        lemma_param_list_of(value@, root@, n);
    }
    let mut cur = value;
    let ghost mut fuel = n;
    loop
        invariant
            param_list(cur@, root@, fuel) is Some,
            param_list(cur@, root@, fuel) == param_list(value@, root@, n),
            param_list_of(value@, root@) == param_list(value@, root@, n)->0,
        decreases fuel,
    {
        match cur {
            JsonValue::Array(items) => {
                let mut out: Vec<JsonValue> = Vec::new();
                let mut i: usize = 0;
                while i < items.len()
                    invariant
                        *cur == JsonValue::Array(*items),
                        i <= items@.len(),
                        out@.len() == i,
                        forall|k: int| 0 <= k < i ==> (#[trigger] out@[k])@ == resolved(items@[k]@, root@),
                    decreases items@.len() - i,
                {
                    out.push(resolve_value(&items[i], root).clone());
                    i = i + 1;
                }
                proof {
                    assert forall|k: int| 0 <= k < out@.len() implies (#[trigger] out@[k])@ == param_list_of(
                        value@,
                        root@,
                    )[k] by {
                        assert(cur@->Array_0[k] == items@[k]@);
                    }
                }
                return out;
            },
            JsonValue::Object(_) => {
                if cur.get_key("$ref").is_some() {
                    proof {
                        assert(has_member(cur@->Object_0, "$ref"@));
                    }
                    cur = resolve_value(cur, root);
                    proof {
                        fuel = (fuel - 1) as nat;
                    }
                } else {
                    proof {
                        assert(!has_member(cur@->Object_0, "$ref"@));
                    }
                    return Vec::new();
                }
            },
            _ => {
                return Vec::new();
            },
        }
    }
}

// ------------------------------------------------------------------ operations

/// An operation read from the document, before it is placed in the command tree.
pub struct OperationSpec {
    pub command_name: String,
    pub operation_id: Option<String>,
    pub static_segments: Vec<String>,
    pub method: HttpMethod,
    pub endpoint: String,
    pub description: Option<String>,
    pub params: Dict<Parameter>,
    pub headers: Dict<String>,
    pub body: Option<BodyConfig>,
    pub auth: Option<String>,
    pub tags: Vec<String>,
    pub responses: Option<ResponseConfig>,
}

/// An operation as values.
pub struct OpFound {
    pub command_name: Seq<char>,
    pub operation_id: Option<Seq<char>>,
    pub static_segments: Seq<Seq<char>>,
    pub method: HttpMethod,
    pub endpoint: Seq<char>,
    pub description: Option<Seq<char>>,
    pub params: Seq<(Seq<char>, ParamFound)>,
    pub headers: Seq<(Seq<char>, Seq<char>)>,
    pub body: Option<BodyFound>,
    pub auth: Option<Seq<char>>,
    pub tags: Seq<Seq<char>>,
    pub responses: Option<ResponsesFound>,
}

/// Views of a list of texts.
pub open spec fn text_views(v: Seq<String>) -> Seq<Seq<char>> {
    Seq::new(v.len(), |i: int| v[i]@)
}

/// The view of an optional text.
pub open spec fn opt_text(o: Option<String>) -> Option<Seq<char>> {
    match o {
        Some(s) => Some(s@),
        None => None,
    }
}

/// The messages of an optional response config.
pub open spec fn responses_found(r: Option<ResponseConfig>) -> Option<ResponsesFound> {
    match r {
        Some(c) => Some(
            ResponsesFound {
                success: opt_message(c.success),
                failure: opt_message(c.failure),
                warn: opt_message(c.warn),
                codes: message_views(c.codes.entries@),
            },
        ),
        None => None,
    }
}

impl OperationSpec {
    /// The operation as values.
    pub open spec fn found(&self) -> OpFound {
        OpFound {
            command_name: self.command_name@,
            operation_id: opt_text(self.operation_id),
            static_segments: text_views(self.static_segments@),
            method: self.method,
            endpoint: self.endpoint@,
            description: opt_text(self.description),
            params: param_views(self.params.entries@),
            headers: pair_views(self.headers.entries@),
            body: body_found(self.body),
            auth: opt_text(self.auth),
            tags: text_views(self.tags@),
            responses: responses_found(self.responses),
        }
    }

}

/// The string items of an array, in order.
pub open spec fn string_items(items: Seq<Json>) -> Seq<Seq<char>>
    decreases items.len(),
{
    if items.len() == 0 {
        Seq::empty()
    } else {
        let p = string_items(items.drop_last());
        match items.last() {
            Json::Str(s) => p.push(s),
            _ => p,
        }
    }
}

/// The tags of an operation.
pub open spec fn tags_of(op: Json) -> Seq<Seq<char>> {
    match get_key(op, "tags"@) {
        Some(Json::Array(items)) => string_items(items),
        _ => Seq::empty(),
    }
}

/// The one-line description of an operation: its summary, else its description.
pub open spec fn op_description(op: Json) -> Option<Seq<char>> {
    let v = match get_key(op, "summary"@) {
        Some(x) => Some(x),
        None => get_key(op, "description"@),
    };
    match v {
        Some(Json::Str(s)) => Some(
            trim(
                match first_line(s) {
                    Some(l) => l,
                    None => s,
                },
            ),
        ),
        _ => None,
    }
}

/// The command name of an operation: the slug of its `operationId` tail, else the method key.
pub open spec fn op_command_name(op: Json, method: HttpMethod) -> Seq<char> {
    match str_member(op, "operationId"@) {
        Some(oid) => {
            let s = slug(after_last(oid, '/'));
            if s.len() > 0 {
                s
            } else {
                method_key(method)
            }
        },
        None => method_key(method),
    }
}

/// The static (non-placeholder) segments of a path, as command names.
pub open spec fn static_segments_of(parts: Seq<Seq<char>>) -> Seq<Seq<char>>
    decreases parts.len(),
{
    if parts.len() == 0 {
        Seq::empty()
    } else {
        let p = static_segments_of(parts.drop_last());
        if is_param_segment(parts.last()) {
            p
        } else {
            p.push(sanitized(parts.last()))
        }
    }
}

/// The params and headers after applying the parameter objects `ps`, in order.
pub open spec fn apply_params(
    ps: Seq<Json>,
    root: Json,
    params: Seq<(Seq<char>, ParamFound)>,
    headers: Seq<(Seq<char>, Seq<char>)>,
) -> (Seq<(Seq<char>, ParamFound)>, Seq<(Seq<char>, Seq<char>)>)
    decreases ps.len(),
{
    if ps.len() == 0 {
        (params, headers)
    } else {
        let (p, h) = apply_params(ps.drop_last(), root, params, headers);
        match param_effect(ps.last(), root) {
            ParamEffect::Param(n, x) => (param_put(p, n, x), h),
            ParamEffect::Header(n, d) => (p, insert_pair(h, n, d)),
            ParamEffect::Nothing => (p, h),
        }
    }
}

/// The security requirement that applies to an operation: its own, else the document's.
pub open spec fn op_auth(op: Json, root: Json) -> Option<Seq<char>> {
    match get_key(op, "security"@) {
        Some(s) => first_scheme(s),
        None => match get_key(root, "security"@) {
            Some(s) => first_scheme(s),
            None => None,
        },
    }
}

/// The operation `op` at `path` under `method_name`, with the path-level parameters `path_params`.
pub open spec fn op_found(
    op: Json,
    root: Json,
    path: Seq<char>,
    method_name: Seq<char>,
    path_params: Seq<Json>,
    errs: Option<ErrorsFound>,
) -> Option<OpFound> {
    match method_named(method_name) {
        None => None,
        Some(method) => {
            let op_params = param_list_of(
                match get_key(op, "parameters"@) {
                    Some(p) => p,
                    None => Json::Null,
                },
                root,
            );
            let (p1, h1) = apply_params(path_params + op_params, root, Seq::empty(), Seq::empty());
            let (body, p2) = body_of(get_key(op, "requestBody"@), root, p1);
            Some(
                OpFound {
                    command_name: op_command_name(op, method),
                    operation_id: str_member(op, "operationId"@),
                    static_segments: static_segments_of(segments_of(path)),
                    method,
                    endpoint: path,
                    description: op_description(op),
                    params: p2,
                    headers: h1,
                    body,
                    auth: op_auth(op, root),
                    tags: tags_of(op),
                    responses: responses_of(op, root, errs),
                },
            )
        },
    }
}

/// The command name of an operation: the slug of the last `/`-piece of its
/// `operationId`, else the method's lower-case name.
pub fn command_name_from_operation(op: &JsonValue, method: &HttpMethod) -> (r: String)
    ensures
        r@ == op_command_name(op@, *method),
{
    match str_member_of(op, "operationId") {
        Some(oid) => {
            let tail = after_last_str(oid, '/');
            let s = slugify_name(tail.as_str());
            if !s.as_str().is_empty() {
                s
            } else {
                http_method_key(method)
            }
        },
        None => http_method_key(method),
    }
}

/// The string items of an array value.
fn string_items_of(items: &Vec<JsonValue>) -> (r: Vec<String>)
    ensures
        text_views(r@) == string_items(Seq::new(items@.len(), |i: int| items@[i]@)),
{
    let ghost its = Seq::new(items@.len(), |i: int| items@[i]@);
    let mut out: Vec<String> = Vec::new();
    let mut i: usize = 0;
    assert(its.take(0) =~= Seq::<Json>::empty());
    assert(text_views(out@) =~= Seq::<Seq<char>>::empty());
    while i < items.len()
        invariant
            its == Seq::new(items@.len(), |i: int| items@[i]@),
            i <= items@.len(),
            text_views(out@) == string_items(its.take(i as int)),
        decreases items@.len() - i,
    {
        assert(its.take(i + 1).drop_last() =~= its.take(i as int));
        assert(its.take(i + 1).last() == items@[i as int]@);
        let ghost o = out@;
        match &items[i] {
            JsonValue::Str(s) => {
                out.push(s.clone());
                assert(text_views(out@) =~= text_views(o).push(s@));
            },
            _ => {},
        }
        i = i + 1;
    }
    assert(its.take(items@.len() as int) =~= its);
    out
}

/// The static segments of a URL path, sanitized.
fn static_segments(path: &str) -> (r: Vec<String>)
    ensures
        text_views(r@) == static_segments_of(segments_of(path@)),
{
    let parts = path_segments(path);
    let ghost ps = segments_of(path@);
    let mut out: Vec<String> = Vec::new();
    let mut i: usize = 0;
    assert(ps.take(0) =~= Seq::<Seq<char>>::empty());
    assert(text_views(out@) =~= Seq::<Seq<char>>::empty());
    while i < parts.len()
        invariant
            ps == segments_of(path@),
            parts@.len() == ps.len(),
            forall|k: int| 0 <= k < ps.len() ==> (#[trigger] parts@[k])@ == ps[k],
            i <= parts@.len(),
            text_views(out@) == static_segments_of(ps.take(i as int)),
        decreases parts@.len() - i,
    {
        assert(ps.take(i + 1).drop_last() =~= ps.take(i as int));
        assert(ps.take(i + 1).last() == ps[i as int]);
        if !is_path_param_segment(parts[i].as_str()) {
            let ghost o = out@;
            let s = sanitize_segment(parts[i].as_str());
            out.push(s);
            assert(text_views(out@) =~= text_views(o).push(sanitized(ps[i as int])));
        }
        i = i + 1;
    }
    assert(ps.take(parts@.len() as int) =~= ps);
    out
}

/// An operation as a command specification: its method, path, description,
/// parameters (path level first, then its own), request body, security, tags
/// and response messages. `None` for a method key that is not an HTTP method.
pub fn operation_to_spec(
    op: &JsonValue,
    root: &JsonValue,
    path: &str,
    method_name: &str,
    path_level_params: &Vec<JsonValue>,
    api_errors: Option<&ApiErrorConfig>,
) -> (r: Option<OperationSpec>)
    requires
        param_list_ends(
            match get_key(op@, "parameters"@) {
                Some(p) => p,
                None => Json::Null,
            },
            root@,
        ),
    ensures
        match r {
            Some(o) => op_found(
                op@,
                root@,
                path@,
                method_name@,
                Seq::new(path_level_params@.len(), |i: int| path_level_params@[i]@),
                errors_found(api_errors),
            ) == Some(o.found()),
            None => op_found(
                op@,
                root@,
                path@,
                method_name@,
                Seq::new(path_level_params@.len(), |i: int| path_level_params@[i]@),
                errors_found(api_errors),
            ) is None,
        },
{
    let method = match parse_http_method(method_name) {
        Some(m) => m,
        None => {
            return None;
        },
    };
    let picked = match op.get_key("summary") {
        Some(x) => Some(x),
        None => op.get_key("description"),
    };
    let description = match picked {
        Some(v) => match v {
            JsonValue::Str(s) => {
                let line = match first_line_of(s.as_str()) {
                    Some(l) => l,
                    None => s.clone(),
                };
                Some(trim_str(line.as_str()))
            },
            _ => None,
        },
        None => None,
    };
    let tags = match op.get_key("tags") {
        Some(t) => match t {
            JsonValue::Array(items) => {
                let r = string_items_of(items);
                assert(Seq::new(items@.len(), |i: int| items@[i]@) =~= t@->Array_0);
                r
            },
            _ => Vec::new(),
        },
        None => Vec::new(),
    };
    let mut params: Dict<Parameter> = Dict::new();
    let mut headers: Dict<String> = Dict::new();
    let null = JsonValue::Null;
    let op_param_value = match op.get_key("parameters") {
        Some(p) => p,
        None => &null,
    };
    let op_params = merge_parameter_list(op_param_value, root);
    let ghost pp = Seq::new(path_level_params@.len(), |i: int| path_level_params@[i]@);
    let ghost opp = param_list_of(
        match get_key(op@, "parameters"@) {
            Some(p) => p,
            None => Json::Null,
        },
        root@,
    );
    let ghost all = pp + opp;
    assert(param_views(params.entries@) =~= Seq::<(Seq<char>, ParamFound)>::empty());
    assert(pair_views(headers.entries@) =~= Seq::<(Seq<char>, Seq<char>)>::empty());
    let mut i: usize = 0;
    assert(all.take(0) =~= Seq::<Json>::empty());
    while i < path_level_params.len()
        invariant
            pp == Seq::new(path_level_params@.len(), |i: int| path_level_params@[i]@),
            all == pp + opp,
            i <= pp.len(),
            (param_views(params.entries@), pair_views(headers.entries@)) == apply_params(
                all.take(i as int),
                root@,
                Seq::empty(),
                Seq::empty(),
            ),
        decreases path_level_params@.len() - i,
    {
        assert(all.take(i + 1).drop_last() =~= all.take(i as int));
        assert(all.take(i + 1).last() == pp[i as int]);
        apply_openapi_parameter(&path_level_params[i], root, &mut params, &mut headers);
        i = i + 1;
    }
    let mut j: usize = 0;
    while j < op_params.len()
        invariant
            pp == Seq::new(path_level_params@.len(), |i: int| path_level_params@[i]@),
            all == pp + opp,
            op_params@.len() == opp.len(),
            forall|k: int| 0 <= k < op_params@.len() ==> (#[trigger] op_params@[k])@ == opp[k],
            j <= op_params@.len(),
            (param_views(params.entries@), pair_views(headers.entries@)) == apply_params(
                all.take(pp.len() + j),
                root@,
                Seq::empty(),
                Seq::empty(),
            ),
        decreases op_params@.len() - j,
    {
        assert(all.take(pp.len() + j + 1).drop_last() =~= all.take(pp.len() + j));
        assert(all.take(pp.len() + j + 1).last() == opp[j as int]);
        apply_openapi_parameter(&op_params[j], root, &mut params, &mut headers);
        j = j + 1;
    }
    assert(all.take((pp.len() + opp.len()) as int) =~= all);
    let body = extract_request_body(op.get_key("requestBody"), root, &mut params);
    let segments = static_segments(path);
    let auth = match op.get_key("security") {
        Some(s) => first_security_scheme_name(s),
        None => match root.get_key("security") {
            Some(s) => first_security_scheme_name(s),
            None => None,
        },
    };
    let operation_id = match str_member_of(op, "operationId") {
        Some(s) => Some(owned(s)),
        None => None,
    };
    let command_name = command_name_from_operation(op, &method);
    let responses = extract_responses(op, root, api_errors);
    let r = OperationSpec {
            command_name,
            operation_id,
            static_segments: segments,
            method,
            endpoint: owned(path),
            description,
            params,
            headers,
            body,
            auth,
            tags,
            responses,
        };
    proof {
        let f = op_found(op@, root@, path@, method_name@, pp, errors_found(api_errors))->0;
        assert(f.command_name == r.found().command_name);
        assert(f.operation_id == r.found().operation_id);
        assert(f.static_segments == r.found().static_segments);
        assert(f.endpoint == r.found().endpoint);
        assert(f.description == r.found().description);
        assert(f.params == r.found().params);
        assert(f.headers == r.found().headers);
        assert(f.body == r.found().body);
        assert(f.auth == r.found().auth);
        assert(f.tags == r.found().tags);
        assert(f.responses == r.found().responses);
    }
    Some(r)
}

} // verus!
