//! Response messages and API-wide error messages read from an OpenAPI document.

use vstd::prelude::*;
use crate::dict::{first_index, insert_pair, lemma_first_index, seq_pair_index, Dict};
use crate::json::{get_key, member, Json, JsonValue};
use crate::models::types::{ApiErrorConfig, ResponseConfig, ResponseEntry};
use crate::openapi_importer::messages::{
    as_object, error_like_schema, error_message_template_from_response,
    error_message_template_from_schema, error_response_template, error_schema_template,
    looks_like_error_schema, success_message_template_from_response, success_response_template,
};
use crate::openapi_importer::names::{
    error_schema_name, is_error_schema_name, parse_response_status_code, status_code_of,
};
use crate::openapi_importer::refs::{resolve_value, resolved};
use crate::text::{
    ascii_lower, ascii_lower_str, contains, contains_str, decimal, owned, str_eq, u16_decimal,
};

verus! {

broadcast use vstd::std_specs::vec::group_vec_axioms;

/// Code and message of each entry of a message table.
pub open spec fn message_views(es: Seq<(String, ResponseEntry)>) -> Seq<(Seq<char>, Seq<char>)> {
    Seq::new(es.len(), |i: int| (es[i].0@, es[i].1.message@))
}

/// The message of an optional entry.
pub open spec fn opt_message(e: Option<ResponseEntry>) -> Option<Seq<char>> {
    match e {
        Some(x) => Some(x.message@),
        None => None,
    }
}

proof fn lemma_message_index(es: Seq<(String, ResponseEntry)>, k: Seq<char>)
    ensures
        seq_pair_index(message_views(es), k) == first_index(es, k),
    decreases es.len(),
{
    if es.len() > 0 {
        assert(message_views(es).drop_first() =~= message_views(es.drop_first()));
        lemma_message_index(es.drop_first(), k);
    }
}

/// Stores the message `m` under code `k`.
pub fn put_message(d: &mut Dict<ResponseEntry>, k: String, m: String)
    ensures
        message_views(final(d).entries@) == insert_pair(message_views(old(d).entries@), k@, m@),
{
    proof {
        lemma_message_index(d.entries@, k@);
        lemma_first_index(d.entries@, k@);
    }
    let ghost before = d.entries@;
    let ghost kv = k@;
    let ghost mv = m@;
    d.insert(k, ResponseEntry { message: m });
    proof {
        match first_index(before, kv) {
            Some(j) => {
                assert(message_views(d.entries@) =~= message_views(before).update(j, (kv, mv)));
            },
            None => {
                assert(message_views(d.entries@) =~= message_views(before).push((kv, mv)));
            },
        }
    }
}

// ------------------------------------------------------------------ API errors

/// Default and validation templates found among component schemas, in order:
/// the first error schema that is not about validation gives the default, the
/// last validation schema gives the `422` template.
pub open spec fn error_scan(ms: Seq<(Seq<char>, Json)>, doc: Json) -> (Option<Seq<char>>, Option<Seq<char>>)
    decreases ms.len(),
{
    if ms.len() == 0 {
        (None, None)
    } else {
        let (d, v) = error_scan(ms.drop_last(), doc);
        let name = ms.last().0;
        let schema = ms.last().1;
        if !error_schema_name(name) && !error_like_schema(schema) {
            (d, v)
        } else {
            match error_schema_template(schema, doc) {
                None => (d, v),
                Some(t) => if contains(ascii_lower(name), "validation"@) {
                    (d, Some(t))
                } else if d is None {
                    (Some(t), v)
                } else {
                    (d, v)
                },
            }
        }
    }
}

/// API-wide error templates of a document: the default and the `422` template.
pub open spec fn api_errors_of(doc: Json) -> Option<(Option<Seq<char>>, Option<Seq<char>>)> {
    match get_key(doc, "components"@) {
        Some(c) => match get_key(c, "schemas"@) {
            Some(Json::Object(ms)) => {
                let found = error_scan(ms, doc);
                if found.0 is None && found.1 is None {
                    None
                } else {
                    Some(found)
                }
            },
            _ => None,
        },
        None => None,
    }
}

/// The codes table an API error config gets from a `422` template.
pub open spec fn validation_codes(v: Option<Seq<char>>) -> Seq<(Seq<char>, Seq<char>)> {
    match v {
        Some(t) => seq![("422"@, t)],
        None => Seq::empty(),
    }
}

/// The API-wide error messages of a document, as values.
pub open spec fn api_errors_found(doc: Json) -> Option<ErrorsFound> {
    match api_errors_of(doc) {
        Some(found) => Some(ErrorsFound { default: found.0, codes: validation_codes(found.1) }),
        None => None,
    }
}

/// API-wide error messages from the error schemas under `components.schemas`.
pub fn extract_api_errors(doc: &JsonValue) -> (r: Option<ApiErrorConfig>)
    ensures
        match r {
            Some(c) => api_errors_of(doc@) matches Some(found) && opt_message(c.default) == found.0
                && message_views(c.codes.entries@) == validation_codes(found.1),
            None => api_errors_of(doc@) is None,
        },
        match r {
            Some(c) => api_errors_found(doc@) == Some(
                ErrorsFound { default: opt_message(c.default), codes: message_views(c.codes.entries@) },
            ),
            None => api_errors_found(doc@) is None,
        },
{
    let components = match doc.get_key("components") {
        Some(c) => c,
        None => {
            return None;
        },
    };
    let schemas = match components.get_key("schemas") {
        Some(s) => s,
        None => {
            return None;
        },
    };
    let ms = match as_object(schemas) {
        Some(ms) => ms,
        None => {
            return None;
        },
    };
    let ghost vs = Seq::new(ms@.len(), |i: int| (ms@[i].0@, ms@[i].1@));
    let mut default: Option<String> = None;
    let mut validation: Option<String> = None;
    let mut i: usize = 0;
    assert(vs.take(0) =~= Seq::<(Seq<char>, Json)>::empty());
    while i < ms.len()
        invariant
            vs == Seq::new(ms@.len(), |i: int| (ms@[i].0@, ms@[i].1@)),
            i <= ms@.len(),
            (match default {
                Some(d) => Some(d@),
                None => None,
            }) == error_scan(vs.take(i as int), doc@).0,
            (match validation {
                Some(v) => Some(v@),
                None => None,
            }) == error_scan(vs.take(i as int), doc@).1,
        decreases ms@.len() - i,
    {
        assert(vs.take(i + 1).drop_last() =~= vs.take(i as int));
        assert(vs.take(i + 1).last() == vs[i as int]);
        let name = ms[i].0.as_str();
        let schema = &ms[i].1;
        if is_error_schema_name(name) || looks_like_error_schema(schema) {
            match error_message_template_from_schema(schema, doc) {
                Some(t) => {
                    let lower = ascii_lower_str(name);
                    if contains_str(lower.as_str(), "validation") {
                        validation = Some(t);
                    } else if default.is_none() {
                        default = Some(t);
                    }
                },
                None => {},
            }
        }
        i = i + 1;
    }
    assert(vs.take(ms@.len() as int) =~= vs);
    if default.is_none() && validation.is_none() {
        return None;
    }
    let mut codes: Dict<ResponseEntry> = Dict::new();
    match validation {
        Some(t) => {
            put_message(&mut codes, owned("422"), t);
            assert(message_views(codes.entries@) =~= validation_codes(error_scan(vs, doc@).1));
        },
        None => {
            assert(message_views(codes.entries@) =~= validation_codes(error_scan(vs, doc@).1));
        },
    }
    let default_entry = match default {
        Some(t) => Some(ResponseEntry { message: t }),
        None => None,
    };
    Some(ApiErrorConfig { default: default_entry, codes })
}

// ------------------------------------------------------------------ responses

/// What the response entries of an operation give, read in order.
pub struct ResponseScan {
    pub success: Option<Seq<char>>,
    pub warn: Option<Seq<char>>,
    pub codes: Seq<(Seq<char>, Seq<char>)>,
    pub default: Option<Seq<char>>,
}

/// API-wide error messages as values: the default and the per-code messages.
pub struct ErrorsFound {
    pub default: Option<Seq<char>>,
    pub codes: Seq<(Seq<char>, Seq<char>)>,
}

/// The messages of an optional API error config.
pub open spec fn errors_found(e: Option<&ApiErrorConfig>) -> Option<ErrorsFound> {
    match e {
        Some(c) => Some(ErrorsFound { default: opt_message(c.default), codes: message_views(c.codes.entries@) }),
        None => None,
    }
}

/// The API error message for a status: its code's message, else the default for errors (400 and above).
pub open spec fn errors_message_for(e: ErrorsFound, status: u16) -> Option<Seq<char>> {
    match crate::dict::pair_lookup(e.codes, decimal(status as nat)) {
        Some(m) => Some(m),
        None => if status >= 400 {
            e.default
        } else {
            None
        },
    }
}

/// The API error messages already give `t` for this status.
pub open spec fn covered_by_errors(errs: Option<ErrorsFound>, status: u16, code: Seq<char>, t: Seq<char>) -> bool {
    match errs {
        Some(e) => errors_message_for(e, status) == Some(t) || (e.default == Some(t) && seq_pair_index(
            e.codes,
            code,
        ) is None),
        None => false,
    }
}

/// One response entry read into the scan.
pub open spec fn response_step(
    st: ResponseScan,
    code: Seq<char>,
    response: Json,
    root: Json,
    errs: Option<ErrorsFound>,
) -> ResponseScan {
    let res = resolved(response, root);
    if code == "default"@ {
        match error_response_template(res, root) {
            Some(t) => ResponseScan { default: Some(t), ..st },
            None => st,
        }
    } else {
        match status_code_of(code) {
            None => st,
            Some(s) => if 200 <= s < 300 {
                let t = match success_response_template(res, root) {
                    Some(t) => t,
                    None => "{status}"@,
                };
                if st.success is None {
                    ResponseScan { success: Some(t), ..st }
                } else {
                    st
                }
            } else if 300 <= s < 400 {
                let t = match success_response_template(res, root) {
                    Some(t) => t,
                    None => "Redirect ({status})"@,
                };
                if st.warn is None {
                    ResponseScan { warn: Some(t), ..st }
                } else {
                    st
                }
            } else if !(400 <= s < 600) {
                st
            } else {
                let t = match error_response_template(res, root) {
                    Some(t) => t,
                    None => "Error {status}"@,
                };
                if covered_by_errors(errs, s as u16, code, t) {
                    st
                } else {
                    ResponseScan { codes: insert_pair(st.codes, code, t), ..st }
                }
            },
        }
    }
}

/// The scan of the response entries `ms`.
pub open spec fn response_scan(ms: Seq<(Seq<char>, Json)>, root: Json, errs: Option<ErrorsFound>) -> ResponseScan
    decreases ms.len(),
{
    if ms.len() == 0 {
        ResponseScan { success: None, warn: None, codes: Seq::empty(), default: None }
    } else {
        response_step(response_scan(ms.drop_last(), root, errs), ms.last().0, ms.last().1, root, errs)
    }
}

/// The error codes tried, in order, for a failure message.
pub open spec fn fallback_codes() -> Seq<Seq<char>> {
    seq!["400"@, "401"@, "403"@, "404"@, "422"@, "500"@]
}

/// The response of the first of `codes` that `ms` lists.
pub open spec fn first_listed(ms: Seq<(Seq<char>, Json)>, codes: Seq<Seq<char>>) -> Option<Json>
    decreases codes.len(),
{
    if codes.len() == 0 {
        None
    } else {
        match member(ms, codes[0]) {
            Some(v) => Some(v),
            None => first_listed(ms, codes.drop_first()),
        }
    }
}

/// The API default error already says `t`.
pub open spec fn errors_default_is(errs: Option<ErrorsFound>, t: Seq<char>) -> bool {
    errs matches Some(e) && e.default == Some(t)
}

/// The failure message of an operation.
pub open spec fn failure_of(
    st: ResponseScan,
    ms: Seq<(Seq<char>, Json)>,
    root: Json,
    errs: Option<ErrorsFound>,
) -> Option<Seq<char>> {
    match st.default {
        Some(t) => if errors_default_is(errs, t) {
            None
        } else {
            Some(t)
        },
        None => if st.codes.len() > 0 {
            None
        } else {
            match first_listed(ms, fallback_codes()) {
                Some(first) => match error_response_template(resolved(first, root), root) {
                    Some(t) => if errors_default_is(errs, t) {
                        None
                    } else {
                        Some(t)
                    },
                    None => if errs is None {
                        Some("Error {status}"@)
                    } else {
                        None
                    },
                },
                None => if errs is None {
                    Some("Error {status}"@)
                } else {
                    None
                },
            }
        },
    }
}

/// The messages read from an operation's responses.
pub struct ResponsesFound {
    pub success: Option<Seq<char>>,
    pub failure: Option<Seq<char>>,
    pub warn: Option<Seq<char>>,
    pub codes: Seq<(Seq<char>, Seq<char>)>,
}

/// Response messages of operation `op`.
pub open spec fn responses_of(op: Json, root: Json, errs: Option<ErrorsFound>) -> Option<ResponsesFound> {
    match get_key(op, "responses"@) {
        Some(Json::Object(ms)) => {
            let st = response_scan(ms, root, errs);
            let f = failure_of(st, ms, root, errs);
            if st.success is None && f is None && st.warn is None && st.codes.len() == 0 {
                None
            } else {
                Some(ResponsesFound { success: st.success, failure: f, warn: st.warn, codes: st.codes })
            }
        },
        _ => None,
    }
}

/// The view of an optional text.
pub open spec fn opt_view(o: Option<String>) -> Option<Seq<char>> {
    match o {
        Some(s) => Some(s@),
        None => None,
    }
}

proof fn lemma_first_listed_step(ms: Seq<(Seq<char>, Json)>, codes: Seq<Seq<char>>, i: int)
    requires
        0 <= i < codes.len(),
    ensures
        first_listed(ms, codes.skip(i)) == match member(ms, codes[i]) {
            Some(v) => Some(v),
            None => first_listed(ms, codes.skip(i + 1)),
        },
{
    assert(codes.skip(i)[0] == codes[i]);
    assert(codes.skip(i).drop_first() =~= codes.skip(i + 1));
}

/// The response of the first of `400`, `401`, `403`, `404`, `422`, `500` that the responses list.
fn first_fallback_response<'a>(responses: &'a JsonValue) -> (r: Option<&'a JsonValue>)
    requires
        responses@ is Object,
    ensures
        match r {
            Some(v) => first_listed(responses@->Object_0, fallback_codes()) == Some(v@),
            None => first_listed(responses@->Object_0, fallback_codes()) is None,
        },
{
    let ghost ms = responses@->Object_0;
    let ghost cs = fallback_codes();
    proof {
        reveal_strlit("400");
        reveal_strlit("401");
        reveal_strlit("403");
        reveal_strlit("404");
        reveal_strlit("422");
        reveal_strlit("500");
        assert(cs.skip(0) =~= cs);
        assert(cs.skip(6).len() == 0);
        lemma_first_listed_step(ms, cs, 0);
        lemma_first_listed_step(ms, cs, 1);
        lemma_first_listed_step(ms, cs, 2);
        lemma_first_listed_step(ms, cs, 3);
        lemma_first_listed_step(ms, cs, 4);
        lemma_first_listed_step(ms, cs, 5);
    }
    match responses.get_key("400") {
        Some(v) => {
            return Some(v);
        },
        None => {},
    }
    match responses.get_key("401") {
        Some(v) => {
            return Some(v);
        },
        None => {},
    }
    match responses.get_key("403") {
        Some(v) => {
            return Some(v);
        },
        None => {},
    }
    match responses.get_key("404") {
        Some(v) => {
            return Some(v);
        },
        None => {},
    }
    match responses.get_key("422") {
        Some(v) => {
            return Some(v);
        },
        None => {},
    }
    responses.get_key("500")
}

/// Whether the API errors already give `t` for this status.
fn covered(api_errors: Option<&ApiErrorConfig>, status: u16, code: &str, t: &str) -> (r: bool)
    ensures
        r == covered_by_errors(errors_found(api_errors), status, code@, t@),
{
    match api_errors {
        Some(e) => {
            let code_text = u16_decimal(status);
            proof {
                lemma_message_index(e.codes.entries@, code_text@);
                lemma_first_index(e.codes.entries@, code_text@);
                lemma_message_index(e.codes.entries@, code@);
                lemma_first_index(e.codes.entries@, code@);
            }
            let by_status = match e.get_entry_for_status(status) {
                Some(x) => str_eq(x.message.as_str(), t),
                None => false,
            };
            if by_status {
                return true;
            }
            let by_default = match &e.default {
                Some(d) => str_eq(d.message.as_str(), t),
                None => false,
            };
            by_default && !e.codes.contains_key(code)
        },
        None => false,
    }
}

/// Whether the API default error already says `t`.
fn default_says(api_errors: Option<&ApiErrorConfig>, t: &str) -> (r: bool)
    ensures
        r == errors_default_is(errors_found(api_errors), t@),
{
    match api_errors {
        Some(e) => match &e.default {
            Some(d) => str_eq(d.message.as_str(), t),
            None => false,
        },
        None => false,
    }
}

/// Response messages of an operation: the first 2xx gives the success message,
/// the first 3xx the warning, each 4xx/5xx its own entry unless the API errors
/// already say the same, and `default` (or, failing that, a listed error code)
/// the failure message.
pub fn extract_responses(op: &JsonValue, root: &JsonValue, api_errors: Option<&ApiErrorConfig>) -> (r:
    Option<ResponseConfig>)
    ensures
        match r {
            Some(c) => responses_of(op@, root@, errors_found(api_errors)) == Some(
                ResponsesFound {
                    success: opt_message(c.success),
                    failure: opt_message(c.failure),
                    warn: opt_message(c.warn),
                    codes: message_views(c.codes.entries@),
                },
            ),
            None => responses_of(op@, root@, errors_found(api_errors)) is None,
        },
{
    let responses = match op.get_key("responses") {
        Some(x) => x,
        None => {
            return None;
        },
    };
    let ms = match as_object(responses) {
        Some(ms) => ms,
        None => {
            return None;
        },
    };
    let ghost errs = errors_found(api_errors);
    let ghost vs = Seq::new(ms@.len(), |i: int| (ms@[i].0@, ms@[i].1@));
    let mut success: Option<String> = None;
    let mut warn: Option<String> = None;
    let mut codes: Dict<ResponseEntry> = Dict::new();
    let mut default_template: Option<String> = None;
    let mut i: usize = 0;
    assert(vs.take(0) =~= Seq::<(Seq<char>, Json)>::empty());
    assert(message_views(codes.entries@) =~= Seq::<(Seq<char>, Seq<char>)>::empty());
    while i < ms.len()
        invariant
            vs == Seq::new(ms@.len(), |i: int| (ms@[i].0@, ms@[i].1@)),
            errs == errors_found(api_errors),
            i <= ms@.len(),
            opt_view(success) == response_scan(vs.take(i as int), root@, errs).success,
            opt_view(warn) == response_scan(vs.take(i as int), root@, errs).warn,
            opt_view(default_template) == response_scan(vs.take(i as int), root@, errs).default,
            message_views(codes.entries@) == response_scan(vs.take(i as int), root@, errs).codes,
        decreases ms@.len() - i,
    {
        assert(vs.take(i + 1).drop_last() =~= vs.take(i as int));
        assert(vs.take(i + 1).last() == vs[i as int]);
        let code = ms[i].0.as_str();
        let res = resolve_value(&ms[i].1, root);
        if str_eq(code, "default") {
            match error_message_template_from_response(res, root) {
                Some(t) => {
                    default_template = Some(t);
                },
                None => {},
            }
        } else {
            match parse_response_status_code(code) {
                None => {},
                Some(status) => {
                    if 200 <= status && status < 300 {
                        let t = match success_message_template_from_response(res, root) {
                            Some(t) => t,
                            None => owned("{status}"),
                        };
                        if success.is_none() {
                            success = Some(t);
                        }
                    } else if 300 <= status && status < 400 {
                        let t = match success_message_template_from_response(res, root) {
                            Some(t) => t,
                            None => owned("Redirect ({status})"),
                        };
                        if warn.is_none() {
                            warn = Some(t);
                        }
                    } else if 400 <= status && status < 600 {
                        let t = match error_message_template_from_response(res, root) {
                            Some(t) => t,
                            None => owned("Error {status}"),
                        };
                        if !covered(api_errors, status, code, t.as_str()) {
                            put_message(&mut codes, ms[i].0.clone(), t);
                        }
                    }
                },
            }
        }
        i = i + 1;
    }
    assert(vs.take(ms@.len() as int) =~= vs);
    let failure: Option<String> = match default_template {
        Some(t) => if default_says(api_errors, t.as_str()) {
            None
        } else {
            Some(t)
        },
        None => if codes.len() > 0 {
            None
        } else {
            match first_fallback_response(responses) {
                Some(first) => {
                    let res = resolve_value(first, root);
                    match error_message_template_from_response(res, root) {
                        Some(t) => if default_says(api_errors, t.as_str()) {
                            None
                        } else {
                            Some(t)
                        },
                        None => if api_errors.is_none() {
                            Some(owned("Error {status}"))
                        } else {
                            None
                        },
                    }
                },
                None => if api_errors.is_none() {
                    Some(owned("Error {status}"))
                } else {
                    None
                },
            }
        },
    };
    assert(vs == responses@->Object_0);
    if success.is_none() && failure.is_none() && warn.is_none() && codes.len() == 0 {
        return None;
    }
    Some(ResponseConfig { success: entry_of(success), failure: entry_of(failure), warn: entry_of(warn), codes })
}

/// An optional message as an optional entry.
fn entry_of(o: Option<String>) -> (e: Option<ResponseEntry>)
    ensures
        opt_message(e) == opt_view(o),
{
    match o {
        Some(m) => Some(ResponseEntry { message: m }),
        None => None,
    }
}

} // verus!
