//! Response message templates read from OpenAPI response schemas.

use vstd::prelude::*;

use crate::json::{get_key, member, str_member, str_member_of, Json, JsonValue};

use crate::openapi_importer::refs::{resolve_value, resolved};
use crate::text::{contains, contains_str, owned, str_eq, trim, trim_str};

verus! {

broadcast use vstd::std_specs::vec::group_vec_axioms;

/// The members of an object.
pub open spec fn obj_members(v: Json) -> Option<Seq<(Seq<char>, Json)>> {
    match v {
        Json::Object(ms) => Some(ms),
        _ => None,
    }
}

/// An object member has key `k`.
pub open spec fn has_member(ms: Seq<(Seq<char>, Json)>, k: Seq<char>) -> bool {
    member(ms, k) is Some
}

/// `schema.properties.<key>.type` is `"string"`.
pub open spec fn string_property(schema: Json, key: Seq<char>) -> bool {
    match get_key(schema, "properties"@) {
        Some(props) => match get_key(props, key) {
            Some(p) => str_member(p, "type"@) == Some("string"@),
            None => false,
        },
        None => false,
    }
}

/// Template for a validation-error schema: one whose `errors` items carry a `message`.
pub open spec fn validation_template(schema: Json) -> Option<Seq<char>> {
    match get_key(schema, "properties"@) {
        None => None,
        Some(props) => match get_key(props, "errors"@) {
            None => None,
            Some(errors) => match get_key(errors, "items"@) {
                None => None,
                Some(items) => match get_key(items, "properties"@) {
                    Some(Json::Object(ip)) => {
                        if !has_member(ip, "message"@) {
                            None
                        } else if string_property(schema, "message"@) {
                            if has_member(ip, "field"@) {
                                Some("{output.message} ({output.errors.0.field}: {output.errors.0.message})"@)
                            } else {
                                Some("{output.message} ({output.errors.0.message})"@)
                            }
                        } else if has_member(ip, "field"@) {
                            Some("{output.errors.0.field}: {output.errors.0.message}"@)
                        } else {
                            Some("{output.errors.0.message}"@)
                        }
                    },
                    _ => None,
                },
            },
        },
    }
}

/// Template for an error schema: the validation template, else the first of
/// `message`, `detail`, `error`, `title` that is a string property.
pub open spec fn error_schema_template(schema: Json, root: Json) -> Option<Seq<char>> {
    let s = resolved(schema, root);
    match validation_template(s) {
        Some(t) => Some(t),
        None => if string_property(s, "message"@) {
            Some("{output.message}"@)
        } else if string_property(s, "detail"@) {
            Some("{output.detail}"@)
        } else if string_property(s, "error"@) {
            Some("{output.error}"@)
        } else if string_property(s, "title"@) {
            Some("{output.title}"@)
        } else {
            None
        },
    }
}

/// `{output.<name>}`, or `{output.<prefix>.<name>}` under a prefix.
pub open spec fn field_path(prefix: Seq<char>, name: Seq<char>) -> Seq<char> {
    if prefix.len() == 0 {
        "{output."@ + name + "}"@
    } else {
        "{output."@ + prefix + "."@ + name + "}"@
    }
}

/// The first of `keys` that the properties `props` hold.
pub open spec fn first_present(props: Seq<(Seq<char>, Json)>, keys: Seq<Seq<char>>) -> Option<Seq<char>>
    decreases keys.len(),
{
    if keys.len() == 0 {
        None
    } else if has_member(props, keys[0]) {
        Some(keys[0])
    } else {
        first_present(props, keys.drop_first())
    }
}

/// The property names a success message prefers, in order.
pub open spec fn success_keys() -> Seq<Seq<char>> {
    seq!["title"@, "name"@, "login"@, "number"@, "id"@, "key"@, "sha"@, "url"@]
}

/// Success template for an object schema.
pub open spec fn object_success_template(schema: Json, root: Json, prefix: Seq<char>) -> Option<Seq<char>> {
    let s = resolved(schema, root);
    match get_key(s, "properties"@) {
        Some(Json::Object(props)) => {
            if has_member(props, "number"@) && has_member(props, "title"@) {
                Some("#"@ + field_path(prefix, "number"@) + ": "@ + field_path(prefix, "title"@))
            } else if has_member(props, "id"@) && has_member(props, "name"@) {
                Some(field_path(prefix, "name"@) + " ("@ + field_path(prefix, "id"@) + ")"@)
            } else {
                match first_present(props, success_keys()) {
                    Some(k) => Some(field_path(prefix, k)),
                    None => None,
                }
            }
        },
        _ => None,
    }
}

/// Success template for a schema: arrays describe their first item.
pub open spec fn success_schema_template(schema: Json, root: Json) -> Option<Seq<char>> {
    let s = resolved(schema, root);
    if str_member(s, "type"@) == Some("array"@) {
        match get_key(s, "items"@) {
            Some(items) => object_success_template(items, root, "0"@),
            None => None,
        }
    } else {
        object_success_template(s, root, Seq::empty())
    }
}

/// Index of the first member whose key contains `a` or `b`.
pub open spec fn first_media(ms: Seq<(Seq<char>, Json)>, a: Seq<char>, b: Seq<char>) -> Option<int>
    decreases ms.len(),
{
    if ms.len() == 0 {
        None
    } else if contains(ms[0].0, a) || contains(ms[0].0, b) {
        Some(0)
    } else {
        match first_media(ms.drop_first(), a, b) {
            Some(i) => Some(i + 1),
            None => None,
        }
    }
}

/// The member whose key contains `a` or `b`, else the first member.
pub open spec fn pick_media(ms: Seq<(Seq<char>, Json)>, a: Seq<char>, b: Seq<char>) -> Option<(Seq<char>, Json)> {
    match first_media(ms, a, b) {
        Some(i) => Some(ms[i]),
        None => if ms.len() > 0 {
            Some(ms[0])
        } else {
            None
        },
    }
}

/// The (resolved) schema of a response's JSON (or problem) content.
pub open spec fn response_schema(response: Json, root: Json) -> Option<Json> {
    match get_key(response, "content"@) {
        Some(Json::Object(ms)) => match pick_media(ms, "json"@, "problem"@) {
            Some(m) => match get_key(m.1, "schema"@) {
                Some(s) => Some(resolved(s, root)),
                None => None,
            },
            None => None,
        },
        _ => None,
    }
}

/// Error template of a response: from its schema, else from its description.
pub open spec fn error_response_template(response: Json, root: Json) -> Option<Seq<char>> {
    let from_schema = match response_schema(response, root) {
        Some(s) => error_schema_template(s, root),
        None => None,
    };
    match from_schema {
        Some(t) => Some(t),
        None => match str_member(response, "description"@) {
            Some(d) => {
                let t = trim(d);
                if t.len() == 0 {
                    None
                } else if contains(t, "{output."@) || contains(t, "{status}"@) {
                    Some(t)
                } else {
                    Some(t + " ({status})"@)
                }
            },
            None => None,
        },
    }
}

/// Success template of a response, from its schema.
pub open spec fn success_response_template(response: Json, root: Json) -> Option<Seq<char>> {
    match response_schema(response, root) {
        Some(s) => success_schema_template(s, root),
        None => None,
    }
}

/// A schema with a string `message`, `detail` or `error` property.
pub open spec fn error_like_schema(schema: Json) -> bool {
    string_property(schema, "message"@) || string_property(schema, "detail"@) || string_property(
        schema,
        "error"@,
    )
}

/// The members of `v`, where it is an object.
pub fn as_object(v: &JsonValue) -> (r: Option<&Vec<(String, JsonValue)>>)
    ensures
        match r {
            Some(ms) => obj_members(v@) == Some(
                Seq::new(ms@.len(), |i: int| (ms@[i].0@, ms@[i].1@)),
            ),
            None => obj_members(v@) is None,
        },
{
    match v {
        JsonValue::Object(ms) => {
            proof {
                assert(obj_members(v@)->0 =~= Seq::new(ms@.len(), |i: int| (ms@[i].0@, ms@[i].1@)));
            }
            Some(ms)
        },
        _ => None,
    }
}

/// Whether an object holds key `k`.
pub fn has_member_exec(v: &JsonValue, k: &str) -> (r: bool)
    requires
        v@ is Object,
    ensures
        r == has_member(obj_members(v@)->0, k@),
{
    v.get_key(k).is_some()
}

/// `schema.properties.<key>.type == "string"`.
pub fn schema_has_string_property(schema: &JsonValue, key: &str) -> (r: bool)
    ensures
        r == string_property(schema@, key@),
{
    match schema.get_key("properties") {
        Some(props) => match props.get_key(key) {
            Some(p) => match str_member_of(p, "type") {
                Some(t) => str_eq(t, "string"),
                None => false,
            },
            None => false,
        },
        None => false,
    }
}

/// Template for a validation-error schema.
pub fn validation_error_template(schema: &JsonValue) -> (r: Option<String>)
    ensures
        match r {
            Some(t) => validation_template(schema@) == Some(t@),
            None => validation_template(schema@) is None,
        },
{
    let props = match schema.get_key("properties") {
        Some(p) => p,
        None => {
            return None;
        },
    };
    let errors = match props.get_key("errors") {
        Some(e) => e,
        None => {
            return None;
        },
    };
    let items = match errors.get_key("items") {
        Some(i) => i,
        None => {
            return None;
        },
    };
    let item_props = match items.get_key("properties") {
        Some(p) => p,
        None => {
            return None;
        },
    };
    let is_obj = match item_props {
        JsonValue::Object(_) => true,
        _ => false,
    };
    if !is_obj {
        return None;
    }
    if !has_member_exec(item_props, "message") {
        return None;
    }
    let has_field = has_member_exec(item_props, "field");
    if schema_has_string_property(schema, "message") {
        if has_field {
            return Some(owned("{output.message} ({output.errors.0.field}: {output.errors.0.message})"));
        }
        return Some(owned("{output.message} ({output.errors.0.message})"));
    }
    if has_field {
        return Some(owned("{output.errors.0.field}: {output.errors.0.message}"));
    }
    Some(owned("{output.errors.0.message}"))
}

/// Template for an error schema (after `$ref` resolution).
pub fn error_message_template_from_schema(schema: &JsonValue, root: &JsonValue) -> (r: Option<String>)
    ensures
        match r {
            Some(t) => error_schema_template(schema@, root@) == Some(t@),
            None => error_schema_template(schema@, root@) is None,
        },
{
    let s = resolve_value(schema, root);
    match validation_error_template(s) {
        Some(t) => {
            return Some(t);
        },
        None => {},
    }
    if schema_has_string_property(s, "message") {
        Some(owned("{output.message}"))
    } else if schema_has_string_property(s, "detail") {
        Some(owned("{output.detail}"))
    } else if schema_has_string_property(s, "error") {
        Some(owned("{output.error}"))
    } else if schema_has_string_property(s, "title") {
        Some(owned("{output.title}"))
    } else {
        None
    }
}

/// `{output.<name>}` or `{output.<prefix>.<name>}`.
fn field_path_exec(prefix: &str, name: &str) -> (r: String)
    ensures
        r@ == field_path(prefix@, name@),
{
    let mut s = owned("{output.");
    if !prefix.is_empty() {
        s.append(prefix);
        s.append(".");
    }
    s.append(name);
    s.append("}");
    proof {
        if prefix@.len() == 0 {
            assert(s@ =~= "{output."@ + name@ + "}"@);
        } else {
            assert(s@ =~= "{output."@ + prefix@ + "."@ + name@ + "}"@);
        }
    }
    s
}

/// Success template for an object schema.
pub fn success_message_template_from_object_schema(schema: &JsonValue, root: &JsonValue, prefix: &str) -> (r:
    Option<String>)
    ensures
        match r {
            Some(t) => object_success_template(schema@, root@, prefix@) == Some(t@),
            None => object_success_template(schema@, root@, prefix@) is None,
        },
{
    let s = resolve_value(schema, root);
    let props = match s.get_key("properties") {
        Some(p) => p,
        None => {
            return None;
        },
    };
    let is_obj = match props {
        JsonValue::Object(_) => true,
        _ => false,
    };
    if !is_obj {
        return None;
    }
    if has_member_exec(props, "number") && has_member_exec(props, "title") {
        let mut t = owned("#");
        t.append(field_path_exec(prefix, "number").as_str());
        t.append(": ");
        t.append(field_path_exec(prefix, "title").as_str());
        return Some(t);
    }
    if has_member_exec(props, "id") && has_member_exec(props, "name") {
        let mut t = field_path_exec(prefix, "name");
        t.append(" (");
        t.append(field_path_exec(prefix, "id").as_str());
        t.append(")");
        return Some(t);
    }
    proof {
        reveal_strlit("title");
        reveal_strlit("name");
        reveal_strlit("login");
        reveal_strlit("number");
        reveal_strlit("id");
        reveal_strlit("key");
        reveal_strlit("sha");
        reveal_strlit("url");
        reveal_with_fuel(first_present, 9);
    }
    let key = if has_member_exec(props, "title") {
        "title"
    } else if has_member_exec(props, "name") {
        "name"
    } else if has_member_exec(props, "login") {
        "login"
    } else if has_member_exec(props, "number") {
        "number"
    } else if has_member_exec(props, "id") {
        "id"
    } else if has_member_exec(props, "key") {
        "key"
    } else if has_member_exec(props, "sha") {
        "sha"
    } else if has_member_exec(props, "url") {
        "url"
    } else {
        return None;
    };
    Some(field_path_exec(prefix, key))
}

/// Success template for a schema (arrays describe their first item).
pub fn success_message_template_from_schema(schema: &JsonValue, root: &JsonValue) -> (r: Option<String>)
    ensures
        match r {
            Some(t) => success_schema_template(schema@, root@) == Some(t@),
            None => success_schema_template(schema@, root@) is None,
        },
{
    let s = resolve_value(schema, root);
    proof {
        reveal_strlit("");
        assert(""@ =~= Seq::<char>::empty());
    }
    let is_array = match str_member_of(s, "type") {
        Some(t) => str_eq(t, "array"),
        None => false,
    };
    if is_array {
        match s.get_key("items") {
            Some(items) => success_message_template_from_object_schema(items, root, "0"),
            None => None,
        }
    } else {
        success_message_template_from_object_schema(s, root, "")
    }
}

proof fn lemma_first_media_at(ms: Seq<(Seq<char>, Json)>, a: Seq<char>, b: Seq<char>, i: int)
    requires
        0 <= i < ms.len(),
        contains(ms[i].0, a) || contains(ms[i].0, b),
        forall|j: int| 0 <= j < i ==> !(contains((#[trigger] ms[j]).0, a) || contains(ms[j].0, b)),
    ensures
        first_media(ms, a, b) == Some(i),
    decreases i,
{
    if i > 0 {
        assert forall|j: int| 0 <= j < i - 1 implies !(contains((#[trigger] ms.drop_first()[j]).0, a)
            || contains(ms.drop_first()[j].0, b)) by {
            assert(ms.drop_first()[j] == ms[j + 1]);
        }
        assert(!(contains(ms[0].0, a) || contains(ms[0].0, b)));
        lemma_first_media_at(ms.drop_first(), a, b, i - 1);
    }
}

proof fn lemma_first_media_none(ms: Seq<(Seq<char>, Json)>, a: Seq<char>, b: Seq<char>)
    requires
        forall|j: int| 0 <= j < ms.len() ==> !(contains((#[trigger] ms[j]).0, a) || contains(ms[j].0, b)),
    ensures
        first_media(ms, a, b) is None,
    decreases ms.len(),
{
    if ms.len() > 0 {
        assert forall|j: int| 0 <= j < ms.drop_first().len() implies !(contains(
            (#[trigger] ms.drop_first()[j]).0,
            a,
        ) || contains(ms.drop_first()[j].0, b)) by {
            assert(ms.drop_first()[j] == ms[j + 1]);
        }
        lemma_first_media_none(ms.drop_first(), a, b);
    }
}

/// The member of `ms` whose key contains `a` or `b`, else the first member.
pub fn pick_media_exec<'x>(ms: &'x Vec<(String, JsonValue)>, a: &str, b: &str) -> (r: Option<
    &'x (String, JsonValue),
>)
    ensures
        match r {
            Some(m) => pick_media(Seq::new(ms@.len(), |i: int| (ms@[i].0@, ms@[i].1@)), a@, b@) == Some(
                (m.0@, m.1@),
            ),
            None => pick_media(Seq::new(ms@.len(), |i: int| (ms@[i].0@, ms@[i].1@)), a@, b@) is None,
        },
{
    let ghost vs = Seq::new(ms@.len(), |i: int| (ms@[i].0@, ms@[i].1@));
    let mut i: usize = 0;
    while i < ms.len()
        invariant
            vs == Seq::new(ms@.len(), |i: int| (ms@[i].0@, ms@[i].1@)),
            i <= ms@.len(),
            forall|j: int| 0 <= j < i ==> !(contains((#[trigger] vs[j]).0, a@) || contains(vs[j].0, b@)),
        decreases ms@.len() - i,
    {
        if contains_str(ms[i].0.as_str(), a) || contains_str(ms[i].0.as_str(), b) {
            proof {
                lemma_first_media_at(vs, a@, b@, i as int);
            }
            return Some(&ms[i]);
        }
        i = i + 1;
    }
    proof {
        lemma_first_media_none(vs, a@, b@);
    }
    if ms.len() > 0 {
        Some(&ms[0])
    } else {
        None
    }
}

/// The resolved schema of a response's JSON (or problem) content.
pub fn response_json_schema<'a>(response: &'a JsonValue, root: &'a JsonValue) -> (r: Option<&'a JsonValue>)
    ensures
        match r {
            Some(s) => response_schema(response@, root@) == Some(s@),
            None => response_schema(response@, root@) is None,
        },
{
    let content = match response.get_key("content") {
        Some(c) => c,
        None => {
            return None;
        },
    };
    let ms = match as_object(content) {
        Some(ms) => ms,
        None => {
            return None;
        },
    };
    let media = match pick_media_exec(ms, "json", "problem") {
        Some(m) => m,
        None => {
            return None;
        },
    };
    match media.1.get_key("schema") {
        Some(s) => Some(resolve_value(s, root)),
        None => None,
    }
}

/// Error template of a response: from its schema, else from its description
/// (with ` ({status})` appended unless it already uses a placeholder).
pub fn error_message_template_from_response(response: &JsonValue, root: &JsonValue) -> (r: Option<String>)
    ensures
        match r {
            Some(t) => error_response_template(response@, root@) == Some(t@),
            None => error_response_template(response@, root@) is None,
        },
{
    match response_json_schema(response, root) {
        Some(schema) => match error_message_template_from_schema(schema, root) {
            Some(t) => {
                return Some(t);
            },
            None => {},
        },
        None => {},
    }
    match str_member_of(response, "description") {
        Some(d) => {
            let t = trim_str(d);
            if t.as_str().is_empty() {
                None
            } else if contains_str(t.as_str(), "{output.") || contains_str(t.as_str(), "{status}") {
                Some(t)
            } else {
                let mut m = t;
                m.append(" ({status})");
                Some(m)
            }
        },
        None => None,
    }
}

/// Success template of a response, from its schema.
pub fn success_message_template_from_response(response: &JsonValue, root: &JsonValue) -> (r: Option<String>)
    ensures
        match r {
            Some(t) => success_response_template(response@, root@) == Some(t@),
            None => success_response_template(response@, root@) is None,
        },
{
    match response_json_schema(response, root) {
        Some(schema) => success_message_template_from_schema(schema, root),
        None => None,
    }
}

/// A schema with a string `message`, `detail` or `error` property.
pub fn looks_like_error_schema(schema: &JsonValue) -> (r: bool)
    ensures
        r == error_like_schema(schema@),
{
    schema_has_string_property(schema, "message") || schema_has_string_property(schema, "detail")
        || schema_has_string_property(schema, "error")
}

} // verus!
