//! Local `$ref` pointers (`#/components/...`) within an OpenAPI document.

use vstd::prelude::*;
use crate::json::{get_key, str_member, str_member_of, Json, JsonValue};
use crate::text::{
    from_chars_range, replace_all, replace_str, split_char, split_on, starts_with, starts_with_str,
    to_chars,
};

verus! {

broadcast use vstd::std_specs::vec::group_vec_axioms;

/// A JSON pointer token with its escapes undone (`~1` is `/`, then `~0` is `~`).
pub open spec fn decode_token(s: Seq<char>) -> Seq<char> {
    replace_all(replace_all(s, "~1"@, "/"@), "~0"@, "~"@)
}

/// The value reached from `cur` by following the object keys `tokens`.
pub open spec fn walk(cur: Json, tokens: Seq<Seq<char>>) -> Option<Json>
    decreases tokens.len(),
{
    if tokens.len() == 0 {
        Some(cur)
    } else {
        match get_key(cur, decode_token(tokens[0])) {
            Some(next) => walk(next, tokens.drop_first()),
            None => None,
        }
    }
}

/// The value a local `$ref` of `v` points at in `root`.
pub open spec fn ref_target(v: Json, root: Json) -> Option<Json> {
    match str_member(v, "$ref"@) {
        Some(p) => if starts_with(p, "#/"@) {
            walk(root, split_on(p.skip(2), '/'))
        } else {
            None
        },
        None => None,
    }
}

/// Following `$ref` pointers from `v`, at most 33 of them: the last value reached.
pub open spec fn resolve_from(v: Json, root: Json, depth: nat) -> Option<Json>
    decreases 33 - depth,
{
    if depth > 32 {
        None
    } else {
        match ref_target(v, root) {
            Some(t) => match resolve_from(t, root, depth + 1) {
                Some(x) => Some(x),
                None => Some(t),
            },
            None => None,
        }
    }
}

/// `v` with its `$ref` chain followed; `v` itself where it has no local `$ref`
/// that resolves.
pub open spec fn resolved(v: Json, root: Json) -> Json {
    match resolve_from(v, root, 0) {
        Some(x) => x,
        None => v,
    }
}

/// The value `p` points at, for a `#/`-pointer `p`.
fn pointer_target<'a>(root: &'a JsonValue, p: &str) -> (r: Option<&'a JsonValue>)
    requires
        starts_with(p@, "#/"@),
    ensures
        match r {
            Some(t) => walk(root@, split_on(p@.skip(2), '/')) == Some(t@),
            None => walk(root@, split_on(p@.skip(2), '/')) is None,
        },
{
    proof {
        reveal_strlit("#/");
    }
    let v = to_chars(p);
    let rest = from_chars_range(&v, 2, v.len());
    assert(rest@ =~= p@.skip(2));
    let tokens = split_char(rest.as_str(), '/');
    let ghost ts = split_on(p@.skip(2), '/');
    let mut cur = root;
    let mut i: usize = 0;
    assert(ts.skip(0) =~= ts);
    while i < tokens.len()
        invariant
            ts == split_on(p@.skip(2), '/'),
            tokens@.len() == ts.len(),
            forall|k: int| 0 <= k < ts.len() ==> (#[trigger] tokens@[k])@ == ts[k],
            i <= tokens@.len(),
            walk(root@, ts) == walk(cur@, ts.skip(i as int)),
        decreases tokens@.len() - i,
    {
        let d1 = replace_str(tokens[i].as_str(), "~1", "/");
        let d = replace_str(d1.as_str(), "~0", "~");
        assert(ts.skip(i as int)[0] == ts[i as int]);
        assert(ts.skip(i as int).drop_first() =~= ts.skip(i + 1));
        match cur.get_key(d.as_str()) {
            Some(next) => {
                cur = next;
            },
            None => {
                assert(d@ == decode_token(ts.skip(i as int)[0]));
                return None;
            },
        }
        i = i + 1;
    }
    assert(ts.skip(i as int).len() == 0);
    Some(cur)
}

/// The value the local `$ref` of `value` points at.
fn ref_target_of<'a>(value: &'a JsonValue, root: &'a JsonValue) -> (r: Option<&'a JsonValue>)
    ensures
        match r {
            Some(t) => ref_target(value@, root@) == Some(t@),
            None => ref_target(value@, root@) is None,
        },
{
    let p = match str_member_of(value, "$ref") {
        Some(p) => p,
        None => {
            return None;
        },
    };
    if !starts_with_str(p, "#/") {
        return None;
    }
    pointer_target(root, p)
}

fn resolve_depth<'a>(value: &'a JsonValue, root: &'a JsonValue, depth: usize) -> (r: Option<&'a JsonValue>)
    requires
        depth <= 33,
    ensures
        match r {
            Some(x) => resolve_from(value@, root@, depth as nat) == Some(x@),
            None => resolve_from(value@, root@, depth as nat) is None,
        },
    decreases 33 - depth,
{
    if depth > 32 {
        return None;
    }
    match ref_target_of(value, root) {
        Some(t) => match resolve_depth(t, root, depth + 1) {
            Some(x) => Some(x),
            None => Some(t),
        },
        None => None,
    }
}

/// `value` with its local `$ref` chain followed (at most 33 pointers); `value`
/// itself where there is no pointer that resolves.
pub fn resolve_value<'a>(value: &'a JsonValue, root: &'a JsonValue) -> (r: &'a JsonValue)
    ensures
        r@ == resolved(value@, root@),
{
    match resolve_depth(value, root, 0) {
        Some(x) => x,
        None => value,
    }
}

} // verus!
