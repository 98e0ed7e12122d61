//! The allowed values a parameter schema lists in `enum`, found through
//! `$ref` pointers and `allOf` / `anyOf` / `oneOf` subschemas.

use vstd::prelude::*;
use crate::json::{get_key, Json, JsonValue};
use crate::openapi_importer::operations::text_views;
use crate::openapi_importer::refs::{resolve_value, resolved};
use crate::text::owned;

verus! {

broadcast use vstd::std_specs::vec::group_vec_axioms;

/// The text an `enum` entry stands for: a string as it is, a number by its
/// JSON text, a boolean as `true` or `false`; nothing for other entries.
pub open spec fn enum_text(v: Json) -> Option<Seq<char>> {
    match v {
        Json::Str(s) => Some(s),
        Json::Number(n) => Some(n),
        Json::Bool(b) => Some(
            if b {
                "true"@
            } else {
                "false"@
            },
        ),
        _ => None,
    }
}

/// The texts of the entries of an `enum` array, in order; other entries skipped.
pub open spec fn enum_texts(items: Seq<Json>) -> Seq<Seq<char>>
    decreases items.len(),
{
    if items.len() == 0 {
        Seq::empty()
    } else {
        let p = enum_texts(items.drop_last());
        match enum_text(items.last()) {
            Some(t) => p.push(t),
            None => p,
        }
    }
}

/// The texts of an `enum` value: present only for an array with at least one
/// string, number or boolean entry.
pub open spec fn enum_list(v: Json) -> Option<Seq<Seq<char>>> {
    match v {
        Json::Array(items) => if enum_texts(items).len() > 0 {
            Some(enum_texts(items))
        } else {
            None
        },
        _ => None,
    }
}

/// The values a schema lists in its own `enum`.
pub open spec fn own_enum(s: Json) -> Option<Seq<Seq<char>>> {
    match get_key(s, "enum"@) {
        Some(v) => enum_list(v),
        None => None,
    }
}

/// The items of an array value; none for anything else.
pub open spec fn array_items(v: Option<Json>) -> Seq<Json> {
    match v {
        Some(Json::Array(items)) => items,
        _ => Seq::empty(),
    }
}

/// The subschemas of a schema: those of `allOf`, then `anyOf`, then `oneOf`.
pub open spec fn composite_items(s: Json) -> Seq<Json> {
    array_items(get_key(s, "allOf"@)) + array_items(get_key(s, "anyOf"@)) + array_items(
        get_key(s, "oneOf"@),
    )
}

/// The first `enum` list met searching `schema` (its `$ref` followed) and then,
/// depth first, its subschemas, going at most `fuel` schemas deep: `Some(found)`
/// where the search ends within that depth, `None` where it does not.
pub open spec fn enum_search(schema: Json, root: Json, fuel: nat) -> Option<Option<Seq<Seq<char>>>>
    decreases fuel, 0nat,
{
    if fuel == 0 {
        None
    } else {
        let s = resolved(schema, root);
        match own_enum(s) {
            Some(e) => Some(Some(e)),
            None => enum_first(composite_items(s), root, (fuel - 1) as nat),
        }
    }
}

/// The first `enum` list met searching the schemas `items` in order.
pub open spec fn enum_first(items: Seq<Json>, root: Json, fuel: nat) -> Option<Option<Seq<Seq<char>>>>
    decreases fuel, items.len(),
{
    if items.len() == 0 {
        Some(None)
    } else {
        match enum_search(items[0], root, fuel) {
            Some(None) => enum_first(items.drop_first(), root, fuel),
            r => r,
        }
    }
}

/// The search of `schema` for an `enum` list ends: it meets no `$ref` cycle
/// through the subschemas.
pub open spec fn enum_search_ends(schema: Json, root: Json) -> bool {
    exists|n: nat| (#[trigger] enum_search(schema, root, n)) is Some
}

/// The first `enum` list of `schema`, where its search ends.
pub open spec fn enum_values_of(schema: Json, root: Json) -> Option<Seq<Seq<char>>> {
    enum_search(schema, root, choose|n: nat| (#[trigger] enum_search(schema, root, n)) is Some)->0
}

proof fn lemma_search_fuel(schema: Json, root: Json, n: nat, m: nat)
    requires
        enum_search(schema, root, n) is Some,
        n <= m,
    ensures
        enum_search(schema, root, m) == enum_search(schema, root, n),
    decreases n, 0nat,
{
    if n > 0 {
        let s = resolved(schema, root);
        if own_enum(s) is None {
            lemma_first_fuel(composite_items(s), root, (n - 1) as nat, (m - 1) as nat);
        }
    }
}

proof fn lemma_first_fuel(items: Seq<Json>, root: Json, n: nat, m: nat)
    requires
        enum_first(items, root, n) is Some,
        n <= m,
    ensures
        enum_first(items, root, m) == enum_first(items, root, n),
    decreases n, items.len(),
{
    if items.len() > 0 {
        lemma_search_fuel(items[0], root, n, m);
        if enum_search(items[0], root, n) == Some::<Option<Seq<Seq<char>>>>(None) {
            lemma_first_fuel(items.drop_first(), root, n, m);
        }
    }
}

/// The texts of an `enum` array; `None` for a value that is not an array or
/// has no string, number or boolean entry.
pub fn enum_array_to_strings(value: &JsonValue) -> (r: Option<Vec<String>>)
    ensures
        match r {
            Some(v) => enum_list(value@) == Some(text_views(v@)),
            None => enum_list(value@) is None,
        },
{
    let items = match value {
        JsonValue::Array(items) => items,
        _ => {
            return None;
        },
    };
    let ghost its = Seq::new(items@.len(), |i: int| items@[i]@);
    assert(its =~= value@->Array_0);
    let mut out: Vec<String> = Vec::new();
    let mut i: usize = 0;
    assert(its.take(0) =~= Seq::<Json>::empty());
    assert(text_views(out@) =~= Seq::<Seq<char>>::empty());
    while i < items.len()
        invariant
            its == Seq::new(items@.len(), |i: int| items@[i]@),
            i <= items@.len(),
            text_views(out@) == enum_texts(its.take(i as int)),
        decreases items@.len() - i,
    {
        assert(its.take(i + 1).drop_last() =~= its.take(i as int));
        assert(its.take(i + 1).last() == items@[i as int]@);
        let ghost o = out@;
        match &items[i] {
            JsonValue::Str(s) => {
                out.push(s.clone());
                assert(text_views(out@) =~= text_views(o).push(s@));
            },
            JsonValue::Number(n) => {
                out.push(n.clone());
                assert(text_views(out@) =~= text_views(o).push(n@));
            },
            JsonValue::Bool(b) => {
                let t = if *b {
                    owned("true")
                } else {
                    owned("false")
                };
                out.push(t);
                assert(text_views(out@) =~= text_views(o).push(t@));
            },
            _ => {},
        }
        i = i + 1;
    }
    assert(its.take(items@.len() as int) =~= its);
    if out.len() == 0 {
        None
    } else {
        Some(out)
    }
}

/// `subs` with the items of `v` appended, where `v` is an array.
fn push_array_items<'a>(subs: &mut Vec<&'a JsonValue>, v: Option<&'a JsonValue>)
    ensures
        Seq::new(final(subs)@.len(), |i: int| final(subs)@[i]@) == Seq::new(
            old(subs)@.len(),
            |i: int| old(subs)@[i]@,
        ) + array_items(
            match v {
                Some(x) => Some(x@),
                None => None,
            },
        ),
{
    let ghost before = Seq::new(subs@.len(), |i: int| subs@[i]@);
    let ghost start = subs@.len();
    match v {
        Some(JsonValue::Array(items)) => {
            let ghost added = Seq::new(items@.len(), |i: int| items@[i]@);
            assert(added =~= v.unwrap()@->Array_0);
            let mut j: usize = 0;
            while j < items.len()
                invariant
                    j <= items@.len(),
                    subs@.len() == start + j,
                    forall|t: int| 0 <= t < start ==> (#[trigger] subs@[t])@ == before[t],
                    before.len() == start,
                    forall|t: int| 0 <= t < j ==> (#[trigger] subs@[start + t])@ == items@[t]@,
                decreases items@.len() - j,
            {
                subs.push(&items[j]);
                j = j + 1;
            }
            assert forall|i: int| 0 <= i < subs@.len() implies (#[trigger] subs@[i])@ == (before
                + added)[i] by {
                if i >= start {
                    assert(subs@[start + (i - start)]@ == items@[i - start]@);
                }
            }
            assert(Seq::new(subs@.len(), |i: int| subs@[i]@) =~= before + added);
        },
        _ => {
            assert(Seq::new(subs@.len(), |i: int| subs@[i]@) =~= before);
        },
    }
}

/// The search of the schemas `items[from..]`, the items being the subschemas
/// of `s`.
fn enum_first_exec(
    items: &Vec<&JsonValue>,
    from: usize,
    root: &JsonValue,
    Ghost(fuel): Ghost<nat>,
) -> (r: Option<Vec<String>>)
    requires
        from <= items@.len(),
        enum_first(Seq::new(items@.len(), |i: int| items@[i]@).skip(from as int), root@, fuel) is Some,
    ensures
        match r {
            Some(v) => enum_first(Seq::new(items@.len(), |i: int| items@[i]@).skip(from as int), root@, fuel)
                == Some(Some(text_views(v@))),
            None => enum_first(Seq::new(items@.len(), |i: int| items@[i]@).skip(from as int), root@, fuel)
                == Some::<Option<Seq<Seq<char>>>>(None),
        },
    decreases fuel, items@.len() - from,
{
    let ghost its = Seq::new(items@.len(), |i: int| items@[i]@);
    if from == items.len() {
        assert(its.skip(from as int).len() == 0);
        return None;
    }
    let ghost rest = its.skip(from as int);
    assert(rest[0] == items@[from as int]@);
    assert(rest.drop_first() =~= its.skip(from + 1));
    match extract_enum_search(items[from], root, Ghost(fuel)) {
        Some(v) => Some(v),
        None => enum_first_exec(items, from + 1, root, Ghost(fuel)),
    }
}

/// The search of `schema` with `fuel` levels of nesting, where it ends within them.
fn extract_enum_search(schema: &JsonValue, root: &JsonValue, Ghost(fuel): Ghost<nat>) -> (r: Option<Vec<String>>)
    requires
        enum_search(schema@, root@, fuel) is Some,
    ensures
        match r {
            Some(v) => enum_search(schema@, root@, fuel) == Some(Some(text_views(v@))),
            None => enum_search(schema@, root@, fuel) == Some::<Option<Seq<Seq<char>>>>(None),
        },
    decreases fuel, 0int,
{
    let s = resolve_value(schema, root);
    if let Some(e) = s.get_key("enum") {
        if let Some(values) = enum_array_to_strings(e) {
            return Some(values);
        }
    }
    let mut subs: Vec<&JsonValue> = Vec::new();
    push_array_items(&mut subs, s.get_key("allOf"));
    push_array_items(&mut subs, s.get_key("anyOf"));
    push_array_items(&mut subs, s.get_key("oneOf"));
    assert(Seq::new(subs@.len(), |i: int| subs@[i]@).skip(0) =~= composite_items(s@));
    enum_first_exec(&subs, 0, root, Ghost((fuel - 1) as nat))
}

/// The values a parameter schema allows: the first `enum` list met, searching
/// the schema (its `$ref` followed) and then, depth first, the subschemas of
/// its `allOf`, `anyOf` and `oneOf` in that order. Entries that are strings
/// are kept as they are, numbers by their JSON text, booleans as `true` or
/// `false`; other entries are skipped, and a list with none left counts as
/// absent. The search must not run into a `$ref` cycle through subschemas.
pub fn extract_enum_values_from_schema(schema: &JsonValue, root: &JsonValue) -> (r: Option<Vec<String>>)
    requires
        enum_search_ends(schema@, root@),
    ensures
        match r {
            Some(v) => enum_values_of(schema@, root@) == Some(text_views(v@)),
            None => enum_values_of(schema@, root@) is None,
        },
{
    let ghost n = choose|n: nat| (#[trigger] enum_search(schema@, root@, n)) is Some;
    extract_enum_search(schema, root, Ghost(n))
}

} // verus!
