//! JSON values as the library holds them (request bodies, response bodies).

use vstd::prelude::*;
use crate::text::str_eq;

verus! {

broadcast use vstd::std_specs::vec::group_vec_axioms;

/// A JSON value. Numbers keep their JSON text; objects keep their members in order.
#[derive(Debug, PartialEq)]
pub enum JsonValue {
    Null,
    Bool(bool),
    Number(String),
    Str(String),
    Array(Vec<JsonValue>),
    Object(Vec<(String, JsonValue)>),
}

/// Mathematical model of a JSON value.
pub enum Json {
    Null,
    Bool(bool),
    Number(Seq<char>),
    Str(Seq<char>),
    Array(Seq<Json>),
    Object(Seq<(Seq<char>, Json)>),
}

/// The model of `v`.
pub open spec fn json_model(v: JsonValue) -> Json
    decreases v,
{
    match v {
        JsonValue::Null => Json::Null,
        JsonValue::Bool(b) => Json::Bool(b),
        JsonValue::Number(n) => Json::Number(n@),
        JsonValue::Str(s) => Json::Str(s@),
        JsonValue::Array(items) => Json::Array(
            Seq::new(
                items@.len(),
                |i: int|
                    if 0 <= i < items@.len() {
                        json_model(items@[i])
                    } else {
                        Json::Null
                    },
            ),
        ),
        JsonValue::Object(members) => Json::Object(
            Seq::new(
                members@.len(),
                |i: int|
                    if 0 <= i < members@.len() {
                        (members@[i].0@, json_model(members@[i].1))
                    } else {
                        (Seq::empty(), Json::Null)
                    },
            ),
        ),
    }
}

impl View for JsonValue {
    type V = Json;

    open spec fn view(&self) -> Json {
        json_model(*self)
    }
}

/// First member of an object model with key `k`.
pub open spec fn member(ms: Seq<(Seq<char>, Json)>, k: Seq<char>) -> Option<Json>
    decreases ms.len(),
{
    if ms.len() == 0 {
        None
    } else if ms[0].0 == k {
        Some(ms[0].1)
    } else {
        member(ms.drop_first(), k)
    }
}

/// `Value::get` with a string key: the member of an object, nothing for other values.
pub open spec fn get_key(v: Json, k: Seq<char>) -> Option<Json> {
    match v {
        Json::Object(ms) => member(ms, k),
        _ => None,
    }
}

/// `Value::get` with an index: the element of an array, nothing for other values.
pub open spec fn get_index(v: Json, i: int) -> Option<Json> {
    match v {
        Json::Array(items) => if 0 <= i < items.len() {
            Some(items[i])
        } else {
            None
        },
        _ => None,
    }
}

proof fn lemma_member_at(ms: Seq<(Seq<char>, Json)>, k: Seq<char>, i: int)
    requires
        0 <= i < ms.len(),
        ms[i].0 == k,
        forall|j: int| 0 <= j < i ==> (#[trigger] ms[j]).0 != k,
    ensures
        member(ms, k) == Some(ms[i].1),
    decreases i,
{
    if i > 0 {
        assert forall|j: int| 0 <= j < i - 1 implies (#[trigger] ms.drop_first()[j]).0 != k by {
            assert(ms.drop_first()[j] == ms[j + 1]);
        }
        assert(ms[0].0 != k);
        lemma_member_at(ms.drop_first(), k, i - 1);
    }
}

proof fn lemma_member_none(ms: Seq<(Seq<char>, Json)>, k: Seq<char>)
    requires
        forall|j: int| 0 <= j < ms.len() ==> (#[trigger] ms[j]).0 != k,
    ensures
        member(ms, k) is None,
    decreases ms.len(),
{
    if ms.len() > 0 {
        assert forall|j: int| 0 <= j < ms.drop_first().len() implies (#[trigger] ms.drop_first()[j]).0 != k by {
            assert(ms.drop_first()[j] == ms[j + 1]);
        }
        lemma_member_none(ms.drop_first(), k);
    }
}

impl JsonValue {
    /// `Value::get(key)`.
    pub fn get_key(&self, k: &str) -> (r: Option<&JsonValue>)
        ensures
            match r {
                Some(x) => get_key(self@, k@) == Some(x@),
                None => get_key(self@, k@) is None,
            },
    {
        match self {
            JsonValue::Object(members) => {
                let ghost ms = match self@ {
                    Json::Object(ms) => ms,
                    _ => Seq::empty(),
                };
                assert(ms.len() == members@.len());
                let mut i: usize = 0;
                while i < members.len()
                    invariant
                        *self == JsonValue::Object(*members),
                        self@ == Json::Object(ms),
                        ms.len() == members@.len(),
                        i <= members@.len(),
                        forall|j: int| 0 <= j < i ==> (#[trigger] ms[j]).0 != k@,
                    decreases members@.len() - i,
                {
                    assert(ms[i as int] == (members@[i as int].0@, json_model(members@[i as int].1)));
                    if str_eq(members[i].0.as_str(), k) {
                        proof {
                            lemma_member_at(ms, k@, i as int);
                        }
                        return Some(&members[i].1);
                    }
                    i = i + 1;
                }
                proof {
                    lemma_member_none(ms, k@);
                }
                None
            },
            _ => None,
        }
    }

    /// `Value::get(index)`.
    pub fn get_index(&self, i: usize) -> (r: Option<&JsonValue>)
        ensures
            match r {
                Some(x) => get_index(self@, i as int) == Some(x@),
                None => get_index(self@, i as int) is None,
            },
    {
        match self {
            JsonValue::Array(items) => {
                if i < items.len() {
                    Some(&items[i])
                } else {
                    None
                }
            },
            _ => None,
        }
    }

    /// `Value::is_array`.
    pub fn is_array(&self) -> (b: bool)
        ensures
            b == (self@ is Array),
    {
        match self {
            JsonValue::Array(_) => true,
            _ => false,
        }
    }
}

/// The text held by member `k` of `v`, where that member is a JSON string.
pub open spec fn str_member(v: Json, k: Seq<char>) -> Option<Seq<char>> {
    match get_key(v, k) {
        Some(Json::Str(s)) => Some(s),
        _ => None,
    }
}

/// `data.get(key).and_then(Value::as_str)`.
pub fn str_member_of<'a>(data: &'a JsonValue, key: &str) -> (r: Option<&'a str>)
    ensures
        match r {
            Some(s) => str_member(data@, key@) == Some(s@),
            None => str_member(data@, key@) is None,
        },
{
    match data.get_key(key) {
        Some(v) => match v {
            JsonValue::Str(s) => Some(s.as_str()),
            _ => None,
        },
        None => None,
    }
}

impl Clone for JsonValue {
    /// A deep copy with the same model.
    fn clone(&self) -> (r: Self)
        ensures
            r@ == self@,
        decreases self,
    {
        match self {
            JsonValue::Null => JsonValue::Null,
            JsonValue::Bool(b) => JsonValue::Bool(*b),
            JsonValue::Number(n) => JsonValue::Number(n.clone()),
            JsonValue::Str(s) => JsonValue::Str(s.clone()),
            JsonValue::Array(items) => {
                let mut out: Vec<JsonValue> = Vec::new();
                let mut i: usize = 0;
                while i < items.len()
                    invariant
                        *self == JsonValue::Array(*items),
                        i <= items@.len(),
                        out@.len() == i,
                        forall|j: int| 0 <= j < i ==> (#[trigger] out@[j])@ == items@[j]@,
                    decreases items@.len() - i,
                {
                    assert(decreases_to!(*items => items@[i as int]));
                    assert(decreases_to!(*self => (*self)->Array_0));
                    out.push(items[i].clone());
                    i = i + 1;
                }
                let r = JsonValue::Array(out);
                assert(r@->Array_0 =~= self@->Array_0);
                r
            },
            JsonValue::Object(members) => {
                let mut out: Vec<(String, JsonValue)> = Vec::new();
                let mut i: usize = 0;
                while i < members.len()
                    invariant
                        *self == JsonValue::Object(*members),
                        i <= members@.len(),
                        out@.len() == i,
                        forall|j: int|
                            0 <= j < i ==> (#[trigger] out@[j]).0 == members@[j].0 && out@[j].1@
                                == members@[j].1@,
                    decreases members@.len() - i,
                {
                    assert(decreases_to!(*members => members@[i as int]));
                    assert(decreases_to!(members@[i as int] => members@[i as int].1));
                    assert(decreases_to!(*self => (*self)->Object_0));
                    let v = members[i].1.clone();
                    out.push((members[i].0.clone(), v));
                    i = i + 1;
                }
                let r = JsonValue::Object(out);
                assert(r@->Object_0 =~= self@->Object_0);
                r
            },
        }
    }
}

} // verus!
