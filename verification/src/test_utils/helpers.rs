//! Builders for responses and call parameters.

use vstd::prelude::*;
use crate::call_engine::types::ApiResponse;
use crate::client::inserted_all;
use crate::dict::{pair_views, put, Dict};
use crate::json::JsonValue;
use crate::text::owned;

verus! {

/// A `200` response with `body`, no headers and no message.
pub fn response_ok(body: JsonValue) -> (r: ApiResponse)
    ensures
        r.status == 200,
        r.headers.entries@.len() == 0,
        r.body == body,
        r.message is None,
{
    ApiResponse { status: 200, headers: Dict::new(), body, message: None }
}

/// A `201` response with `body`, no headers and no message.
pub fn response_created(body: JsonValue) -> (r: ApiResponse)
    ensures
        r.status == 201,
        r.headers.entries@.len() == 0,
        r.body == body,
        r.message is None,
{
    ApiResponse { status: 201, headers: Dict::new(), body, message: None }
}

/// A `404` response with body `{"message": "Not Found"}`.
pub fn response_not_found() -> (r: ApiResponse)
    ensures
        r.status == 404,
        r.headers.entries@.len() == 0,
        r.body@ == crate::json::Json::Object(seq![("message"@, crate::json::Json::Str("Not Found"@))]),
        r.message is None,
{
    let mut members: Vec<(String, JsonValue)> = Vec::new();
    let value = JsonValue::Str(owned("Not Found"));
    assert(value@ == crate::json::Json::Str("Not Found"@));
    members.push((owned("message"), value));
    let body = JsonValue::Object(members);
    proof {
        assert(members@.len() == 1);
        assert(body@->Object_0[0] == ("message"@, crate::json::Json::Str("Not Found"@)));
        assert(body@->Object_0 =~= seq![("message"@, crate::json::Json::Str("Not Found"@))]);
    }
    ApiResponse { status: 404, headers: Dict::new(), body, message: None }
}

/// A response with the given status, headers and body, and no message.
pub fn response_with_headers(status: u16, headers: Dict<String>, body: JsonValue) -> (r: ApiResponse)
    ensures
        r.status == status,
        r.headers == headers,
        r.body == body,
        r.message is None,
{
    ApiResponse { status, headers, body, message: None }
}

/// A response with the given status, body and message, and no headers.
pub fn response_with_message(status: u16, body: JsonValue, message: String) -> (r: ApiResponse)
    ensures
        r.status == status,
        r.headers.entries@.len() == 0,
        r.body == body,
        r.message == Some(message),
{
    ApiResponse { status, headers: Dict::new(), body, message: Some(message) }
}

/// Views of text pairs.
pub open spec fn str_pair_views(pairs: Seq<(&str, &str)>) -> Seq<(Seq<char>, Seq<char>)> {
    Seq::new(pairs.len(), |i: int| (pairs[i].0@, pairs[i].1@))
}

/// Call parameters from `(key, value)` pairs; a later key replaces an earlier one.
pub fn make_params(pairs: &[(&str, &str)]) -> (r: Dict<String>)
    ensures
        pair_views(r.entries@) == inserted_all(Seq::empty(), str_pair_views(pairs@)),
{
    let mut d: Dict<String> = Dict::new();
    let ghost added = str_pair_views(pairs@);
    assert(pair_views(d.entries@) =~= Seq::<(Seq<char>, Seq<char>)>::empty());
    let mut i: usize = 0;
    while i < pairs.len()
        invariant
            i <= pairs@.len(),
            added == str_pair_views(pairs@),
            pair_views(d.entries@) == inserted_all(Seq::empty(), added.take(i as int)),
        decreases pairs@.len() - i,
    {
        assert(added.take(i + 1).drop_last() =~= added.take(i as int));
        let (k, v) = pairs[i];
        put(&mut d, owned(k), owned(v));
        i = i + 1;
    }
    assert(added.take(added.len() as int) =~= added);
    d
}

} // verus!
