//! What request preparation promises of every call: the query string and the
//! bearer `Authorization` header.

use vstd::prelude::*;
use crate::call_engine::prepare::{auth_header_step, query_items, with_query};
use crate::dict::{law_insert_then_lookup, pair_lookup};
use crate::models::types::AuthConfig;
use crate::outside::hex_upper;
use crate::templates::env_resolve;
use crate::text::{has_char, is_blank, join};
use crate::urlencode::{encode_byte, encode_bytes, encode_component, unreserved};

verus! {

/// How many times `c` occurs in `s`.
pub open spec fn char_count(s: Seq<char>, c: char) -> nat
    decreases s.len(),
{
    if s.len() == 0 {
        0
    } else {
        char_count(s.drop_last(), c) + if s.last() == c {
            1nat
        } else {
            0nat
        }
    }
}

proof fn lemma_count_concat(a: Seq<char>, b: Seq<char>, c: char)
    ensures
        char_count(a + b, c) == char_count(a, c) + char_count(b, c),
    decreases b.len(),
{
    if b.len() == 0 {
        assert(a + b =~= a);
    } else {
        assert((a + b).drop_last() =~= a + b.drop_last());
        lemma_count_concat(a, b.drop_last(), c);
    }
}

proof fn lemma_count_has(s: Seq<char>, c: char)
    ensures
        (char_count(s, c) > 0) == has_char(s, c),
    decreases s.len(),
{
    if s.len() > 0 {
        let d = s.drop_last();
        lemma_count_has(d, c);
        if has_char(d, c) {
            let i = choose|i: int| 0 <= i < d.len() && d[i] == c;
            assert(s[i] == c);
        }
        if s.last() == c {
            assert(s[s.len() - 1] == c);
        }
        if has_char(s, c) {
            let i = choose|i: int| 0 <= i < s.len() && s[i] == c;
            if i < s.len() - 1 {
                assert(d[i] == c);
            }
        }
    }
}

proof fn lemma_hex_not_question(d: u8)
    requires
        d < 16,
    ensures
        hex_upper(d) != '?',
{
    if d < 10 {
        assert((d + 48) as u8 == d + 48);
        assert((((d + 48) as u8) as char) as u32 == d + 48);
    } else {
        assert((d + 55) as u8 == d + 55);
        assert((((d + 55) as u8) as char) as u32 == d + 55);
    }
}

proof fn lemma_encode_no_question(bs: Seq<u8>)
    ensures
        char_count(encode_bytes(bs), '?') == 0,
    decreases bs.len(),
{
    if bs.len() > 0 {
        let b = bs[0];
        lemma_encode_no_question(bs.drop_first());
        lemma_count_concat(encode_byte(b), encode_bytes(bs.drop_first()), '?');
        let e = encode_byte(b);
        reveal_with_fuel(char_count, 4);
        if unreserved(b) {
            assert((b as char) as u32 == b);
            assert(e =~= seq![b as char]);
            assert(e.drop_last() =~= Seq::<char>::empty());
            assert(char_count(e, '?') == 0);
        } else {
            lemma_hex_not_question(b / 16);
            lemma_hex_not_question(b % 16);
            assert(e.drop_last() =~= seq!['%', hex_upper(b / 16)]);
            assert(e.drop_last().drop_last() =~= seq!['%']);
            assert(e.drop_last().drop_last().drop_last() =~= Seq::<char>::empty());
            assert(char_count(e, '?') == 0);
        }
        assert(encode_bytes(bs) == e + encode_bytes(bs.drop_first()));
    }
}

proof fn lemma_join_no_question(parts: Seq<Seq<char>>, sep: Seq<char>)
    requires
        char_count(sep, '?') == 0,
        forall|i: int| 0 <= i < parts.len() ==> char_count(#[trigger] parts[i], '?') == 0,
    ensures
        char_count(join(parts, sep), '?') == 0,
    decreases parts.len(),
{
    if parts.len() > 1 {
        lemma_join_no_question(parts.drop_last(), sep);
        lemma_count_concat(join(parts.drop_last(), sep), sep, '?');
        lemma_count_concat(join(parts.drop_last(), sep) + sep, parts.last(), '?');
    } else if parts.len() == 1 {
        assert(char_count(parts[0], '?') == 0);
    }
}

/// The query string of a call holds no `?`: keys and values are
/// percent-encoded.
proof fn lemma_query_text(ps: Seq<(Seq<char>, Seq<char>)>)
    ensures
        char_count(join(query_items(ps), "&"@), '?') == 0,
{
    reveal_strlit("&");
    reveal_strlit("=");
    reveal_with_fuel(char_count, 2);
    assert("&"@.drop_last() =~= Seq::<char>::empty());
    assert("="@.drop_last() =~= Seq::<char>::empty());
    assert(char_count("&"@, '?') == 0);
    assert(char_count("="@, '?') == 0);
    let items = query_items(ps);
    assert forall|i: int| 0 <= i < items.len() implies char_count(#[trigger] items[i], '?') == 0 by {
        let k = encode_component(ps[i].0);
        let v = encode_component(ps[i].1);
        lemma_encode_no_question(vstd::utf8::encode_utf8(ps[i].0));
        lemma_encode_no_question(vstd::utf8::encode_utf8(ps[i].1));
        lemma_count_concat(k, "="@, '?');
        lemma_count_concat(k + "="@, v, '?');
    }
    lemma_join_no_question(items, "&"@);
}

/// A URL keeps a single `?` when query pairs are added: the result starts
/// with the URL, and its `?` count is the URL's when the URL already has a
/// query string, and one otherwise; no pairs leave the URL as it is.
pub proof fn law_query_keeps_one_question_mark(url: Seq<char>, ps: Seq<(Seq<char>, Seq<char>)>)
    ensures
        ps.len() == 0 ==> with_query(url, ps) == url,
        ps.len() > 0 ==> with_query(url, ps).take(url.len() as int) == url,
        ps.len() > 0 ==> char_count(with_query(url, ps), '?') == if has_char(url, '?') {
            char_count(url, '?')
        } else {
            1
        },
{
    if ps.len() > 0 {
        reveal_strlit("&");
        reveal_strlit("?");
        let q = join(query_items(ps), "&"@);
        lemma_query_text(ps);
        let sep: Seq<char> = if has_char(url, '?') {
            "&"@
        } else {
            "?"@
        };
        assert(with_query(url, ps) == url + sep + q);
        assert((url + sep + q).take(url.len() as int) =~= url);
        lemma_count_concat(url, sep, '?');
        lemma_count_concat(url + sep, q, '?');
        reveal_with_fuel(char_count, 2);
        assert("&"@.drop_last() =~= Seq::<char>::empty());
        assert("?"@.drop_last() =~= Seq::<char>::empty());
        assert(char_count("&"@, '?') == 0);
        assert(char_count("?"@, '?') == 1);
        lemma_count_has(url, '?');
    }
}

/// Bearer auth sends `Authorization: Bearer <token>`: the scheme word, one
/// space, then the resolved token, whatever headers the request already has.
pub proof fn law_bearer_header(token: String, env: Seq<(String, String)>, h: Seq<(Seq<char>, Seq<char>)>)
    requires
        env_resolve(token@, env) is Ok,
        !is_blank(env_resolve(token@, env)->Ok_0),
    ensures
        auth_header_step(Some(AuthConfig::Bearer { token }), env, h) matches Ok(h2) && pair_lookup(
            h2,
            "Authorization"@,
        ) matches Some(v) && v.len() == env_resolve(token@, env)->Ok_0.len() + 7 && v.take(7) == "Bearer "@
            && v.skip(7) == env_resolve(token@, env)->Ok_0,
{
    reveal_strlit("Bearer ");
    let t = env_resolve(token@, env)->Ok_0;
    let v = "Bearer "@ + t;
    law_insert_then_lookup(h, "Authorization"@, v);
    assert(v.take(7) =~= "Bearer "@);
    assert(v.skip(7) =~= t);
}

/// HTTP auth with the `bearer` scheme (and no prefix) sends the same header:
/// `Authorization: Bearer <token>`.
pub proof fn law_http_bearer_header(
    scheme: String,
    token: String,
    username: Option<String>,
    password: Option<String>,
    env: Seq<(String, String)>,
    h: Seq<(Seq<char>, Seq<char>)>,
)
    requires
        scheme@ == "bearer"@,
        env_resolve(token@, env) is Ok,
        !is_blank(env_resolve(token@, env)->Ok_0),
    ensures
        auth_header_step(
            Some(AuthConfig::Http { scheme, token: Some(token), username, password, prefix: None }),
            env,
            h,
        ) matches Ok(h2) && pair_lookup(h2, "Authorization"@) matches Some(v) && v.len() == env_resolve(
            token@,
            env,
        )->Ok_0.len() + 7 && v.take(7) == "Bearer "@ && v.skip(7) == env_resolve(token@, env)->Ok_0,
{
    reveal_strlit("Bearer ");
    reveal_strlit("bearer");
    let b = "bearer"@;
    assert(crate::outside::ascii_text(b));
    assert(crate::text::ascii_lower(b) =~= b);
    let t = env_resolve(token@, env)->Ok_0;
    let v = "Bearer "@ + t;
    law_insert_then_lookup(h, "Authorization"@, v);
    assert(v.take(7) =~= "Bearer "@);
    assert(v.skip(7) =~= t);
}

} // verus!
