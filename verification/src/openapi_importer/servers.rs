//! The base URL, the security default and the GitHub detection of a document.

use vstd::prelude::*;
use crate::json::{get_key, str_member, str_member_of, Json, JsonValue};
use crate::openapi_importer::messages::as_object;
use crate::openapi_importer::names::{default_base_url_placeholder, strip_end};
use crate::text::{
    ascii_lower, ascii_lower_str, contains, contains_str, find_char_from, from_chars_range,
    index_of, lemma_index_of, owned, replace_all, replace_str, starts_with, starts_with_str,
    to_chars,
};

verus! {

broadcast use vstd::std_specs::vec::group_vec_axioms;

/// `url` with `{name}` replaced by each server variable's default (`example.com` without one).
pub open spec fn apply_vars(url: Seq<char>, vars: Seq<(Seq<char>, Json)>) -> Seq<char>
    decreases vars.len(),
{
    if vars.len() == 0 {
        url
    } else {
        let before = apply_vars(url, vars.drop_last());
        let d = match str_member(vars.last().1, "default"@) {
            Some(x) => x,
            None => "example.com"@,
        };
        replace_all(before, "{"@ + vars.last().0 + "}"@, d)
    }
}

/// Every remaining `{...}` placeholder replaced by `example.com` (an unclosed `{` stops the filling).
pub open spec fn fill_placeholders(u: Seq<char>) -> Seq<char>
    decreases u.len(),
{
    match index_of(u, '{') {
        None => u,
        Some(s) => if 0 <= s < u.len() {
            match index_of(u.skip(s + 1), '}') {
                None => u,
                Some(e) => if 0 <= e < u.len() - s - 1 {
                    u.take(s) + "example.com"@ + fill_placeholders(u.skip(s + 1 + e + 1))
                } else {
                    u
                },
            }
        } else {
            u
        },
    }
}

/// A server URL template with its variables filled in and trailing `/` removed.
pub open spec fn server_url(template: Seq<char>, variables: Option<Json>) -> Seq<char> {
    let with_vars = match variables {
        Some(Json::Object(vars)) => apply_vars(template, vars),
        _ => template,
    };
    strip_end(fill_placeholders(with_vars), '/')
}

/// The first server of a document.
pub open spec fn first_server(doc: Json) -> Option<Json> {
    match get_key(doc, "servers"@) {
        Some(Json::Array(items)) => if items.len() > 0 {
            Some(items[0])
        } else {
            None
        },
        _ => None,
    }
}

/// The base URL of a document: its first server's URL, or the placeholder.
pub open spec fn base_url_of(doc: Json) -> Seq<char> {
    match first_server(doc) {
        None => "https://api.example.com"@,
        Some(server) => match str_member(server, "url"@) {
            None => "https://api.example.com"@,
            Some(t) => {
                let u = server_url(t, get_key(server, "variables"@));
                if u.len() == 0 {
                    "https://api.example.com"@
                } else {
                    u
                }
            },
        },
    }
}

/// `u` with all of its `{...}` placeholders replaced by `example.com`.
fn fill_placeholders_exec(u: &str) -> (r: String)
    ensures
        r@ == fill_placeholders(u@),
{
    let v = to_chars(u);
    let n = v.len();
    let mut out = String::new();
    let mut start: usize = 0;
    assert(v@.skip(0) =~= v@);
    loop
        invariant
            v@ == u@,
            n == v@.len(),
            start <= v@.len(),
            fill_placeholders(u@) == out@ + fill_placeholders(v@.skip(start as int)),
        decreases v@.len() - start,
    {
        let ghost rest = v@.skip(start as int);
        proof {
            lemma_index_of(rest, '{');
        }
        match find_char_from(&v, start, '{') {
            None => {
                let tail = from_chars_range(&v, start, v.len());
                assert(tail@ =~= rest);
                out.append(tail.as_str());
                return out;
            },
            Some(s) => {
                let ghost after = rest.skip(s - start + 1);
                assert(after =~= v@.skip(s + 1));
                proof {
                    lemma_index_of(after, '}');
                }
                match find_char_from(&v, s + 1, '}') {
                    None => {
                        let tail = from_chars_range(&v, start, v.len());
                        assert(tail@ =~= rest);
                        out.append(tail.as_str());
                        return out;
                    },
                    Some(e) => {
                        let head = from_chars_range(&v, start, s);
                        assert(head@ =~= rest.take(s - start));
                        assert(rest.skip(s - start + 1 + (e - s - 1) + 1) =~= v@.skip(e + 1));
                        let ghost o = out@;
                        out.append(head.as_str());
                        out.append("example.com");
                        assert(o + (rest.take(s - start) + "example.com"@ + fill_placeholders(v@.skip(e + 1)))
                            =~= out@ + fill_placeholders(v@.skip(e + 1)));
                        start = e + 1;
                    },
                }
            },
        }
    }
}

/// `s` without trailing `c`.
fn strip_end_str(s: &str, c: char) -> (r: String)
    ensures
        r@ == strip_end(s@, c),
{
    let v = to_chars(s);
    let mut j: usize = v.len();
    assert(v@.take(v@.len() as int) =~= v@);
    while j > 0 && v[j - 1] == c
        invariant
            v@ == s@,
            j <= v@.len(),
            strip_end(v@, c) == strip_end(v@.take(j as int), c),
        decreases j,
    {
        assert(v@.take(j as int).drop_last() =~= v@.take(j - 1));
        j = j - 1;
    }
    assert(v@.subrange(0, j as int) =~= v@.take(j as int));
    from_chars_range(&v, 0, j)
}

/// A server URL template with its variables' defaults filled in, unresolved
/// placeholders replaced by `example.com`, and trailing `/` removed.
pub fn resolve_server_url(url_template: &str, variables: Option<&JsonValue>) -> (r: String)
    ensures
        r@ == server_url(
            url_template@,
            match variables {
                Some(v) => Some(v@),
                None => None,
            },
        ),
{
    let mut url = owned(url_template);
    let vars = match variables {
        Some(v) => as_object(v),
        None => None,
    };
    match vars {
        Some(ms) => {
            let ghost vs = Seq::new(ms@.len(), |i: int| (ms@[i].0@, ms@[i].1@));
            let mut i: usize = 0;
            assert(vs.take(0) =~= Seq::<(Seq<char>, Json)>::empty());
            while i < ms.len()
                invariant
                    vs == Seq::new(ms@.len(), |i: int| (ms@[i].0@, ms@[i].1@)),
                    i <= ms@.len(),
                    url@ == apply_vars(url_template@, vs.take(i as int)),
                decreases ms@.len() - i,
            {
                assert(vs.take(i + 1).drop_last() =~= vs.take(i as int));
                assert(vs.take(i + 1).last() == vs[i as int]);
                let d = match str_member_of(&ms[i].1, "default") {
                    Some(x) => x,
                    None => "example.com",
                };
                let mut pat = owned("{");
                pat.append(ms[i].0.as_str());
                pat.append("}");
                url = replace_str(url.as_str(), pat.as_str(), d);
                i = i + 1;
            }
            assert(vs.take(ms@.len() as int) =~= vs);
        },
        None => {},
    }
    let filled = fill_placeholders_exec(url.as_str());
    strip_end_str(filled.as_str(), '/')
}

/// The base URL of a document: the first server's URL template resolved, or
/// `https://api.example.com` when there is none (or it resolves to nothing).
pub fn extract_base_url(doc: &JsonValue) -> (r: String)
    ensures
        r@ == base_url_of(doc@),
{
    let server = match doc.get_key("servers") {
        Some(servers) => match servers {
            JsonValue::Array(items) => if items.len() > 0 {
                &items[0]
            } else {
                return default_base_url_placeholder();
            },
            _ => {
                return default_base_url_placeholder();
            },
        },
        None => {
            return default_base_url_placeholder();
        },
    };
    let template = match str_member_of(server, "url") {
        Some(t) => t,
        None => {
            return default_base_url_placeholder();
        },
    };
    let resolved = resolve_server_url(template, server.get_key("variables"));
    if resolved.as_str().is_empty() {
        default_base_url_placeholder()
    } else {
        resolved
    }
}

// ------------------------------------------------------------------ security

/// The first scheme name of a security requirement list.
pub open spec fn first_scheme(security: Json) -> Option<Seq<char>> {
    match security {
        Json::Array(items) => if items.len() > 0 {
            match items[0] {
                Json::Object(ms) => if ms.len() > 0 {
                    Some(ms[0].0)
                } else {
                    None
                },
                _ => None,
            }
        } else {
            None
        },
        _ => None,
    }
}

/// The first scheme name of a security requirement list.
pub fn first_security_scheme_name(security: &JsonValue) -> (r: Option<String>)
    ensures
        match r {
            Some(n) => first_scheme(security@) == Some(n@),
            None => first_scheme(security@) is None,
        },
{
    match security {
        JsonValue::Array(items) => if items.len() > 0 {
            assert(security@->Array_0[0] == items@[0]@);
            match &items[0] {
                JsonValue::Object(ms) => if ms.len() > 0 {
                    assert(items@[0]@->Object_0[0] == (ms@[0].0@, ms@[0].1@));
                    Some(ms[0].0.clone())
                } else {
                    None
                },
                _ => None,
            }
        } else {
            None
        },
        _ => None,
    }
}

// ------------------------------------------------------------------ GitHub detection

/// Some path of the document starts with `/repos/`.
pub open spec fn has_github_paths(doc: Json) -> bool {
    match get_key(doc, "paths"@) {
        Some(Json::Object(ms)) => exists|i: int| 0 <= i < ms.len() && starts_with(#[trigger] ms[i].0, "/repos/"@),
        _ => false,
    }
}

/// A server URL names GitHub's API.
pub open spec fn github_url(url: Seq<char>) -> bool {
    contains(ascii_lower(url), "api.github.com"@) || contains(ascii_lower(url), "/api/v3"@)
}

/// Some server's URL names GitHub's API.
pub open spec fn has_github_server(doc: Json) -> bool {
    match get_key(doc, "servers"@) {
        Some(Json::Array(items)) => exists|i: int|
            0 <= i < items.len() && (str_member(#[trigger] items[i], "url"@) matches Some(u) && github_url(u)),
        _ => false,
    }
}

/// The document describes GitHub's REST API (or a GitHub Enterprise Server).
pub open spec fn github_api(doc: Json, title: Seq<char>, base_url: Seq<char>) -> bool {
    ||| contains(ascii_lower(title), "github"@)
    ||| contains(ascii_lower(base_url), "api.github.com"@)
    ||| (contains(ascii_lower(base_url), "/api/v3"@) && has_github_paths(doc))
    ||| has_github_server(doc)
}

/// Some path of the document starts with `/repos/`.
pub fn doc_has_github_paths(doc: &JsonValue) -> (r: bool)
    ensures
        r == has_github_paths(doc@),
{
    let paths = match doc.get_key("paths") {
        Some(p) => p,
        None => {
            return false;
        },
    };
    let ms = match as_object(paths) {
        Some(ms) => ms,
        None => {
            return false;
        },
    };
    let ghost vs = Seq::new(ms@.len(), |i: int| (ms@[i].0@, ms@[i].1@));
    let mut i: usize = 0;
    while i < ms.len()
        invariant
            vs == Seq::new(ms@.len(), |i: int| (ms@[i].0@, ms@[i].1@)),
            obj_of(paths@) == Some(vs),
            get_key(doc@, "paths"@) == Some(paths@),
            i <= ms@.len(),
            forall|j: int| 0 <= j < i ==> !starts_with(#[trigger] vs[j].0, "/repos/"@),
        decreases ms@.len() - i,
    {
        if starts_with_str(ms[i].0.as_str(), "/repos/") {
            assert(starts_with(vs[i as int].0, "/repos/"@));
            return true;
        }
        i = i + 1;
    }
    false
}

/// The members of an object value.
pub open spec fn obj_of(v: Json) -> Option<Seq<(Seq<char>, Json)>> {
    match v {
        Json::Object(ms) => Some(ms),
        _ => None,
    }
}

/// Whether a URL names GitHub's API.
fn is_github_url(url: &str) -> (r: bool)
    ensures
        r == github_url(url@),
{
    let lower = ascii_lower_str(url);
    contains_str(lower.as_str(), "api.github.com") || contains_str(lower.as_str(), "/api/v3")
}

/// Some server's URL names GitHub's API.
fn doc_has_github_server(doc: &JsonValue) -> (r: bool)
    ensures
        r == has_github_server(doc@),
{
    let servers = match doc.get_key("servers") {
        Some(s) => s,
        None => {
            return false;
        },
    };
    match servers {
        JsonValue::Array(items) => {
            let ghost its = servers@->Array_0;
            assert(forall|k: int| 0 <= k < its.len() ==> its[k] == (#[trigger] items@[k])@);
            let mut i: usize = 0;
            while i < items.len()
                invariant
                    *servers == JsonValue::Array(*items),
                    get_key(doc@, "servers"@) == Some(servers@),
                    its == servers@->Array_0,
                    its.len() == items@.len(),
                    forall|k: int| 0 <= k < its.len() ==> its[k] == (#[trigger] items@[k])@,
                    i <= items@.len(),
                    forall|j: int|
                        0 <= j < i ==> !(str_member(#[trigger] its[j], "url"@) matches Some(u) && github_url(u)),
                decreases items@.len() - i,
            {
                match str_member_of(&items[i], "url") {
                    Some(u) => {
                        if is_github_url(u) {
                            assert(str_member(its[i as int], "url"@) matches Some(x) && github_url(x));
                            return true;
                        }
                    },
                    None => {},
                }
                i = i + 1;
            }
            false
        },
        _ => false,
    }
}

/// Whether the document describes GitHub's REST API: by its title, its base URL
/// (with `/repos/` paths for `/api/v3`), or a server URL.
pub fn detect_github_api(doc: &JsonValue, title: &str, base_url: &str) -> (r: bool)
    ensures
        r == github_api(doc@, title@, base_url@),
{
    let title_lower = ascii_lower_str(title);
    if contains_str(title_lower.as_str(), "github") {
        return true;
    }
    let base_lower = ascii_lower_str(base_url);
    if contains_str(base_lower.as_str(), "api.github.com") {
        return true;
    }
    if contains_str(base_lower.as_str(), "/api/v3") && doc_has_github_paths(doc) {
        return true;
    }
    doc_has_github_server(doc)
}

} // verus!
