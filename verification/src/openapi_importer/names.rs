//! Names the importer derives from OpenAPI text: command and segment slugs,
//! path segments, HTTP methods and status codes.

use vstd::prelude::*;
use crate::models::types::HttpMethod;
use crate::text::{
    all_digits, ascii_lower, ascii_upper, ascii_upper_str, contains, contains_str, digits_value,
    ends_with, from_chars, is_ascii_alnum, is_ascii_digit, lower_char, owned, split_char, split_on,
    starts_with, str_eq, to_chars, ascii_lower_str, char_from_u32_ascii,
};

verus! {

broadcast use vstd::std_specs::vec::group_vec_axioms;

/// A segment character: ASCII letters and digits (lowercased), `-` and `_`; anything else becomes `-`.
pub open spec fn segment_char(c: char) -> char {
    if is_ascii_alnum(c) || c == '-' || c == '_' {
        lower_char(c)
    } else {
        '-'
    }
}

/// A slug character: ASCII letters and digits (lowercased); anything else becomes `-`.
pub open spec fn slug_char(c: char) -> char {
    if is_ascii_alnum(c) {
        lower_char(c)
    } else {
        '-'
    }
}

/// Every run of `-` in `s` shortened to a single `-`.
pub open spec fn collapse_dashes(s: Seq<char>) -> Seq<char>
    decreases s.len(),
{
    if s.len() == 0 {
        s
    } else {
        let p = collapse_dashes(s.drop_last());
        if s.last() == '-' && p.len() > 0 && p.last() == '-' {
            p
        } else {
            p.push(s.last())
        }
    }
}

/// `s` without the leading characters `c`.
pub open spec fn strip_start(s: Seq<char>, c: char) -> Seq<char>
    decreases s.len(),
{
    if s.len() > 0 && s[0] == c {
        strip_start(s.drop_first(), c)
    } else {
        s
    }
}

/// `s` without the trailing characters `c`.
pub open spec fn strip_end(s: Seq<char>, c: char) -> Seq<char>
    decreases s.len(),
{
    if s.len() > 0 && s.last() == c {
        strip_end(s.drop_last(), c)
    } else {
        s
    }
}

/// `str::trim_matches(c)`.
pub open spec fn strip(s: Seq<char>, c: char) -> Seq<char> {
    strip_end(strip_start(s, c), c)
}

/// A URL path segment as a command name.
pub open spec fn sanitized(s: Seq<char>) -> Seq<char> {
    strip(collapse_dashes(Seq::new(s.len(), |i: int| segment_char(s[i]))), '-')
}

/// A title as a profile or command slug; `api` when nothing is left.
pub open spec fn slug(s: Seq<char>) -> Seq<char> {
    let t = collapse_dashes(strip(Seq::new(s.len(), |i: int| slug_char(s[i])), '-'));
    if t.len() == 0 {
        "api"@
    } else {
        t
    }
}

/// The pieces of `parts` that are not empty, in order.
pub open spec fn nonempty_parts(parts: Seq<Seq<char>>) -> Seq<Seq<char>>
    decreases parts.len(),
{
    if parts.len() == 0 {
        parts
    } else {
        let p = nonempty_parts(parts.drop_last());
        if parts.last().len() > 0 {
            p.push(parts.last())
        } else {
            p
        }
    }
}

/// The non-empty segments of a URL path.
pub open spec fn segments_of(path: Seq<char>) -> Seq<Seq<char>> {
    nonempty_parts(split_on(path, '/'))
}

/// A `{name}` placeholder segment.
pub open spec fn is_param_segment(s: Seq<char>) -> bool {
    starts_with(s, "{"@) && ends_with(s, "}"@)
}

/// The method a lower- or upper-case method name denotes.
pub open spec fn method_named(m: Seq<char>) -> Option<HttpMethod> {
    let u = ascii_upper(m);
    if u == "GET"@ {
        Some(HttpMethod::GET)
    } else if u == "POST"@ {
        Some(HttpMethod::POST)
    } else if u == "PUT"@ {
        Some(HttpMethod::PUT)
    } else if u == "DELETE"@ {
        Some(HttpMethod::DELETE)
    } else if u == "PATCH"@ {
        Some(HttpMethod::PATCH)
    } else {
        None
    }
}

/// The lower-case key of a method.
pub open spec fn method_key(m: HttpMethod) -> Seq<char> {
    match m {
        HttpMethod::GET => "get"@,
        HttpMethod::POST => "post"@,
        HttpMethod::PUT => "put"@,
        HttpMethod::DELETE => "delete"@,
        HttpMethod::PATCH => "patch"@,
    }
}

/// A component schema name that denotes an error payload.
pub open spec fn error_schema_name(name: Seq<char>) -> bool {
    let l = ascii_lower(name);
    contains(l, "error"@) || contains(l, "problem"@) || l == "rpc_status"@
}

/// A response key that is a three-digit status code.
pub open spec fn status_code_of(code: Seq<char>) -> Option<nat> {
    if code.len() == 3 && all_digits(code) {
        Some(digits_value(code))
    } else {
        None
    }
}

/// The segment (or slug) character of each character of `s`.
fn mapped_chars(s: &str, keep_marks: bool) -> (r: Vec<char>)
    ensures
        keep_marks ==> r@ == Seq::new(s@.len(), |i: int| segment_char(s@[i])),
        !keep_marks ==> r@ == Seq::new(s@.len(), |i: int| slug_char(s@[i])),
{
    let v = to_chars(s);
    let mut out: Vec<char> = Vec::new();
    let mut i: usize = 0;
    while i < v.len()
        invariant
            v@ == s@,
            i <= v@.len(),
            out@.len() == i,
            keep_marks ==> forall|j: int| 0 <= j < i ==> out@[j] == segment_char(#[trigger] v@[j]),
            !keep_marks ==> forall|j: int| 0 <= j < i ==> out@[j] == slug_char(#[trigger] v@[j]),
        decreases v@.len() - i,
    {
        let c = v[i];
        let alnum = ('0' <= c && c <= '9') || ('a' <= c && c <= 'z') || ('A' <= c && c <= 'Z');
        let keep = alnum || (keep_marks && (c == '-' || c == '_'));
        let m = if keep {
            lower_one(c)
        } else {
            '-'
        };
        out.push(m);
        i = i + 1;
    }
    proof {
        if keep_marks {
            assert(out@ =~= Seq::new(s@.len(), |i: int| segment_char(s@[i])));
        } else {
            assert(out@ =~= Seq::new(s@.len(), |i: int| slug_char(s@[i])));
        }
    }
    out
}

/// `char::to_ascii_lowercase`.
fn lower_one(c: char) -> (r: char)
    ensures
        r == lower_char(c),
{
    if 'A' <= c && c <= 'Z' {
        char_from_u32_ascii((c as u32) + 32)
    } else {
        c
    }
}

/// Runs of `-` shortened to one `-`.
fn collapse_vec(v: &Vec<char>) -> (r: Vec<char>)
    ensures
        r@ == collapse_dashes(v@),
{
    let mut out: Vec<char> = Vec::new();
    let mut i: usize = 0;
    assert(v@.take(0) =~= Seq::<char>::empty());
    while i < v.len()
        invariant
            i <= v@.len(),
            out@ == collapse_dashes(v@.take(i as int)),
        decreases v@.len() - i,
    {
        let c = v[i];
        assert(v@.take(i + 1).drop_last() =~= v@.take(i as int));
        let n = out.len();
        if !(c == '-' && n > 0 && out[n - 1] == '-') {
            out.push(c);
        }
        i = i + 1;
    }
    assert(v@.take(v@.len() as int) =~= v@);
    out
}

proof fn lemma_strip_start_skip(s: Seq<char>, c: char, k: int)
    requires
        0 <= k <= s.len(),
        forall|j: int| 0 <= j < k ==> s[j] == c,
    ensures
        strip_start(s, c) == strip_start(s.skip(k), c),
    decreases k,
{
    if k > 0 {
        assert(s.skip(1) =~= s.drop_first());
        assert forall|j: int| 0 <= j < k - 1 implies s.drop_first()[j] == c by {
            assert(s.drop_first()[j] == s[j + 1]);
        }
        lemma_strip_start_skip(s.drop_first(), c, k - 1);
        assert(s.drop_first().skip(k - 1) =~= s.skip(k));
    } else {
        assert(s.skip(0) =~= s);
    }
}

proof fn lemma_strip_end_take(s: Seq<char>, c: char, k: int)
    requires
        0 <= k <= s.len(),
        forall|j: int| k <= j < s.len() ==> s[j] == c,
    ensures
        strip_end(s, c) == strip_end(s.take(k), c),
    decreases s.len() - k,
{
    if k < s.len() {
        assert forall|j: int| k <= j < s.drop_last().len() implies s.drop_last()[j] == c by {
            assert(s.drop_last()[j] == s[j]);
        }
        lemma_strip_end_take(s.drop_last(), c, k);
        assert(s.drop_last().take(k) =~= s.take(k));
    } else {
        assert(s.take(k) =~= s);
    }
}

/// `strip(s, c)` is the part of `s` between the first and the last character other than `c`.
pub proof fn lemma_strip_bounds(s: Seq<char>, c: char, a: int, b: int)
    requires
        0 <= a <= b <= s.len(),
        forall|j: int| 0 <= j < a ==> s[j] == c,
        a < s.len() ==> s[a] != c,
        forall|q: int| b <= q < s.len() ==> s[q] == c,
        b > a ==> s[b - 1] != c,
        a == s.len() ==> b == a,
    ensures
        strip(s, c) == s.subrange(a, b),
{
    lemma_strip_start_skip(s, c, a);
    let rest = s.skip(a);
    assert(strip_start(rest, c) == rest);
    lemma_strip_end_take(rest, c, b - a);
    assert(rest.take(b - a) =~= s.subrange(a, b));
    let t = s.subrange(a, b);
    assert(strip_end(t, c) == t);
}

/// `trim_matches(c)` on a character vector.
fn strip_vec(v: &Vec<char>, c: char) -> (r: Vec<char>)
    ensures
        r@ == strip(v@, c),
{
    let mut i: usize = 0;
    while i < v.len() && v[i] == c
        invariant
            i <= v@.len(),
            forall|j: int| 0 <= j < i ==> v@[j] == c,
        decreases v@.len() - i,
    {
        i = i + 1;
    }
    proof {
        lemma_strip_start_skip(v@, c, i as int);
    }
    let mut j: usize = v.len();
    while j > i && v[j - 1] == c
        invariant
            i <= j <= v@.len(),
            forall|q: int| j <= q < v@.len() ==> v@[q] == c,
        decreases j,
    {
        j = j - 1;
    }
    let ghost rest = v@.skip(i as int);
    proof {
        assert(strip_start(rest, c) == rest);
        lemma_strip_end_take(rest, c, j - i);
        assert(rest.take(j - i) =~= v@.subrange(i as int, j as int));
        let t = v@.subrange(i as int, j as int);
        assert(!(t.len() > 0 && t.last() == c));
        assert(strip_end(t, c) == t);
    }
    let mut out: Vec<char> = Vec::new();
    let mut k: usize = i;
    while k < j
        invariant
            i <= k <= j <= v@.len(),
            out@ == v@.subrange(i as int, k as int),
        decreases j - k,
    {
        out.push(v[k]);
        assert(v@.subrange(i as int, k as int).push(v@[k as int]) =~= v@.subrange(i as int, k + 1));
        k = k + 1;
    }
    out
}

/// A URL path segment as a command name: ASCII letters, digits, `-` and `_`
/// kept (lowercased), anything else turned into `-`, runs of `-` collapsed and
/// `-` trimmed from both ends.
pub fn sanitize_segment(segment: &str) -> (r: String)
    ensures
        r@ == sanitized(segment@),
{
    let m = mapped_chars(segment, true);
    let c = collapse_vec(&m);
    let t = strip_vec(&c, '-');
    from_chars(t.as_slice())
}

/// A title as a slug: ASCII letters and digits kept (lowercased), anything else
/// turned into `-`, `-` trimmed from both ends, runs of `-` collapsed; `api`
/// when nothing is left.
pub fn slugify_name(title: &str) -> (r: String)
    ensures
        r@ == slug(title@),
{
    let m = mapped_chars(title, false);
    let t = strip_vec(&m, '-');
    let c = collapse_vec(&t);
    if c.len() == 0 {
        owned("api")
    } else {
        from_chars(c.as_slice())
    }
}

/// The non-empty `/`-separated segments of a URL path.
pub fn path_segments(path: &str) -> (r: Vec<String>)
    ensures
        r@.len() == segments_of(path@).len(),
        forall|i: int| 0 <= i < r@.len() ==> (#[trigger] r@[i])@ == segments_of(path@)[i],
{
    let parts = split_char(path, '/');
    let ghost all = split_on(path@, '/');
    let mut out: Vec<String> = Vec::new();
    let mut i: usize = 0;
    assert(all.take(0) =~= Seq::<Seq<char>>::empty());
    while i < parts.len()
        invariant
            all == split_on(path@, '/'),
            parts@.len() == all.len(),
            forall|k: int| 0 <= k < parts@.len() ==> (#[trigger] parts@[k])@ == all[k],
            i <= parts@.len(),
            out@.len() == nonempty_parts(all.take(i as int)).len(),
            forall|k: int| 0 <= k < out@.len() ==> (#[trigger] out@[k])@ == nonempty_parts(all.take(i as int))[k],
        decreases parts@.len() - i,
    {
        assert(all.take(i + 1).drop_last() =~= all.take(i as int));
        assert(all.take(i + 1).last() == parts@[i as int]@);
        if !parts[i].as_str().is_empty() {
            out.push(parts[i].clone());
        }
        i = i + 1;
    }
    assert(all.take(parts@.len() as int) =~= all);
    out
}

/// A `{name}` placeholder segment.
pub fn is_path_param_segment(segment: &str) -> (r: bool)
    ensures
        r == is_param_segment(segment@),
{
    let v = to_chars(segment);
    let n = v.len();
    let r = n > 0 && v[0] == '{' && v[n - 1] == '}';
    proof {
        reveal_strlit("{");
        reveal_strlit("}");
        let s = segment@;
        assert("{"@ =~= seq!['{']);
        assert("}"@ =~= seq!['}']);
        if n > 0 {
            assert(s.take(1) =~= seq![s[0]]);
            assert(s.skip(s.len() - 1) =~= seq![s[n - 1]]);
            if starts_with(s, "{"@) {
                assert(s.take(1)[0] == '{');
            }
            if ends_with(s, "}"@) {
                assert(s.skip(s.len() - 1)[0] == '}');
            }
        }
    }
    r
}

/// The method an OpenAPI operation key names (`get`, `post`, `put`, `delete`, `patch`, any case).
pub fn parse_http_method(method: &str) -> (r: Option<HttpMethod>)
    ensures
        r == method_named(method@),
{
    let u = ascii_upper_str(method);
    let s = u.as_str();
    if str_eq(s, "GET") {
        Some(HttpMethod::GET)
    } else if str_eq(s, "POST") {
        Some(HttpMethod::POST)
    } else if str_eq(s, "PUT") {
        Some(HttpMethod::PUT)
    } else if str_eq(s, "DELETE") {
        Some(HttpMethod::DELETE)
    } else if str_eq(s, "PATCH") {
        Some(HttpMethod::PATCH)
    } else {
        None
    }
}

/// The lower-case command key of a method.
pub fn http_method_key(method: &HttpMethod) -> (r: String)
    ensures
        r@ == method_key(*method),
{
    match method {
        HttpMethod::GET => owned("get"),
        HttpMethod::POST => owned("post"),
        HttpMethod::PUT => owned("put"),
        HttpMethod::DELETE => owned("delete"),
        HttpMethod::PATCH => owned("patch"),
    }
}

/// Whether a component schema name denotes an error payload.
pub fn is_error_schema_name(name: &str) -> (r: bool)
    ensures
        r == error_schema_name(name@),
{
    let lower = ascii_lower_str(name);
    let l = lower.as_str();
    contains_str(l, "error") || contains_str(l, "problem") || str_eq(l, "rpc_status")
}

/// A response key as a status code: three ASCII digits.
pub fn parse_response_status_code(code: &str) -> (r: Option<u16>)
    ensures
        match r {
            Some(s) => status_code_of(code@) == Some(s as nat),
            None => status_code_of(code@) is None,
        },
{
    let v = to_chars(code);
    if v.len() != 3 {
        return None;
    }
    let mut value: u16 = 0;
    let mut i: usize = 0;
    while i < 3
        invariant
            v@ == code@,
            v@.len() == 3,
            i <= 3,
            all_digits(v@.take(i as int)),
            value as nat == digits_value(v@.take(i as int)),
            value < 1000,
            i == 0 ==> value == 0,
            i == 1 ==> value < 10,
            i == 2 ==> value < 100,
        decreases 3 - i,
    {
        let c = v[i];
        if !('0' <= c && c <= '9') {
            proof {
                assert(!is_ascii_digit(v@[i as int]));
            }
            return None;
        }
        let d: u16 = (c as u32 - 48) as u16;
        assert(v@.take(i + 1).drop_last() =~= v@.take(i as int));
        value = value * 10 + d;
        i = i + 1;
    }
    assert(v@.take(3) =~= v@);
    Some(value)
}

/// `https://api.example.com`, the base URL used when a document names none.
pub fn default_base_url_placeholder() -> (r: String)
    ensures
        r@ == "https://api.example.com"@,
{
    owned("https://api.example.com")
}

// ---------------------------------------------------------------- slug laws

/// A character a slug may hold: an ASCII lower-case letter or digit, or `-`.
pub open spec fn slug_alphabet(c: char) -> bool {
    ('a' <= c && c <= 'z') || ('0' <= c && c <= '9') || c == '-'
}

/// No two neighbouring characters of `t` are both `-`.
pub open spec fn no_double_dash(t: Seq<char>) -> bool {
    forall|i: int, j: int| 0 <= i && j == i + 1 && j < t.len() ==> !(#[trigger] t[i] == '-' && #[trigger] t[j] == '-')
}

/// The shape of every slug: not empty, only ASCII lower-case letters, digits
/// and `-`, no `--`, and no `-` at either end.
pub open spec fn slug_form(t: Seq<char>) -> bool {
    &&& t.len() > 0
    &&& forall|i: int| 0 <= i < t.len() ==> slug_alphabet(#[trigger] t[i])
    &&& no_double_dash(t)
    &&& t[0] != '-'
    &&& t.last() != '-'
}

proof fn lemma_strip_start_suffix(s: Seq<char>, c: char) -> (k: int)
    ensures
        0 <= k <= s.len(),
        strip_start(s, c) == s.skip(k),
        strip_start(s, c).len() > 0 ==> strip_start(s, c)[0] != c,
    decreases s.len(),
{
    if s.len() > 0 && s[0] == c {
        let k0 = lemma_strip_start_suffix(s.drop_first(), c);
        assert(s.drop_first().skip(k0) =~= s.skip(k0 + 1));
        k0 + 1
    } else {
        assert(s.skip(0) =~= s);
        0
    }
}

proof fn lemma_strip_end_prefix(s: Seq<char>, c: char) -> (k: int)
    ensures
        0 <= k <= s.len(),
        strip_end(s, c) == s.take(k),
        strip_end(s, c).len() > 0 ==> strip_end(s, c).last() != c,
    decreases s.len(),
{
    if s.len() > 0 && s.last() == c {
        let k0 = lemma_strip_end_prefix(s.drop_last(), c);
        assert(s.drop_last().take(k0) =~= s.take(k0));
        k0
    } else {
        assert(s.take(s.len() as int) =~= s);
        s.len() as int
    }
}

proof fn lemma_collapse_shape(s: Seq<char>)
    requires
        forall|i: int| 0 <= i < s.len() ==> slug_alphabet(#[trigger] s[i]),
    ensures
        (collapse_dashes(s).len() > 0) == (s.len() > 0),
        forall|i: int| 0 <= i < collapse_dashes(s).len() ==> slug_alphabet(#[trigger] collapse_dashes(s)[i]),
        no_double_dash(collapse_dashes(s)),
        s.len() > 0 ==> collapse_dashes(s)[0] == s[0] && collapse_dashes(s).last() == s.last(),
    decreases s.len(),
{
    if s.len() > 0 {
        let d = s.drop_last();
        lemma_collapse_shape(d);
        let p = collapse_dashes(d);
        let r = collapse_dashes(s);
        if !(s.last() == '-' && p.len() > 0 && p.last() == '-') {
            assert(r == p.push(s.last()));
            assert forall|i: int, j: int| 0 <= i && j == i + 1 && j < r.len() implies !(#[trigger] r[i] == '-'
                && #[trigger] r[j] == '-') by {
                if j < p.len() {
                    assert(r[i] == p[i] && r[j] == p[j]);
                }
            }
        }
    }
}

proof fn lemma_collapse_keeps(s: Seq<char>)
    requires
        no_double_dash(s),
    ensures
        collapse_dashes(s) == s,
    decreases s.len(),
{
    if s.len() > 0 {
        let d = s.drop_last();
        assert(no_double_dash(d)) by {
            assert forall|i: int, j: int| 0 <= i && j == i + 1 && j < d.len() implies !(#[trigger] d[i] == '-'
                && #[trigger] d[j] == '-') by {
                assert(d[i] == s[i] && d[j] == s[j]);
            }
        }
        lemma_collapse_keeps(d);
        if d.len() > 0 {
            assert(d.last() == s[s.len() - 2]);
            assert(!(s[s.len() - 2] == '-' && s[s.len() - 1] == '-'));
        }
        assert(d.push(s.last()) =~= s);
    }
}

/// Every slug `slugify_name` gives is non-empty, made of ASCII lower-case
/// letters, digits and `-`, holds no `--`, neither starts nor ends with `-`,
/// and is its own slug.
pub proof fn law_slug_form(title: Seq<char>)
    ensures
        slug_form(slug(title)),
        slug(slug(title)) == slug(title),
{
    let m = Seq::new(title.len(), |i: int| slug_char(title[i]));
    assert forall|i: int| 0 <= i < m.len() implies slug_alphabet(#[trigger] m[i]) by {
        let c = title[i];
        if 'A' <= c && c <= 'Z' {
            assert('a' <= lower_char(c) && lower_char(c) <= 'z');
        }
    }
    let k1 = lemma_strip_start_suffix(m, '-');
    let a = strip_start(m, '-');
    let k2 = lemma_strip_end_prefix(a, '-');
    let t = strip(m, '-');
    assert(t =~= m.subrange(k1, k1 + k2));
    if t.len() > 0 {
        assert(t[0] == a[0]);
    }
    lemma_collapse_shape(t);
    let r = collapse_dashes(t);
    if r.len() == 0 {
        reveal_strlit("api");
        assert(slug(title) == "api"@);
        let s2 = "api"@;
        let m2 = Seq::new(s2.len(), |i: int| slug_char(s2[i]));
        assert(m2 =~= s2);
        assert(strip_start(s2, '-') == s2);
        assert(strip_end(s2, '-') == s2);
        assert(no_double_dash(s2));
        lemma_collapse_keeps(s2);
    } else {
        assert(slug(title) == r);
        let m2 = Seq::new(r.len(), |i: int| slug_char(r[i]));
        assert(m2 =~= r);
        assert(strip_start(r, '-') == r);
        assert(strip_end(r, '-') == r);
        lemma_collapse_keeps(r);
    }
}

} // verus!
