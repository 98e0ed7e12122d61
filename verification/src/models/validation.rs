//! Validation of API profiles.

use vstd::prelude::*;
use crate::dict::{has_key, Dict};
use crate::error::YcallrError;
use crate::models::command::{command_auth_is_none, quoted};
use crate::models::types::{
    kinds_of, ApiDefinition, AuthConfig, BodyConfig, BodyModel, Command, EnvVar, MultipartField,
};
use crate::outside::{alphanumeric, is_alphanumeric, lowercase, to_lowercase};
use crate::text::{
    after_last, after_last_str, ascii_lower, ascii_lower_str, before_first, before_first_str,
    find_seq, find_seq_from, from_chars_range, is_ascii_alnum, is_blank, is_blank_str,
    join_strings, owned, parse_unsigned, parse_unsigned_exec, split_char, split_on, starts_with,
    starts_with_str, str_eq, to_chars, trim, trim_str,
};

verus! {

broadcast use vstd::std_specs::vec::group_vec_axioms;

// ---------------------------------------------------------------- base URL

/// The piece of `s` between the first and the second `//` (to the end when
/// there is no second), as `s.split("//").nth(1)` gives it.
pub open spec fn second_piece(s: Seq<char>) -> Option<Seq<char>> {
    match find_seq(s, "//"@) {
        None => None,
        Some(i) => {
            let rest = s.skip(i + 2);
            Some(
                match find_seq(rest, "//"@) {
                    Some(j) => rest.take(j),
                    None => rest,
                },
            )
        },
    }
}

/// The host part of an authority with its user info removed: for a bracketed
/// IPv6 literal the text inside the brackets, otherwise the text before the
/// first `:` (the port separator).
pub open spec fn host_part(at: Seq<char>) -> Seq<char> {
    if at.len() > 0 && at[0] == '[' {
        before_first(at.skip(1), ']')
    } else {
        before_first(at, ':')
    }
}

/// The host of a base URL: text after the scheme up to the first `/`, after
/// the last `@`, without the port (and without the brackets of an IPv6
/// literal), trimmed and lower-cased.
pub open spec fn url_host(base_url: Seq<char>) -> Option<Seq<char>> {
    match second_piece(base_url) {
        Some(after) => if after.len() == 0 {
            None
        } else {
            let authority = before_first(after, '/');
            if authority.len() == 0 {
                None
            } else {
                let host = lowercase(trim(host_part(after_last(authority, '@'))));
                if host.len() == 0 {
                    None
                } else {
                    Some(host)
                }
            }
        },
        None => None,
    }
}

/// The base URL uses http(s), has a host, and (when blocking) the host is not
/// a loopback, link-local, metadata or private address.
pub open spec fn base_url_ok(base_url: Seq<char>, block: bool) -> bool {
    let lower = lowercase(base_url);
    &&& starts_with(lower, "http://"@) || starts_with(lower, "https://"@)
    &&& url_host(base_url) is Some
    &&& block ==> !blocked_host(url_host(base_url)->0)
}

/// `host` with the brackets of an IPv6 literal removed.
pub open spec fn unbracket(h: Seq<char>) -> Seq<char> {
    if h.len() >= 2 && h[0] == '[' && h.last() == ']' {
        h.subrange(1, h.len() - 1)
    } else {
        h
    }
}

/// Hosts a profile may not target: loopback and metadata names, `127.*`,
/// `169.254.*`, private IPv4 and local IPv6 addresses.
pub open spec fn blocked_host(host: Seq<char>) -> bool {
    let l = ascii_lower(unbracket(trim(host)));
    ||| l == "localhost"@ || l == "127.0.0.1"@ || l == "0.0.0.0"@ || l == "::1"@
    ||| l == "metadata.google.internal"@ || l == "metadata"@
    ||| starts_with(l, "127."@) || l == "169.254.169.254"@ || starts_with(l, "169.254."@)
    ||| private_ipv4(l)
    ||| private_ipv6(l)
}

/// The dot-separated pieces of `host` that parse as `u8`, in order.
pub open spec fn octets(pieces: Seq<Seq<char>>) -> Seq<nat>
    decreases pieces.len(),
{
    if pieces.len() == 0 {
        Seq::empty()
    } else {
        let prev = octets(pieces.drop_last());
        match parse_unsigned(pieces.last(), 255) {
            Some(v) => prev.push(v),
            None => prev,
        }
    }
}

/// Exactly four pieces of `host` parse as bytes `a.b.*.*`, and `a.b` is in
/// `10/8`, `127/8`, `0/8`, `172.16/12`, `192.168/16` or `169.254/16`.
pub open spec fn private_ipv4(host: Seq<char>) -> bool {
    let o = octets(split_on(host, '.'));
    o.len() == 4 && {
        let a = o[0];
        let b = o[1];
        a == 10 || a == 127 || a == 0 || (a == 172 && 16 <= b <= 31) || (a == 192 && b == 168) || (
        a == 169 && b == 254)
    }
}

/// Link-local (`fe80:`), unique-local (`fc`, `fd`) or loopback IPv6 text.
pub open spec fn private_ipv6(host: Seq<char>) -> bool {
    let l = ascii_lower(host);
    starts_with(l, "fe80:"@) || starts_with(l, "fc"@) || starts_with(l, "fd"@) || l == "::1"@
}

/// `s.split("//").nth(1)`.
fn second_piece_exec(s: &str) -> (r: Option<String>)
    ensures
        match r {
            Some(x) => second_piece(s@) == Some(x@),
            None => second_piece(s@) is None,
        },
{
    let v = to_chars(s);
    let sep = to_chars("//");
    proof {
        reveal_strlit("//");
    }
    assert(v@.skip(0) =~= v@);
    match find_seq_from(&v, &sep, 0) {
        None => None,
        Some(i) => {
            proof {
                crate::text::lemma_find_seq_bounds(v@, sep@);
                assert(sep@.len() == 2);
                assert(v@.len() == v.len());
            }
            let start = i + 2;
            assert(v@.skip(i + 2) =~= v@.skip(start as int));
            match find_seq_from(&v, &sep, start) {
                Some(j) => {
                    proof {
                        crate::text::lemma_find_seq_bounds(v@.skip(start as int), sep@);
                    }
                    assert(v@.subrange(start as int, j as int) =~= v@.skip(start as int).take(j - start));
                    Some(from_chars_range(&v, start, j))
                },
                None => {
                    assert(v@.subrange(start as int, v@.len() as int) =~= v@.skip(start as int));
                    Some(from_chars_range(&v, start, v.len()))
                },
            }
        },
    }
}

/// The first problem of a list, in order.
pub open spec fn first_problem(ps: Seq<Option<Seq<char>>>) -> Option<Seq<char>>
    decreases ps.len(),
{
    if ps.len() == 0 {
        None
    } else {
        match ps[0] {
            Some(m) => Some(m),
            None => first_problem(ps.drop_first()),
        }
    }
}

/// The check's result: the problem, if any, as an invalid-definition error.
pub open spec fn problem_result(p: Option<Seq<char>>) -> Result<(), crate::error::ErrorModel> {
    match p {
        Some(m) => Err(crate::error::ErrorModel::InvalidDefinition(m)),
        None => Ok(()),
    }
}

/// What is wrong with a base URL, if anything.
pub open spec fn base_url_problem(base_url: Seq<char>, block: bool) -> Option<Seq<char>> {
    let lower = lowercase(base_url);
    if !(starts_with(lower, "http://"@) || starts_with(lower, "https://"@)) {
        Some("Base URL must use http:// or https://"@)
    } else if url_host(base_url) is None {
        Some("Base URL is missing a host"@)
    } else if block && blocked_host(url_host(base_url)->0) {
        Some("Base URL host '"@ + url_host(base_url)->0 + "' is not allowed"@)
    } else {
        None
    }
}

/// Checks that a base URL uses http(s) and names a host; with `block`, also
/// that the host is not blocked.
pub fn validate_base_url(base_url: &str, block_sensitive_hosts: bool) -> (r: Result<(), YcallrError>)
    ensures
        r is Ok <==> base_url_ok(base_url@, block_sensitive_hosts),
        crate::error::unit_result(r) == problem_result(base_url_problem(base_url@, block_sensitive_hosts)),
{
    let lower = to_lowercase(base_url);
    if !starts_with_str(lower.as_str(), "http://") && !starts_with_str(lower.as_str(), "https://") {
        return Err(YcallrError::InvalidDefinition(owned("Base URL must use http:// or https://")));
    }
    let after = match second_piece_exec(base_url) {
        Some(a) => a,
        None => {
            return Err(YcallrError::InvalidDefinition(owned("Base URL is missing a host")));
        },
    };
    if after.as_str().is_empty() {
        return Err(YcallrError::InvalidDefinition(owned("Base URL is missing a host")));
    }
    let authority = before_first_str(after.as_str(), '/');
    if authority.as_str().is_empty() {
        return Err(YcallrError::InvalidDefinition(owned("Base URL is missing a host")));
    }
    let at = after_last_str(authority.as_str(), '@');
    let part = host_part_str(at.as_str());
    let trimmed = trim_str(part.as_str());
    let host = to_lowercase(trimmed.as_str());
    if host.as_str().is_empty() {
        return Err(YcallrError::InvalidDefinition(owned("Base URL is missing a host")));
    }
    if block_sensitive_hosts && is_blocked_host(host.as_str()) {
        return Err(YcallrError::InvalidDefinition(quoted("Base URL host '", host.as_str(), "' is not allowed")));
    }
    Ok(())
}

/// Whether a host is blocked for profiles.
pub fn is_blocked_host(host: &str) -> (r: bool)
    ensures
        r == blocked_host(host@),
{
    let t = trim_str(host);
    let v = to_chars(t.as_str());
    let h = if v.len() >= 2 && v[0] == '[' && v[v.len() - 1] == ']' {
        from_chars_range(&v, 1, v.len() - 1)
    } else {
        from_chars_range(&v, 0, v.len())
    };
    assert(v@.subrange(0, v@.len() as int) =~= v@);
    let lower = ascii_lower_str(h.as_str());
    let l = lower.as_str();
    if str_eq(l, "localhost") || str_eq(l, "127.0.0.1") || str_eq(l, "0.0.0.0") || str_eq(l, "::1")
        || str_eq(l, "metadata.google.internal") || str_eq(l, "metadata") || starts_with_str(l, "127.")
        || str_eq(l, "169.254.169.254") || starts_with_str(l, "169.254.") {
        return true;
    }
    if is_private_ipv4(l) {
        return true;
    }
    is_private_ipv6(l)
}

/// Whether `host` reads as a private IPv4 address.
pub fn is_private_ipv4(host: &str) -> (r: bool)
    ensures
        r == private_ipv4(host@),
{
    let pieces = split_char(host, '.');
    let ghost ps = split_on(host@, '.');
    let mut parts: Vec<u64> = Vec::new();
    let mut i: usize = 0;
    while i < pieces.len()
        invariant
            i <= pieces@.len(),
            pieces@.len() == ps.len(),
            forall|k: int| 0 <= k < pieces@.len() ==> (#[trigger] pieces@[k])@ == ps[k],
            parts@.len() == octets(ps.take(i as int)).len(),
            forall|k: int| 0 <= k < parts@.len() ==> parts@[k] as nat == octets(ps.take(i as int))[k],
        decreases pieces@.len() - i,
    {
        let cs = to_chars(pieces[i].as_str());
        assert(ps.take(i + 1).drop_last() =~= ps.take(i as int));
        assert(ps.take(i + 1).last() == ps[i as int]);
        match parse_unsigned_exec(&cs, 255) {
            Some(x) => {
                parts.push(x);
            },
            None => {},
        }
        i = i + 1;
    }
    assert(ps.take(pieces@.len() as int) =~= ps);
    if parts.len() != 4 {
        return false;
    }
    let a = parts[0];
    let b = parts[1];
    a == 10 || a == 127 || a == 0 || (a == 172 && 16 <= b && b <= 31) || (a == 192 && b == 168) || (a
        == 169 && b == 254)
}

/// Whether `host` reads as a local IPv6 address.
pub fn is_private_ipv6(host: &str) -> (r: bool)
    ensures
        r == private_ipv6(host@),
{
    let lower = ascii_lower_str(host);
    let l = lower.as_str();
    starts_with_str(l, "fe80:") || starts_with_str(l, "fc") || starts_with_str(l, "fd") || str_eq(l, "::1")
}

/// The host part of `at`: inside the brackets of an IPv6 literal, else before
/// the first `:`.
fn host_part_str(at: &str) -> (r: String)
    ensures
        r@ == host_part(at@),
{
    let v = to_chars(at);
    if v.len() > 0 && v[0] == '[' {
        let rest = from_chars_range(&v, 1, v.len());
        assert(rest@ =~= at@.skip(1));
        before_first_str(rest.as_str(), ']')
    } else {
        before_first_str(at, ':')
    }
}

// ---------------------------------------------------------------- bodies, env, auth, commands

/// A text is present and not empty.
pub open spec fn nonempty(o: Option<String>) -> bool {
    o is Some && o->0@.len() > 0
}

/// A text is present and not blank.
pub open spec fn filled(o: Option<String>) -> bool {
    o is Some && !is_blank(o->0@)
}

/// A multipart field has a non-blank name and exactly one of text and file.
pub open spec fn field_ok(f: MultipartField) -> bool {
    !is_blank(f.name@) && (nonempty(f.text) != nonempty(f.file))
}

/// At most one body kind, and every multipart field well formed.
pub open spec fn body_ok(b: BodyModel) -> bool {
    &&& kinds_of(b).len() <= 1
    &&& b.multipart matches Some(fs) ==> forall|i: int| 0 <= i < fs.len() ==> field_ok(#[trigger] fs[i])
}

/// What is wrong with multipart field `i`, if anything.
pub open spec fn field_problem(path: Seq<char>, f: MultipartField, i: int) -> Option<Seq<char>> {
    let pre = "Command '"@ + path + "': multipart field "@;
    if is_blank(f.name@) {
        Some(pre + "at index "@ + crate::text::decimal(i as nat) + " must have a non-empty name"@)
    } else if !nonempty(f.text) && !nonempty(f.file) {
        Some(pre + "'"@ + f.name@ + "' must specify text or file"@)
    } else if nonempty(f.text) && nonempty(f.file) {
        Some(pre + "'"@ + f.name@ + "' cannot specify both text and file"@)
    } else {
        None
    }
}

/// What is wrong with the body of command `path`, if anything: more than one
/// body kind, else the first bad multipart field.
pub open spec fn body_problem(path: Seq<char>, b: BodyModel) -> Option<Seq<char>> {
    if kinds_of(b).len() > 1 {
        Some(
            "Command '"@ + path + "': body must specify only one of json, form, raw, or multipart (found: "@
                + crate::text::join(kinds_of(b), ", "@) + ")"@,
        )
    } else {
        match b.multipart {
            Some(fs) => first_problem(Seq::new(fs.len(), |i: int| field_problem(path, fs[i], i))),
            None => None,
        }
    }
}

/// Checks a command's body configuration.
pub fn validate_body_config(path: &str, body: &BodyConfig) -> (r: Result<(), YcallrError>)
    ensures
        r is Ok <==> body_ok(body@),
        crate::error::unit_result(r) == problem_result(body_problem(path@, body@)),
{
    let kinds = body.body_kinds();
    if kinds.len() > 1 {
        let mut names: Vec<String> = Vec::new();
        let mut i: usize = 0;
        while i < kinds.len()
            invariant
                i <= kinds@.len(),
                names@.len() == i,
                kinds@.len() == kinds_of(body@).len(),
                forall|k: int| 0 <= k < kinds@.len() ==> (#[trigger] kinds@[k])@ == kinds_of(body@)[k],
                forall|k: int| 0 <= k < i ==> (#[trigger] names@[k])@ == kinds_of(body@)[k],
            decreases kinds@.len() - i,
        {
            names.push(owned(kinds[i]));
            i = i + 1;
        }
        let listed = join_strings(&names, ", ");
        assert(Seq::new(names@.len(), |k: int| names@[k]@) =~= kinds_of(body@));
        let mut m = quoted("Command '", path, "': body must specify only one of json, form, raw, or multipart (found: ");
        m.append(listed.as_str());
        m.append(")");
        return Err(YcallrError::InvalidDefinition(m));
    }
    match &body.multipart {
        Some(fields) => {
            let ghost ps = Seq::new(fields@.len(), |k: int| field_problem(path@, fields@[k], k));
            let mut i: usize = 0;
            assert(ps.skip(0) =~= ps);
            while i < fields.len()
                invariant
                    body.multipart == Some(*fields),
                    i <= fields@.len(),
                    forall|k: int| 0 <= k < i ==> field_ok(#[trigger] fields@[k]),
                    ps == Seq::new(fields@.len(), |k: int| field_problem(path@, fields@[k], k)),
                    first_problem(ps) == first_problem(ps.skip(i as int)),
                    kinds_of(body@).len() <= 1,
                decreases fields@.len() - i,
            {
                assert(ps.skip(i as int)[0] == ps[i as int]);
                assert(ps.skip(i as int).drop_first() =~= ps.skip(i + 1));
                let field = &fields[i];
                if is_blank_str(field.name.as_str()) {
                    return Err(YcallrError::InvalidDefinition(index_message(path, i)));
                }
                let has_text = match &field.text {
                    Some(t) => !t.as_str().is_empty(),
                    None => false,
                };
                let has_file = match &field.file {
                    Some(f) => !f.as_str().is_empty(),
                    None => false,
                };
                if !has_text && !has_file {
                    let mut m = quoted("Command '", path, "': multipart field ");
                    m.append("'");
                    m.append(field.name.as_str());
                    m.append("' must specify text or file");
                    return Err(YcallrError::InvalidDefinition(m));
                }
                if has_text && has_file {
                    let mut m = quoted("Command '", path, "': multipart field ");
                    m.append("'");
                    m.append(field.name.as_str());
                    m.append("' cannot specify both text and file");
                    return Err(YcallrError::InvalidDefinition(m));
                }
                i = i + 1;
            }
            assert(ps.skip(i as int).len() == 0);
        },
        None => {},
    }
    Ok(())
}

/// `Command '<path>': multipart field at index <i> must have a non-empty name`.
fn index_message(path: &str, i: usize) -> (r: String)
    ensures
        r@ == "Command '"@ + path@ + "': multipart field "@ + "at index "@ + crate::text::decimal(i as nat)
            + " must have a non-empty name"@,
{
    let mut m = quoted("Command '", path, "': multipart field ");
    m.append("at index ");
    m.append(crate::text::usize_decimal(i).as_str());
    m.append(" must have a non-empty name");
    m
}

/// Environment variable names: non-blank, ASCII letters, digits and `_`, no repeats.
pub open spec fn env_ok(env: Seq<EnvVar>) -> bool {
    &&& forall|i: int| 0 <= i < env.len() ==> !is_blank((#[trigger] env[i]).name@)
    &&& forall|i: int, j: int|
        0 <= i < env.len() && 0 <= j < env[i].name@.len() ==> is_ascii_alnum(#[trigger] env[i].name@[j])
            || env[i].name@[j] == '_'
    &&& forall|i: int, j: int| 0 <= i < j < env.len() ==> (#[trigger] env[i]).name@ != (#[trigger] env[j]).name@
}

/// What is wrong with environment variable `i` of `env`, if anything: a blank
/// name, a character other than ASCII letters, digits and `_`, or a name an
/// earlier variable has.
pub open spec fn env_item_problem(env: Seq<EnvVar>, i: int) -> Option<Seq<char>> {
    let name = env[i].name@;
    if is_blank(name) {
        Some("Environment variable name cannot be empty"@)
    } else if exists|j: int| 0 <= j < name.len() && !(is_ascii_alnum(#[trigger] name[j]) || name[j] == '_') {
        Some("Environment variable '"@ + name + "' must be alphanumeric or underscore"@)
    } else if exists|k: int| 0 <= k < i && (#[trigger] env[k]).name@ == name {
        Some("Duplicate environment variable '"@ + name + "'"@)
    } else {
        None
    }
}

/// The first problem of the declared environment variables.
pub open spec fn env_problem(env: Seq<EnvVar>) -> Option<Seq<char>> {
    first_problem(Seq::new(env.len(), |i: int| env_item_problem(env, i)))
}

/// Checks the declared environment variables.
pub fn validate_env_vars(env: &Vec<EnvVar>) -> (r: Result<(), YcallrError>)
    ensures
        r is Ok <==> env_ok(env@),
        crate::error::unit_result(r) == problem_result(env_problem(env@)),
{
    let ghost ps = Seq::new(env@.len(), |k: int| env_item_problem(env@, k));
    let mut i: usize = 0;
    assert(ps.skip(0) =~= ps);
    while i < env.len()
        invariant
            i <= env@.len(),
            ps == Seq::new(env@.len(), |k: int| env_item_problem(env@, k)),
            first_problem(ps) == first_problem(ps.skip(i as int)),
            forall|k: int| 0 <= k < i ==> !is_blank((#[trigger] env@[k]).name@),
            forall|k: int, j: int|
                0 <= k < i && 0 <= j < env@[k].name@.len() ==> is_ascii_alnum(#[trigger] env@[k].name@[j])
                    || env@[k].name@[j] == '_',
            forall|k: int, j: int| 0 <= k < j < i ==> (#[trigger] env@[k]).name@ != (#[trigger] env@[j]).name@,
        decreases env@.len() - i,
    {
        assert(ps.skip(i as int)[0] == ps[i as int]);
        assert(ps.skip(i as int).drop_first() =~= ps.skip(i + 1));
        let name = &env[i].name;
        if is_blank_str(name.as_str()) {
            return Err(YcallrError::InvalidDefinition(owned("Environment variable name cannot be empty")));
        }
        let cs = to_chars(name.as_str());
        let mut j: usize = 0;
        while j < cs.len()
            invariant
                cs@ == name@,
                i < env@.len(),
                *name == env@[i as int].name,
                j <= cs@.len(),
                forall|q: int| 0 <= q < j ==> is_ascii_alnum(#[trigger] cs@[q]) || cs@[q] == '_',
                !is_blank(name@),
                ps == Seq::new(env@.len(), |k: int| env_item_problem(env@, k)),
                first_problem(ps) == (if ps[i as int] is Some {
                    ps[i as int]
                } else {
                    first_problem(ps.skip(i + 1))
                }),
            decreases cs@.len() - j,
        {
            let c = cs[j];
            if !(('0' <= c && c <= '9') || ('a' <= c && c <= 'z') || ('A' <= c && c <= 'Z') || c == '_') {
                assert(env@[i as int].name@[j as int] == c);
                assert(!(is_ascii_alnum(env@[i as int].name@[j as int]) || env@[i as int].name@[j as int] == '_'));
                return Err(YcallrError::InvalidDefinition(quoted("Environment variable '", name.as_str(), "' must be alphanumeric or underscore")));
            }
            j = j + 1;
        }
        let mut k: usize = 0;
        while k < i
            invariant
                k <= i < env@.len(),
                *name == env@[i as int].name,
                forall|q: int| 0 <= q < k ==> env@[q].name@ != name@,
                !is_blank(name@),
                forall|q: int| 0 <= q < name@.len() ==> is_ascii_alnum(#[trigger] name@[q]) || name@[q] == '_',
                ps == Seq::new(env@.len(), |k: int| env_item_problem(env@, k)),
                first_problem(ps) == (if ps[i as int] is Some {
                    ps[i as int]
                } else {
                    first_problem(ps.skip(i + 1))
                }),
            decreases i - k,
        {
            if str_eq(env[k].name.as_str(), name.as_str()) {
                assert(env@[k as int].name@ == name@);
                return Err(YcallrError::InvalidDefinition(quoted("Duplicate environment variable '", name.as_str(), "'")));
            }
            k = k + 1;
        }
        i = i + 1;
    }
    Ok(())
}

/// Credentials an auth scheme needs are present and not blank.
pub open spec fn auth_ok(a: AuthConfig) -> bool {
    match a {
        AuthConfig::Bearer { token } => !is_blank(token@),
        AuthConfig::ApiKey { key, name, in_ } => !is_blank(key@) && !is_blank(name@),
        AuthConfig::Http { scheme, token, username, password, prefix } => {
            let s = lowercase(scheme@);
            if s == "basic"@ {
                filled(username) && filled(password)
            } else if s == "bearer"@ {
                filled(token)
            } else if s == "custom"@ {
                filled(prefix) && filled(token)
            } else {
                filled(token)
            }
        },
    }
}

/// What credential auth config `name` lacks, if any.
pub open spec fn auth_problem(name: Seq<char>, a: AuthConfig) -> Option<Seq<char>> {
    let pre = "Auth config '"@ + name + "'"@;
    match a {
        AuthConfig::Bearer { token } => if is_blank(token@) {
            Some(pre + ": bearer token cannot be empty"@)
        } else {
            None
        },
        AuthConfig::ApiKey { key, name: key_name, .. } => if is_blank(key@) {
            Some(pre + ": api_key key cannot be empty"@)
        } else if is_blank(key_name@) {
            Some(pre + ": api_key name cannot be empty"@)
        } else {
            None
        },
        AuthConfig::Http { scheme, token, username, password, prefix } => {
            let s = lowercase(scheme@);
            if s == "basic"@ {
                if !filled(username) {
                    Some(pre + ": http basic auth requires username"@)
                } else if !filled(password) {
                    Some(pre + ": http basic auth requires password"@)
                } else {
                    None
                }
            } else if s == "bearer"@ {
                if !filled(token) {
                    Some(pre + ": http bearer auth requires token"@)
                } else {
                    None
                }
            } else if s == "custom"@ {
                if !filled(prefix) {
                    Some(pre + ": http custom auth requires prefix"@)
                } else if !filled(token) {
                    Some(pre + ": http custom auth requires token"@)
                } else {
                    None
                }
            } else if !filled(token) {
                Some("Auth config '"@ + name + "': http scheme '"@ + scheme@ + "' requires token"@)
            } else {
                None
            }
        },
    }
}

/// Whether an optional text is present and not blank.
fn is_filled(o: &Option<String>) -> (r: bool)
    ensures
        r == filled(*o),
{
    match o {
        Some(t) => !is_blank_str(t.as_str()),
        None => false,
    }
}

/// Checks the credentials of auth config `name`.
pub fn validate_auth_config(name: &str, auth: &AuthConfig) -> (r: Result<(), YcallrError>)
    ensures
        r is Ok <==> auth_ok(*auth),
        crate::error::unit_result(r) == problem_result(auth_problem(name@, *auth)),
{
    match auth {
        AuthConfig::Bearer { token } => {
            if is_blank_str(token.as_str()) {
                return Err(auth_error(name, ": bearer token cannot be empty"));
            }
        },
        AuthConfig::ApiKey { key, name: key_name, .. } => {
            if is_blank_str(key.as_str()) {
                return Err(auth_error(name, ": api_key key cannot be empty"));
            }
            if is_blank_str(key_name.as_str()) {
                return Err(auth_error(name, ": api_key name cannot be empty"));
            }
        },
        AuthConfig::Http { scheme, token, username, password, prefix } => {
            let lower = to_lowercase(scheme.as_str());
            let s = lower.as_str();
            if str_eq(s, "basic") {
                if !is_filled(username) {
                    return Err(auth_error(name, ": http basic auth requires username"));
                }
                if !is_filled(password) {
                    return Err(auth_error(name, ": http basic auth requires password"));
                }
            } else if str_eq(s, "bearer") {
                if !is_filled(token) {
                    return Err(auth_error(name, ": http bearer auth requires token"));
                }
            } else if str_eq(s, "custom") {
                if !is_filled(prefix) {
                    return Err(auth_error(name, ": http custom auth requires prefix"));
                }
                if !is_filled(token) {
                    return Err(auth_error(name, ": http custom auth requires token"));
                }
            } else {
                if !is_filled(token) {
                    let mut m = quoted("Auth config '", name, "': http scheme '");
                    m.append(scheme.as_str());
                    m.append("' requires token");
                    return Err(YcallrError::InvalidDefinition(m));
                }
            }
        },
    }
    Ok(())
}

/// `Auth config '<name>'<detail>`.
fn auth_error(name: &str, detail: &str) -> (e: YcallrError)
    ensures
        e@ == crate::error::ErrorModel::InvalidDefinition("Auth config '"@ + name@ + "'"@ + detail@),
{
    let mut m = quoted("Auth config '", name, "'");
    m.append(detail);
    YcallrError::InvalidDefinition(m)
}

/// A command and all its sub-commands are well formed against `auths`: endpoint
/// and method together, auth references resolve (or say `none`), bodies valid.
pub open spec fn command_ok(c: Command, auths: Seq<(String, AuthConfig)>) -> bool
    decreases c,
{
    &&& (c.endpoint is Some) == (c.method is Some)
    &&& c.auth matches Some(a) ==> (ascii_lower(a@) == "none"@ || has_key(auths, a@))
    &&& c.body matches Some(b) ==> body_ok(b@)
    &&& c.commands matches Some(d) ==> forall|i: int|
        0 <= i < d.entries@.len() ==> command_ok(#[trigger] d.entries@[i].1, auths)
}

/// What is wrong with command `path` or, depth first, its sub-commands (named
/// `path.<name>`), if anything.
pub open spec fn command_problem(path: Seq<char>, c: Command, auths: Seq<(String, AuthConfig)>) -> Option<
    Seq<char>,
>
    decreases c, 1nat,
{
    if (c.endpoint is Some) != (c.method is Some) {
        Some("Command '"@ + path + "': endpoint and method must both be set for callable commands"@)
    } else if c.auth is Some && !(ascii_lower(c.auth->0@) == "none"@ || has_key(auths, c.auth->0@)) {
        Some("Command '"@ + path + "': auth config '"@ + c.auth->0@ + "' not found"@)
    } else if c.body is Some && body_problem(path, c.body->0@) is Some {
        body_problem(path, c.body->0@)
    } else {
        first_problem(child_problems(path, c, auths))
    }
}

/// The problems of the sub-commands of command `path`, in table order.
pub open spec fn child_problems(path: Seq<char>, c: Command, auths: Seq<(String, AuthConfig)>) -> Seq<
    Option<Seq<char>>,
>
    decreases c, 0nat,
{
    match c.commands {
        Some(d) => Seq::new(
            d.entries@.len(),
            |k: int|
                if 0 <= k < d.entries@.len() {
                    command_problem(path + "."@ + d.entries@[k].0@, d.entries@[k].1, auths)
                } else {
                    None
                },
        ),
        None => Seq::empty(),
    }
}

/// Checks command `path` and, recursively, its sub-commands.
pub fn validate_command(path: &str, cmd: &Command, auth_configs: &Dict<AuthConfig>) -> (r: Result<(), YcallrError>)
    ensures
        r is Ok <==> command_ok(*cmd, auth_configs.entries@),
        crate::error::unit_result(r) == problem_result(command_problem(path@, *cmd, auth_configs.entries@)),
    decreases cmd,
{
    let has_endpoint = cmd.endpoint.is_some();
    let has_method = cmd.method.is_some();
    if has_endpoint != has_method {
        return Err(YcallrError::InvalidDefinition(quoted("Command '", path, "': endpoint and method must both be set for callable commands")));
    }
    match &cmd.auth {
        Some(auth_name) => {
            if !command_auth_is_none(auth_name.as_str()) && !auth_configs.contains_key(auth_name.as_str()) {
                let mut m = quoted("Command '", path, "': auth config '");
                m.append(auth_name.as_str());
                m.append("' not found");
                return Err(YcallrError::InvalidDefinition(m));
            }
        },
        None => {},
    }
    match &cmd.body {
        Some(body) => {
            let checked = validate_body_config(path, body);
            match checked {
                Ok(()) => {},
                Err(e) => {
                    return Err(e);
                },
            }
        },
        None => {},
    }
    match &cmd.commands {
        Some(children) => {
            let ghost es = children.entries@;
            let ghost ps = child_problems(path@, *cmd, auth_configs.entries@);
            assert(command_problem(path@, *cmd, auth_configs.entries@) == first_problem(ps));
            let mut i: usize = 0;
            assert(ps.skip(0) =~= ps);
            while i < children.entries.len()
                invariant
                    cmd.commands == Some(*children),
                    i <= children.entries@.len(),
                    forall|k: int| 0 <= k < i ==> command_ok(#[trigger] children.entries@[k].1, auth_configs.entries@),
                    es == children.entries@,
                    ps == child_problems(path@, *cmd, auth_configs.entries@),
                    ps.len() == es.len(),
                    forall|k: int| 0 <= k < es.len() ==> #[trigger] ps[k] == command_problem(path@ + "."@ + es[k].0@, es[k].1, auth_configs.entries@),
                    command_problem(path@, *cmd, auth_configs.entries@) == first_problem(ps),
                    first_problem(ps) == first_problem(ps.skip(i as int)),
                decreases children.entries@.len() - i,
            {
                assert(ps.skip(i as int)[0] == ps[i as int]);
                assert(ps.skip(i as int).drop_first() =~= ps.skip(i + 1));
                assert(decreases_to!(*cmd => cmd.commands));
                assert(decreases_to!(cmd.commands => (cmd.commands)->0));
                assert(decreases_to!(*children => children.entries));
                assert(decreases_to!(children.entries => children.entries@[i as int]));
                assert(decreases_to!(children.entries@[i as int] => children.entries@[i as int].1));
                let child_path = quoted(path, ".", children.entries[i].0.as_str());
                let checked = validate_command(child_path.as_str(), &children.entries[i].1, auth_configs);
                match checked {
                    Ok(()) => {},
                    Err(e) => {
                        return Err(e);
                    },
                }
                i = i + 1;
            }
            assert(ps.skip(i as int).len() == 0);
        },
        None => {},
    }
    Ok(())
}

/// Name: non-empty, Unicode letters or digits or `-`.
pub open spec fn name_ok(name: Seq<char>) -> bool {
    name.len() > 0 && forall|i: int| 0 <= i < name.len() ==> alphanumeric(#[trigger] name[i]) || name[i] == '-'
}

/// Everything validation checks of a profile; `block` also rules out sensitive hosts.
pub open spec fn api_ok(api: ApiDefinition, block: bool) -> bool {
    &&& name_ok(api.name@)
    &&& api.base_url@.len() > 0
    &&& base_url_ok(api.base_url@, block)
    &&& forall|i: int| 0 <= i < api.auth.entries@.len() ==> auth_ok(#[trigger] api.auth.entries@[i].1)
    &&& env_ok(api.env@)
    &&& forall|i: int|
        0 <= i < api.commands.entries@.len() ==> command_ok(#[trigger] api.commands.entries@[i].1, api.auth.entries@)
}

/// What is wrong with a profile name, if anything.
pub open spec fn name_problem(name: Seq<char>) -> Option<Seq<char>> {
    if name.len() == 0 {
        Some("API name cannot be empty"@)
    } else if !name_ok(name) {
        Some("API name must be alphanumeric or dash"@)
    } else {
        None
    }
}

/// Whether a profile name is non-empty and made of letters, digits and `-`.
pub fn check_name(name: &str) -> (r: Result<(), YcallrError>)
    ensures
        r is Ok <==> name_ok(name@),
        crate::error::unit_result(r) == match name_problem(name@) {
            Some(m) => Err(crate::error::ErrorModel::InvalidDefinition(m)),
            None => Ok::<(), crate::error::ErrorModel>(()),
        },
{
    if name.is_empty() {
        return Err(YcallrError::InvalidDefinition(owned("API name cannot be empty")));
    }
    let cs = to_chars(name);
    assert(name@.len() > 0);
    let mut i: usize = 0;
    while i < cs.len()
        invariant
            cs@ == name@,
            i <= cs@.len(),
            forall|k: int| 0 <= k < i ==> alphanumeric(#[trigger] cs@[k]) || cs@[k] == '-',
        decreases cs@.len() - i,
    {
        if !(is_alphanumeric(cs[i]) || cs[i] == '-') {
            return Err(YcallrError::InvalidDefinition(owned("API name must be alphanumeric or dash")));
        }
        i = i + 1;
    }
    Ok(())
}

/// The problems of the auth configs of a table, in order.
pub open spec fn auth_problems(es: Seq<(String, AuthConfig)>) -> Seq<Option<Seq<char>>> {
    Seq::new(es.len(), |i: int| auth_problem(es[i].0@, es[i].1))
}

/// The problems of the top-level commands of a table, in order.
pub open spec fn command_problems(es: Seq<(String, Command)>, auths: Seq<(String, AuthConfig)>) -> Seq<
    Option<Seq<char>>,
> {
    Seq::new(es.len(), |j: int| command_problem(es[j].0@, es[j].1, auths))
}

/// The first thing validation finds wrong with a profile, checking its name,
/// base URL, auth configs, environment variables and commands in that order.
pub open spec fn api_problem(api: ApiDefinition, block: bool) -> Option<Seq<char>> {
    match name_problem(api.name@) {
        Some(m) => Some(m),
        None => if api.base_url@.len() == 0 {
            Some("Base URL cannot be empty"@)
        } else {
            match base_url_problem(api.base_url@, block) {
                Some(m) => Some(m),
                None => match first_problem(auth_problems(api.auth.entries@)) {
                    Some(m) => Some(m),
                    None => match env_problem(api.env@) {
                        Some(m) => Some(m),
                        None => first_problem(command_problems(api.commands.entries@, api.auth.entries@)),
                    },
                },
            }
        },
    }
}

fn validate_api_inner(api: &ApiDefinition, block_sensitive_hosts: bool) -> (r: Result<(), YcallrError>)
    ensures
        r is Ok <==> api_ok(*api, block_sensitive_hosts),
        crate::error::unit_result(r) == problem_result(api_problem(*api, block_sensitive_hosts)),
{
    let checked = check_name(api.name.as_str());
    match checked {
        Ok(()) => {},
        Err(e) => {
            return Err(e);
        },
    }
    if api.base_url.as_str().is_empty() {
        return Err(YcallrError::InvalidDefinition(owned("Base URL cannot be empty")));
    }
    let checked = validate_base_url(api.base_url.as_str(), block_sensitive_hosts);
    match checked {
        Ok(()) => {},
        Err(e) => {
            return Err(e);
        },
    }
    let ghost aps = auth_problems(api.auth.entries@);
    let mut i: usize = 0;
    assert(aps.skip(0) =~= aps);
    while i < api.auth.entries.len()
        invariant
            i <= api.auth.entries@.len(),
            forall|k: int| 0 <= k < i ==> auth_ok(#[trigger] api.auth.entries@[k].1),
            aps == auth_problems(api.auth.entries@),
            first_problem(aps) == first_problem(aps.skip(i as int)),
            name_problem(api.name@) is None,
            api.base_url@.len() > 0,
            base_url_problem(api.base_url@, block_sensitive_hosts) is None,
        decreases api.auth.entries@.len() - i,
    {
        assert(aps.skip(i as int)[0] == aps[i as int]);
        assert(aps.skip(i as int).drop_first() =~= aps.skip(i + 1));
        let checked = validate_auth_config(api.auth.entries[i].0.as_str(), &api.auth.entries[i].1);
        match checked {
            Ok(()) => {},
            Err(e) => {
                return Err(e);
            },
        }
        i = i + 1;
    }
    let checked = validate_env_vars(&api.env);
    match checked {
        Ok(()) => {},
        Err(e) => {
            return Err(e);
        },
    }
    assert(aps.skip(i as int).len() == 0);
    let ghost cps = command_problems(api.commands.entries@, api.auth.entries@);
    let mut j: usize = 0;
    assert(cps.skip(0) =~= cps);
    while j < api.commands.entries.len()
        invariant
            j <= api.commands.entries@.len(),
            forall|k: int| 0 <= k < j ==> command_ok(#[trigger] api.commands.entries@[k].1, api.auth.entries@),
            cps == command_problems(api.commands.entries@, api.auth.entries@),
            first_problem(cps) == first_problem(cps.skip(j as int)),
            name_problem(api.name@) is None,
            api.base_url@.len() > 0,
            base_url_problem(api.base_url@, block_sensitive_hosts) is None,
            first_problem(auth_problems(api.auth.entries@)) is None,
            env_problem(api.env@) is None,
        decreases api.commands.entries@.len() - j,
    {
        assert(cps.skip(j as int)[0] == cps[j as int]);
        assert(cps.skip(j as int).drop_first() =~= cps.skip(j + 1));
        let checked = validate_command(api.commands.entries[j].0.as_str(), &api.commands.entries[j].1, &api.auth);
        match checked {
            Ok(()) => {},
            Err(e) => {
                return Err(e);
            },
        }
        j = j + 1;
    }
    assert(cps.skip(j as int).len() == 0);
    Ok(())
}

/// Full validation for YAML/proto ingestion (includes blocked-host checks).
pub fn validate_api(api: &ApiDefinition) -> (r: Result<(), YcallrError>)
    ensures
        r is Ok <==> api_ok(*api, true),
        crate::error::unit_result(r) == problem_result(api_problem(*api, true)),
{
    validate_api_inner(api, true)
}

/// Validation when constructing a runtime HTTP client (allows loopback base URLs).
pub fn validate_api_for_client(api: &ApiDefinition) -> (r: Result<(), YcallrError>)
    ensures
        r is Ok <==> api_ok(*api, false),
        crate::error::unit_result(r) == problem_result(api_problem(*api, false)),
{
    validate_api_inner(api, false)
}

/// A base URL that passes with sensitive hosts blocked also passes without
/// blocking, and a base URL that passes uses `http://` or `https://` (in any
/// case).
pub proof fn law_base_url_checks(base_url: Seq<char>, block: bool)
    ensures
        base_url_ok(base_url, true) ==> base_url_ok(base_url, false),
        base_url_ok(base_url, block) ==> starts_with(lowercase(base_url), "http://"@) || starts_with(
            lowercase(base_url),
            "https://"@,
        ),
{
}

/// An HTTP basic auth config passes the credential check exactly when its
/// username and password are present and not blank.
pub proof fn law_http_basic_needs_credentials(a: AuthConfig)
    requires
        a matches AuthConfig::Http { scheme, .. } && scheme@ == "basic"@,
    ensures
        auth_ok(a) <==> (a->username matches Some(u) && !is_blank(u@)) && (a->password matches Some(p)
            && !is_blank(p@)),
{
    reveal_strlit("basic");
    let b = "basic"@;
    assert(crate::outside::ascii_text(b));
    assert(ascii_lower(b) =~= b);
}

/// A profile that passes full validation passes client validation: client
/// validation differs only in allowing sensitive hosts.
pub proof fn law_full_validation_implies_client(api: ApiDefinition)
    ensures
        api_ok(api, true) ==> api_ok(api, false),
{
}

} // verus!
