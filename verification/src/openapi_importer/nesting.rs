//! Where an operation nests (path segments or its tag) and its shortened leaf name.

use vstd::prelude::*;
use crate::openapi_importer::names::{
    collapse_dashes, sanitize_segment, sanitized, slug, slugify_name, strip,
};
use crate::openapi_importer::operations::{text_views, OpFound, OperationSpec};
use crate::openapi_importer::OpenApiNestBy;
use crate::text::{
    before_first, before_first_str, contains, contains_str, ends_with, find_char_from,
    from_chars_range, index_of, owned, replace_all, replace_str, starts_with, starts_with_str,
    str_eq, to_chars,
};

verus! {

broadcast use vstd::std_specs::vec::group_vec_axioms;

/// `short` with the redundancy of segment `seg` removed: a leading `seg-`, an
/// embedded `-seg-`, a trailing `-seg`, and (for a plural segment) a trailing
/// `-<singular>`.
pub open spec fn without_segment(short: Seq<char>, seg: Seq<char>) -> Seq<char> {
    let a = if starts_with(short, seg + "-"@) {
        short.skip(seg.len() + 1int)
    } else {
        short
    };
    let embedded = "-"@ + seg + "-"@;
    let b = if contains(a, embedded) {
        replace_all(a, embedded, "-"@)
    } else {
        a
    };
    let c = if ends_with(b, "-"@ + seg) {
        b.take(b.len() - (seg.len() + 1))
    } else {
        b
    };
    if ends_with(seg, "s"@) {
        let singular = seg.drop_last();
        if ends_with(c, "-"@ + singular) {
            c.take(c.len() - (singular.len() + 1))
        } else {
            c
        }
    } else {
        c
    }
}

/// `short` with the redundancy of each of `segs` removed, in order.
pub open spec fn without_segments(short: Seq<char>, segs: Seq<Seq<char>>) -> Seq<char>
    decreases segs.len(),
{
    if segs.len() == 0 {
        short
    } else {
        without_segment(without_segments(short, segs.drop_last()), segs.last())
    }
}

/// The leaf name an operation is shortened to: the `operationId` tail when its
/// prefix is the first segment, with segment redundancy removed; the name itself
/// when nothing is left.
pub open spec fn short_name(name: Seq<char>, segs: Seq<Seq<char>>, oid: Option<Seq<char>>) -> Seq<char> {
    let start = match oid {
        Some(o) => match index_of(o, '/') {
            Some(i) => if segs.len() > 0 && segs[0] == slug(o.take(i)) {
                slug(o.skip(i + 1))
            } else {
                name
            },
            None => name,
        },
        None => name,
    };
    let t = strip(collapse_dashes(without_segments(start, segs)), '-');
    if t.len() == 0 {
        name
    } else {
        t
    }
}

/// The segments an operation nests under by tag: its first tag, else the
/// `operationId` prefix, else `untagged`.
pub open spec fn tag_segments(tags: Seq<Seq<char>>, oid: Option<Seq<char>>) -> Seq<Seq<char>> {
    if tags.len() > 0 {
        seq![sanitized(tags[0])]
    } else {
        match oid {
            Some(o) => seq![sanitized(before_first(o, '/'))],
            None => seq!["untagged"@],
        }
    }
}

/// An operation after nesting by `nest_by` and, with `short_names`, shortening its name.
pub open spec fn nested(op: OpFound, nest_by: OpenApiNestBy, short_names: bool) -> OpFound {
    let segs = if nest_by == OpenApiNestBy::Tag {
        tag_segments(op.tags, op.operation_id)
    } else {
        op.static_segments
    };
    let name = if short_names {
        short_name(op.command_name, segs, op.operation_id)
    } else {
        op.command_name
    };
    OpFound { static_segments: segs, command_name: name, ..op }
}

/// `s` without its first `n` characters.
fn skip_chars(s: &str, n: usize) -> (r: String)
    requires
        n <= s@.len(),
    ensures
        r@ == s@.skip(n as int),
{
    let v = to_chars(s);
    from_chars_range(&v, n, v.len())
}

/// `s` with only its first `n` characters.
fn take_chars(s: &str, n: usize) -> (r: String)
    requires
        n <= s@.len(),
    ensures
        r@ == s@.take(n as int),
{
    let v = to_chars(s);
    from_chars_range(&v, 0, n)
}

/// Number of characters of `s`.
fn char_count(s: &str) -> (n: usize)
    ensures
        n == s@.len(),
{
    to_chars(s).len()
}

/// `str::ends_with`.
fn ends_with_str(s: &str, p: &str) -> (r: bool)
    ensures
        r == ends_with(s@, p@),
{
    let sv = to_chars(s);
    let pv = to_chars(p);
    if pv.len() > sv.len() {
        return false;
    }
    let off = sv.len() - pv.len();
    let n = sv.len();
    let mut i: usize = 0;
    while i < pv.len()
        invariant
            n == sv@.len(),
            sv@ == s@,
            pv@ == p@,
            off + pv@.len() == sv@.len(),
            i <= pv@.len(),
            forall|k: int| 0 <= k < i ==> sv@[off + k] == pv@[k],
        decreases pv@.len() - i,
    {
        if sv[off + i] != pv[i] {
            assert(s@.skip(off as int)[i as int] != p@[i as int]);
            return false;
        }
        i = i + 1;
    }
    assert(s@.skip(off as int) =~= p@);
    true
}

/// `<a><b>`.
fn cat(a: &str, b: &str) -> (r: String)
    ensures
        r@ == a@ + b@,
{
    let mut s = owned(a);
    s.append(b);
    s
}

/// `short` with the redundancy of segment `seg` removed.
fn remove_segment(short: String, seg: &str) -> (r: String)
    ensures
        r@ == without_segment(short@, seg@),
{
    proof {
        reveal_strlit("-");
        reveal_strlit("s");
    }
    let mut s = short;
    let seg_prefix = cat(seg, "-");
    if starts_with_str(s.as_str(), seg_prefix.as_str()) {
        s = skip_chars(s.as_str(), char_count(seg_prefix.as_str()));
    }
    let dash = cat("-", seg);
    let embedded = cat(dash.as_str(), "-");
    if contains_str(s.as_str(), embedded.as_str()) {
        s = replace_str(s.as_str(), embedded.as_str(), "-");
    }
    if ends_with_str(s.as_str(), dash.as_str()) {
        let n = char_count(s.as_str()) - char_count(dash.as_str());
        s = take_chars(s.as_str(), n);
    }
    if ends_with_str(seg, "s") {
        let seg_len = char_count(seg);
        let singular = take_chars(seg, seg_len - 1);
        let tail = cat("-", singular.as_str());
        if ends_with_str(s.as_str(), tail.as_str()) {
            let n = char_count(s.as_str()) - char_count(tail.as_str());
            s = take_chars(s.as_str(), n);
        }
    }
    s
}

/// Runs of `-` collapsed, `-` trimmed from both ends.
fn collapse_and_strip(s: &str) -> (r: String)
    ensures
        r@ == strip(collapse_dashes(s@), '-'),
{
    let v = to_chars(s);
    let mut out: Vec<char> = Vec::new();
    let mut i: usize = 0;
    assert(v@.take(0) =~= Seq::<char>::empty());
    while i < v.len()
        invariant
            v@ == s@,
            i <= v@.len(),
            out@ == collapse_dashes(v@.take(i as int)),
        decreases v@.len() - i,
    {
        let c = v[i];
        assert(v@.take(i + 1).drop_last() =~= v@.take(i as int));
        let n = out.len();
        if !(c == '-' && n > 0 && out[n - 1] == '-') {
            out.push(c);
        }
        i = i + 1;
    }
    assert(v@.take(v@.len() as int) =~= v@);
    let mut a: usize = 0;
    while a < out.len() && out[a] == '-'
        invariant
            a <= out@.len(),
            forall|j: int| 0 <= j < a ==> out@[j] == '-',
        decreases out@.len() - a,
    {
        a = a + 1;
    }
    let mut b: usize = out.len();
    while b > a && out[b - 1] == '-'
        invariant
            a <= b <= out@.len(),
            forall|q: int| b <= q < out@.len() ==> out@[q] == '-',
        decreases b,
    {
        b = b - 1;
    }
    proof {
        crate::openapi_importer::names::lemma_strip_bounds(out@, '-', a as int, b as int);
    }
    from_chars_range(&out, a, b)
}

/// The leaf name of an operation with segment redundancy removed (and the
/// `operationId` tail used when its prefix is the first segment); the name
/// itself when nothing would be left.
pub fn shorten_leaf_name(name: &str, segments: &Vec<String>, operation_id: Option<&str>) -> (r: String)
    ensures
        r@ == short_name(
            name@,
            text_views(segments@),
            match operation_id {
                Some(o) => Some(o@),
                None => None,
            },
        ),
{
    let ghost segs = text_views(segments@);
    let mut short = owned(name);
    match operation_id {
        Some(oid) => {
            let v = to_chars(oid);
            assert(v@.skip(0) =~= v@);
            match find_char_from(&v, 0, '/') {
                Some(i) => {
                    let prefix = from_chars_range(&v, 0, i);
                    let tail = from_chars_range(&v, i + 1, v.len());
                    assert(prefix@ =~= oid@.take(i as int));
                    assert(tail@ =~= oid@.skip(i + 1));
                    let prefix_slug = slugify_name(prefix.as_str());
                    if segments.len() > 0 && str_eq(segments[0].as_str(), prefix_slug.as_str()) {
                        short = slugify_name(tail.as_str());
                    }
                },
                None => {},
            }
        },
        None => {},
    }
    let ghost start = short@;
    let mut k: usize = 0;
    assert(segs.take(0) =~= Seq::<Seq<char>>::empty());
    while k < segments.len()
        invariant
            segs == text_views(segments@),
            k <= segments@.len(),
            short@ == without_segments(start, segs.take(k as int)),
        decreases segments@.len() - k,
    {
        assert(segs.take(k + 1).drop_last() =~= segs.take(k as int));
        assert(segs.take(k + 1).last() == segments@[k as int]@);
        short = remove_segment(short, segments[k].as_str());
        k = k + 1;
    }
    assert(segs.take(segments@.len() as int) =~= segs);
    let t = collapse_and_strip(short.as_str());
    if t.as_str().is_empty() {
        owned(name)
    } else {
        t
    }
}

/// The segments an operation nests under by tag.
pub fn nest_segments_from_tags(tags: &Vec<String>, operation_id: Option<&str>) -> (r: Vec<String>)
    ensures
        text_views(r@) == tag_segments(
            text_views(tags@),
            match operation_id {
                Some(o) => Some(o@),
                None => None,
            },
        ),
{
    let mut out: Vec<String> = Vec::new();
    if tags.len() > 0 {
        out.push(sanitize_segment(tags[0].as_str()));
    } else {
        match operation_id {
            Some(oid) => {
                let prefix = before_first_str(oid, '/');
                out.push(sanitize_segment(prefix.as_str()));
            },
            None => {
                out.push(owned("untagged"));
            },
        }
    }
    assert(text_views(out@) =~= tag_segments(
        text_views(tags@),
        match operation_id {
            Some(o) => Some(o@),
            None => None,
        },
    ));
    out
}

/// Places an operation: by tag it nests under its tag segment, and with
/// `short_names` its leaf name is shortened.
pub fn apply_nesting(op: &mut OperationSpec, nest_by: OpenApiNestBy, short_names: bool)
    ensures
        final(op).found() == nested(old(op).found(), nest_by, short_names),
{
    if nest_by == OpenApiNestBy::Tag {
        let oid = match &op.operation_id {
            Some(o) => Some(o.as_str()),
            None => None,
        };
        op.static_segments = nest_segments_from_tags(&op.tags, oid);
    }
    if short_names {
        let oid = match &op.operation_id {
            Some(o) => Some(o.as_str()),
            None => None,
        };
        op.command_name = shorten_leaf_name(op.command_name.as_str(), &op.static_segments, oid);
    }
}

} // verus!
