//! Recognisers for the literal forms parameters are checked against.

use vstd::prelude::*;
use crate::text::{
    all_digits, ascii_lower, ascii_lower_str, from_chars_range, is_ascii_digit, str_eq, to_chars,
    trim, trim_str,
};

verus! {

broadcast use vstd::std_specs::vec::group_vec_axioms;

/// `s` without one leading `+` or `-`.
pub open spec fn strip_sign(s: Seq<char>) -> Seq<char> {
    if s.len() > 0 && (s[0] == '+' || s[0] == '-') {
        s.drop_first()
    } else {
        s
    }
}

/// Mantissa of a decimal literal: digits and at most one `.`, at least one digit.
pub open spec fn mantissa(m: Seq<char>) -> bool {
    &&& forall|i: int| 0 <= i < m.len() ==> is_ascii_digit(#[trigger] m[i]) || m[i] == '.'
    &&& forall|i: int, j: int| 0 <= i < j < m.len() ==> !(#[trigger] m[i] == '.' && #[trigger] m[j] == '.')
    &&& exists|i: int| 0 <= i < m.len() && is_ascii_digit(#[trigger] m[i])
}

/// Exponent digits after `e`/`E`: an optional sign and at least one digit.
pub open spec fn exponent(e: Seq<char>) -> bool {
    strip_sign(e).len() > 0 && all_digits(strip_sign(e))
}

/// Position of the first `e` or `E`.
pub open spec fn exp_index(s: Seq<char>) -> Option<int>
    decreases s.len(),
{
    if s.len() == 0 {
        None
    } else if s[0] == 'e' || s[0] == 'E' {
        Some(0)
    } else {
        match exp_index(s.drop_first()) {
            Some(i) => Some(i + 1),
            None => None,
        }
    }
}

/// The grammar `f64::from_str` documents: an optional sign, then `inf`,
/// `infinity` or `nan` in any case, or a decimal number with an optional exponent.
pub open spec fn float_literal(s: Seq<char>) -> bool {
    let b = strip_sign(s);
    let l = ascii_lower(b);
    ||| l == "inf"@
    ||| l == "infinity"@
    ||| l == "nan"@
    ||| match exp_index(b) {
        Some(k) => 0 <= k < b.len() && mantissa(b.take(k)) && exponent(b.skip(k + 1)),
        None => mantissa(b),
    }
}

proof fn lemma_exp_index(s: Seq<char>)
    ensures
        match exp_index(s) {
            Some(k) => 0 <= k < s.len() && (s[k] == 'e' || s[k] == 'E') && forall|j: int|
                0 <= j < k ==> !(s[j] == 'e' || s[j] == 'E'),
            None => forall|j: int| 0 <= j < s.len() ==> !(s[j] == 'e' || s[j] == 'E'),
        },
    decreases s.len(),
{
    if s.len() > 0 && !(s[0] == 'e' || s[0] == 'E') {
        lemma_exp_index(s.drop_first());
        assert forall|j: int| 0 < j < s.len() implies s[j] == s.drop_first()[j - 1] by {}
    }
}

/// Whether `v[from..to]` is a mantissa.
fn mantissa_exec(v: &Vec<char>, from: usize, to: usize) -> (r: bool)
    requires
        from <= to <= v@.len(),
    ensures
        r == mantissa(v@.subrange(from as int, to as int)),
{
    let ghost m = v@.subrange(from as int, to as int);
    let mut i: usize = from;
    let mut dots: usize = 0;
    let mut digits: bool = false;
    while i < to
        invariant
            from <= i <= to <= v@.len(),
            m == v@.subrange(from as int, to as int),
            forall|k: int| 0 <= k < i - from ==> is_ascii_digit(#[trigger] m[k]) || m[k] == '.',
            dots <= 1,
            dots == 0 ==> forall|k: int| 0 <= k < i - from ==> m[k] != '.',
            dots == 1 ==> exists|k: int| 0 <= k < i - from && m[k] == '.',
            dots == 1 ==> forall|a: int, b: int| 0 <= a < b < i - from ==> !(#[trigger] m[a] == '.' && #[trigger] m[b] == '.'),
            digits == (exists|k: int| 0 <= k < i - from && is_ascii_digit(#[trigger] m[k])),
        decreases to - i,
    {
        let c = v[i];
        assert(m[i - from] == c);
        if c == '.' {
            if dots == 1 {
                let ghost k = choose|k: int| 0 <= k < i - from && m[k] == '.';
                assert(m[k] == '.' && m[i - from] == '.');
                return false;
            }
            dots = 1;
        } else if '0' <= c && c <= '9' {
            digits = true;
        } else {
            return false;
        }
        i = i + 1;
        proof {
            if dots == 1 {
                assert forall|a: int, b: int| 0 <= a < b < i - from implies !(#[trigger] m[a] == '.' && #[trigger] m[b] == '.') by {
                    if b == i - from - 1 && m[b] == '.' {
                    }
                }
            }
        }
    }
    digits
}

/// Whether `s` parses as an `f64` (the grammar of `f64::from_str`).
pub fn is_float_literal(s: &str) -> (r: bool)
    ensures
        r == float_literal(s@),
{
    let v = to_chars(s);
    let start: usize = if v.len() > 0 && (v[0] == '+' || v[0] == '-') { 1 } else { 0 };
    let ghost b = strip_sign(s@);
    assert(b =~= v@.skip(start as int));
    let body = from_chars_range(&v, start, v.len());
    assert(body@ =~= b);
    let lower = ascii_lower_str(body.as_str());
    if str_eq(lower.as_str(), "inf") || str_eq(lower.as_str(), "infinity") || str_eq(lower.as_str(), "nan") {
        return true;
    }
    let bv = to_chars(body.as_str());
    proof {
        lemma_exp_index(b);
    }
    let mut k: usize = 0;
    while k < bv.len() && !(bv[k] == 'e' || bv[k] == 'E')
        invariant
            bv@ == b,
            k <= bv@.len(),
            forall|j: int| 0 <= j < k ==> !(b[j] == 'e' || b[j] == 'E'),
        decreases bv@.len() - k,
    {
        k = k + 1;
    }
    if k == bv.len() {
        proof {
            assert(exp_index(b) is None) by {
                if exp_index(b) is Some {
                    let kk = exp_index(b)->0;
                    assert(b[kk] == 'e' || b[kk] == 'E');
                }
            }
            assert(bv@.subrange(0, k as int) =~= b);
        }
        return mantissa_exec(&bv, 0, k);
    }
    proof {
        assert(exp_index(b) == Some(k as int)) by {
            let kk = exp_index(b)->0;
            if kk < k {
                assert(b[kk] == 'e' || b[kk] == 'E');
            }
            if kk > k {
                assert(!(b[k as int] == 'e' || b[k as int] == 'E'));
            }
        }
        assert(bv@.subrange(0, k as int) =~= b.take(k as int));
    }
    if !mantissa_exec(&bv, 0, k) {
        return false;
    }
    let e = from_chars_range(&bv, k + 1, bv.len());
    assert(e@ =~= b.skip(k + 1));
    is_exponent(e.as_str())
}

/// Whether `e` is an exponent (optional sign, then digits).
fn is_exponent(e: &str) -> (r: bool)
    ensures
        r == exponent(e@),
{
    let v = to_chars(e);
    let start: usize = if v.len() > 0 && (v[0] == '+' || v[0] == '-') { 1 } else { 0 };
    let ghost d = strip_sign(e@);
    assert(d =~= v@.skip(start as int));
    if start >= v.len() {
        return false;
    }
    let mut i: usize = start;
    while i < v.len()
        invariant
            d == v@.skip(start as int),
            d == strip_sign(e@),
            start <= i <= v@.len(),
            forall|k: int| 0 <= k < i - start ==> is_ascii_digit(#[trigger] d[k]),
        decreases v@.len() - i,
    {
        assert(d[i - start] == v@[i as int]);
        if !('0' <= v[i] && v[i] <= '9') {
            assert(!is_ascii_digit(d[i - start]));
            assert(!all_digits(d));
            return false;
        }
        i = i + 1;
    }
    true
}

/// The boolean spellings a parameter accepts (after trimming, any ASCII case).
pub open spec fn boolean_literal(s: Seq<char>) -> bool {
    let n = ascii_lower(trim(s));
    n == "true"@ || n == "false"@ || n == "1"@ || n == "0"@ || n == "yes"@ || n == "no"@
}

/// Whether `s` is one of the accepted boolean spellings.
pub fn is_boolean_literal(s: &str) -> (r: bool)
    ensures
        r == boolean_literal(s@),
{
    let t = trim_str(s);
    let n = ascii_lower_str(t.as_str());
    let n = n.as_str();
    str_eq(n, "true") || str_eq(n, "false") || str_eq(n, "1") || str_eq(n, "0") || str_eq(n, "yes")
        || str_eq(n, "no")
}

// ---------------------------------------------------------------- laws

proof fn lemma_no_exp(s: Seq<char>)
    requires
        forall|j: int| 0 <= j < s.len() ==> is_ascii_digit(#[trigger] s[j]) || s[j] == '.',
    ensures
        exp_index(s) is None,
{
    lemma_exp_index(s);
    if let Some(k) = exp_index(s) {
        assert(is_ascii_digit(s[k]) || s[k] == '.');
    }
}

proof fn lemma_decimal_mantissa(a: Seq<char>, b: Seq<char>)
    requires
        a.len() > 0,
        all_digits(a),
        all_digits(b),
    ensures
        mantissa(a + "."@ + b),
        mantissa(a),
        exp_index(a + "."@ + b) is None,
        exp_index(a) is None,
{
    reveal_strlit(".");
    let m = a + "."@ + b;
    assert(m[0] == a[0]);
    assert(is_ascii_digit(m[0]));
    assert forall|i: int| 0 <= i < m.len() implies is_ascii_digit(#[trigger] m[i]) || m[i] == '.' by {
        if i < a.len() {
            assert(m[i] == a[i]);
        } else if i > a.len() {
            assert(m[i] == b[i - a.len() - 1]);
        }
    }
    assert forall|i: int, j: int| 0 <= i < j < m.len() implies !(#[trigger] m[i] == '.' && #[trigger] m[j] == '.') by {
        if i < a.len() {
            assert(m[i] == a[i]);
        } else if i == a.len() {
            assert(m[j] == b[j - a.len() - 1]);
        } else {
            assert(m[i] == b[i - a.len() - 1]);
        }
    }
    assert(is_ascii_digit(a[0]));
    lemma_no_exp(m);
    lemma_no_exp(a);
}

/// Plain decimals are numbers: for all non-empty digit strings `a` and digit
/// strings `b`, the texts `a`, `a.b`, `-a.b` and `+a` are float literals (as
/// `f64::from_str` accepts them), so a `Number` parameter given such a value
/// passes the type check.
pub proof fn law_decimals_are_float_literals(a: Seq<char>, b: Seq<char>)
    requires
        a.len() > 0,
        all_digits(a),
        all_digits(b),
    ensures
        float_literal(a),
        float_literal(a + "."@ + b),
        float_literal("-"@ + a + "."@ + b),
        float_literal("+"@ + a),
{
    reveal_strlit("-");
    reveal_strlit("+");
    lemma_decimal_mantissa(a, b);
    let m = a + "."@ + b;
    assert(strip_sign(a) == a);
    assert(strip_sign(m) == m);
    assert(strip_sign("-"@ + a + "."@ + b) =~= m);
    assert(strip_sign("+"@ + a) =~= a);
}

} // verus!
