//! Percent-encoding of URL path segments and query components.

use vstd::prelude::*;
use vstd::string::StringSliceAdditionalSpecFns;
use crate::outside::{hex_upper, percent_byte};

verus! {

/// RFC 3986 unreserved bytes: ASCII letters, digits, `-`, `.`, `_`, `~`.
pub open spec fn unreserved(b: u8) -> bool {
    (48 <= b <= 57) || (65 <= b <= 90) || (97 <= b <= 122) || b == 45 || b == 46 || b == 95
        || b == 126
}

/// Encoding of one byte: unreserved bytes stay, others become `%XX`.
pub open spec fn encode_byte(b: u8) -> Seq<char> {
    if unreserved(b) {
        seq![b as char]
    } else {
        seq!['%', hex_upper(b / 16), hex_upper(b % 16)]
    }
}

pub open spec fn encode_bytes(bs: Seq<u8>) -> Seq<char>
    decreases bs.len(),
{
    if bs.len() == 0 {
        Seq::empty()
    } else {
        encode_byte(bs[0]) + encode_bytes(bs.drop_first())
    }
}

/// Percent-encoding of the UTF-8 bytes of `s` (what `utf8_percent_encode` gives
/// with the set "everything but unreserved").
pub open spec fn encode_component(s: Seq<char>) -> Seq<char> {
    encode_bytes(vstd::utf8::encode_utf8(s))
}

/// Percent-encodes `s` for a path segment or a query key or value.
pub fn percent_encode(s: &str) -> (r: String)
    ensures
        r@ == encode_component(s@),
{
    let bytes = s.as_bytes();
    let ghost bs = bytes@;
    assert(bs == vstd::utf8::encode_utf8(s@));
    let mut r = String::new();
    let mut i: usize = 0;
    assert(bs.skip(0) =~= bs);
    while i < bytes.len()
        invariant
            bs == bytes@,
            i <= bs.len(),
            r@ + encode_bytes(bs.skip(i as int)) == encode_bytes(bs),
        decreases bs.len() - i,
    {
        let b = bytes[i];
        let ghost rest = bs.skip(i as int);
        assert(rest[0] == b);
        assert(rest.drop_first() =~= bs.skip(i + 1));
        let ghost r0 = r@;
        if (48 <= b && b <= 57) || (65 <= b && b <= 90) || (97 <= b && b <= 122) || b == 45 || b == 46
            || b == 95 || b == 126 {
            r.push(b as char);
        } else {
            r.append(percent_byte(b));
        }
        assert(r0 + (encode_byte(b) + encode_bytes(bs.skip(i + 1))) =~= r@ + encode_bytes(bs.skip(i + 1)));
        i = i + 1;
    }
    assert(r@ + encode_bytes(bs.skip(i as int)) =~= r@);
    r
}

} // verus!
