//! Percent-encoding loses nothing: what the dashboards search sends reads
//! back as the bytes of the query typed.
use vstd::prelude::*;

use crate::client::{hex_digit, is_unreserved, percent_encode};

verus! {

/// The value of an uppercase hexadecimal digit.
pub open spec fn hex_value(c: char) -> int {
    if (c as u32) <= 57 {
        c as u32 - 48
    } else {
        c as u32 - 55
    }
}

/// Percent-decoding: `%` and two hexadecimal digits stand for the byte they
/// write; any other character for its own code.
pub open spec fn percent_decode(s: Seq<char>) -> Seq<u8>
    decreases s.len(),
{
    if s.len() == 0 {
        seq![]
    } else if s[0] == '%' && s.len() >= 3 {
        seq![(hex_value(s[1]) * 16 + hex_value(s[2])) as u8] + percent_decode(s.skip(3))
    } else {
        seq![(s[0] as u32) as u8] + percent_decode(s.drop_first())
    }
}

/// A hexadecimal digit reads back as its value.
proof fn lemma_hex_round_trip(d: u8)
    requires
        d < 16,
    ensures
        hex_value(hex_digit(d)) == d,
{
}

/// Decoding the percent-encoding of any bytes gives those bytes back, so a
/// search text reaches Grafana as it was typed.
pub proof fn law_percent_encoding_reads_back(bytes: Seq<u8>)
    ensures
        percent_decode(percent_encode(bytes)) == bytes,
    decreases bytes.len(),
{
    if bytes.len() > 0 {
        let b = bytes[0];
        let rest = percent_encode(bytes.drop_first());
        law_percent_encoding_reads_back(bytes.drop_first());
        if is_unreserved(b) {
            let s = seq![b as char] + rest;
            assert(s[0] == b as char);
            assert(s.drop_first() =~= rest);
            assert(((b as char) as u32) as u8 == b);
        } else {
            let hi = b >> 4;
            let lo = b & 15;
            assert(b >> 4 == b / 16) by (bit_vector);
            assert(b & 15 == b % 16) by (bit_vector);
            lemma_hex_round_trip(hi);
            lemma_hex_round_trip(lo);
            let s = seq!['%', hex_digit(hi), hex_digit(lo)] + rest;
            assert(s[0] == '%');
            assert(s[1] == hex_digit(hi));
            assert(s[2] == hex_digit(lo));
            assert(s.skip(3) =~= rest);
            assert((hex_value(s[1]) * 16 + hex_value(s[2])) as u8 == b);
        }
        assert(percent_decode(percent_encode(bytes)) =~= bytes);
    }
}

} // verus!
