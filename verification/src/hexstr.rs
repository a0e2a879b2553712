//! Hexadecimal text: the specification of case-insensitive hex decoding and
//! a trusted wrapper around the decoder of the `hex` crate.

use vstd::prelude::*;

verus! {

/// The character is a hexadecimal digit, in either case.
pub open spec fn is_hex_digit(c: char) -> bool {
    ('0' <= c && c <= '9') || ('a' <= c && c <= 'f') || ('A' <= c && c <= 'F')
}

/// The numeric value of a hexadecimal digit.
pub open spec fn hex_digit_value(c: char) -> int {
    if '0' <= c && c <= '9' {
        c as int - '0' as int
    } else if 'a' <= c && c <= 'f' {
        c as int - 'a' as int + 10
    } else if 'A' <= c && c <= 'F' {
        c as int - 'A' as int + 10
    } else {
        0
    }
}

/// The text is well-formed hexadecimal: an even number of hex digits.
pub open spec fn is_hex_text(s: Seq<char>) -> bool {
    &&& s.len() % 2 == 0
    &&& forall|i: int| 0 <= i < s.len() ==> is_hex_digit(#[trigger] s[i])
}

/// The bytes denoted by well-formed hexadecimal text, two digits per byte.
pub open spec fn hex_decoded(s: Seq<char>) -> Seq<u8>
    decreases s.len(),
{
    if s.len() < 2 {
        Seq::empty()
    } else {
        seq![(16 * hex_digit_value(s[0]) + hex_digit_value(s[1])) as u8] + hex_decoded(s.skip(2))
    }
}

/// The sixteen hexadecimal digits, lower case.
pub open spec fn hex_digits_lower() -> Seq<char> {
    seq!['0', '1', '2', '3', '4', '5', '6', '7', '8', '9', 'a', 'b', 'c', 'd', 'e', 'f']
}

/// The sixteen hexadecimal digits, upper case.
pub open spec fn hex_digits_upper() -> Seq<char> {
    seq!['0', '1', '2', '3', '4', '5', '6', '7', '8', '9', 'A', 'B', 'C', 'D', 'E', 'F']
}

/// The lower-case hexadecimal rendering of a byte sequence.
pub open spec fn hex_encoded_lower(bytes: Seq<u8>) -> Seq<char>
    decreases bytes.len(),
{
    if bytes.len() == 0 {
        Seq::empty()
    } else {
        seq![
            hex_digits_lower()[bytes[0] as int / 16],
            hex_digits_lower()[bytes[0] as int % 16],
        ] + hex_encoded_lower(bytes.skip(1))
    }
}

/// The upper-case hexadecimal rendering of a byte sequence.
pub open spec fn hex_encoded_upper(bytes: Seq<u8>) -> Seq<char>
    decreases bytes.len(),
{
    if bytes.len() == 0 {
        Seq::empty()
    } else {
        seq![
            hex_digits_upper()[bytes[0] as int / 16],
            hex_digits_upper()[bytes[0] as int % 16],
        ] + hex_encoded_upper(bytes.skip(1))
    }
}

/// Every entry of the lower-case digit table is a hex digit denoting its
/// own index.
proof fn lemma_hex_digit_tables(v: int)
    requires
        0 <= v < 16,
    ensures
        is_hex_digit(hex_digits_lower()[v]),
        hex_digit_value(hex_digits_lower()[v]) == v,
        is_hex_digit(hex_digits_upper()[v]),
        hex_digit_value(hex_digits_upper()[v]) == v,
{
}

/// Law: decoding inverts encoding, in either case.
pub proof fn lemma_hex_round_trip(bytes: Seq<u8>)
    ensures
        is_hex_text(hex_encoded_lower(bytes)),
        hex_decoded(hex_encoded_lower(bytes)) == bytes,
        is_hex_text(hex_encoded_upper(bytes)),
        hex_decoded(hex_encoded_upper(bytes)) == bytes,
    decreases bytes.len(),
{
    if bytes.len() == 0 {
        assert(hex_decoded(hex_encoded_lower(bytes)) =~= bytes);
        assert(hex_decoded(hex_encoded_upper(bytes)) =~= bytes);
    } else {
        lemma_hex_round_trip(bytes.skip(1));
        let b = bytes[0] as int;
        lemma_hex_digit_tables(b / 16);
        lemma_hex_digit_tables(b % 16);
        let lo = hex_encoded_lower(bytes);
        let up = hex_encoded_upper(bytes);
        assert(lo.skip(2) =~= hex_encoded_lower(bytes.skip(1)));
        assert(up.skip(2) =~= hex_encoded_upper(bytes.skip(1)));
        assert((16 * hex_digit_value(lo[0]) + hex_digit_value(lo[1])) as u8 == bytes[0]);
        assert((16 * hex_digit_value(up[0]) + hex_digit_value(up[1])) as u8 == bytes[0]);
        assert(hex_decoded(lo) =~= bytes);
        assert(hex_decoded(up) =~= bytes);
    }
}

/// Relies on hex::decode: it succeeds exactly on an even number of
/// hexadecimal digits of either case, and then returns the denoted bytes.
#[verifier::external_body]
pub(crate) fn decode_hex(encoded: &str) -> (r: Option<Vec<u8>>)
    ensures
        r is Some <==> is_hex_text(encoded@),
        r matches Some(bytes) ==> bytes@ == hex_decoded(encoded@),
{
    match hex::decode(encoded) {
        Ok(bytes) => Some(bytes),
        Err(_) => None,
    }
}

} // verus!
