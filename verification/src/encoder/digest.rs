//! Shared machinery of the digest schemes: extracting the optional salt
//! from a stored value, forming the material to hash, and comparing the
//! computed digest against the stored hexadecimal payload.

use crate::hexstr::{hex_decoded, is_hex_digit, is_hex_text};
use crate::markers::{
    extract_field, extracted_field, lemma_extracted_field_structure, occurs_at,
};
use vstd::prelude::*;
use vstd::string::*;

verus! {

/// The salt embedded in a stored digest value, when present: the field
/// between the salt markers under the first-suffix-wins rule.
pub open spec fn embedded_salt(
    salt_prefix: Seq<char>,
    salt_suffix: Seq<char>,
    encoded: Seq<char>,
) -> Option<Seq<char>> {
    extracted_field(encoded, salt_prefix, salt_suffix)
}

/// The text that is hashed: the raw password, extended by the wrapped salt
/// exactly as it appears in the stored value when a salt is present.
pub open spec fn salted_material(
    raw: Seq<char>,
    salt_prefix: Seq<char>,
    salt_suffix: Seq<char>,
    encoded: Seq<char>,
) -> Seq<char> {
    match embedded_salt(salt_prefix, salt_suffix, encoded) {
        Some(salt) => raw + salt_prefix + salt + salt_suffix,
        None => raw,
    }
}

/// The stored text that is compared against the digest: the stored value
/// with the wrapped salt stripped from its front when a salt is present.
pub open spec fn remaining_digest_text(
    salt_prefix: Seq<char>,
    salt_suffix: Seq<char>,
    encoded: Seq<char>,
) -> Seq<char> {
    match embedded_salt(salt_prefix, salt_suffix, encoded) {
        Some(salt) => encoded.skip((salt_prefix.len() + salt.len() + salt_suffix.len()) as int),
        None => encoded,
    }
}

/// The stored text decodes as hexadecimal, case-insensitively, to exactly
/// the digest bytes.
pub open spec fn digest_text_matches(digest: Seq<u8>, text: Seq<char>) -> bool {
    &&& is_hex_text(text)
    &&& hex_decoded(text) == digest
}

/// Extracts the salt from a stored digest value; absent whenever the value
/// does not start with the prefix marker or the suffix marker occurs
/// nowhere in it.
pub fn extract_salt(
    salt_prefix: &String,
    salt_suffix: &String,
    encoded_password: &String,
) -> (r: Option<String>)
    ensures
        r is Some <==> embedded_salt(salt_prefix@, salt_suffix@, encoded_password@) is Some,
        r matches Some(salt) ==> embedded_salt(salt_prefix@, salt_suffix@, encoded_password@)
            == Some(salt@),
{
    extract_field(encoded_password.as_str(), salt_prefix.as_str(), salt_suffix.as_str())
}

/// Splits a stored digest value into the material to hash and the text to
/// compare the digest against.
pub(crate) fn split_salted(
    salt_prefix: &String,
    salt_suffix: &String,
    raw: &String,
    encoded: &String,
) -> (r: (String, String))
    ensures
        r.0@ == salted_material(raw@, salt_prefix@, salt_suffix@, encoded@),
        r.1@ == remaining_digest_text(salt_prefix@, salt_suffix@, encoded@),
{
    match extract_salt(salt_prefix, salt_suffix, encoded) {
        Some(salt) => {
            proof {
                lemma_extracted_field_structure(encoded@, salt_prefix@, salt_suffix@);
                assert(salt_prefix@.len() + salt@.len() + salt_suffix@.len() <= encoded@.len());
            }
            let mut material = raw.clone();
            material.append(salt_prefix.as_str());
            material.append(salt.as_str());
            material.append(salt_suffix.as_str());
            let encoded_len: usize = encoded.as_str().unicode_len();
            let start: usize = salt_prefix.as_str().unicode_len() + salt.as_str().unicode_len()
                + salt_suffix.as_str().unicode_len();
            let remainder = String::from_str(encoded.as_str().substring_char(start, encoded_len));
            proof {
                assert(encoded@.skip(start as int) =~= encoded@.subrange(
                    start as int,
                    encoded_len as int,
                ));
            }
            (material, remainder)
        },
        None => (raw.clone(), encoded.clone()),
    }
}

/// Are the two byte vectors equal?
pub(crate) fn bytes_equal(a: &Vec<u8>, b: &Vec<u8>) -> (r: bool)
    ensures
        r == (a@ == b@),
{
    if a.len() != b.len() {
        return false;
    }
    let n: usize = a.len();
    let mut i: usize = 0;
    while i < n
        invariant
            n == a@.len() == b@.len(),
            0 <= i <= n,
            forall|j: int| 0 <= j < i ==> a@[j] == b@[j],
        decreases n - i,
    {
        if a[i] != b[i] {
            return false;
        }
        i = i + 1;
    }
    assert(a@ =~= b@);
    true
}

/// A stored value made of hexadecimal digits alone embeds no salt when the
/// prefix marker opens with a character that is not a hexadecimal digit.
pub proof fn lemma_hex_payload_has_no_salt(
    salt_prefix: Seq<char>,
    salt_suffix: Seq<char>,
    text: Seq<char>,
)
    requires
        salt_prefix.len() > 0,
        !is_hex_digit(salt_prefix[0]),
        forall|i: int| 0 <= i < text.len() ==> is_hex_digit(#[trigger] text[i]),
    ensures
        embedded_salt(salt_prefix, salt_suffix, text) is None,
{
    if occurs_at(text, salt_prefix, 0) {
        assert(text.subrange(0, salt_prefix.len() as int)[0] == text[0]);
    }
}

} // verus!
