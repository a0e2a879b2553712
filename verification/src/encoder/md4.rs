//! The MD4 digest scheme: identical to the MD5 scheme except for the
//! digest function; the stored value is an optional wrapped salt followed
//! by the case-insensitive hexadecimal MD4 digest of the password (extended
//! by the wrapped salt when one is present).

use crate::PasswordEncoder;
use crate::encoder::digest::{
    digest_text_matches, lemma_hex_payload_has_no_salt, remaining_digest_text, salted_material,
    split_salted,
};
use crate::hexstr::{
    decode_hex, hex_encoded_lower, hex_encoded_upper, is_hex_digit, lemma_hex_round_trip,
};
use crate::markers::{lemma_wrapped_field_round_trip, occurs_at};
use crate::option_str_view;
use md4::Digest;
use vstd::prelude::*;
use vstd::string::*;

verus! {

/// The MD4 digest of a text, as computed by the md4 crate over the text's
/// UTF-8 bytes; a fixed function of the text alone.
pub uninterp spec fn md4_digest(text: Seq<char>) -> Seq<u8>;

/// Relies on the md4 crate's Md4 hasher: the 16-byte digest is a function
/// of the input bytes alone.
#[verifier::external_body]
fn md4_digest_of(text: &str) -> (r: Vec<u8>)
    ensures
        r@ == md4_digest(text@),
        r@.len() == 16,
{
    let mut hasher = md4::Md4::new();
    hasher.update(text.as_bytes());
    hasher.finalize().to_vec()
}

/// The MD4 scheme accepts a stored value exactly when its hexadecimal
/// payload decodes to the digest of the (possibly salt-extended) password.
pub open spec fn md4_scheme_matches(
    salt_prefix: Seq<char>,
    salt_suffix: Seq<char>,
    raw: Seq<char>,
    encoded: Seq<char>,
) -> bool {
    digest_text_matches(
        md4_digest(salted_material(raw, salt_prefix, salt_suffix, encoded)),
        remaining_digest_text(salt_prefix, salt_suffix, encoded),
    )
}

/// Verification-only MD4 encoder with configurable salt markers.
#[derive(Debug)]
pub struct Md4PasswordEncoder {
    pub salt_prefix: String,
    pub salt_suffix: String,
    pub salt_byte_size: u32,
}

impl Default for Md4PasswordEncoder {
    /// The defaults of the legacy storage format: single-character braces
    /// around the salt, and a nominal 32-byte salt size.
    fn default() -> (r: Md4PasswordEncoder)
        ensures
            r.salt_prefix@ == "{"@,
            r.salt_suffix@ == "}"@,
            r.salt_byte_size == 32,
    {
        Md4PasswordEncoder {
            salt_prefix: String::from_str("{"),
            salt_suffix: String::from_str("}"),
            salt_byte_size: 32,
        }
    }
}

impl PasswordEncoder for Md4PasswordEncoder {
    open spec fn spec_matches(&self, raw: Seq<char>, encoded: Seq<char>) -> bool {
        md4_scheme_matches(self.salt_prefix@, self.salt_suffix@, raw, encoded)
    }

    /// This scheme cannot originate new hashes (no salt generation is
    /// wired in), so encoding is always absent.
    open spec fn spec_encode_post(&self, raw: Seq<char>, result: Option<Seq<char>>) -> bool {
        result is None
    }

    fn matches_spring_security_hash(
        &self,
        unencoded_password: &String,
        encoded_password: &String,
    ) -> (r: bool)
        ensures
            r == self.spec_matches(unencoded_password@, encoded_password@),
    {
        let (material, remainder) = split_salted(
            &self.salt_prefix,
            &self.salt_suffix,
            unencoded_password,
            encoded_password,
        );
        let digest = md4_digest_of(material.as_str());
        match decode_hex(remainder.as_str()) {
            Some(bytes) => crate::encoder::digest::bytes_equal(&bytes, &digest),
            None => false,
        }
    }

    fn encode_spring_security_hash(&self, unencoded_password: &String) -> (r: Option<String>)
        ensures
            self.spec_encode_post(unencoded_password@, option_str_view(r)),
    {
        None
    }
}

/// Law: a password matches the bare hexadecimal rendering of its own MD4
/// digest, in either letter case, whenever the salt prefix marker opens
/// with a character that is no hexadecimal digit (as the default `{` does).
pub proof fn lemma_md4_matches_unsalted_hex(
    raw: Seq<char>,
    salt_prefix: Seq<char>,
    salt_suffix: Seq<char>,
)
    requires
        salt_prefix.len() > 0,
        !is_hex_digit(salt_prefix[0]),
    ensures
        md4_scheme_matches(salt_prefix, salt_suffix, raw, hex_encoded_lower(md4_digest(raw))),
        md4_scheme_matches(salt_prefix, salt_suffix, raw, hex_encoded_upper(md4_digest(raw))),
{
    let digest = md4_digest(raw);
    lemma_hex_round_trip(digest);
    lemma_hex_payload_has_no_salt(salt_prefix, salt_suffix, hex_encoded_lower(digest));
    lemma_hex_payload_has_no_salt(salt_prefix, salt_suffix, hex_encoded_upper(digest));
}

/// Law: a password matches a stored value of the form
/// `<prefix><salt><suffix><hex digest>` whose digest was taken over
/// `<raw><prefix><salt><suffix>`, provided the suffix marker does not occur
/// in the wrapped salt header before its own position.
pub proof fn lemma_md4_matches_salted_hex(
    raw: Seq<char>,
    salt: Seq<char>,
    salt_prefix: Seq<char>,
    salt_suffix: Seq<char>,
)
    requires
        forall|j: int| 0 <= j < salt_prefix.len() + salt.len() ==> !occurs_at(
            salt_prefix + salt + salt_suffix,
            salt_suffix,
            j,
        ),
    ensures
        md4_scheme_matches(
            salt_prefix,
            salt_suffix,
            raw,
            salt_prefix + salt + salt_suffix + hex_encoded_lower(
                md4_digest(raw + salt_prefix + salt + salt_suffix),
            ),
        ),
{
    let material = raw + salt_prefix + salt + salt_suffix;
    let digest = md4_digest(material);
    let payload = hex_encoded_lower(digest);
    lemma_hex_round_trip(digest);
    lemma_wrapped_field_round_trip(salt_prefix, salt, salt_suffix, payload);
}

} // verus!
