//! The bcrypt scheme: verification and encoding delegate to the bcrypt
//! crate, with the fixed cost factor and hash-format version of the legacy
//! framework's defaults.

use crate::PasswordEncoder;
use crate::option_str_view;
use vstd::prelude::*;

verus! {

/// The outcome of bcrypt verification of a password against a stored hash:
/// a deterministic function of the two texts alone.  `None` stands for the
/// error outcome (malformed hash, disallowed cost), `Some(b)` for a clean
/// comparison with result `b`.
pub uninterp spec fn bcrypt_verify_outcome(password: Seq<char>, hash: Seq<char>) -> Option<bool>;

/// The seven characters `$2a$10$` that open every hash this encoder
/// produces: format version 2a and cost factor 10.
pub open spec fn bcrypt_output_prefix() -> Seq<char> {
    seq!['$', '2', 'a', '$', '1', '0', '$']
}

/// The characters that can appear in a formatted bcrypt hash: the `$`
/// separators, the decimal cost digits, and bcrypt's base64 alphabet.
pub open spec fn is_bcrypt_hash_char(c: char) -> bool {
    ||| c == '$'
    ||| c == '.'
    ||| c == '/'
    ||| ('0' <= c && c <= '9')
    ||| ('A' <= c && c <= 'Z')
    ||| ('a' <= c && c <= 'z')
}

/// What holds of every hash this encoder produces for a password: it is 60
/// characters of bcrypt's alphabet, opens with `$2a$10$`, and verifies
/// cleanly against the password it was produced for.
pub open spec fn generated_bcrypt_hash(raw: Seq<char>, hash: Seq<char>) -> bool {
    &&& bcrypt_verify_outcome(raw, hash) == Some(true)
    &&& hash.len() == 60
    &&& hash.subrange(0, 7) == bcrypt_output_prefix()
    &&& forall|i: int| 0 <= i < hash.len() ==> is_bcrypt_hash_char(#[trigger] hash[i])
}

/// Relies on bcrypt::verify: it deterministically re-hashes the password
/// with the cost and salt carried in the stored hash and compares; it
/// errors on a malformed hash or a cost outside the allowed range.
#[verifier::external_body]
fn bcrypt_verify(password: &str, hash: &str) -> (r: Option<bool>)
    ensures
        r == bcrypt_verify_outcome(password@, hash@),
{
    match bcrypt::verify(password, hash) {
        Ok(b) => Some(b),
        Err(_) => None,
    }
}

/// Relies on bcrypt::hash_with_result and HashParts::format_for_version:
/// hashing with a fresh random salt and formatting as version 2a yields a
/// 60-character `$2a$<cost>$...` string over bcrypt's base64 alphabet that
/// bcrypt::verify accepts for the same password.
#[verifier::external_body]
fn bcrypt_hash_to_string(password: &str, cost: u32) -> (r: Option<String>)
    requires
        cost == 10,
    ensures
        r matches Some(hash) ==> generated_bcrypt_hash(password@, hash@),
{
    match bcrypt::hash_with_result(password, cost) {
        Ok(parts) => Some(parts.format_for_version(bcrypt::Version::TwoA)),
        Err(_) => None,
    }
}

/// Encoder that wraps the bcrypt primitive with the legacy defaults.
#[derive(Clone, Copy, Debug)]
pub struct BCryptPasswordEncoder {}

impl Default for BCryptPasswordEncoder {
    fn default() -> (r: BCryptPasswordEncoder) {
        BCryptPasswordEncoder {}
    }
}

impl PasswordEncoder for BCryptPasswordEncoder {
    /// A password matches exactly when the primitive verifies it cleanly;
    /// every error outcome is a non-match, never a failure.
    open spec fn spec_matches(&self, raw: Seq<char>, encoded: Seq<char>) -> bool {
        bcrypt_verify_outcome(raw, encoded) == Some(true)
    }

    /// When a hash is produced it verifies against the password and has
    /// the fixed `$2a$10$` shape; primitive failure yields absence.
    open spec fn spec_encode_post(&self, raw: Seq<char>, result: Option<Seq<char>>) -> bool {
        result matches Some(hash) ==> generated_bcrypt_hash(raw, hash)
    }

    fn matches_spring_security_hash(
        &self,
        unencoded_password: &String,
        encoded_password: &String,
    ) -> (r: bool)
        ensures
            r == self.spec_matches(unencoded_password@, encoded_password@),
    {
        match bcrypt_verify(unencoded_password.as_str(), encoded_password.as_str()) {
            Some(b) => b,
            None => false,
        }
    }

    fn encode_spring_security_hash(&self, unencoded_password: &String) -> (r: Option<String>)
        ensures
            self.spec_encode_post(unencoded_password@, option_str_view(r)),
    {
        bcrypt_hash_to_string(unencoded_password.as_str(), 10)
    }
}

/// Law: any hash this encoder produces for a password matches that
/// password, the empty password included.
pub proof fn lemma_bcrypt_encode_then_matches(
    encoder: BCryptPasswordEncoder,
    raw: Seq<char>,
    hash: Seq<char>,
)
    requires
        encoder.spec_encode_post(raw, Some(hash)),
    ensures
        encoder.spec_matches(raw, hash),
{
}

} // verus!
