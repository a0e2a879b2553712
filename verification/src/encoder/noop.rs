//! The no-op scheme: the stored "hash" is the plaintext itself.  It exists
//! only for compatibility with legacy stores and tests, and is explicitly
//! insecure.

use crate::PasswordEncoder;
use crate::option_str_view;
use vstd::prelude::*;

verus! {

/// Encoder whose stored hash equals the raw password.
#[derive(Debug)]
pub struct NoOpPasswordEncoder;

impl Default for NoOpPasswordEncoder {
    fn default() -> (r: NoOpPasswordEncoder) {
        NoOpPasswordEncoder
    }
}

impl PasswordEncoder for NoOpPasswordEncoder {
    /// A password matches exactly the stored text equal to it.
    open spec fn spec_matches(&self, raw: Seq<char>, encoded: Seq<char>) -> bool {
        raw == encoded
    }

    /// Encoding always succeeds and returns the password unchanged.
    open spec fn spec_encode_post(&self, raw: Seq<char>, result: Option<Seq<char>>) -> bool {
        result == Some(raw)
    }

    fn matches_spring_security_hash(
        &self,
        unencoded_password: &String,
        encoded_password: &String,
    ) -> (r: bool)
        ensures
            r == self.spec_matches(unencoded_password@, encoded_password@),
    {
        unencoded_password.eq(encoded_password)
    }

    fn encode_spring_security_hash(&self, unencoded_password: &String) -> (r: Option<String>)
        ensures
            self.spec_encode_post(unencoded_password@, option_str_view(r)),
    {
        Some(unencoded_password.clone())
    }
}

} // verus!
