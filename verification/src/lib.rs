//! Password hashing compatible with the delimiter-tagged storage format of a
//! widely deployed security framework.
//!
//! A stored credential is a string of the form `{scheme}payload`, where the
//! scheme tag is wrapped in configurable delimiter markers.  Digest schemes
//! additionally embed an optional salt in the payload with the same
//! convention.  The crate provides one encoder per scheme (no-op, bcrypt,
//! MD4, MD5) and a delegating encoder that reads the tag and routes the call.

use vstd::prelude::*;

pub mod markers;
pub mod hexstr;
pub mod encoder;

verus! {

/// Maps an optional owned string to the view of its contents, so that
/// contracts can speak about `Option<String>` results uniformly.
pub open spec fn option_str_view(o: Option<String>) -> Option<Seq<char>> {
    match o {
        Some(s) => Some(s@),
        None => None,
    }
}

/// The capability interface every scheme implements: checking a raw password
/// against a stored hash, and producing a new stored hash when the scheme is
/// able to originate one.
pub trait PasswordEncoder {
    /// What `matches_spring_security_hash` returns on the given views.
    spec fn spec_matches(&self, raw: Seq<char>, encoded: Seq<char>) -> bool;

    /// What must hold of the result of `encode_spring_security_hash`.
    spec fn spec_encode_post(&self, raw: Seq<char>, result: Option<Seq<char>>) -> bool;

    /// Does `unencoded_password` verify against the stored `encoded_password`?
    fn matches_spring_security_hash(
        &self,
        unencoded_password: &String,
        encoded_password: &String,
    ) -> (r: bool)
        ensures
            r == self.spec_matches(unencoded_password@, encoded_password@),
    ;

    /// If password can be encoded, this might return the encoded password hash
    fn encode_spring_security_hash(&self, unencoded_password: &String) -> (r: Option<String>)
        ensures
            self.spec_encode_post(unencoded_password@, option_str_view(r)),
    ;
}

/// The scheme identifiers that the tagged storage format knows about.
#[allow(non_camel_case_types)]
pub enum Encoder {
    ARGON2,
    BCRYPT,
    LDAP,
    MD4,
    MD5,
    NOOP,
    PBKDF2,
    SCRYPT,
    SHA1,
    SHA256,
    STANDARD,
    DELEGATING,
}

impl Encoder {
    /// The literal tag text under which this scheme is registered; empty for
    /// the schemes that have no registered tag.
    pub open spec fn spec_name(&self) -> Seq<char> {
        match self {
            Encoder::ARGON2 => "argon2"@,
            Encoder::BCRYPT => "bcrypt"@,
            Encoder::LDAP => "ldap"@,
            Encoder::MD4 => "MD4"@,
            _ => Seq::<char>::empty(),
        }
    }

    /// Returns the registered tag text of this scheme.
    pub fn to_string(&self) -> (r: String)
        ensures
            r@ == self.spec_name(),
    {
        match self {
            Encoder::ARGON2 => String::from_str("argon2"),
            Encoder::BCRYPT => String::from_str("bcrypt"),
            Encoder::LDAP => String::from_str("ldap"),
            Encoder::MD4 => String::from_str("MD4"),
            _ => String::new(),
        }
    }
}

} // verus!
