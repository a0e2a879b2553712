//! The delegating encoder: reads the scheme tag wrapped in the configured
//! markers at the front of a stored credential, strips it, and routes the
//! call to the scheme registered under that tag.
//!
//! A stored value without a tag never matches, whatever the password.  A
//! tag with no registered scheme is a configuration fault; this core
//! settles the policy on failing verification silently (returning `false`)
//! rather than aborting, so that verification never fails loudly on
//! attacker-controlled input.

use crate::PasswordEncoder;
use crate::encoder::bcrypt::{
    BCryptPasswordEncoder, bcrypt_verify_outcome, generated_bcrypt_hash,
};
use crate::encoder::md4::{Md4PasswordEncoder, md4_scheme_matches};
use crate::encoder::md5::{Md5PasswordEncoder, md5_scheme_matches};
use crate::encoder::noop::NoOpPasswordEncoder;
use crate::markers::{
    extract_field, extracted_field, lemma_extracted_field_structure,
    lemma_wrapped_field_round_trip, occurs_at,
};
use crate::option_str_view;
use vstd::prelude::*;
use vstd::string::*;

verus! {

/// Extracts the scheme tag from a stored credential: the field between the
/// tag markers, under the first-suffix-wins rule.
pub fn get_encoder_id_from_encoded_password(
    encoded_password: &String,
    id_prefix: &String,
    id_suffix: &String,
) -> (r: Option<String>)
    ensures
        r is Some <==> extracted_field(encoded_password@, id_prefix@, id_suffix@) is Some,
        r matches Some(id) ==> extracted_field(encoded_password@, id_prefix@, id_suffix@) == Some(
            id@,
        ),
{
    extract_field(encoded_password.as_str(), id_prefix.as_str(), id_suffix.as_str())
}

/// Wraps a freshly produced hash with the delimited scheme tag; absent
/// exactly when no hash was produced.
pub fn with_delegation_marker(
    resulting_password_hash: Option<String>,
    encoder_id: String,
    id_prefix: &String,
    id_suffix: &String,
) -> (r: Option<String>)
    ensures
        r is Some <==> resulting_password_hash is Some,
        r matches Some(tagged) ==> resulting_password_hash matches Some(hash) && tagged@
            == id_prefix@ + encoder_id@ + id_suffix@ + hash@,
{
    match resulting_password_hash {
        None => None,
        Some(hash) => {
            let mut tagged = id_prefix.clone();
            tagged.append(encoder_id.as_str());
            tagged.append(id_suffix.as_str());
            tagged.append(hash.as_str());
            proof {
                assert(tagged@ =~= id_prefix@ + encoder_id@ + id_suffix@ + hash@);
            }
            Some(tagged)
        },
    }
}

/// Strips the delimited scheme tag from the front of a stored credential.
pub fn without_delegation_marker(
    encoded_password_hash: &String,
    encoder_id: &String,
    id_prefix: &String,
    id_suffix: &String,
) -> (r: String)
    requires
        id_prefix@.len() + encoder_id@.len() + id_suffix@.len() <= encoded_password_hash@.len(),
    ensures
        r@ == encoded_password_hash@.skip(
            (id_prefix@.len() + encoder_id@.len() + id_suffix@.len()) as int,
        ),
{
    let total_len: usize = encoded_password_hash.as_str().unicode_len();
    let start: usize = id_prefix.as_str().unicode_len() + encoder_id.as_str().unicode_len()
        + id_suffix.as_str().unicode_len();
    let stripped = String::from_str(encoded_password_hash.as_str().substring_char(
        start,
        total_len,
    ));
    proof {
        assert(encoded_password_hash@.skip(start as int) =~= encoded_password_hash@.subrange(
            start as int,
            total_len as int,
        ));
    }
    stripped
}

/// The scheme registered under a tag accepts the remainder of the stored
/// credential; a tag with no registered scheme accepts nothing.  The
/// concrete digest schemes are registered with their default salt markers.
pub open spec fn registered_scheme_matches(
    id: Seq<char>,
    raw: Seq<char>,
    remainder: Seq<char>,
) -> bool {
    if id == "noop"@ {
        raw == remainder
    } else if id == "bcrypt"@ {
        bcrypt_verify_outcome(raw, remainder) == Some(true)
    } else if id == "MD4"@ {
        md4_scheme_matches("{"@, "}"@, raw, remainder)
    } else if id == "MD5"@ {
        md5_scheme_matches("{"@, "}"@, raw, remainder)
    } else {
        false
    }
}

/// Routes verification and encoding by the scheme tag at the front of the
/// stored credential.
#[derive(Debug)]
pub struct DelegatingPasswordEncoder {
    pub id_prefix: String,
    pub id_suffix: String,
    pub default_encoder: String,
}

impl Default for DelegatingPasswordEncoder {
    /// The defaults of the legacy storage format: single-character braces
    /// around the tag, and bcrypt as the scheme for new hashes.
    fn default() -> (r: DelegatingPasswordEncoder)
        ensures
            r.id_prefix@ == "{"@,
            r.id_suffix@ == "}"@,
            r.default_encoder@ == "bcrypt"@,
    {
        DelegatingPasswordEncoder {
            id_prefix: String::from_str("{"),
            id_suffix: String::from_str("}"),
            default_encoder: String::from_str("bcrypt"),
        }
    }
}

impl PasswordEncoder for DelegatingPasswordEncoder {
    /// An untagged stored value never matches; a tagged one matches
    /// exactly when the registered scheme accepts what follows the tag.
    open spec fn spec_matches(&self, raw: Seq<char>, encoded: Seq<char>) -> bool {
        match extracted_field(encoded, self.id_prefix@, self.id_suffix@) {
            None => false,
            Some(id) => registered_scheme_matches(
                id,
                raw,
                encoded.skip((self.id_prefix@.len() + id.len() + self.id_suffix@.len()) as int),
            ),
        }
    }

    /// Encoding resolves the configured default scheme, encodes there, and
    /// wraps the result with the delimited tag; absence propagates
    /// unchanged, with no fallback to another scheme.
    open spec fn spec_encode_post(&self, raw: Seq<char>, result: Option<Seq<char>>) -> bool {
        if self.default_encoder@ == "noop"@ {
            result == Some(self.id_prefix@ + "noop"@ + self.id_suffix@ + raw)
        } else if self.default_encoder@ == "bcrypt"@ {
            result matches Some(tagged) ==> exists|hash: Seq<char>|
                generated_bcrypt_hash(raw, hash) && tagged == self.id_prefix@ + "bcrypt"@
                    + self.id_suffix@ + hash
        } else {
            result is None
        }
    }

    fn matches_spring_security_hash(
        &self,
        unencoded_password: &String,
        encoded_password: &String,
    ) -> (r: bool)
        ensures
            r == self.spec_matches(unencoded_password@, encoded_password@),
    {
        match get_encoder_id_from_encoded_password(
            encoded_password,
            &self.id_prefix,
            &self.id_suffix,
        ) {
            None => false,
            Some(encoder_id) => {
                proof {
                    lemma_extracted_field_structure(
                        encoded_password@,
                        self.id_prefix@,
                        self.id_suffix@,
                    );
                }
                let remainder = without_delegation_marker(
                    encoded_password,
                    &encoder_id,
                    &self.id_prefix,
                    &self.id_suffix,
                );
                if encoder_id.eq(&String::from_str("noop")) {
                    let encoder: NoOpPasswordEncoder = Default::default();
                    encoder.matches_spring_security_hash(unencoded_password, &remainder)
                } else if encoder_id.eq(&String::from_str("bcrypt")) {
                    let encoder: BCryptPasswordEncoder = Default::default();
                    encoder.matches_spring_security_hash(unencoded_password, &remainder)
                } else if encoder_id.eq(&String::from_str("MD4")) {
                    let encoder: Md4PasswordEncoder = Default::default();
                    encoder.matches_spring_security_hash(unencoded_password, &remainder)
                } else if encoder_id.eq(&String::from_str("MD5")) {
                    let encoder: Md5PasswordEncoder = Default::default();
                    encoder.matches_spring_security_hash(unencoded_password, &remainder)
                } else {
                    false
                }
            },
        }
    }

    fn encode_spring_security_hash(&self, unencoded_password: &String) -> (r: Option<String>)
        ensures
            self.spec_encode_post(unencoded_password@, option_str_view(r)),
    {
        if self.default_encoder.eq(&String::from_str("noop")) {
            let encoder: NoOpPasswordEncoder = Default::default();
            with_delegation_marker(
                encoder.encode_spring_security_hash(unencoded_password),
                String::from_str("noop"),
                &self.id_prefix,
                &self.id_suffix,
            )
        } else if self.default_encoder.eq(&String::from_str("bcrypt")) {
            let encoder: BCryptPasswordEncoder = Default::default();
            with_delegation_marker(
                encoder.encode_spring_security_hash(unencoded_password),
                String::from_str("bcrypt"),
                &self.id_prefix,
                &self.id_suffix,
            )
        } else if self.default_encoder.eq(&String::from_str("MD4")) {
            let encoder: Md4PasswordEncoder = Default::default();
            with_delegation_marker(
                encoder.encode_spring_security_hash(unencoded_password),
                String::from_str("MD4"),
                &self.id_prefix,
                &self.id_suffix,
            )
        } else if self.default_encoder.eq(&String::from_str("MD5")) {
            let encoder: Md5PasswordEncoder = Default::default();
            with_delegation_marker(
                encoder.encode_spring_security_hash(unencoded_password),
                String::from_str("MD5"),
                &self.id_prefix,
                &self.id_suffix,
            )
        } else {
            None
        }
    }
}

/// Law: an untagged stored value never matches, whatever the password.
pub proof fn lemma_untagged_never_matches(
    encoder: DelegatingPasswordEncoder,
    raw: Seq<char>,
    encoded: Seq<char>,
)
    requires
        extracted_field(encoded, encoder.id_prefix@, encoder.id_suffix@) is None,
    ensures
        !encoder.spec_matches(raw, encoded),
{
}

/// Law: wrapping a payload with a delimited tag and reading the tag back
/// yields the original tag and payload, provided the tag is non-empty and
/// the suffix marker does not occur in the wrapped header before its own
/// position.
pub proof fn lemma_tag_round_trip(
    encoder_id: Seq<char>,
    payload: Seq<char>,
    id_prefix: Seq<char>,
    id_suffix: Seq<char>,
)
    requires
        encoder_id.len() > 0,
        forall|j: int| 0 <= j < id_prefix.len() + encoder_id.len() ==> !occurs_at(
            id_prefix + encoder_id + id_suffix,
            id_suffix,
            j,
        ),
    ensures
        extracted_field(id_prefix + encoder_id + id_suffix + payload, id_prefix, id_suffix)
            == Some(encoder_id),
        (id_prefix + encoder_id + id_suffix + payload).skip(
            (id_prefix.len() + encoder_id.len() + id_suffix.len()) as int,
        ) == payload,
{
    lemma_wrapped_field_round_trip(id_prefix, encoder_id, id_suffix, payload);
}

/// Law: with the default configuration, any stored value that encoding
/// produces matches the password it was produced for.
pub proof fn lemma_delegating_encode_then_matches(
    encoder: DelegatingPasswordEncoder,
    raw: Seq<char>,
    tagged: Seq<char>,
)
    requires
        encoder.id_prefix@ == "{"@,
        encoder.id_suffix@ == "}"@,
        encoder.default_encoder@ == "bcrypt"@,
        encoder.spec_encode_post(raw, Some(tagged)),
    ensures
        encoder.spec_matches(raw, tagged),
{
    reveal_strlit("{");
    reveal_strlit("}");
    reveal_strlit("bcrypt");
    reveal_strlit("noop");
    let hash = choose|hash: Seq<char>|
        generated_bcrypt_hash(raw, hash) && tagged == encoder.id_prefix@ + "bcrypt"@
            + encoder.id_suffix@ + hash;
    let header = encoder.id_prefix@ + "bcrypt"@ + encoder.id_suffix@;
    assert forall|j: int| 0 <= j < encoder.id_prefix@.len() + "bcrypt"@.len() implies !occurs_at(
        header,
        encoder.id_suffix@,
        j,
    ) by {
        if occurs_at(header, encoder.id_suffix@, j) {
            assert(header.subrange(j, j + 1)[0] == header[j]);
            assert(header[j] == '}');
        }
    }
    lemma_wrapped_field_round_trip(encoder.id_prefix@, "bcrypt"@, encoder.id_suffix@, hash);
    assert(extracted_field(tagged, encoder.id_prefix@, encoder.id_suffix@) == Some("bcrypt"@));
    assert(tagged.skip(
        (encoder.id_prefix@.len() + "bcrypt"@.len() + encoder.id_suffix@.len()) as int,
    ) == hash);
}

} // verus!
