use spring_password_encoder::Encoder;
use spring_password_encoder::PasswordEncoder;
use spring_password_encoder::encoder::delegating::DelegatingPasswordEncoder;
use spring_password_encoder::encoder::delegating::get_encoder_id_from_encoded_password;
use spring_password_encoder::encoder::delegating::with_delegation_marker;
use spring_password_encoder::encoder::delegating::without_delegation_marker;
use spring_password_encoder::encoder::md4::Md4PasswordEncoder;
use spring_password_encoder::encoder::md5::Md5PasswordEncoder;
use spring_password_encoder::encoder::standard::StandardPasswordEncoder;

#[test]
fn delegating_matches_tagged_noop_value() {
    let encoder: DelegatingPasswordEncoder = Default::default();

    let raw = String::from("Hello");
    let stored = String::from("{noop}Hello");

    assert!(encoder.matches_spring_security_hash(&raw, &stored));
}

#[test]
fn delegating_matches_tagged_digest_values() {
    let encoder: DelegatingPasswordEncoder = Default::default();

    let raw = String::from("password");
    let stored_md5 = String::from("{MD5}5f4dcc3b5aa765d61d8327deb882cf99");
    let stored_md4 = String::from("{MD4}{thisissalt}6cc7924dad12ade79dfb99e424f25260");

    assert!(encoder.matches_spring_security_hash(&raw, &stored_md5));
    assert!(encoder.matches_spring_security_hash(&raw, &stored_md4));
}

#[test]
fn delegating_never_matches_untagged_value() {
    let encoder: DelegatingPasswordEncoder = Default::default();

    let raw = String::from("Hello");
    let stored = String::from("Hello");

    assert!(
        !encoder.matches_spring_security_hash(&raw, &stored),
        "an untagged stored value must never match, even on equal text"
    );
}

#[test]
fn delegating_fails_on_unregistered_tag() {
    let encoder: DelegatingPasswordEncoder = Default::default();

    let raw = String::from("password");
    let stored = String::from("{sha999}5f4dcc3b5aa765d61d8327deb882cf99");

    assert!(!encoder.matches_spring_security_hash(&raw, &stored));
}

#[test]
fn tag_marker_round_trip() {
    let prefix = String::from("{");
    let suffix = String::from("}");
    let id = String::from("bcrypt");
    let payload = String::from("payload-text");

    let tagged = with_delegation_marker(
        Some(payload.clone()),
        id.clone(),
        &prefix,
        &suffix,
    )
    .unwrap();
    assert_eq!(tagged, String::from("{bcrypt}payload-text"));

    let read_id = get_encoder_id_from_encoded_password(&tagged, &prefix, &suffix).unwrap();
    assert_eq!(read_id, id);

    let read_payload = without_delegation_marker(&tagged, &read_id, &prefix, &suffix);
    assert_eq!(read_payload, payload);
}

#[test]
fn tag_marker_propagates_absence() {
    let prefix = String::from("{");
    let suffix = String::from("}");

    let tagged = with_delegation_marker(None, String::from("MD5"), &prefix, &suffix);
    assert!(tagged.is_none());
}

#[test]
fn digest_encoders_cannot_originate_hashes() {
    let md4_encoder: Md4PasswordEncoder = Default::default();
    let md5_encoder: Md5PasswordEncoder = Default::default();

    let raw = String::from("password");

    assert!(md4_encoder.encode_spring_security_hash(&raw).is_none());
    assert!(md5_encoder.encode_spring_security_hash(&raw).is_none());
}

#[test]
fn md5_rejects_wrong_password() {
    let encoder: Md5PasswordEncoder = Default::default();

    let raw = String::from("wrongpassword");
    let stored = String::from("5f4dcc3b5aa765d61d8327deb882cf99");

    assert!(!encoder.matches_spring_security_hash(&raw, &stored));
}

#[test]
fn md5_rejects_malformed_hex_payload() {
    let encoder: Md5PasswordEncoder = Default::default();

    let raw = String::from("password");
    let odd_length = String::from("5f4dcc3b5aa765d61d8327deb882cf9");
    let not_hex = String::from("zz4dcc3b5aa765d61d8327deb882cf99");

    assert!(!encoder.matches_spring_security_hash(&raw, &odd_length));
    assert!(!encoder.matches_spring_security_hash(&raw, &not_hex));
}

#[test]
fn md5_salt_without_suffix_is_treated_as_absent() {
    // the sharp edge of the legacy format: a prefix with no suffix
    // anywhere means no salt, and the whole text is taken as the payload
    let encoder: Md5PasswordEncoder = Default::default();

    let raw = String::from("password");
    let stored = String::from("{thisissalt2a4e7104c2780098f50ed5a84bb2323d");

    assert!(!encoder.matches_spring_security_hash(&raw, &stored));
}

#[test]
fn scheme_names() {
    assert_eq!(Encoder::ARGON2.to_string(), String::from("argon2"));
    assert_eq!(Encoder::BCRYPT.to_string(), String::from("bcrypt"));
    assert_eq!(Encoder::LDAP.to_string(), String::from("ldap"));
    assert_eq!(Encoder::MD4.to_string(), String::from("MD4"));
    assert_eq!(Encoder::MD5.to_string(), String::from(""));
    assert_eq!(Encoder::NOOP.to_string(), String::from(""));
}

#[test]
fn standard_encoder_default_iterations() {
    let encoder: StandardPasswordEncoder = Default::default();
    assert_eq!(encoder.iterations, 1024);
}
