use spring_password_encoder::PasswordEncoder;
use spring_password_encoder::encoder::digest::extract_salt;
use spring_password_encoder::encoder::md4::Md4PasswordEncoder;

#[test]
fn md4_can_find_salt_with_proper_prefix_with_proper_suffix() {
    let encoded_password_with_proper_format =
        String::from("{thisissalt}6cc7924dad12ade79dfb99e424f25260");
    let prefix = String::from("{");
    let suffix = String::from("}");

    let found_salt = extract_salt(&prefix, &suffix, &encoded_password_with_proper_format);

    assert!(found_salt.is_some());

    assert_eq!(found_salt.unwrap(), String::from("thisissalt"));
}

#[test]
fn md4_unable_to_find_salt_with_proper_prefix_but_missing_suffix() {
    let encoded_password_with_proper_format =
        String::from("{thisissalt6cc7924dad12ade79dfb99e424f25260");
    let prefix = String::from("{");
    let suffix = String::from("}");

    let found_salt = extract_salt(&prefix, &suffix, &encoded_password_with_proper_format);

    assert!(found_salt.is_none());
}

#[test]
fn md4_unable_to_find_salt_with_proper_suffix_but_missing_prefix() {
    let encoded_password_with_proper_format =
        String::from("thisissalt}6cc7924dad12ade79dfb99e424f25260");
    let prefix = String::from("{");
    let suffix = String::from("}");

    let found_salt = extract_salt(&prefix, &suffix, &encoded_password_with_proper_format);

    assert!(found_salt.is_none());
}

#[test]
fn md4_unable_to_find_salt_without_salt_markers() {
    let encoded_password_with_proper_format =
        String::from("thisissalt6cc7924dad12ade79dfb99e424f25260");
    let prefix = String::from("{");
    let suffix = String::from("}");

    let found_salt = extract_salt(&prefix, &suffix, &encoded_password_with_proper_format);

    assert!(found_salt.is_none());
}

#[test]
fn md4_can_find_salt_with_multiple_prefixes_with_proper_suffix() {
    let encoded_password_with_proper_format =
        String::from("{{thisissalt}6cc7924dad12ade79dfb99e424f25260");
    let prefix = String::from("{");
    let suffix = String::from("}");

    let found_salt = extract_salt(&prefix, &suffix, &encoded_password_with_proper_format);

    assert!(found_salt.is_some());

    assert_eq!(found_salt.unwrap(), String::from("{thisissalt"));
}

#[test]
fn md4_can_find_salt_with_multiple_suffixes_with_proper_prefix() {
    let encoded_password_with_proper_format =
        String::from("{thisissalt}}6cc7924dad12ade79dfb99e424f25260");
    let prefix = String::from("{");
    let suffix = String::from("}");

    let found_salt = extract_salt(&prefix, &suffix, &encoded_password_with_proper_format);

    assert!(found_salt.is_some());

    assert_eq!(found_salt.unwrap(), String::from("thisissalt"));
}

#[test]
fn md4_can_find_salt_with_multiple_suffixes_with_multiple_prefixes() {
    let encoded_password_with_proper_format =
        String::from("{{thisissalt}}6cc7924dad12ade79dfb99e424f25260");
    let prefix = String::from("{");
    let suffix = String::from("}");

    let found_salt = extract_salt(&prefix, &suffix, &encoded_password_with_proper_format);

    assert!(found_salt.is_some());

    assert_eq!(found_salt.unwrap(), String::from("{thisissalt"));
}

#[test]
fn md4_matches_correct_password_with_salt() {
    let encoder: Md4PasswordEncoder = Default::default();

    let unencoded_password = String::from("password");
    let encoded_password = String::from("{thisissalt}6cc7924dad12ade79dfb99e424f25260");

    let result = encoder.matches_spring_security_hash(&unencoded_password, &encoded_password);

    assert!(result);
}

#[test]
fn md4_matches_correct_password_no_salt() {
    let encoder: Md4PasswordEncoder = Default::default();

    let unencoded_password = String::from("password");
    let encoded_password = String::from("8a9d093f14f8701df17732b2bb182c74");

    let result = encoder.matches_spring_security_hash(&unencoded_password, &encoded_password);

    assert!(result);
}

#[test]
fn md4_matches_correct_password_no_salt_uppercased() {
    let encoder: Md4PasswordEncoder = Default::default();

    let unencoded_password = String::from("password");
    let encoded_password = String::from("8A9D093F14F8701DF17732B2BB182C74");

    let result = encoder.matches_spring_security_hash(&unencoded_password, &encoded_password);

    assert!(result);
}
