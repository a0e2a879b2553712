use spring_password_encoder::PasswordEncoder;
use spring_password_encoder::encoder::digest::extract_salt;
use spring_password_encoder::encoder::md5::Md5PasswordEncoder;

#[test]
fn md5_can_find_salt_with_proper_prefix_with_proper_suffix() {
    let encoded_password_with_proper_format =
        String::from("{thisissalt}2a4e7104c2780098f50ed5a84bb2323d");
    let prefix = String::from("{");
    let suffix = String::from("}");

    let found_salt = extract_salt(&prefix, &suffix, &encoded_password_with_proper_format);

    assert!(found_salt.is_some());

    assert_eq!(found_salt.unwrap(), String::from("thisissalt"));
}

#[test]
fn md5_unable_to_find_salt_with_proper_prefix_but_missing_suffix() {
    let encoded_password_with_proper_format =
        String::from("{thisissalt2a4e7104c2780098f50ed5a84bb2323d");
    let prefix = String::from("{");
    let suffix = String::from("}");

    let found_salt = extract_salt(&prefix, &suffix, &encoded_password_with_proper_format);

    assert!(found_salt.is_none());
}

#[test]
fn md5_unable_to_find_salt_with_proper_suffix_but_missing_prefix() {
    let encoded_password_with_proper_format =
        String::from("thisissalt}2a4e7104c2780098f50ed5a84bb2323d");
    let prefix = String::from("{");
    let suffix = String::from("}");

    let found_salt = extract_salt(&prefix, &suffix, &encoded_password_with_proper_format);

    assert!(found_salt.is_none());
}

#[test]
fn md5_unable_to_find_salt_without_salt_markers() {
    let encoded_password_with_proper_format =
        String::from("thisissalt2a4e7104c2780098f50ed5a84bb2323d");
    let prefix = String::from("{");
    let suffix = String::from("}");

    let found_salt = extract_salt(&prefix, &suffix, &encoded_password_with_proper_format);

    assert!(found_salt.is_none());
}

#[test]
fn md5_can_find_salt_with_multiple_prefixes_with_proper_suffix() {
    let encoded_password_with_proper_format =
        String::from("{{thisissalt}2a4e7104c2780098f50ed5a84bb2323d");
    let prefix = String::from("{");
    let suffix = String::from("}");

    let found_salt = extract_salt(&prefix, &suffix, &encoded_password_with_proper_format);

    assert!(found_salt.is_some());

    assert_eq!(found_salt.unwrap(), String::from("{thisissalt"));
}

#[test]
fn md5_can_find_salt_with_multiple_suffixes_with_proper_prefix() {
    let encoded_password_with_proper_format =
        String::from("{thisissalt}}2a4e7104c2780098f50ed5a84bb2323d");
    let prefix = String::from("{");
    let suffix = String::from("}");

    let found_salt = extract_salt(&prefix, &suffix, &encoded_password_with_proper_format);

    assert!(found_salt.is_some());

    assert_eq!(found_salt.unwrap(), String::from("thisissalt"));
}

#[test]
fn md5_can_find_salt_with_multiple_suffixes_with_multiple_prefixes() {
    let encoded_password_with_proper_format =
        String::from("{{thisissalt}}2a4e7104c2780098f50ed5a84bb2323d");
    let prefix = String::from("{");
    let suffix = String::from("}");

    let found_salt = extract_salt(&prefix, &suffix, &encoded_password_with_proper_format);

    assert!(found_salt.is_some());

    assert_eq!(found_salt.unwrap(), String::from("{thisissalt"));
}

#[test]
fn md5_matches_correct_password_with_salt() {
    let encoder: Md5PasswordEncoder = Default::default();

    let unencoded_password = String::from("password");
    let encoded_password = String::from("{thisissalt}2a4e7104c2780098f50ed5a84bb2323d");

    let result = encoder.matches_spring_security_hash(&unencoded_password, &encoded_password);

    assert!(result);
}

#[test]
fn md5_matches_correct_password_no_salt() {
    let encoder: Md5PasswordEncoder = Default::default();

    let unencoded_password = String::from("password");
    let encoded_password = String::from("5f4dcc3b5aa765d61d8327deb882cf99");

    let result = encoder.matches_spring_security_hash(&unencoded_password, &encoded_password);

    assert!(result);
}

#[test]
fn md5_matches_correct_password_no_salt_uppercased() {
    let encoder: Md5PasswordEncoder = Default::default();

    let unencoded_password = String::from("password");
    let encoded_password = String::from("5F4DCC3B5AA765D61D8327DEB882CF99");

    let result = encoder.matches_spring_security_hash(&unencoded_password, &encoded_password);

    assert!(result);
}
