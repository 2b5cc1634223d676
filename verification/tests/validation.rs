use oxidevault::error::OxideVaultError;
use oxidevault::utils::validation::{check_username, format_uuid, validate_minecraft_username};

#[test]
fn test_validate_minecraft_username() {
    // Valid usernames
    assert!(validate_minecraft_username("Steve").is_ok());
    assert!(validate_minecraft_username("Player_123").is_ok());
    assert!(validate_minecraft_username("a").is_ok());
    assert!(validate_minecraft_username("1234567890123456").is_ok()); // 16 chars

    // Invalid usernames
    assert!(validate_minecraft_username("").is_err());
    assert!(validate_minecraft_username("12345678901234567").is_err()); // 17 chars
    assert!(validate_minecraft_username("Invalid Name").is_err()); // space
    assert!(validate_minecraft_username("Player@123").is_err()); // @
    assert!(validate_minecraft_username("Player-123").is_err()); // dash
}

#[test]
fn test_format_uuid() {
    assert_eq!(
        format_uuid("069a79f444e94726a5befca90e38aaf5"),
        Some("069a79f4-44e9-4726-a5be-fca90e38aaf5".to_string())
    );

    assert_eq!(format_uuid("invalid"), None);
    assert_eq!(format_uuid(""), None);
    assert_eq!(format_uuid("069a79f444e94726a5befca90e38aaf5extra"), None);
}

#[test]
fn username_errors_say_what_is_wrong() {
    assert_eq!(
        validate_minecraft_username(""),
        Err(OxideVaultError::Validation("Username cannot be empty".to_string()))
    );
    assert_eq!(
        validate_minecraft_username("12345678901234567"),
        Err(OxideVaultError::Validation(
            "Username too long: 17 characters (max 16)".to_string()
        ))
    );
    assert_eq!(
        validate_minecraft_username("Invalid Name"),
        Err(OxideVaultError::Validation(
            "Username can only contain letters, numbers, and underscores".to_string()
        ))
    );
}

#[test]
fn username_length_is_judged_before_characters() {
    assert_eq!(
        validate_minecraft_username("this name is far too long!"),
        Err(OxideVaultError::Validation(
            "Username too long: 26 characters (max 16)".to_string()
        ))
    );
}

#[test]
fn username_length_counts_bytes() {
    // Six letters of three bytes each.
    assert_eq!(
        validate_minecraft_username("日本語日本語"),
        Err(OxideVaultError::Validation(
            "Username too long: 18 characters (max 16)".to_string()
        ))
    );
    assert!(validate_minecraft_username("日本語").is_ok());
}

#[test]
fn username_may_hold_letters_and_digits_of_any_script() {
    assert!(validate_minecraft_username("Ünïcödé").is_ok());
    assert!(validate_minecraft_username("٣").is_ok());
    assert!(validate_minecraft_username("_").is_ok());
    assert!(validate_minecraft_username("a.b").is_err());
}

#[test]
fn check_username_by_its_facts() {
    assert!(check_username(5, true).is_ok());
    assert!(check_username(16, true).is_ok());
    assert_eq!(
        check_username(0, true),
        Err(OxideVaultError::Validation("Username cannot be empty".to_string()))
    );
    assert_eq!(
        check_username(100, false),
        Err(OxideVaultError::Validation(
            "Username too long: 100 characters (max 16)".to_string()
        ))
    );
    assert_eq!(
        check_username(5, false),
        Err(OxideVaultError::Validation(
            "Username can only contain letters, numbers, and underscores".to_string()
        ))
    );
}

#[test]
fn uuid_of_other_characters_is_cut_at_whole_characters_only() {
    // Sixteen letters of two bytes each: every cut falls between letters.
    let s = "é".repeat(16);
    assert_eq!(format_uuid(&s), Some("éééé-éé-éé-éé-éééééé".to_string()));
    // One byte, then letters of two bytes: the cut at 8 falls inside a letter.
    let s = format!("a{}b", "é".repeat(15));
    assert_eq!(s.len(), 32);
    assert_eq!(format_uuid(&s), None);
}

#[test]
fn uuid_is_not_checked_for_hexadecimal_digits() {
    assert_eq!(
        format_uuid("zzzzzzzzzzzzzzzzzzzzzzzzzzzzzzzz"),
        Some("zzzzzzzz-zzzz-zzzz-zzzz-zzzzzzzzzzzz".to_string())
    );
}
