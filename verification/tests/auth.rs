use libmcptool::auth::validate_auth_name;

#[test]
fn test_validate_auth_name() {
    // Valid names
    assert!(validate_auth_name("myauth").is_ok());
    assert!(validate_auth_name("my_auth").is_ok());
    assert!(validate_auth_name("MyAuth123").is_ok());
    assert!(validate_auth_name("AUTH_123_test").is_ok());
    assert!(validate_auth_name("a").is_ok());
    assert!(validate_auth_name("_").is_ok());
    assert!(validate_auth_name("123").is_ok());

    // Invalid names
    assert!(validate_auth_name("").is_err());
    assert!(validate_auth_name("my-auth").is_err());
    assert!(validate_auth_name("my auth").is_err());
    assert!(validate_auth_name("my:auth").is_err());
    assert!(validate_auth_name("my/auth").is_err());
    assert!(validate_auth_name("my.auth").is_err());
    assert!(validate_auth_name("my@auth").is_err());

    // Verify error messages
    let err = validate_auth_name("my-auth").unwrap_err();
    assert!(err
        .message()
        .contains("Names can only contain letters, numbers, and underscores"));

    let err = validate_auth_name("").unwrap_err();
    assert!(err.message().contains("cannot be empty"));
}

#[test]
fn test_validate_auth_name_valid() {
    // Valid names
    assert!(validate_auth_name("myauth").is_ok());
    assert!(validate_auth_name("my_auth").is_ok());
    assert!(validate_auth_name("MyAuth123").is_ok());
    assert!(validate_auth_name("AUTH_123_test").is_ok());
    assert!(validate_auth_name("a").is_ok());
    assert!(validate_auth_name("_").is_ok());
    assert!(validate_auth_name("123").is_ok());
}

#[test]
fn test_validate_auth_name_invalid_chars_1() {
    assert!(validate_auth_name("my-auth").is_err());
    assert!(validate_auth_name("my auth").is_err());
    assert!(validate_auth_name("my:auth").is_err());
    assert!(validate_auth_name("my/auth").is_err());
    assert!(validate_auth_name("my.auth").is_err());
    assert!(validate_auth_name("my@auth").is_err());
    assert!(validate_auth_name("my#auth").is_err());
    assert!(validate_auth_name("my$auth").is_err());
    assert!(validate_auth_name("my%auth").is_err());
    assert!(validate_auth_name("my^auth").is_err());
    assert!(validate_auth_name("my&auth").is_err());
    assert!(validate_auth_name("my*auth").is_err());
    assert!(validate_auth_name("my(auth)").is_err());
    assert!(validate_auth_name("my[auth]").is_err());
}

#[test]
fn test_validate_auth_name_invalid_chars_2() {
    assert!(validate_auth_name("my{auth}").is_err());
    assert!(validate_auth_name("my|auth").is_err());
    assert!(validate_auth_name("my\\auth").is_err());
    assert!(validate_auth_name("my;auth").is_err());
    assert!(validate_auth_name("my'auth").is_err());
    assert!(validate_auth_name("my\"auth").is_err());
    assert!(validate_auth_name("my<auth>").is_err());
    assert!(validate_auth_name("my?auth").is_err());
    assert!(validate_auth_name("my!auth").is_err());
    assert!(validate_auth_name("my~auth").is_err());
    assert!(validate_auth_name("my`auth").is_err());
    assert!(validate_auth_name("my+auth").is_err());
    assert!(validate_auth_name("my=auth").is_err());
    assert!(validate_auth_name("my,auth").is_err());
}

#[test]
fn test_validate_auth_name_invalid_misc() {
    assert!(validate_auth_name("").is_err());
    // Unicode characters should be invalid
    assert!(validate_auth_name("myαuth").is_err());
    assert!(validate_auth_name("my😀auth").is_err());
    assert!(validate_auth_name("mÿauth").is_err());
}
