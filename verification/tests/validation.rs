use xui_core::errors::ApiError;
use xui_core::validation::{validate_password, validate_username};

#[test]
fn test_validate_username() {
    assert!(validate_username("admin").is_ok());
    assert!(validate_username("user_123").is_ok());
    assert!(validate_username("test-user").is_ok());

    assert!(validate_username("ab").is_err());
    assert!(validate_username("a".repeat(33).as_str()).is_err());
    assert!(validate_username("user@123").is_err());
    assert!(validate_username("user 123").is_err());
}

#[test]
fn test_validate_password() {
    assert!(validate_password("1234").is_ok());
    assert!(validate_password("admin").is_ok());
    assert!(validate_password("password123").is_ok());

    assert!(validate_password("123").is_err());
    assert!(validate_password(&"a".repeat(129)).is_err());
}

#[test]
fn validation_errors_are_bad_requests() {
    assert!(matches!(validate_username("ab"), Err(ApiError::BadRequest(_))));
    assert!(matches!(validate_password("1"), Err(ApiError::BadRequest(_))));
}
