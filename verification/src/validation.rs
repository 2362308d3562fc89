//! Validation of login credentials before they reach storage.

use vstd::prelude::*;
use vstd::string::StringSliceAdditionalSpecFns;

use crate::errors::ApiError;

verus! {

/// A character that may appear in a username: ASCII letters, digits,
/// underscore and hyphen.
pub open spec fn is_username_char(c: char) -> bool {
    ('a' <= c && c <= 'z') || ('A' <= c && c <= 'Z') || ('0' <= c && c <= '9') || c == '_'
        || c == '-'
}

/// Every character of `s` may appear in a username.
pub open spec fn all_username_chars(s: Seq<char>) -> bool {
    forall|i: int| 0 <= i < s.len() ==> is_username_char(#[trigger] s[i])
}

/// A username is accepted exactly when its encoding is 3 to 32 bytes long
/// and every character is a letter, digit, underscore or hyphen.
pub open spec fn username_ok(s: &str) -> bool {
    &&& 3 <= s.spec_bytes().len() <= 32
    &&& all_username_chars(s@)
}

/// A password is accepted exactly when its encoding is 4 to 128 bytes long.
pub open spec fn password_ok(s: &str) -> bool {
    4 <= s.spec_bytes().len() <= 128
}

/// Checks a username: 3 to 32 bytes, only letters, digits, underscore and
/// hyphen.
pub fn validate_username(username: &str) -> (r: Result<(), ApiError>)
    ensures
        r is Ok <==> username_ok(username),
        r matches Err(e) ==> e is BadRequest,
{
    let byte_len = username.as_bytes().len();
    if byte_len < 3 || byte_len > 32 {
        return Err(
            ApiError::BadRequest(
                String::from_str("Username must be between 3 and 32 characters"),
            ),
        );
    }
    let n = username.unicode_len();
    let mut i: usize = 0;
    while i < n
        invariant
            n == username@.len(),
            0 <= i <= n,
            forall|j: int| 0 <= j < i ==> is_username_char(#[trigger] username@[j]),
        decreases n - i,
    {
        let c = username.get_char(i);
        let ok = ('a' <= c && c <= 'z') || ('A' <= c && c <= 'Z') || ('0' <= c && c <= '9') || c
            == '_' || c == '-';
        if !ok {
            return Err(
                ApiError::BadRequest(
                    String::from_str(
                        "Username may only contain letters, digits, underscores and hyphens",
                    ),
                ),
            );
        }
        i += 1;
    }
    Ok(())
}

/// Checks a password: 4 to 128 bytes.
pub fn validate_password(password: &str) -> (r: Result<(), ApiError>)
    ensures
        r is Ok <==> password_ok(password),
        r matches Err(e) ==> e is BadRequest,
{
    let byte_len = password.as_bytes().len();
    if byte_len < 4 {
        return Err(
            ApiError::BadRequest(String::from_str("Password must be at least 4 characters")),
        );
    }
    if byte_len > 128 {
        return Err(
            ApiError::BadRequest(String::from_str("Password must not exceed 128 characters")),
        );
    }
    Ok(())
}

} // verus!
