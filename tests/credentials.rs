use neon_auth::accounts::{NewUser, UpdateUser};
use neon_auth::credentials::{hash_password, hash_password_with_salt, validate_handle, validate_nickname, validate_password, verify_password};
use neon_auth::error_handler::AuthError;

#[test]
fn hash_then_verify_accepts_same_password() {
    let h = hash_password("correct-horse").unwrap();
    assert_eq!(verify_password("correct-horse", &h), Ok(true));
}

#[test]
fn hashing_twice_gives_different_encodings() {
    let a = hash_password("correct-horse").unwrap();
    let b = hash_password("correct-horse").unwrap();
    assert_ne!(a, b);
    assert!(a.starts_with("$argon2"));
}

#[test]
fn verify_rejects_other_password() {
    let h = hash_password("correct-horse").unwrap();
    assert_eq!(verify_password("wrong", &h), Ok(false));
}

#[test]
fn verify_reports_malformed_hash() {
    assert_eq!(verify_password("x", "not a phc string"), Err(AuthError::MalformedHash));
    assert_eq!(verify_password("x", ""), Err(AuthError::MalformedHash));
}

#[test]
fn hash_rejects_empty_password() {
    assert_eq!(hash_password(""), Err(AuthError::PasswordTooShort));
}

#[test]
fn field_rules() {
    assert_eq!(validate_handle(""), Err(AuthError::HandleTooShort));
    assert_eq!(validate_handle("a"), Ok(()));
    assert_eq!(validate_nickname(""), Err(AuthError::NicknameTooShort));
    assert_eq!(validate_nickname("n"), Ok(()));
    assert_eq!(validate_password("1234567"), Err(AuthError::PasswordTooShort));
    assert_eq!(validate_password("12345678"), Ok(()));
}

#[test]
fn hashing_with_a_given_salt_is_deterministic() {
    let salt: Vec<u8> = (0..16).collect();
    let a = hash_password_with_salt("correct-horse", &salt).unwrap();
    let b = hash_password_with_salt("correct-horse", &salt).unwrap();
    assert_eq!(a, b);
    assert!(a.starts_with("$argon2id$"));
    assert_eq!(verify_password("correct-horse", &a), Ok(true));
    assert_eq!(verify_password("correct-horsf", &a), Ok(false));
    let other: Vec<u8> = (1..17).collect();
    assert_ne!(hash_password_with_salt("correct-horse", &other).unwrap(), a);
}

#[test]
fn hashing_refuses_bad_salts_and_empty_passwords() {
    let short: Vec<u8> = (0..15).collect();
    assert_eq!(hash_password_with_salt("correct-horse", &short), Err(AuthError::HashingFailure));
    let salt: Vec<u8> = (0..16).collect();
    assert_eq!(hash_password_with_salt("", &salt), Err(AuthError::PasswordTooShort));
}

#[test]
fn new_user_requests_are_hashed() {
    let nu = NewUser {
        handle: "alice".to_string(),
        nickname: "Alice".to_string(),
        password: "correct-horse".to_string(),
        email: "a@x.y".to_string(),
    };
    let h1 = nu.hash_password().unwrap();
    let h2 = nu.hash_password().unwrap();
    assert_eq!(h1.handle, "alice");
    assert_eq!(h1.email, "a@x.y");
    assert_ne!(h1.password, h2.password);
    assert_eq!(verify_password("correct-horse", &h1.password), Ok(true));
    let salt: Vec<u8> = (0..16).collect();
    assert_eq!(nu.hash_password_with_salt(&salt).unwrap().password, hash_password_with_salt("correct-horse", &salt).unwrap());
}

#[test]
fn profile_changes_are_hashed() {
    let up = UpdateUser {
        nickname: Some("A".to_string()),
        email: None,
        password: "old-password".to_string(),
        new_password: Some("new-password".to_string()),
    };
    let h = up.hash_password().unwrap();
    assert_eq!(h.nickname.as_deref(), Some("A"));
    assert_eq!(h.email, None);
    assert_eq!(verify_password("new-password", h.password.as_ref().unwrap()), Ok(true));
    let keep = UpdateUser { nickname: None, email: None, password: "old-password".to_string(), new_password: None };
    assert_eq!(keep.hash_password().unwrap().password, None);
    let empty = UpdateUser { nickname: None, email: None, password: "x".to_string(), new_password: Some(String::new()) };
    assert_eq!(empty.hash_password().err(), Some(AuthError::PasswordTooShort));
}
