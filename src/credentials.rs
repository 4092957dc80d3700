use vstd::prelude::*;

use argon2::password_hash::SaltString;
use argon2::{Argon2, PasswordHash, PasswordHasher, PasswordVerifier};

use crate::crypto::random_bytes;
use crate::error_handler::AuthError;

verus! {

/// Fewest characters a new password may have.
pub const MIN_PASSWORD_LENGTH: usize = 8;

/// Most characters a password may have: at four bytes a character this stays
/// within argon2's limit of `u32::MAX` bytes.
pub const MAX_PASSWORD_LENGTH: usize = 0x3FFF_FFFF;

/// Bytes of random salt per hash (password-hash's recommended length).
pub const SALT_LENGTH: usize = 16;

/// The text is a PHC string that argon2 can read back.
pub uninterp spec fn phc_parses(hash: Seq<char>) -> bool;

/// Argon2 verification of a password against a PHC string succeeds.
pub uninterp spec fn argon2_accepts(password: Seq<char>, hash: Seq<char>) -> bool;

/// Relies on `SaltString::encode_b64`, which only fails on salts over 64
/// bytes, and on `PasswordHasher::hash_password` of `Argon2::default()`,
/// which only fails on a password over `u32::MAX` bytes or a salt outside 8
/// to 64 bytes, turned into its PHC string. That string parses again, and
/// `PasswordVerifier::verify_password` recomputes the hash from the
/// algorithm, version, parameters and salt it holds, so the same password is
/// accepted.
#[verifier::external_body]
fn argon2_hash(password: &str, salt: &Vec<u8>) -> (r: Option<String>)
    requires
        salt@.len() == SALT_LENGTH,
        password@.len() <= MAX_PASSWORD_LENGTH,
    ensures
        r is Some,
        phc_parses(r->0@) && argon2_accepts(password@, r->0@),
{
    let salt = match SaltString::encode_b64(salt) {
        Ok(s) => s,
        Err(_) => return None,
    };
    match Argon2::default().hash_password(password.as_bytes(), &salt) {
        Ok(h) => Some(h.to_string()),
        Err(_) => None,
    }
}

/// Relies on `PasswordHash::new` to parse the PHC string (`None` when it
/// fails) and on `PasswordVerifier::verify_password` of `Argon2::default()`.
#[verifier::external_body]
fn argon2_verify(password: &str, hash: &str) -> (r: Option<bool>)
    ensures
        r is None <==> !phc_parses(hash@),
        r is Some ==> r->0 == argon2_accepts(password@, hash@),
{
    match PasswordHash::new(hash) {
        Ok(h) => Some(Argon2::default().verify_password(password.as_bytes(), &h).is_ok()),
        Err(_) => None,
    }
}

/// `hash` is an encoded hash of `password`.
pub open spec fn is_hash_of(password: Seq<char>, hash: Seq<char>) -> bool {
    phc_parses(hash) && argon2_accepts(password, hash)
}

/// What verifying `password` against the stored `hash` yields.
pub open spec fn verify_outcome(password: Seq<char>, hash: Seq<char>) -> Result<bool, AuthError> {
    if !phc_parses(hash) {
        Err(AuthError::MalformedHash)
    } else {
        Ok(argon2_accepts(password, hash))
    }
}

/// Why a password cannot be hashed at all, if it cannot.
pub open spec fn hash_refusal(password: Seq<char>) -> Option<AuthError> {
    if password.len() == 0 {
        Some(AuthError::PasswordTooShort)
    } else if password.len() > MAX_PASSWORD_LENGTH {
        Some(AuthError::PasswordTooLong)
    } else {
        None
    }
}

/// Hashes a password with argon2 and the given salt bytes. Empty and
/// over-long passwords are refused, as is a salt of the wrong length.
pub fn hash_password_with_salt(password: &str, salt: &Vec<u8>) -> (r: Result<String, AuthError>)
    ensures
        hash_refusal(password@) is Some ==> r == Err::<String, AuthError>(hash_refusal(password@)->0),
        hash_refusal(password@) is None && salt@.len() != SALT_LENGTH ==> r == Err::<String, AuthError>(AuthError::HashingFailure),
        hash_refusal(password@) is None && salt@.len() == SALT_LENGTH ==> r is Ok && is_hash_of(password@, r->Ok_0@),
{
    let n = password.unicode_len();
    if n == 0 {
        return Err(AuthError::PasswordTooShort);
    }
    if n > MAX_PASSWORD_LENGTH {
        return Err(AuthError::PasswordTooLong);
    }
    if salt.len() != SALT_LENGTH {
        return Err(AuthError::HashingFailure);
    }
    match argon2_hash(password, salt) {
        Some(h) => Ok(h),
        None => Err(AuthError::HashingFailure),
    }
}

/// Hashes a password with argon2 and a fresh random salt. It fails with
/// `HashingFailure` only when no salt can be drawn.
pub fn hash_password(password: &str) -> (r: Result<String, AuthError>)
    ensures
        hash_refusal(password@) is Some ==> r == Err::<String, AuthError>(hash_refusal(password@)->0),
        hash_refusal(password@) is None ==> r is Ok || r == Err::<String, AuthError>(AuthError::HashingFailure),
        r is Ok ==> is_hash_of(password@, r->Ok_0@),
{
    let n = password.unicode_len();
    if n == 0 {
        return Err(AuthError::PasswordTooShort);
    }
    if n > MAX_PASSWORD_LENGTH {
        return Err(AuthError::PasswordTooLong);
    }
    match random_bytes(SALT_LENGTH) {
        Some(salt) => hash_password_with_salt(password, &salt),
        None => Err(AuthError::HashingFailure),
    }
}

/// Checks a password against a stored hash: `Ok(false)` on any mismatch,
/// `MalformedHash` when the stored text is not a PHC string.
pub fn verify_password(password: &str, hash: &str) -> (r: Result<bool, AuthError>)
    ensures
        r == verify_outcome(password@, hash@),
{
    match argon2_verify(password, hash) {
        Some(ok) => Ok(ok),
        None => Err(AuthError::MalformedHash),
    }
}

/// A hash made of a password verifies that password.
pub proof fn lemma_hash_verifies(password: Seq<char>, hash: Seq<char>)
    requires
        is_hash_of(password, hash),
    ensures
        verify_outcome(password, hash) == Ok::<bool, AuthError>(true),
{
}

/// A handle must not be empty.
pub fn validate_handle(handle: &str) -> (r: Result<(), AuthError>)
    ensures
        r is Err <==> handle@.len() == 0,
        r is Err ==> r == Err::<(), AuthError>(AuthError::HandleTooShort),
{
    if handle.is_empty() {
        Err(AuthError::HandleTooShort)
    } else {
        Ok(())
    }
}

/// A new password needs `MIN_PASSWORD_LENGTH` to `MAX_PASSWORD_LENGTH` characters.
pub fn validate_password(password: &str) -> (r: Result<(), AuthError>)
    ensures
        password@.len() < MIN_PASSWORD_LENGTH ==> r == Err::<(), AuthError>(AuthError::PasswordTooShort),
        password@.len() > MAX_PASSWORD_LENGTH ==> r == Err::<(), AuthError>(AuthError::PasswordTooLong),
        MIN_PASSWORD_LENGTH <= password@.len() <= MAX_PASSWORD_LENGTH ==> r is Ok,
{
    let n = password.unicode_len();
    if n < MIN_PASSWORD_LENGTH {
        Err(AuthError::PasswordTooShort)
    } else if n > MAX_PASSWORD_LENGTH {
        Err(AuthError::PasswordTooLong)
    } else {
        Ok(())
    }
}

/// A nickname must not be empty.
pub fn validate_nickname(nickname: &str) -> (r: Result<(), AuthError>)
    ensures
        r is Err <==> nickname@.len() == 0,
        r is Err ==> r == Err::<(), AuthError>(AuthError::NicknameTooShort),
{
    if nickname.is_empty() {
        Err(AuthError::NicknameTooShort)
    } else {
        Ok(())
    }
}

} // verus!
