use vstd::prelude::*;

use diesel::result::DatabaseErrorKind as K;
use diesel::result::Error as E;

verus! {

/// The payload sent to a client on failure: `{success: false, message}`.
pub struct ErrorInfo {
    pub success: bool,
    pub message: String,
}

impl ErrorInfo {
    pub fn new(message: String) -> (r: Self)
        ensures
            !r.success,
            r.message@ == message@,
    {
        ErrorInfo { success: false, message }
    }
}

/// Every failure the authentication core can report.
#[derive(Debug, Clone, Copy, PartialEq, Eq, Structural)]
pub enum AuthError {
    /// Unknown handle or wrong password; the two are not told apart.
    AuthenticationFailed,
    /// The request carried no session token.
    TokenMissing,
    /// The token is not `selector:validator`.
    TokenMalformed,
    /// Unknown selector, wrong validator or expired session.
    TokenInvalid,
    /// Authenticated, but the role or ownership does not allow the action.
    NotAuthorized,
    /// The password could not be hashed.
    HashingFailure,
    /// A stored password hash is not a PHC string.
    MalformedHash,
    /// Unknown, consumed or forged OAuth state.
    InvalidRequest,
    /// The OAuth provider failed or answered with something unusable.
    ProviderUnavailable,
    /// The operating system's random generator failed.
    RandomUnavailable,
    /// A password longer than the maximum length.
    PasswordTooLong,
    /// A handle that is empty.
    HandleTooShort,
    /// A password shorter than the minimum length.
    PasswordTooShort,
    /// A nickname that is empty.
    NicknameTooShort,
    /// A handle that another identity already holds.
    HandleExists,
    /// The store cannot take the row (a taken key, or identifiers exhausted).
    StoreConflict,
    /// No identity with the given id.
    NotFound,
}

/// HTTP status of each error kind.
pub open spec fn status_of(e: AuthError) -> u16 {
    match e {
        AuthError::AuthenticationFailed => 401,
        AuthError::TokenMissing => 401,
        AuthError::TokenMalformed => 401,
        AuthError::TokenInvalid => 401,
        AuthError::NotAuthorized => 401,
        AuthError::HashingFailure => 500,
        AuthError::MalformedHash => 500,
        AuthError::InvalidRequest => 400,
        AuthError::ProviderUnavailable => 500,
        AuthError::RandomUnavailable => 500,
        AuthError::PasswordTooLong => 400,
        AuthError::HandleTooShort => 400,
        AuthError::PasswordTooShort => 400,
        AuthError::NicknameTooShort => 400,
        AuthError::HandleExists => 409,
        AuthError::StoreConflict => 409,
        AuthError::NotFound => 404,
    }
}

/// An error as it crosses the system boundary: a status and a payload.
pub struct CustomError {
    pub status: u16,
    pub info: ErrorInfo,
}

impl AuthError {
    pub fn status(&self) -> (r: u16)
        ensures
            r == status_of(*self),
    {
        match self {
            AuthError::AuthenticationFailed => 401,
            AuthError::TokenMissing => 401,
            AuthError::TokenMalformed => 401,
            AuthError::TokenInvalid => 401,
            AuthError::NotAuthorized => 401,
            AuthError::HashingFailure => 500,
            AuthError::MalformedHash => 500,
            AuthError::InvalidRequest => 400,
            AuthError::ProviderUnavailable => 500,
            AuthError::RandomUnavailable => 500,
            AuthError::PasswordTooLong => 400,
            AuthError::HandleTooShort => 400,
            AuthError::PasswordTooShort => 400,
            AuthError::NicknameTooShort => 400,
            AuthError::HandleExists => 409,
            AuthError::StoreConflict => 409,
            AuthError::NotFound => 404,
        }
    }

    /// The kind string that the client sees as `message`.
    pub fn kind(&self) -> (r: &'static str)
        ensures
            r@ == kind_of(*self),
    {
        match self {
            AuthError::AuthenticationFailed => "authentication_failed",
            AuthError::TokenMissing => "token_missing",
            AuthError::TokenMalformed => "token_malformed",
            AuthError::TokenInvalid => "token_invalid",
            AuthError::NotAuthorized => "not_authorized",
            AuthError::HashingFailure => "hashing_failure",
            AuthError::MalformedHash => "malformed_hash",
            AuthError::InvalidRequest => "invalid_request",
            AuthError::ProviderUnavailable => "provider_unavailable",
            AuthError::RandomUnavailable => "random_unavailable",
            AuthError::PasswordTooLong => "password_too_long",
            AuthError::HandleTooShort => "handle_too_short",
            AuthError::PasswordTooShort => "password_too_short",
            AuthError::NicknameTooShort => "nickname_too_short",
            AuthError::HandleExists => "handle_exists",
            AuthError::StoreConflict => "conflict",
            AuthError::NotFound => "not_found",
        }
    }

    /// The generic payload for this error, with its status.
    pub fn to_custom_error(&self) -> (r: CustomError)
        ensures
            r.status == status_of(*self),
            !r.info.success,
            r.info.message@ == kind_of(*self),
    {
        let message = String::from_str(self.kind());
        CustomError { status: self.status(), info: ErrorInfo::new(message) }
    }
}

/// Kind string of each error kind.
pub open spec fn kind_of(e: AuthError) -> Seq<char> {
    match e {
        AuthError::AuthenticationFailed => "authentication_failed"@,
        AuthError::TokenMissing => "token_missing"@,
        AuthError::TokenMalformed => "token_malformed"@,
        AuthError::TokenInvalid => "token_invalid"@,
        AuthError::NotAuthorized => "not_authorized"@,
        AuthError::HashingFailure => "hashing_failure"@,
        AuthError::MalformedHash => "malformed_hash"@,
        AuthError::InvalidRequest => "invalid_request"@,
        AuthError::ProviderUnavailable => "provider_unavailable"@,
        AuthError::RandomUnavailable => "random_unavailable"@,
        AuthError::PasswordTooLong => "password_too_long"@,
        AuthError::HandleTooShort => "handle_too_short"@,
        AuthError::PasswordTooShort => "password_too_short"@,
        AuthError::NicknameTooShort => "nickname_too_short"@,
        AuthError::HandleExists => "handle_exists"@,
        AuthError::StoreConflict => "conflict"@,
        AuthError::NotFound => "not_found"@,
    }
}

/// What went wrong in the relational store, as far as the client is told.
#[derive(Debug, Clone, Copy, PartialEq, Eq, Structural)]
pub enum DbErrorKind {
    InvalidCString,
    UniqueViolation,
    ForeignKeyViolation,
    NotNullViolation,
    CheckViolation,
    ClosedConnection,
    OtherDatabase,
    NotFound,
    Deserialization,
    Other,
}

/// HTTP status and kind string of each store failure.
pub open spec fn db_response_of(k: DbErrorKind) -> (u16, Seq<char>) {
    match k {
        DbErrorKind::InvalidCString => (422, "invalid_c_string"@),
        DbErrorKind::UniqueViolation => (409, "unique_violation"@),
        DbErrorKind::ForeignKeyViolation => (422, "foreign_key_violation"@),
        DbErrorKind::NotNullViolation => (422, "not_null_violation"@),
        DbErrorKind::CheckViolation => (422, "check_violation"@),
        DbErrorKind::ClosedConnection => (503, "closed_connection"@),
        DbErrorKind::OtherDatabase => (500, "internal_server_error"@),
        DbErrorKind::NotFound => (404, "not_found"@),
        DbErrorKind::Deserialization => (422, "deserialization_error"@),
        DbErrorKind::Other => (500, "internal_server_error"@),
    }
}

/// The generic payload for a store failure.
pub fn db_error_response(k: DbErrorKind) -> (r: CustomError)
    ensures
        r.status == db_response_of(k).0,
        r.info.message@ == db_response_of(k).1,
        !r.info.success,
{
    let (status, message) = match k {
        DbErrorKind::InvalidCString => (422, "invalid_c_string"),
        DbErrorKind::UniqueViolation => (409, "unique_violation"),
        DbErrorKind::ForeignKeyViolation => (422, "foreign_key_violation"),
        DbErrorKind::NotNullViolation => (422, "not_null_violation"),
        DbErrorKind::CheckViolation => (422, "check_violation"),
        DbErrorKind::ClosedConnection => (503, "closed_connection"),
        DbErrorKind::OtherDatabase => (500, "internal_server_error"),
        DbErrorKind::NotFound => (404, "not_found"),
        DbErrorKind::Deserialization => (422, "deserialization_error"),
        DbErrorKind::Other => (500, "internal_server_error"),
    };
    CustomError { status, info: ErrorInfo::new(String::from_str(message)) }
}

#[verifier::external_type_specification]
#[verifier::external_body]
pub struct ExDieselError(diesel::result::Error);

/// Which kind of store failure a diesel error is.
pub uninterp spec fn db_kind_of(e: diesel::result::Error) -> DbErrorKind;

/// Relies on the variants of `diesel::result::Error` and
/// `diesel::result::DatabaseErrorKind`: tells them apart, nothing more.
#[verifier::external_body]
fn classify(e: &diesel::result::Error) -> (r: DbErrorKind)
    ensures
        r == db_kind_of(*e),
{
    match e {
        E::InvalidCString(_) => DbErrorKind::InvalidCString,
        E::DatabaseError(K::UniqueViolation, _) => DbErrorKind::UniqueViolation,
        E::DatabaseError(K::ForeignKeyViolation, _) => DbErrorKind::ForeignKeyViolation,
        E::DatabaseError(K::NotNullViolation, _) => DbErrorKind::NotNullViolation,
        E::DatabaseError(K::CheckViolation, _) => DbErrorKind::CheckViolation,
        E::DatabaseError(K::ClosedConnection, _) => DbErrorKind::ClosedConnection,
        E::DatabaseError(_, _) => DbErrorKind::OtherDatabase,
        E::NotFound => DbErrorKind::NotFound,
        E::DeserializationError(_) => DbErrorKind::Deserialization,
        _ => DbErrorKind::Other,
    }
}

/// Turns a store failure into the generic payload, so that no detail of the
/// query crosses the system boundary.
pub fn handle_error(e: diesel::result::Error) -> (r: CustomError)
    ensures
        r.status == db_response_of(db_kind_of(e)).0,
        r.info.message@ == db_response_of(db_kind_of(e)).1,
        !r.info.success,
{
    db_error_response(classify(&e))
}

} // verus!
