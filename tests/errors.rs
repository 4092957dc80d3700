use neon_auth::error_handler::{db_error_response, AuthError, DbErrorKind, ErrorInfo};

#[test]
fn error_info_is_a_failure() {
    let info = ErrorInfo::new("boom".to_string());
    assert!(!info.success);
    assert_eq!(info.message, "boom");
}

#[test]
fn auth_errors_map_to_status_and_kind() {
    let e = AuthError::NotAuthorized.to_custom_error();
    assert_eq!(e.status, 401);
    assert_eq!(e.info.message, "not_authorized");
    assert!(!e.info.success);
    assert_eq!(AuthError::AuthenticationFailed.status(), 401);
    assert_eq!(AuthError::TokenMissing.status(), 401);
    assert_eq!(AuthError::TokenMalformed.kind(), "token_malformed");
    assert_eq!(AuthError::InvalidRequest.status(), 400);
    assert_eq!(AuthError::ProviderUnavailable.status(), 500);
    assert_eq!(AuthError::MalformedHash.status(), 500);
    assert_eq!(AuthError::HashingFailure.kind(), "hashing_failure");
    assert_eq!(AuthError::HandleExists.status(), 409);
    assert_eq!(AuthError::RandomUnavailable.status(), 500);
    assert_eq!(AuthError::PasswordTooLong.kind(), "password_too_long");
}

#[test]
fn store_errors_map_to_payloads() {
    let e = db_error_response(DbErrorKind::UniqueViolation);
    assert_eq!((e.status, e.info.message.as_str()), (409, "unique_violation"));
    let e = db_error_response(DbErrorKind::NotFound);
    assert_eq!((e.status, e.info.message.as_str()), (404, "not_found"));
    let e = db_error_response(DbErrorKind::ClosedConnection);
    assert_eq!((e.status, e.info.message.as_str()), (503, "closed_connection"));
    let e = db_error_response(DbErrorKind::Other);
    assert_eq!((e.status, e.info.message.as_str()), (500, "internal_server_error"));
}

#[test]
fn diesel_errors_are_classified() {
    let e = neon_auth::error_handler::handle_error(diesel::result::Error::NotFound);
    assert_eq!((e.status, e.info.message.as_str()), (404, "not_found"));
    let e = neon_auth::error_handler::handle_error(diesel::result::Error::RollbackTransaction);
    assert_eq!((e.status, e.info.message.as_str()), (500, "internal_server_error"));
}
