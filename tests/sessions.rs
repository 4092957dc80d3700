use neon_auth::accounts::{NewUser, UpdateUser};
use neon_auth::error_handler::AuthError;
use neon_auth::models::RoleTypeEnum;
use neon_auth::session::{AuthStore, UserCircle, SESSION_TTL_SECS};

const T0: u64 = 1_700_000_000;

fn new_user(handle: &str, password: &str) -> NewUser {
    NewUser {
        handle: handle.to_string(),
        nickname: format!("{} nick", handle),
        password: password.to_string(),
        email: format!("{}@example.org", handle),
    }
}

fn store_with_alice() -> AuthStore {
    let mut store = AuthStore::new();
    store.add_user(&new_user("alice", "correct-horse")).unwrap();
    store
}

fn tamper(token: &str) -> String {
    let mut chars: Vec<char> = token.chars().collect();
    let last = chars.len() - 1;
    chars[last] = if chars[last] == 'a' { 'b' } else { 'a' };
    chars.into_iter().collect()
}

#[test]
fn register_login_validate_scenario() {
    let mut store = store_with_alice();
    let token = store.login("alice", "correct-horse", false, T0).unwrap();
    let who = store.validate(&token, T0).unwrap();
    assert_eq!(who.handle, "alice");
    assert_eq!(who.nickname, "alice nick");
    assert_eq!(who.role, RoleTypeEnum::user);
    assert!(who.circles.is_empty());
    assert_eq!(store.login("alice", "wrong", false, T0), Err(AuthError::AuthenticationFailed));
}

#[test]
fn unknown_handle_fails_like_wrong_password() {
    let mut store = store_with_alice();
    assert_eq!(store.login("bob", "correct-horse", false, T0), Err(AuthError::AuthenticationFailed));
    assert!(store.tokens.is_empty());
}

#[test]
fn issued_token_has_selector_and_validator() {
    let mut store = store_with_alice();
    let token = store.login("alice", "correct-horse", true, T0).unwrap();
    let parts: Vec<&str> = token.split(':').collect();
    assert_eq!(parts.len(), 2);
    assert_eq!(parts[0].len(), 12);
    assert_eq!(parts[1].len(), 48);
    assert_eq!(store.tokens.len(), 1);
    assert_eq!(store.tokens[0].selector, parts[0]);
    assert_ne!(store.tokens[0].hashed_validator, parts[1]);
    assert_eq!(store.tokens[0].expires, None);
}

#[test]
fn tampered_validator_is_invalid() {
    let mut store = store_with_alice();
    let token = store.login("alice", "correct-horse", false, T0).unwrap();
    assert_eq!(store.validate(&tamper(&token), T0).err(), Some(AuthError::TokenInvalid));
}

#[test]
fn malformed_and_unknown_tokens() {
    let store = store_with_alice();
    assert_eq!(store.validate("no-separator", T0).err(), Some(AuthError::TokenMalformed));
    assert_eq!(store.validate("a:b:c", T0).err(), Some(AuthError::TokenMalformed));
    assert_eq!(store.validate("unknownselec:validator", T0).err(), Some(AuthError::TokenInvalid));
}

#[test]
fn session_expires_after_three_hours() {
    let mut store = store_with_alice();
    let token = store.login("alice", "correct-horse", false, T0).unwrap();
    assert_eq!(store.tokens[0].expires, Some(T0 + 10800));
    assert!(store.validate(&token, T0 + SESSION_TTL_SECS).is_ok());
    assert_eq!(store.validate(&token, T0 + SESSION_TTL_SECS + 1).err(), Some(AuthError::TokenInvalid));
}

#[test]
fn persistent_session_never_expires() {
    let mut store = store_with_alice();
    let token = store.login("alice", "correct-horse", true, T0).unwrap();
    assert!(store.validate(&token, T0 + 100 * SESSION_TTL_SECS).is_ok());
    assert!(store.validate(&token, u64::MAX).is_ok());
}

#[test]
fn revoke_all_invalidates_every_session() {
    let mut store = store_with_alice();
    store.add_user(&new_user("bob", "battery-staple")).unwrap();
    let a1 = store.login("alice", "correct-horse", false, T0).unwrap();
    let a2 = store.login("alice", "correct-horse", true, T0).unwrap();
    let b1 = store.login("bob", "battery-staple", true, T0).unwrap();
    let alice = store.validate(&a1, T0).unwrap();
    store.revoke_all(alice.id);
    assert_eq!(store.validate(&a1, T0).err(), Some(AuthError::TokenInvalid));
    assert_eq!(store.validate(&a2, T0).err(), Some(AuthError::TokenInvalid));
    assert_eq!(store.validate(&b1, T0).unwrap().handle, "bob");
}

#[test]
fn logout_ends_sessions() {
    let mut store = store_with_alice();
    let token = store.login("alice", "correct-horse", false, T0).unwrap();
    let who = store.validate(&token, T0).unwrap();
    store.logout(&who);
    assert_eq!(store.validate(&token, T0).err(), Some(AuthError::TokenInvalid));
}

#[test]
fn registration_errors() {
    let mut store = store_with_alice();
    assert_eq!(store.add_user(&new_user("", "correct-horse")).err(), Some(AuthError::HandleTooShort));
    assert_eq!(store.add_user(&new_user("carol", "short")).err(), Some(AuthError::PasswordTooShort));
    let mut nu = new_user("carol", "correct-horse");
    nu.nickname = String::new();
    assert_eq!(store.add_user(&nu).err(), Some(AuthError::NicknameTooShort));
    assert_eq!(store.add_user(&new_user("alice", "other-password")).err(), Some(AuthError::HandleExists));
    assert!(store.check_handle("alice"));
    assert!(!store.check_handle("carol"));
    assert_eq!(store.users.len(), 1);
}

#[test]
fn registration_stores_a_hash_and_user_role() {
    let mut store = AuthStore::new();
    let user = store.add_user(&new_user("dave", "correct-horse")).unwrap();
    assert_eq!(user.handle, "dave");
    assert_eq!(user.role, RoleTypeEnum::user);
    assert_eq!(user.twitter_id, None);
    assert_ne!(store.users[0].password, "correct-horse");
    assert_eq!(store.users[0].id, 1);
}

#[test]
fn password_change_revokes_sessions() {
    let mut store = store_with_alice();
    let token = store.login("alice", "correct-horse", false, T0).unwrap();
    let id = store.validate(&token, T0).unwrap().id;
    let update = UpdateUser {
        nickname: Some("Alice".to_string()),
        email: None,
        password: "correct-horse".to_string(),
        new_password: Some("battery-staple".to_string()),
    };
    let user = store.patch_me(id, &update).unwrap();
    assert_eq!(user.nickname, "Alice");
    assert_eq!(store.validate(&token, T0).err(), Some(AuthError::TokenInvalid));
    assert_eq!(store.login("alice", "correct-horse", false, T0), Err(AuthError::AuthenticationFailed));
    assert!(store.login("alice", "battery-staple", false, T0).is_ok());
}

#[test]
fn profile_change_needs_current_password() {
    let mut store = store_with_alice();
    let id = store.users[0].id;
    let update = UpdateUser { nickname: Some("x".to_string()), email: None, password: "wrong".to_string(), new_password: None };
    assert_eq!(store.patch_me(id, &update).err(), Some(AuthError::AuthenticationFailed));
    let update = UpdateUser { nickname: Some(String::new()), email: None, password: "correct-horse".to_string(), new_password: None };
    assert_eq!(store.patch_me(id, &update).err(), Some(AuthError::NicknameTooShort));
    let update = UpdateUser { nickname: None, email: None, password: "correct-horse".to_string(), new_password: Some("short".to_string()) };
    assert_eq!(store.patch_me(id, &update).err(), Some(AuthError::PasswordTooShort));
    assert_eq!(store.users[0].nickname, "alice nick");
}

#[test]
fn profile_change_without_new_password_keeps_sessions() {
    let mut store = store_with_alice();
    let token = store.login("alice", "correct-horse", false, T0).unwrap();
    let id = store.users[0].id;
    let update = UpdateUser { nickname: None, email: Some("a@b.c".to_string()), password: "correct-horse".to_string(), new_password: None };
    store.patch_me(id, &update).unwrap();
    assert_eq!(store.validate(&token, T0).unwrap().email, "a@b.c");
}

#[test]
fn deleting_an_account_cascades() {
    let mut store = store_with_alice();
    let token = store.login("alice", "correct-horse", false, T0).unwrap();
    let id = store.users[0].id;
    store.user_circles.push(UserCircle { user_id: id, circle_id: 42 });
    assert_eq!(store.delete_me(id), Ok(()));
    assert!(store.users.is_empty());
    assert!(store.tokens.is_empty());
    assert!(store.user_circles.is_empty());
    assert_eq!(store.validate(&token, T0).err(), Some(AuthError::TokenInvalid));
    assert_eq!(store.delete_me(id), Err(AuthError::NotFound));
}

#[test]
fn issue_session_refuses_a_taken_selector() {
    let mut store = store_with_alice();
    let id = store.users[0].id;
    let token = store.issue_session(id, "selector0001".to_string(), "secret", false, T0).unwrap();
    assert_eq!(token, "selector0001:secret");
    assert_eq!(store.tokens[0].hashed_validator, "2bb80d537b1da3e38bd30361aa855686bde0eacd7162fef6a25fe97bf527a25b");
    assert_eq!(store.issue_session(id, "selector0001".to_string(), "other", false, T0), Err(AuthError::StoreConflict));
    assert_eq!(store.validate(&token, T0).unwrap().handle, "alice");
    assert_eq!(store.issue_session(id, "sel:ector".to_string(), "v", false, T0), Err(AuthError::TokenMalformed));
    assert_eq!(store.issue_session(id, "selector0002".to_string(), "v:w", false, T0), Err(AuthError::TokenMalformed));
    assert_eq!(store.tokens.len(), 1);
}

#[test]
fn owned_circles_are_resolved() {
    let mut store = store_with_alice();
    let id = store.users[0].id;
    store.user_circles.push(UserCircle { user_id: id, circle_id: 42 });
    store.user_circles.push(UserCircle { user_id: id + 1, circle_id: 7 });
    let token = store.login("alice", "correct-horse", false, T0).unwrap();
    let who = store.validate(&token, T0).unwrap();
    assert_eq!(who.circles, vec![42]);
    assert!(who.check_permission(42).is_ok());
    assert_eq!(who.check_permission(99), Err(AuthError::NotAuthorized));
}

#[test]
fn missing_cookie_is_reported() {
    let mut store = store_with_alice();
    assert_eq!(store.authenticate(None, T0).err(), Some(AuthError::TokenMissing));
    let token = store.login("alice", "correct-horse", false, T0).unwrap();
    assert_eq!(store.authenticate(Some(&token), T0).unwrap().handle, "alice");
}
