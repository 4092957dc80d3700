use neon_auth::error_handler::AuthError;
use neon_auth::models::{AuthenticatedUser, RoleTypeEnum};

fn identity(role: RoleTypeEnum, circles: Vec<i32>) -> AuthenticatedUser {
    AuthenticatedUser {
        id: 1,
        handle: "alice".to_string(),
        nickname: "Alice".to_string(),
        twitter_id: None,
        email: "alice@example.org".to_string(),
        role,
        circles,
    }
}

#[test]
fn owner_of_circle_42_scenario() {
    let who = identity(RoleTypeEnum::user, vec![42]);
    assert_eq!(who.check_permission(42), Ok(()));
    assert_eq!(who.check_permission(99), Err(AuthError::NotAuthorized));
}

#[test]
fn user_needs_ownership() {
    let who = identity(RoleTypeEnum::user, vec![1, 2, 3]);
    assert!(who.check_permission(3).is_ok());
    assert_eq!(who.check_permission(4), Err(AuthError::NotAuthorized));
    let nobody = identity(RoleTypeEnum::user, vec![]);
    assert_eq!(nobody.check_permission(1), Err(AuthError::NotAuthorized));
}

#[test]
fn admin_and_moderator_may_do_everything() {
    for role in [RoleTypeEnum::admin, RoleTypeEnum::moderator] {
        let who = identity(role, vec![]);
        assert!(who.check_permission(99).is_ok());
        assert!(who.check_moderator().is_ok());
        assert!(who.check_artist().is_ok());
    }
}

#[test]
fn moderation_refuses_users() {
    let who = identity(RoleTypeEnum::user, vec![42]);
    assert_eq!(who.check_moderator(), Err(AuthError::NotAuthorized));
}

#[test]
fn artist_gate_needs_one_circle() {
    assert!(identity(RoleTypeEnum::user, vec![5]).check_artist().is_ok());
    assert_eq!(identity(RoleTypeEnum::user, vec![]).check_artist(), Err(AuthError::NotAuthorized));
}
