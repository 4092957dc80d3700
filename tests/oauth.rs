use neon_auth::accounts::NewUser;
use neon_auth::crypto::code_challenge;
use neon_auth::error_handler::AuthError;
use neon_auth::oauth::{LINK_TTL_SECS, authorize_url, callback_uri, escape_base_url, matches_profile, DeclaredAccount, OAuthConfig};
use neon_auth::session::{AuthStore, UserCircle};

const T0: u64 = 1_700_000_000;

fn config() -> OAuthConfig {
    OAuthConfig {
        client_id: "client".to_string(),
        client_secret: "SECRET".to_string(),
        base_url: "https://example.org".to_string(),
    }
}

fn store_with_alice() -> AuthStore {
    let mut store = AuthStore::new();
    store
        .add_user(&NewUser {
            handle: "alice".to_string(),
            nickname: "Alice".to_string(),
            password: "correct-horse".to_string(),
            email: "alice@example.org".to_string(),
        })
        .unwrap();
    store
}

fn declared(circle_id: i32, url: &str) -> DeclaredAccount {
    DeclaredAccount { circle_id, account_url: Some(url.to_string()) }
}

#[test]
fn base_url_is_escaped() {
    assert_eq!(escape_base_url("https://a.b/c"), "https%3A%2F%2Fa.b%2Fc");
    assert_eq!(escape_base_url(""), "");
}

#[test]
fn authorize_url_carries_state_and_challenge() {
    let url = authorize_url(&config(), "st", "ch");
    assert_eq!(
        url,
        "https://twitter.com/i/oauth2/authorize?response_type=code&client_id=client&redirect_uri=https%3A%2F%2Fexample.org%2Fapi%2Foauth%2Ftwitter&scope=tweet.read%20users.read&state=st&code_challenge=ch&code_challenge_method=S256"
    );
    assert_eq!(callback_uri(&config()), "https://example.org/api/oauth/twitter");
}

#[test]
fn profile_url_forms() {
    assert!(matches_profile("https://twitter.com/neon", "neon"));
    assert!(matches_profile("https://twitter.com/neon/", "neon"));
    assert!(matches_profile("https://x.com/neon", "neon"));
    assert!(matches_profile("https://x.com/neon/", "neon"));
    assert!(!matches_profile("https://x.com/Neon", "neon"));
    assert!(!matches_profile("http://x.com/neon", "neon"));
    assert!(!matches_profile("https://x.com/neonx", "neon"));
}

#[test]
fn initiate_stores_one_attempt() {
    let mut store = store_with_alice();
    let token = store.login("alice", "correct-horse", false, T0).unwrap();
    let who = store.validate(&token, T0).unwrap();
    let url1 = store.new_twitter_oauth(&config(), &who, T0).unwrap();
    let url2 = store.new_twitter_oauth(&config(), &who, T0).unwrap();
    assert_ne!(url1, url2);
    let state = store.users[0].oauth_state.clone().unwrap();
    let verifier = store.users[0].code_verifier.clone().unwrap();
    assert_eq!(state.len(), 16);
    assert_eq!(verifier.len(), 128);
    assert!(state.chars().chain(verifier.chars()).all(|c| c.is_ascii_alphanumeric()));
    assert_eq!(store.users[0].oauth_expires, Some(T0 + LINK_TTL_SECS));
    assert_eq!(url2, authorize_url(&config(), &state, &code_challenge(&verifier)));
}

#[test]
fn state_is_single_use() {
    let mut store = store_with_alice();
    let id = store.users[0].id;
    store.record_link_attempt(id, "state123".to_string(), "verifier".to_string(), T0).unwrap();
    let attempt = store.take_link_attempt("state123", T0).unwrap();
    assert_eq!(attempt.user_id, id);
    assert_eq!(attempt.code_verifier, "verifier");
    assert_eq!(store.take_link_attempt("state123", T0).err(), Some(AuthError::InvalidRequest));
    assert_eq!(store.users[0].oauth_state, None);
}

#[test]
fn forged_state_is_invalid() {
    let mut store = store_with_alice();
    let id = store.users[0].id;
    store.record_link_attempt(id, "state123".to_string(), "verifier".to_string(), T0).unwrap();
    assert_eq!(store.take_link_attempt("forged", T0).err(), Some(AuthError::InvalidRequest));
    assert!(store.take_link_attempt("state123", T0).is_ok());
}

#[test]
fn linking_creates_edges_once() {
    let mut store = store_with_alice();
    let id = store.users[0].id;
    let accounts = vec![
        declared(10, "https://twitter.com/neon"),
        declared(11, "https://x.com/neon/"),
        declared(12, "https://x.com/other"),
        DeclaredAccount { circle_id: 13, account_url: None },
        declared(10, "https://x.com/neon"),
    ];
    assert_eq!(store.complete_link(id, Some("neon".to_string()), &accounts), Ok(()));
    assert_eq!(store.user_circles, vec![UserCircle { user_id: id, circle_id: 10 }, UserCircle { user_id: id, circle_id: 11 }]);
    assert_eq!(store.users[0].twitter_id.as_deref(), Some("neon"));
    assert_eq!(store.complete_link(id, Some("neon".to_string()), &accounts), Ok(()));
    assert_eq!(store.user_circles.len(), 2);
}

#[test]
fn linking_without_match_still_succeeds() {
    let mut store = store_with_alice();
    let id = store.users[0].id;
    assert_eq!(store.complete_link(id, Some("nobody".to_string()), &vec![declared(1, "https://x.com/neon")]), Ok(()));
    assert!(store.user_circles.is_empty());
    assert_eq!(store.users[0].twitter_id.as_deref(), Some("nobody"));
}

#[test]
fn provider_failure_changes_nothing() {
    let mut store = store_with_alice();
    let id = store.users[0].id;
    assert_eq!(store.complete_link(id, None, &vec![declared(1, "https://x.com/neon")]), Err(AuthError::ProviderUnavailable));
    assert_eq!(store.users[0].twitter_id, None);
    assert_eq!(store.complete_link(id + 5, Some("neon".to_string()), &vec![]), Err(AuthError::NotFound));
}

#[test]
fn lapsed_attempt_is_invalid_and_cleared() {
    let mut store = store_with_alice();
    let id = store.users[0].id;
    store.record_link_attempt(id, "state123".to_string(), "verifier".to_string(), T0).unwrap();
    assert_eq!(store.take_link_attempt("state123", T0 + LINK_TTL_SECS + 1).err(), Some(AuthError::InvalidRequest));
    assert_eq!(store.users[0].oauth_state, None);
    store.record_link_attempt(id, "state456".to_string(), "verifier".to_string(), T0).unwrap();
    assert!(store.take_link_attempt("state456", T0 + LINK_TTL_SECS).is_ok());
}
