use delivery_backend::auth::{login, logout, refresh};
use delivery_backend::jwt::{
    AuthError, RefreshToken, ACCESS_TOKEN_LIFETIME_SECS, REFRESH_TOKEN_LIFETIME_SECS,
};
use delivery_backend::keys::Keys;
use delivery_backend::password::gen_password_hash;
use delivery_backend::store::setup_store;
use delivery_backend::token::verify_and_decode_token;
use p256::pkcs8::{EncodePrivateKey, EncodePublicKey, LineEnding};

/// A deterministic P-256 key pair rendered as PEM at test runtime, so
/// that no key material stands in the source text.
fn auth_test_keys() -> Keys {
    let secret = p256::SecretKey::from_slice(&[3; 32]).expect("scalar must be valid");
    let private_pem = secret
        .to_pkcs8_pem(LineEnding::LF)
        .expect("private key must render")
        .to_string();
    let public_pem = secret
        .public_key()
        .to_public_key_pem(LineEnding::LF)
        .expect("public key must render");
    Keys::from_ec_keys(private_pem.as_bytes(), public_pem.as_bytes())
        .expect("test key pair must load")
}

#[test]
fn login_success_issues_both_tokens() {
    let keys = auth_test_keys();
    let mut store = setup_store();
    let hash = gen_password_hash("correctpw").expect("hashing must succeed");
    let now: u64 = 1_700_000_000;
    let out = login(&mut store, &keys, "alice", "correctpw", Some(&hash), now)
        .expect("login must succeed");
    assert_eq!(out.auth_body.token_type, "Bearer");
    let claims = verify_and_decode_token(&keys, &out.auth_body.access_token, now + 1)
        .expect("access token must verify");
    assert_eq!(claims.sub(), "alice");
    assert_eq!(claims.exp(), now + ACCESS_TOKEN_LIFETIME_SECS);
    assert_eq!(out.refresh_token.id.len(), 8);
    assert_eq!(out.refresh_token.token.len(), 32);
    assert!(out.refresh_token.id.chars().all(|c| c.is_ascii_alphanumeric()));
    assert!(out.refresh_token.token.chars().all(|c| c.is_ascii_alphanumeric()));
    assert_eq!(out.refresh_token.exp, now + REFRESH_TOKEN_LIFETIME_SECS);
    let stored = store.get(&out.refresh_token.id).expect("refresh token must be filed");
    assert_eq!(stored.token, out.refresh_token.token);
    assert_eq!(stored.exp, out.refresh_token.exp);
}

#[test]
fn login_wrong_password_rejected() {
    let keys = auth_test_keys();
    let mut store = setup_store();
    let hash = gen_password_hash("correctpw").expect("hashing must succeed");
    let out = login(&mut store, &keys, "alice", "wrongpw", Some(&hash), 1_000);
    assert!(matches!(out, Err(AuthError::WrongCredentials)));
}

#[test]
fn login_unknown_user_rejected() {
    let keys = auth_test_keys();
    let mut store = setup_store();
    let out = login(&mut store, &keys, "nobody", "whatever", None, 1_000);
    assert!(matches!(out, Err(AuthError::WrongCredentials)));
}

#[test]
fn login_bad_stored_hash_rejected() {
    let keys = auth_test_keys();
    let mut store = setup_store();
    let bad_hash = String::from("not-a-phc-hash");
    let out = login(&mut store, &keys, "alice", "correctpw", Some(&bad_hash), 1_000);
    assert!(matches!(out, Err(AuthError::WrongCredentials)));
}

#[test]
fn refresh_unknown_id_is_wrong_credentials() {
    let keys = auth_test_keys();
    let store = setup_store();
    let presented = RefreshToken {
        id: String::from("unknown1"),
        token: String::from("whatever"),
        exp: 10_000,
    };
    let out = refresh(&store, &keys, &presented, 1_000);
    assert!(matches!(out, Err(AuthError::WrongCredentials)));
}

#[test]
fn refresh_mismatched_token_is_invalid() {
    let keys = auth_test_keys();
    let mut store = setup_store();
    let stored = RefreshToken {
        id: String::from("abc12345"),
        token: String::from("the-real-secret"),
        exp: 10_000,
    };
    store.insert(stored.id.clone(), stored.clone());
    let presented = RefreshToken {
        id: String::from("abc12345"),
        token: String::from("a-forged-secret"),
        exp: 10_000,
    };
    let out = refresh(&store, &keys, &presented, 1_000);
    assert!(matches!(out, Err(AuthError::InvalidToken)));
}

#[test]
fn refresh_expired_token_is_rejected() {
    let keys = auth_test_keys();
    let mut store = setup_store();
    let stored = RefreshToken {
        id: String::from("abc12345"),
        token: String::from("the-real-secret"),
        exp: 999,
    };
    store.insert(stored.id.clone(), stored.clone());
    let out = refresh(&store, &keys, &stored, 999);
    assert!(matches!(out, Err(AuthError::InvalidToken)));
    let out_later = refresh(&store, &keys, &stored, 5_000);
    assert!(matches!(out_later, Err(AuthError::InvalidToken)));
}

#[test]
fn refresh_valid_token_issues_access_token() {
    let keys = auth_test_keys();
    let mut store = setup_store();
    let stored = RefreshToken {
        id: String::from("abc12345"),
        token: String::from("the-real-secret"),
        exp: 10_000,
    };
    store.insert(stored.id.clone(), stored.clone());
    let now: u64 = 1_000;
    let body = refresh(&store, &keys, &stored, now).expect("refresh must succeed");
    assert_eq!(body.token_type, "Bearer");
    let claims = verify_and_decode_token(&keys, &body.access_token, now + 1)
        .expect("new access token must verify");
    assert_eq!(claims.sub(), "abc12345");
    assert_eq!(claims.exp(), now + ACCESS_TOKEN_LIFETIME_SECS);
}

#[test]
fn logout_removes_the_session() {
    let keys = auth_test_keys();
    let mut store = setup_store();
    let hash = gen_password_hash("correctpw").expect("hashing must succeed");
    let now: u64 = 1_700_000_000;
    let out = login(&mut store, &keys, "alice", "correctpw", Some(&hash), now)
        .expect("login must succeed");
    let removed = logout(&mut store, &out.refresh_token.id).expect("session must be removed");
    assert_eq!(removed.token, out.refresh_token.token);
    let after = refresh(&store, &keys, &out.refresh_token, now + 1);
    assert!(matches!(after, Err(AuthError::WrongCredentials)));
}

#[test]
fn end_to_end_login_refresh_and_expiry() {
    let keys = auth_test_keys();
    let mut store = setup_store();
    let hash = gen_password_hash("correctpw").expect("hashing must succeed");
    let now: u64 = 1_700_000_000;
    let out = login(&mut store, &keys, "alice", "correctpw", Some(&hash), now)
        .expect("login must succeed");
    assert!(!out.auth_body.access_token.is_empty());
    assert_eq!(out.refresh_token.exp, now + REFRESH_TOKEN_LIFETIME_SECS);

    let body = refresh(&store, &keys, &out.refresh_token, now + 5)
        .expect("immediate refresh must succeed");
    let claims = verify_and_decode_token(&keys, &body.access_token, now + 6)
        .expect("refreshed access token must verify");
    assert_eq!(claims.sub(), out.refresh_token.id);

    let at_expiry = refresh(&store, &keys, &out.refresh_token, out.refresh_token.exp);
    assert!(matches!(at_expiry, Err(AuthError::InvalidToken)));
}
