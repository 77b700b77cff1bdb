use delivery_backend::b64::b64_encode;
use delivery_backend::jwt::{AuthError, ACCESS_TOKEN_LIFETIME_SECS};
use delivery_backend::keys::{KeyError, Keys};
use delivery_backend::token::{generate_token, verify_and_decode_token};
use p256::pkcs8::{EncodePrivateKey, EncodePublicKey, LineEnding};

/// A deterministic P-256 key pair for this test run, rendered as PEM:
/// the secret scalar is built from plain bytes, so no key material has
/// to stand in the source text.
fn codec_key_pair(seed: u8) -> (String, String) {
    let secret = p256::SecretKey::from_slice(&[seed; 32]).expect("scalar must be valid");
    let private_pem = secret
        .to_pkcs8_pem(LineEnding::LF)
        .expect("private key must render")
        .to_string();
    let public_pem = secret
        .public_key()
        .to_public_key_pem(LineEnding::LF)
        .expect("public key must render");
    (private_pem, public_pem)
}

fn codec_test_keys() -> Keys {
    let (private_pem, public_pem) = codec_key_pair(1);
    Keys::from_ec_keys(private_pem.as_bytes(), public_pem.as_bytes())
        .expect("test key pair must load")
}

/// The two base64url segments every crafted message in this file starts
/// from: the ES256 header and a payload that only carries a subject.
fn codec_sub_only_message() -> String {
    let header = String::from_utf8(b64_encode(b"{\"alg\":\"ES256\",\"typ\":\"JWT\"}"))
        .expect("base64url text is ASCII");
    let payload = String::from_utf8(b64_encode(b"{\"sub\":\"x\"}"))
        .expect("base64url text is ASCII");
    format!("{}.{}", header, payload)
}

#[test]
fn issued_token_verifies_roundtrip() {
    let keys = codec_test_keys();
    let now: u64 = 1_000_000;
    let token = generate_token(&keys, "alice", now).expect("signing must succeed");
    let claims = verify_and_decode_token(&keys, &token, now + 10).expect("token must verify");
    assert_eq!(claims.sub(), "alice");
    assert_eq!(claims.exp(), now + ACCESS_TOKEN_LIFETIME_SECS);
}

#[test]
fn token_rejected_after_expiry() {
    let keys = codec_test_keys();
    let now: u64 = 1_000_000;
    let token = generate_token(&keys, "alice", now).expect("signing must succeed");
    let last_valid = now + ACCESS_TOKEN_LIFETIME_SECS - 1;
    assert!(verify_and_decode_token(&keys, &token, last_valid).is_ok());
    let at_expiry = verify_and_decode_token(&keys, &token, now + ACCESS_TOKEN_LIFETIME_SECS);
    assert!(matches!(at_expiry, Err(AuthError::InvalidToken)));
    let after = verify_and_decode_token(&keys, &token, now + ACCESS_TOKEN_LIFETIME_SECS + 5000);
    assert!(matches!(after, Err(AuthError::InvalidToken)));
}

#[test]
fn tampered_token_rejected() {
    let keys = codec_test_keys();
    let now: u64 = 1_000_000;
    let token = generate_token(&keys, "alice", now).expect("signing must succeed");
    let payload_start = token.find('.').unwrap() + 1;
    let target = payload_start + 3;
    let mut tampered = String::new();
    for (i, c) in token.chars().enumerate() {
        if i == target {
            tampered.push(if c == 'A' { 'B' } else { 'A' });
        } else {
            tampered.push(c);
        }
    }
    assert_ne!(token, tampered);
    let outcome = verify_and_decode_token(&keys, &tampered, now + 10);
    assert!(matches!(outcome, Err(AuthError::InvalidToken)));
}

#[test]
fn malformed_tokens_rejected() {
    let keys = codec_test_keys();
    for bad in ["", "garbage", "a.b", "a.b.c.d", "..", "x..y"] {
        let outcome = verify_and_decode_token(&keys, bad, 0);
        assert!(matches!(outcome, Err(AuthError::InvalidToken)));
    }
}

#[test]
fn wrong_key_rejected() {
    let keys = codec_test_keys();
    let (other_private, other_public) = codec_key_pair(2);
    let other = Keys::from_ec_keys(other_private.as_bytes(), other_public.as_bytes())
        .expect("second test key pair must load");
    let now: u64 = 1_000_000;
    let token = generate_token(&keys, "alice", now).expect("signing must succeed");
    let outcome = verify_and_decode_token(&other, &token, now + 10);
    assert!(matches!(outcome, Err(AuthError::InvalidToken)));
}

#[test]
fn missing_exp_claim_maps_to_missing_credentials() {
    let keys = codec_test_keys();
    let (private_pem, _) = codec_key_pair(1);
    let encoding = jsonwebtoken::EncodingKey::from_ec_pem(private_pem.as_bytes())
        .expect("private key must load");
    let message = codec_sub_only_message();
    let sig = jsonwebtoken::crypto::sign(
        message.as_bytes(),
        &encoding,
        jsonwebtoken::Algorithm::ES256,
    )
    .expect("signing must succeed");
    let token = format!("{}.{}", message, sig);
    let outcome = verify_and_decode_token(&keys, &token, 0);
    assert!(matches!(outcome, Err(AuthError::MissingCredentials)));
}

#[test]
fn unsigned_missing_claim_still_invalid() {
    let keys = codec_test_keys();
    // same claim-missing payload, but with a signature no key accepts
    let token = format!("{}.AAAA", codec_sub_only_message());
    let outcome = verify_and_decode_token(&keys, &token, 0);
    assert!(matches!(outcome, Err(AuthError::InvalidToken)));
}

#[test]
fn library_token_accepted_by_jsonwebtoken() {
    let keys = codec_test_keys();
    let now = chrono::Utc::now().timestamp() as u64;
    let token = generate_token(&keys, "alice", now).expect("signing must succeed");
    let (_, public_pem) = codec_key_pair(1);
    let decoding = jsonwebtoken::DecodingKey::from_ec_pem(public_pem.as_bytes())
        .expect("public key must load");
    let validation = jsonwebtoken::Validation::new(jsonwebtoken::Algorithm::ES256);
    let data =
        jsonwebtoken::decode::<serde_json::Value>(&token, &decoding, &validation)
            .expect("jsonwebtoken must accept the token");
    assert_eq!(data.claims.get("sub").and_then(|v| v.as_str()), Some("alice"));
    assert_eq!(
        data.claims.get("exp").and_then(|v| v.as_u64()),
        Some(now + ACCESS_TOKEN_LIFETIME_SECS)
    );
}

#[test]
fn escaped_subject_roundtrip() {
    let keys = codec_test_keys();
    let now: u64 = 1_000_000;
    let sub = "al\"ice\\with\nodd chars";
    let token = generate_token(&keys, sub, now).expect("signing must succeed");
    let claims = verify_and_decode_token(&keys, &token, now + 1).expect("token must verify");
    assert_eq!(claims.sub(), sub);
    let (_, public_pem) = codec_key_pair(1);
    let decoding = jsonwebtoken::DecodingKey::from_ec_pem(public_pem.as_bytes())
        .expect("public key must load");
    let mut validation = jsonwebtoken::Validation::new(jsonwebtoken::Algorithm::ES256);
    validation.validate_exp = false;
    let data = jsonwebtoken::decode::<serde_json::Value>(&token, &decoding, &validation)
        .expect("jsonwebtoken must accept the token");
    assert_eq!(data.claims.get("sub").and_then(|v| v.as_str()), Some(sub));
}

#[test]
fn unicode_subject_roundtrip() {
    let keys = codec_test_keys();
    let now: u64 = 1_000_000;
    let sub = "ユーザーüñî";
    let token = generate_token(&keys, sub, now).expect("signing must succeed");
    let claims = verify_and_decode_token(&keys, &token, now + 1).expect("token must verify");
    assert_eq!(claims.sub(), sub);
}

#[test]
fn invalid_pem_refused() {
    let (private_pem, public_pem) = codec_key_pair(1);
    let bad = Keys::from_ec_keys(b"not a key", public_pem.as_bytes());
    assert!(matches!(bad, Err(KeyError::InvalidPrivateKey)));
    let bad2 = Keys::from_ec_keys(private_pem.as_bytes(), b"not a key");
    assert!(matches!(bad2, Err(KeyError::InvalidPublicKey)));
    assert!(Keys::from_ec_keys(private_pem.as_bytes(), public_pem.as_bytes()).is_ok());
}
