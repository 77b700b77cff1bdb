use delivery_backend::b64::{b64_decode, b64_encode};
use delivery_backend::customer::{
    Address, Appliance, CustomerStatus, DeleteResultResponse, DeliveryCustomer,
    OperationPerformed, PartialDeliveryCustomer, SearchQuery,
};
use delivery_backend::jwt::{
    expiry_timestamp, generate_random_alphanumeric, generate_refresh_token,
    generate_refresh_token_at, tokens_are_equal, AuthBody, AuthBodyWithRefreshToken, AuthError,
    Claims, RefreshToken, ACCESS_TOKEN_LIFETIME_SECS, REFRESH_TOKEN_LIFETIME_SECS,
};
use delivery_backend::user::User;

#[test]
fn b64_known_vectors() {
    assert_eq!(b64_encode(b"hello"), b"aGVsbG8".to_vec());
    assert_eq!(b64_encode(b"h"), b"aA".to_vec());
    assert_eq!(b64_encode(b"he"), b"aGU".to_vec());
    assert_eq!(b64_encode(b"hel"), b"aGVs".to_vec());
    assert_eq!(b64_encode(b""), Vec::<u8>::new());
    assert_eq!(
        b64_encode(&[0xfb, 0xff, 0xfe]),
        b"-__-".to_vec(),
        "the url-safe alphabet is used"
    );
}

#[test]
fn b64_decode_inverts_encode() {
    let cases: Vec<Vec<u8>> = vec![
        Vec::new(),
        vec![0],
        vec![255],
        vec![1, 2],
        vec![1, 2, 3],
        vec![1, 2, 3, 4],
        b"The quick brown fox jumps over the lazy dog".to_vec(),
    ];
    for bytes in cases {
        let encoded = b64_encode(&bytes);
        let decoded = b64_decode(&encoded).expect("canonical text must decode");
        assert_eq!(decoded, bytes);
    }
}

#[test]
fn b64_decode_rejects_bad_text() {
    assert!(b64_decode(b"a").is_none(), "a single leftover character has no decoding");
    assert!(b64_decode(b"!!").is_none(), "characters outside the alphabet are rejected");
    assert!(b64_decode(b"aGVsbG8=").is_none(), "padding is not part of the format");
    assert_eq!(b64_decode(b"").map(|v| v.len()), Some(0));
}

#[test]
fn expiry_computation_saturates() {
    assert_eq!(expiry_timestamp(1_000, 900), 1_900);
    assert_eq!(expiry_timestamp(u64::MAX - 10, 900), u64::MAX);
    assert_eq!(expiry_timestamp(u64::MAX, REFRESH_TOKEN_LIFETIME_SECS), u64::MAX);
}

#[test]
fn auth_error_status_and_message() {
    assert_eq!(AuthError::WrongCredentials.http_status(), 401);
    assert_eq!(AuthError::MissingCredentials.http_status(), 400);
    assert_eq!(AuthError::TokenCreation.http_status(), 500);
    assert_eq!(AuthError::InvalidToken.http_status(), 400);
    assert_eq!(AuthError::WrongCredentials.error_message(), "Wrong credentials");
    assert_eq!(AuthError::MissingCredentials.error_message(), "Missing credentials");
    assert_eq!(AuthError::TokenCreation.error_message(), "Token creation error");
    assert_eq!(AuthError::InvalidToken.error_message(), "Invalid token");
}

#[test]
fn random_alphanumeric_shape() {
    assert_eq!(generate_random_alphanumeric(0).len(), 0);
    let eight = generate_random_alphanumeric(8);
    assert_eq!(eight.len(), 8);
    assert!(eight.chars().all(|c| c.is_ascii_alphanumeric()));
    let long = generate_random_alphanumeric(256);
    assert_eq!(long.len(), 256);
    assert!(long.chars().all(|c| c.is_ascii_alphanumeric()));
}

#[test]
fn refresh_token_factory_shape() {
    let now: u64 = 50_000;
    let token = generate_refresh_token_at(now);
    assert_eq!(token.id.len(), 8);
    assert_eq!(token.token.len(), 32);
    assert!(token.id.chars().all(|c| c.is_ascii_alphanumeric()));
    assert!(token.token.chars().all(|c| c.is_ascii_alphanumeric()));
    assert_eq!(token.exp, now + REFRESH_TOKEN_LIFETIME_SECS);
    let from_clock = generate_refresh_token();
    assert_eq!(from_clock.id.len(), 8);
    assert_eq!(from_clock.token.len(), 32);
}

#[test]
fn claims_and_auth_bodies() {
    let claims = Claims::new(String::from("alice"), 10_000);
    assert_eq!(claims.sub(), "alice");
    assert_eq!(claims.exp(), 10_000 + ACCESS_TOKEN_LIFETIME_SECS);
    let body = AuthBody::new_bearer(String::from("tok"));
    assert_eq!(body.access_token(), "tok");
    assert_eq!(body.token_type(), "Bearer");
    let body2 = AuthBody::new(String::from("tok2"));
    assert_eq!(body2.token_type(), "Bearer");
    let refresh = RefreshToken { id: String::from("i"), token: String::from("t"), exp: 3 };
    let both = AuthBodyWithRefreshToken::new(body, refresh);
    assert_eq!(both.auth_body.access_token, "tok");
    assert_eq!(both.refresh_token.exp, 3);
}

#[test]
fn token_equality_is_field_equality() {
    let a = RefreshToken { id: String::from("i"), token: String::from("t"), exp: 3 };
    assert!(tokens_are_equal(&a, &a.clone()));
    let b = RefreshToken { id: String::from("i"), token: String::from("t"), exp: 4 };
    assert!(!tokens_are_equal(&a, &b));
    let c = RefreshToken { id: String::from("j"), token: String::from("t"), exp: 3 };
    assert!(!tokens_are_equal(&a, &c));
    let d = RefreshToken { id: String::from("i"), token: String::from("u"), exp: 3 };
    assert!(!tokens_are_equal(&a, &d));
}

#[test]
fn customer_status_parsing() {
    assert!(matches!(CustomerStatus::parse("active"), Some(CustomerStatus::Active)));
    assert!(matches!(CustomerStatus::parse("ACTIVE"), Some(CustomerStatus::Active)));
    assert!(matches!(CustomerStatus::parse("Inactive"), Some(CustomerStatus::Inactive)));
    assert!(matches!(CustomerStatus::parse("inACTive"), Some(CustomerStatus::Inactive)));
    assert!(CustomerStatus::parse("activ").is_none());
    assert!(CustomerStatus::parse("").is_none());
    assert_eq!(CustomerStatus::Active.label(), "active");
    assert_eq!(CustomerStatus::Inactive.label(), "inactive");
}

#[test]
fn operation_parsing() {
    assert!(matches!(OperationPerformed::parse("VTP"), Some(OperationPerformed::VTP)));
    assert!(matches!(OperationPerformed::parse("INT"), Some(OperationPerformed::INT)));
    assert!(matches!(OperationPerformed::parse("PIF"), Some(OperationPerformed::PIF)));
    assert!(matches!(OperationPerformed::parse("RGAZ"), Some(OperationPerformed::RGAZ)));
    assert!(matches!(OperationPerformed::parse("VGAZ"), Some(OperationPerformed::VGAZ)));
    assert!(OperationPerformed::parse("vtp").is_none());
    assert!(OperationPerformed::parse("XYZ").is_none());
    assert_eq!(OperationPerformed::RGAZ.label(), "RGAZ");
}

#[test]
fn user_validation_counts_characters() {
    assert!(!User::new(String::from("ab"), String::from("pw")).validate());
    assert!(User::new(String::from("abc"), String::from("pw")).validate());
    assert!(User::new(String::from("日本語"), String::from("pw")).validate());
    assert!(!User::new(String::from("日本"), String::from("pw")).validate());
}

#[test]
fn customer_model_constructors() {
    let address = Address::new(
        String::from("county"),
        String::from("street"),
        String::from("1"),
        String::from("apt 2"),
    );
    assert_eq!(address.county, "county");
    let appliance = Appliance {
        manufacturer: String::from("Acme"),
        year_of_manufacture: String::from("2001"),
        model: String::from("WH-1"),
        typ: String::from("water heater"),
        warranty: String::from("2031-01-01"),
        operation_performed: OperationPerformed::VTP,
        number: String::from("42"),
        date: String::from("2024-01-01"),
        expiration_date: String::from("2025-01-01"),
        observations: None,
    };
    let customer = DeliveryCustomer::new(
        String::from("c-1"),
        String::from("Alice"),
        true,
        address,
        appliance,
    );
    assert_eq!(customer.customer_id, "c-1");
    assert!(customer.active);
    let partial = PartialDeliveryCustomer {
        customer_id: String::from("c-1"),
        name: Some(String::from("Alice")),
        status: Some(CustomerStatus::Active),
        county: None,
        street: None,
        number: None,
        additional: None,
        manufacturer: None,
        year_of_manufacture: None,
        model: None,
        typ: None,
        warranty: None,
        operation_performed: None,
        appliance_number: None,
        date: None,
        expiration_date: None,
        observations: None,
    };
    assert_eq!(partial.customer_id, "c-1");
    let query = SearchQuery { query: String::from("water heater") };
    assert_eq!(query.query, "water heater");
    let deleted = DeleteResultResponse { deleted_count: 1 };
    assert_eq!(deleted.deleted_count, 1);
}

#[test]
fn password_hash_roundtrip() {
    let hash = delivery_backend::password::gen_password_hash("hunter2")
        .expect("hashing must succeed");
    assert_eq!(
        delivery_backend::password::verify_password("hunter2", &hash),
        Ok(true)
    );
    assert_eq!(
        delivery_backend::password::verify_password("hunter3", &hash),
        Ok(false)
    );
    assert!(delivery_backend::password::verify_password("hunter2", "garbage").is_err());
}
