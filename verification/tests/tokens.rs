use libws::json::JsonField;
use libws::jwt_api_route::{
    answer_token_request, create_jwt_state, expiration_from, issue_token, secret_key_from,
    ApiResponse, AuthRequest, JwtState, DEFAULT_EXPIRATION, DEFAULT_SECRET,
};
use libws::jwt_utils::{create_token, extract_token, validate_token, Claims, TokenError};
use libws::session::ConnectionState;
use libws::text::parse_u64;
use libws::{accept, accepted_claims, authenticate, verification_secret, WebSocketParams};

const SECRET: &[u8] = b"0123456789abcdef0123456789abcdef";

fn now() -> u64 {
    std::time::SystemTime::now().duration_since(std::time::UNIX_EPOCH).unwrap().as_secs()
}

fn token_of(claims: serde_json::Value, secret: &[u8]) -> String {
    jsonwebtoken::encode(
        &jsonwebtoken::Header::default(),
        &claims,
        &jsonwebtoken::EncodingKey::from_secret(secret),
    )
    .unwrap()
}

fn object(members: Vec<(&str, serde_json::Value)>) -> serde_json::Value {
    let mut map = serde_json::Map::new();
    for (name, value) in members {
        map.insert(name.to_string(), value);
    }
    serde_json::Value::Object(map)
}

#[test]
fn extract_token_takes_what_follows_the_scheme() {
    assert_eq!(extract_token("Bearer abc.def.ghi"), Some("abc.def.ghi"));
    assert_eq!(extract_token("Bearer "), Some(""));
    assert_eq!(extract_token("Bearer  two"), Some(" two"));
    assert_eq!(extract_token("Bearer tökén"), Some("tökén"));
}

#[test]
fn extract_token_wants_the_exact_scheme() {
    assert_eq!(extract_token("bearer abc"), None);
    assert_eq!(extract_token("Bearer"), None);
    assert_eq!(extract_token("Basic abc"), None);
    assert_eq!(extract_token(" Bearer abc"), None);
    assert_eq!(extract_token(""), None);
}

#[test]
fn created_token_validates_to_its_claims() {
    let issued = now();
    let token = create_token("alice", Some("s1"), SECRET, 3600, issued).unwrap();
    let claims = validate_token(&token, SECRET).unwrap();
    assert_eq!(
        claims,
        Claims {
            sub: "alice".to_string(),
            sid: Some("s1".to_string()),
            iat: issued,
            exp: issued + 3600
        }
    );
}

#[test]
fn created_token_without_session_has_no_sid() {
    let issued = now();
    let token = create_token("bob", None, SECRET, 60, issued).unwrap();
    let claims = validate_token(&token, SECRET).unwrap();
    assert_eq!(claims.sub, "bob");
    assert_eq!(claims.sid, None);
    assert_eq!(claims.exp, issued + 60);
    let payload = token.split('.').nth(1).unwrap();
    assert_eq!(token.split('.').count(), 3);
    assert!(!payload.is_empty());
}

#[test]
fn created_token_is_the_signed_object_of_the_claims() {
    let token = create_token("alice", Some("s1"), SECRET, 10, 1000).unwrap();
    let expected = token_of(
        object(vec![
            ("sub", serde_json::Value::from("alice")),
            ("sid", serde_json::Value::from("s1")),
            ("iat", serde_json::Value::from(1000u64)),
            ("exp", serde_json::Value::from(1010u64)),
        ]),
        SECRET,
    );
    assert_eq!(token, expected);
    assert_eq!(Claims::issue("alice", Some("s1"), 1000, 10).unwrap().sign(SECRET), Ok(expected));
}

#[test]
fn expiry_out_of_range_is_an_error() {
    assert_eq!(
        create_token("alice", None, SECRET, 1, u64::MAX),
        Err(TokenError::ExpiryOutOfRange)
    );
    assert_eq!(Claims::issue("alice", None, u64::MAX, 1), None);
    assert_eq!(Claims::issue("alice", None, u64::MAX - 1, 1).unwrap().exp, u64::MAX);
}

#[test]
fn expired_token_is_rejected() {
    let token = create_token("alice", None, SECRET, 10, 1000).unwrap();
    assert_eq!(validate_token(&token, SECRET), Err(TokenError::Rejected));
}

#[test]
fn token_under_another_secret_is_rejected() {
    let token = create_token("alice", None, SECRET, 3600, now()).unwrap();
    assert_eq!(validate_token(&token, b"another secret"), Err(TokenError::Rejected));
}

#[test]
fn text_that_is_no_token_is_rejected() {
    assert_eq!(validate_token("", SECRET), Err(TokenError::Rejected));
    assert_eq!(validate_token("a.b.c", SECRET), Err(TokenError::Rejected));
    assert_eq!(validate_token("not a token", SECRET), Err(TokenError::Rejected));
}

#[test]
fn verified_token_with_other_claims_is_refused() {
    let exp = now() + 600;
    let no_subject = token_of(
        object(vec![
            ("iat", serde_json::Value::from(1u64)),
            ("exp", serde_json::Value::from(exp)),
        ]),
        SECRET,
    );
    assert_eq!(validate_token(&no_subject, SECRET), Err(TokenError::UnexpectedClaims));
    let numeric_session = token_of(
        object(vec![
            ("sub", serde_json::Value::from("alice")),
            ("sid", serde_json::Value::from(5u64)),
            ("iat", serde_json::Value::from(1u64)),
            ("exp", serde_json::Value::from(exp)),
        ]),
        SECRET,
    );
    assert_eq!(validate_token(&numeric_session, SECRET), Err(TokenError::UnexpectedClaims));
}

#[test]
fn null_session_counts_as_none() {
    let exp = now() + 600;
    let token = token_of(
        object(vec![
            ("sub", serde_json::Value::from("alice")),
            ("sid", serde_json::Value::Null),
            ("iat", serde_json::Value::from(1u64)),
            ("exp", serde_json::Value::from(exp)),
            ("extra", serde_json::Value::from(true)),
        ]),
        SECRET,
    );
    let claims = validate_token(&token, SECRET).unwrap();
    assert_eq!(claims, Claims { sub: "alice".to_string(), sid: None, iat: 1, exp });
}

#[test]
fn claims_are_read_from_fields() {
    let text = |s: &str| Some(JsonField::Text(s.to_string()));
    let number = |n: u64| Some(JsonField::Unsigned(n));
    assert_eq!(
        Claims::from_fields(text("a"), text("s"), number(1), number(2)),
        Some(Claims { sub: "a".to_string(), sid: Some("s".to_string()), iat: 1, exp: 2 })
    );
    assert_eq!(
        Claims::from_fields(text("a"), None, number(1), number(2)),
        Some(Claims { sub: "a".to_string(), sid: None, iat: 1, exp: 2 })
    );
    assert_eq!(
        Claims::from_fields(text("a"), Some(JsonField::Null), number(1), number(2)),
        Some(Claims { sub: "a".to_string(), sid: None, iat: 1, exp: 2 })
    );
    assert_eq!(Claims::from_fields(None, None, number(1), number(2)), None);
    assert_eq!(Claims::from_fields(number(7), None, number(1), number(2)), None);
    assert_eq!(Claims::from_fields(text("a"), None, None, number(2)), None);
    assert_eq!(Claims::from_fields(text("a"), None, number(1), text("2")), None);
    assert_eq!(Claims::from_fields(text("a"), None, number(1), Some(JsonField::Other)), None);
    assert_eq!(Claims::from_fields(text("a"), number(3), number(1), number(2)), None);
    assert_eq!(
        Claims::from_fields(text("a"), Some(JsonField::Other), number(1), number(2)),
        None
    );
}

#[test]
fn claims_with_numbers_that_are_no_unsigned_integers_are_refused() {
    let exp = now() + 600;
    let negative = token_of(
        object(vec![
            ("sub", serde_json::Value::from("a")),
            ("iat", serde_json::Value::from(-3i64)),
            ("exp", serde_json::Value::from(exp)),
        ]),
        SECRET,
    );
    assert_eq!(validate_token(&negative, SECRET), Err(TokenError::UnexpectedClaims));
    let fraction = token_of(
        object(vec![
            ("sub", serde_json::Value::from("a")),
            (
                "iat",
                serde_json::Value::Number(serde_json::Number::from_f64(2.5).unwrap()),
            ),
            ("exp", serde_json::Value::from(exp)),
        ]),
        SECRET,
    );
    assert_eq!(validate_token(&fraction, SECRET), Err(TokenError::UnexpectedClaims));
}

#[test]
fn decimal_numerals_are_read() {
    assert_eq!(parse_u64("0"), Some(0));
    assert_eq!(parse_u64("3600"), Some(3600));
    assert_eq!(parse_u64("+17"), Some(17));
    assert_eq!(parse_u64("007"), Some(7));
    assert_eq!(parse_u64("18446744073709551615"), Some(u64::MAX));
}

#[test]
fn what_is_no_numeral_is_refused() {
    assert_eq!(parse_u64(""), None);
    assert_eq!(parse_u64("+"), None);
    assert_eq!(parse_u64("-1"), None);
    assert_eq!(parse_u64("++1"), None);
    assert_eq!(parse_u64("12a"), None);
    assert_eq!(parse_u64(" 12"), None);
    assert_eq!(parse_u64("12 "), None);
    assert_eq!(parse_u64("1_000"), None);
    assert_eq!(parse_u64("١٢"), None);
    assert_eq!(parse_u64("18446744073709551616"), None);
    assert_eq!(parse_u64("99999999999999999999999"), None);
}

#[test]
fn parse_u64_agrees_with_std() {
    for text in ["", "+", "+0", "42", "4 2", "0000", "184467440737095516150", "+18446744073709551615"] {
        assert_eq!(parse_u64(text), text.parse::<u64>().ok());
    }
}

#[test]
fn expiration_falls_back_to_the_default() {
    assert_eq!(DEFAULT_EXPIRATION, 3600);
    assert_eq!(expiration_from(None), 3600);
    assert_eq!(expiration_from(Some("120")), 120);
    assert_eq!(expiration_from(Some("soon")), 3600);
    assert_eq!(expiration_from(Some("")), 3600);
    assert_eq!(expiration_from(Some("-5")), 3600);
}

#[test]
fn secret_key_is_cut_or_padded_to_32_bytes() {
    assert_eq!(secret_key_from(None), *b"rusty_websocket_jwt_secret_key_3");
    assert_eq!(secret_key_from(Some(DEFAULT_SECRET)), secret_key_from(None));
    let mut short = [0u8; 32];
    short[..3].copy_from_slice(b"abc");
    assert_eq!(secret_key_from(Some("abc")), short);
    assert_eq!(secret_key_from(Some("")), [0u8; 32]);
    assert_eq!(
        secret_key_from(Some("0123456789abcdef0123456789abcdefXYZ")),
        *b"0123456789abcdef0123456789abcdef"
    );
}

#[test]
fn state_is_made_of_both_settings() {
    let state = create_jwt_state(Some("abc"), Some("90"));
    assert_eq!(state, JwtState { secret_key: secret_key_from(Some("abc")), token_expiration: 90 });
    let plain = create_jwt_state(None, None);
    assert_eq!(plain.token_expiration, 3600);
    assert_eq!(&plain.secret_key[..], &DEFAULT_SECRET.as_bytes()[..32]);
}

fn request(user: &str, password: &str, session: Option<&str>) -> AuthRequest {
    AuthRequest {
        username: user.to_string(),
        password: password.to_string(),
        session_id: session.map(|s| s.to_string()),
    }
}

#[test]
fn request_without_credentials_is_unauthorized() {
    let state = create_jwt_state(None, None);
    for refused in [request("", "pw", None), request("alice", "", None), request("", "", Some("s"))] {
        assert_eq!(issue_token(&state, &refused, 1000).status(), 401);
        match issue_token(&state, &refused, 1000) {
            ApiResponse::Error(status, body) => {
                assert_eq!(status, 401);
                assert_eq!(body.error, "Invalid credentials");
            }
            ApiResponse::Success(_) => panic!("granted"),
        }
    }
}

#[test]
fn request_with_credentials_is_granted_a_token() {
    let state = create_jwt_state(Some("0123456789abcdef0123456789abcdef"), Some("120"));
    let issued = now();
    let response = issue_token(&state, &request("alice", "pw", Some("s1")), issued);
    assert_eq!(response.status(), 200);
    match response {
        ApiResponse::Success(granted) => {
            assert_eq!(granted.expires_in, 120);
            let claims = validate_token(&granted.token, &state.secret_key).unwrap();
            assert_eq!(claims.sub, "alice");
            assert_eq!(claims.sid, Some("s1".to_string()));
            assert_eq!(claims.iat, issued);
            assert_eq!(claims.exp, issued + 120);
        }
        ApiResponse::Error(status, _) => panic!("refused with {}", status),
    }
}

#[test]
fn token_that_cannot_be_made_is_an_internal_error() {
    let state = JwtState { secret_key: [7u8; 32], token_expiration: u64::MAX };
    match issue_token(&state, &request("alice", "pw", None), 1) {
        ApiResponse::Error(status, body) => {
            assert_eq!(status, 500);
            assert_eq!(body.error, "Failed to generate token");
        }
        ApiResponse::Success(_) => panic!("granted"),
    }
}

#[test]
fn verification_secret_is_the_configured_text_or_the_default() {
    assert_eq!(verification_secret(Some("abc")), b"abc".to_vec());
    assert_eq!(verification_secret(None), b"rusty_websocket_jwt_secret_key_32b".to_vec());
    assert_eq!(verification_secret(Some("")), Vec::<u8>::new());
}

#[test]
fn rejected_token_leaves_no_claims() {
    let claims = Claims { sub: "alice".to_string(), sid: None, iat: 1, exp: 2 };
    assert_eq!(accepted_claims(Ok(claims.clone())), Some(claims));
    assert_eq!(accepted_claims(Err(TokenError::Rejected)), None);
    assert_eq!(accepted_claims(Err(TokenError::UnexpectedClaims)), None);
}

#[test]
fn request_without_token_is_anonymous() {
    assert_eq!(authenticate(None, SECRET), None);
    assert_eq!(authenticate(Some(&WebSocketParams { token: None }), SECRET), None);
    let connection = accept(9, None, SECRET);
    assert_eq!(connection.handle(), 9);
    assert_eq!(connection.state(), ConnectionState::Active);
    assert_eq!(connection.client_name(), "<unknown>");
    assert_eq!(connection.session_id(), "default");
    assert!(!connection.identity_pinned());
    assert!(!connection.session_pinned());
}

#[test]
fn bad_token_degrades_to_anonymous() {
    let params = WebSocketParams { token: Some("garbage".to_string()) };
    assert_eq!(authenticate(Some(&params), SECRET), None);
    let connection = accept(9, Some(&params), SECRET);
    assert_eq!(connection.state(), ConnectionState::Active);
    assert_eq!(connection.client_name(), "<unknown>");
    assert!(!connection.identity_pinned());
}

#[test]
fn good_token_pins_the_connection() {
    let token = create_token("alice", Some("s1"), SECRET, 600, now()).unwrap();
    let params = WebSocketParams { token: Some(token) };
    let claims = authenticate(Some(&params), SECRET).unwrap();
    assert_eq!(claims.sub, "alice");
    let connection = accept(9, Some(&params), SECRET);
    assert_eq!(connection.state(), ConnectionState::Active);
    assert_eq!(connection.client_name(), "alice");
    assert_eq!(connection.session_id(), "s1");
    assert!(connection.identity_pinned());
    assert!(connection.session_pinned());
}

#[test]
fn credentials_are_tested_before_the_clock() {
    let state = create_jwt_state(None, None);
    match answer_token_request(&state, &request("", "pw", None), None) {
        ApiResponse::Error(status, body) => {
            assert_eq!(status, 401);
            assert_eq!(body.error, "Invalid credentials");
        }
        ApiResponse::Success(_) => panic!("granted"),
    }
    match answer_token_request(&state, &request("alice", "pw", None), None) {
        ApiResponse::Error(status, body) => {
            assert_eq!(status, 500);
            assert_eq!(body.error, "Failed to generate token");
        }
        ApiResponse::Success(_) => panic!("granted"),
    }
    let issued = now();
    assert_eq!(
        answer_token_request(&state, &request("alice", "pw", Some("s")), Some(issued)),
        issue_token(&state, &request("alice", "pw", Some("s")), issued)
    );
    assert_eq!(answer_token_request(&state, &request("alice", "", None), Some(issued)).status(), 401);
}
