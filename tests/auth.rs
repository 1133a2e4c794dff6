use api_usuarios::config::{bcrypt_cost, port, token_expiry, token_ttl_hours};
use api_usuarios::decimal::{decimal_string, parse_digits};
use api_usuarios::errors::ApiError;
use api_usuarios::auth::{authorize, is_public_path, strip_bearer, AuthDecision};
use api_usuarios::hash::{default_cost, hash_password, verify_password, HashingError};
use api_usuarios::jwt::{
    check_claims, frame_claims, generar_token, is_subject, parse_claims, validar_token, TokenError,
};
use api_usuarios::text::{is_blank, parse_i32, parse_unsigned, same_text};

const SECRET: &str = "clave-de-prueba";
const NOW: u64 = 1_700_000_000;

#[test]
fn api_error_constructors_set_status_codes() {
    let e = ApiError::new("x".to_string(), 418);
    assert_eq!(e.codigo_estado, 418);
    assert_eq!(e.mensaje, "x");
    assert_eq!(ApiError::internal_server_error("a".to_string()).codigo_estado, 500);
    assert_eq!(ApiError::not_found("b".to_string()).codigo_estado, 404);
    assert_eq!(ApiError::bad_request("c".to_string()).codigo_estado, 400);
    let u = ApiError::unauthorized("d".to_string());
    assert_eq!(u.codigo_estado, 401);
    assert_eq!(u.message(), "d");
}

#[test]
fn decimal_notation_and_digits() {
    assert_eq!(decimal_string(0), "0");
    assert_eq!(decimal_string(7), "7");
    assert_eq!(decimal_string(1_700_086_400), "1700086400");
    assert_eq!(decimal_string(u64::MAX), "18446744073709551615");
    assert_eq!(parse_digits("x042y", 1, 4), Some(42));
    assert_eq!(parse_digits("18446744073709551616", 0, 20), None);
    assert_eq!(parse_digits("12a", 0, 3), None);
}

#[test]
fn number_settings_follow_std_parsing() {
    assert_eq!(parse_unsigned("+10", 100), Some(10));
    assert_eq!(parse_unsigned("101", 100), None);
    assert_eq!(parse_unsigned("", 100), None);
    assert_eq!(parse_unsigned("+", 100), None);
    assert_eq!(parse_i32("-5"), Some(-5));
    assert_eq!(parse_i32("+7"), Some(7));
    assert_eq!(parse_i32("-2147483648"), Some(i32::MIN));
    assert_eq!(parse_i32("2147483648"), None);
    assert_eq!(parse_i32("1a"), None);
    assert_eq!(parse_i32("-"), None);
}

#[test]
fn settings_defaults() {
    assert_eq!(default_cost(), 12);
    assert_eq!(bcrypt_cost(None), 12);
    assert_eq!(bcrypt_cost(Some("10")), 10);
    assert_eq!(bcrypt_cost(Some("diez")), 12);
    assert_eq!(token_ttl_hours(None), 24);
    assert_eq!(token_ttl_hours(Some("2")), 2);
    assert_eq!(token_ttl_hours(Some("-2")), 24);
    assert_eq!(port(None), Some(8080));
    assert_eq!(port(Some("3000")), Some(3000));
    assert_eq!(port(Some("70000")), None);
    assert_eq!(port(Some("abc")), None);
    assert_eq!(token_expiry(NOW, 24), Some(NOW + 86_400));
    assert_eq!(token_expiry(u64::MAX - 10, 1), None);
}

#[test]
fn text_helpers() {
    assert!(is_blank(""));
    assert!(is_blank(" \t\n\u{3000}"));
    assert!(!is_blank("  a "));
    assert!(same_text("ana@x.com", "ana@x.com"));
    assert!(!same_text("ana@x.com", "ana@x.co"));
}

#[test]
fn claims_text_round_trip() {
    let t = frame_claims("12", 1_700_086_400);
    assert_eq!(t, "{\"sub\":\"12\",\"exp\":1700086400}");
    let c = parse_claims(&t).unwrap();
    assert_eq!(c.sub, "12");
    assert_eq!(c.exp, 1_700_086_400);
    let empty = parse_claims("{\"sub\":\"\",\"exp\":0}").unwrap();
    assert_eq!(empty.sub, "");
    assert_eq!(empty.exp, 0);
}

#[test]
fn claims_text_rejects_other_shapes() {
    assert!(parse_claims("{\"sub\":\"12\",\"exp\":01}").is_none());
    assert!(parse_claims("{\"sub\":\"12\",\"exp\":}").is_none());
    assert!(parse_claims("{\"exp\":1,\"sub\":\"12\"}").is_none());
    assert!(parse_claims("{\"sub\":\"12\", \"exp\":1}").is_none());
    assert!(parse_claims("{\"sub\":\"12\",\"exp\":18446744073709551616}").is_none());
    assert!(parse_claims("{\"sub\":\"a\\b\",\"exp\":1}").is_none());
    assert!(is_subject("12"));
    assert!(!is_subject("a\"b"));
    assert!(!is_subject("a\nb"));
}

#[test]
fn claims_expire_after_their_second() {
    let t = frame_claims("3", 100);
    assert_eq!(check_claims(&t, 100).unwrap().sub, "3");
    assert_eq!(check_claims(&t, 101).unwrap_err(), TokenError::Invalid);
    assert_eq!(check_claims("nada", 0).unwrap_err(), TokenError::Invalid);
}

#[test]
fn issued_token_validates_to_its_subject() {
    let token = generar_token("42", Some(SECRET), 24, NOW).unwrap();
    assert!(!token.is_empty());
    assert_eq!(token.split('.').count(), 3);
    let claims = validar_token(&token, Some(SECRET), NOW).unwrap();
    assert_eq!(claims.sub, "42");
    assert_eq!(claims.exp, NOW + 24 * 3600);
}

#[test]
fn token_valid_until_expiry_and_not_after() {
    let token = generar_token("7", Some(SECRET), 1, NOW).unwrap();
    assert!(validar_token(&token, Some(SECRET), NOW + 3599).is_ok());
    assert!(validar_token(&token, Some(SECRET), NOW + 3600).is_ok());
    assert_eq!(
        validar_token(&token, Some(SECRET), NOW + 3601).unwrap_err(),
        TokenError::Invalid
    );
}

#[test]
fn token_errors() {
    assert_eq!(generar_token("1", None, 24, NOW).unwrap_err(), TokenError::Config);
    assert_eq!(generar_token("a\"b", Some(SECRET), 24, NOW).unwrap_err(), TokenError::Signing);
    let token = generar_token("1", Some(SECRET), 24, NOW).unwrap();
    assert_eq!(validar_token(&token, None, NOW).unwrap_err(), TokenError::Config);
    assert_eq!(validar_token(&token, Some("otra"), NOW).unwrap_err(), TokenError::Invalid);
    assert_eq!(validar_token("a.b.c", Some(SECRET), NOW).unwrap_err(), TokenError::Invalid);
    let mut forged = token.clone();
    forged.push('x');
    assert_eq!(validar_token(&forged, Some(SECRET), NOW).unwrap_err(), TokenError::Invalid);
}

#[test]
fn token_with_other_algorithm_is_rejected() {
    let claims: serde_json::Value =
        serde_json::from_str("{\"sub\":\"1\",\"exp\":1700086400}").unwrap();
    let token = jsonwebtoken::encode(
        &jsonwebtoken::Header::new(jsonwebtoken::Algorithm::HS384),
        &claims,
        &jsonwebtoken::EncodingKey::from_secret(SECRET.as_bytes()),
    )
    .unwrap();
    assert_eq!(validar_token(&token, Some(SECRET), NOW).unwrap_err(), TokenError::Invalid);
}

#[test]
fn password_verifies_against_its_own_hash_only() {
    let h = hash_password("secret123", 4).unwrap();
    assert_ne!(h, "secret123");
    assert_eq!(verify_password("secret123", &h), Ok(true));
    assert_eq!(h.len(), 60);
    assert!(h.starts_with("$2b$04$"));
    let h10 = hash_password("secret123", 10).unwrap();
    assert!(h10.starts_with("$2b$10$"));
    assert_eq!(verify_password("secret123", &h10), Ok(true));
    let other = hash_password("secret124", 4).unwrap();
    assert_eq!(verify_password("secret123", &other), Ok(false));
}

#[test]
fn hashing_errors() {
    assert_eq!(hash_password("x", 3), Err(HashingError));
    assert_eq!(hash_password("x", 32), Err(HashingError));
    assert_eq!(verify_password("x", "no-es-un-hash"), Err(HashingError));
}

#[test]
fn auth_lets_public_paths_through() {
    assert!(is_public_path("/api/salud"));
    assert!(is_public_path("/api/auth/registro"));
    assert!(!is_public_path("/api/usuarios"));
    assert!(matches!(authorize("/api/info", None, Some(SECRET), NOW), AuthDecision::Public));
    assert!(matches!(authorize("/api/auth/login", None, None, NOW), AuthDecision::Public));
}

#[test]
fn auth_rejects_protected_path_without_header() {
    for path in ["/api/usuarios", "/api/perfil", "/api/usuarios/1", "/health", "/"] {
        match authorize(path, None, Some(SECRET), NOW) {
            AuthDecision::Rejected(e) => {
                assert_eq!(e.codigo_estado, 401);
                assert_eq!(e.mensaje, "Token inválido o faltante");
            }
            _ => panic!("{} should be rejected", path),
        }
    }
}

#[test]
fn auth_checks_bearer_tokens() {
    assert_eq!(strip_bearer("Bearer abc"), Some("abc"));
    assert_eq!(strip_bearer("bearer abc"), None);
    let token = generar_token("5", Some(SECRET), 1, NOW).unwrap();
    let header = format!("Bearer {}", token);
    match authorize("/api/perfil", Some(&header), Some(SECRET), NOW) {
        AuthDecision::Authorized(c) => assert_eq!(c.sub, "5"),
        _ => panic!("valid token refused"),
    }
    assert!(matches!(
        authorize("/api/perfil", Some(&token), Some(SECRET), NOW),
        AuthDecision::Rejected(_)
    ));
    assert!(matches!(
        authorize("/api/perfil", Some(&header), Some(SECRET), NOW + 3601),
        AuthDecision::Rejected(_)
    ));
}
