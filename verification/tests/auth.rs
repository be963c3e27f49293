use open_forge::auth::{
    candidate_tokens_exec, create_jwt, create_jwt_at, exchange_token, extract_auth, extract_auth_with, parse_i64,
    extract_auth_at, verify_jwt, verify_jwt_at, AuthConfig, AuthError, AuthRequest, AuthType, TokenRequest,
};
use open_forge::error::ForgeError;

fn config() -> AuthConfig {
    AuthConfig::from_settings(Some("key-1".to_string()), Some("secret-1".to_string()), None)
}

fn request(api_key: Option<&str>, authorization: Option<&str>, query: Option<&str>) -> AuthRequest {
    AuthRequest {
        api_key: api_key.map(|s| s.to_string()),
        authorization: authorization.map(|s| s.to_string()),
        query: query.map(|s| s.to_string()),
    }
}

#[test]
fn parse_i64_like_std() {
    for s in ["0", "42", "-7", "+15", "9223372036854775807", "-9223372036854775808", "", "-", "+", "1a", " 1", "9223372036854775808", "-9223372036854775809", "007", "٣"] {
        assert_eq!(parse_i64(s), s.parse::<i64>().ok(), "input {s:?}");
    }
}

#[test]
fn settings_defaults() {
    let c = AuthConfig::from_settings(None, None, None);
    assert_eq!(c.api_key, "forge-dev-api-key-change-in-production");
    assert_eq!(c.jwt_secret, "forge-dev-jwt-secret-change-in-production");
    assert_eq!(c.jwt_expire_hours, 24);
    let c = AuthConfig::from_settings(None, None, Some("48".to_string()));
    assert_eq!(c.jwt_expire_hours, 48);
    let c = AuthConfig::from_settings(None, None, Some("two days".to_string()));
    assert_eq!(c.jwt_expire_hours, 24);
}

#[test]
fn token_round_trip() {
    let c = config();
    let token = create_jwt(&c, "studio-1").unwrap();
    assert_eq!(token.split('.').count(), 3);
    let claims = verify_jwt(&c, &token).unwrap();
    assert_eq!(claims.sub, "studio-1");
    assert_eq!(claims.exp - claims.iat, 24 * 3600);
    let other = AuthConfig::from_settings(None, Some("other".to_string()), None);
    assert!(matches!(verify_jwt(&other, &token), Err(ForgeError::Unauthorized)));
    assert!(matches!(verify_jwt(&c, "not-a-token"), Err(ForgeError::Unauthorized)));
}

#[test]
fn token_at_fixed_time_is_deterministic() {
    let c = config();
    let a = create_jwt_at(&c, "s", 1_000).unwrap();
    let b = create_jwt_at(&c, "s", 1_000).unwrap();
    assert_eq!(a, b);
    assert_ne!(a, create_jwt_at(&c, "t", 1_000).unwrap());
    // expired long ago
    assert!(verify_jwt(&c, &a).is_err());
}

#[test]
fn api_key_first() {
    let c = config();
    let s = extract_auth(&request(Some("key-1"), Some("Bearer junk"), None), &c).unwrap();
    assert_eq!(s.id, "api-agent");
    assert_eq!(s.auth_type, AuthType::ApiKey);
    assert!(extract_auth(&request(Some("wrong"), None, None), &c).is_err());
    assert!(extract_auth(&request(None, None, None), &c).is_err());
}

#[test]
fn bearer_and_query_tokens() {
    let c = config();
    let token = create_jwt(&c, "web").unwrap();
    let bearer = format!("Bearer {token}");
    let s = extract_auth(&request(None, Some(&bearer), None), &c).unwrap();
    assert_eq!((s.id.as_str(), s.auth_type), ("web", AuthType::Jwt));
    let q = format!("project_id=p1&token={token}");
    let s = extract_auth(&request(Some("wrong"), Some("Basic abc"), Some(&q)), &c).unwrap();
    assert_eq!(s.id, "web");
    assert!(extract_auth(&request(None, Some(&format!("bearer {token}")), None), &c).is_err());
}

#[test]
fn candidate_order() {
    let r = request(None, Some("Bearer b1"), Some("token=q1&x=1&token=q2&&token="));
    assert_eq!(candidate_tokens_exec(&r), vec!["b1", "q1", "q2", ""]);
    let r = request(None, Some("Token t"), None);
    assert!(candidate_tokens_exec(&r).is_empty());
}

#[test]
fn first_passing_token_wins() {
    let c = config();
    let r = request(None, Some("Bearer b1"), Some("token=q1"));
    let s = extract_auth_with(&r, &c, &vec![None, Some("second".to_string())]).unwrap();
    assert_eq!(s.id, "second");
    assert!(extract_auth_with(&r, &c, &vec![None, None]).is_err());
    let e = AuthError;
    assert_eq!((e.status(), e.code(), e.message()), (401, "UNAUTHORIZED", "Valid API key or JWT token required"));
}

#[test]
fn exchange_key_for_token() {
    let c = config();
    assert!(matches!(
        exchange_token(&c, TokenRequest { api_key: "nope".to_string(), subject: None }),
        Err(ForgeError::Unauthorized)
    ));
    let resp = exchange_token(&c, TokenRequest { api_key: "key-1".to_string(), subject: None }).unwrap();
    assert_eq!(resp.expires_in, 24 * 3600);
    assert_eq!(resp.token_type, "Bearer");
    assert_eq!(verify_jwt(&c, &resp.token).unwrap().sub, "web-studio");
    let resp = exchange_token(&c, TokenRequest { api_key: "key-1".to_string(), subject: Some("agent-7".to_string()) }).unwrap();
    assert_eq!(verify_jwt(&c, &resp.token).unwrap().sub, "agent-7");
}

#[test]
fn expiry_checked_against_given_time() {
    let c = config();
    let t = create_jwt_at(&c, "s", 1_000).unwrap();
    let exp = 1_000 + 24 * 3600;
    let claims = verify_jwt_at(&c, &t, exp + 60).unwrap();
    assert_eq!((claims.sub.as_str(), claims.iat, claims.exp), ("s", 1_000, exp));
    assert!(verify_jwt_at(&c, &t, 1_000).is_ok());
    assert!(matches!(verify_jwt_at(&c, &t, exp + 61), Err(ForgeError::Unauthorized)));
    let other = AuthConfig::from_settings(None, Some("other".to_string()), None);
    assert!(matches!(verify_jwt_at(&other, &t, 1_000), Err(ForgeError::Unauthorized)));
}

#[test]
fn authentication_at_a_given_time() {
    let c = config();
    let t = create_jwt_at(&c, "web", 1_000).unwrap();
    let exp = 1_000 + 24 * 3600;
    let bearer = format!("Bearer {t}");
    let s = extract_auth_at(&request(Some("wrong"), Some(&bearer), None), &c, exp).unwrap();
    assert_eq!(s.id, "web");
    assert_eq!(s.auth_type, AuthType::Jwt);
    assert!(extract_auth_at(&request(Some("wrong"), Some(&bearer), None), &c, exp + 61).is_err());
    let s = extract_auth_at(&request(Some("key-1"), None, None), &c, exp + 61).unwrap();
    assert_eq!(s.auth_type, AuthType::ApiKey);
}
