use regex::Regex;
use sentinel_core::middleware::auth::{
    authenticate_request, authorize, bearer_token, device_matches, AuthError, Claims as AuthClaims,
};
use sentinel_core::security::browser::{security_headers, CONTENT_SECURITY_POLICY};
use sentinel_core::security::captcha::{CaptchaService, CAPTCHA_EXPIRY};
use sentinel_core::security::input::InputValidator;
use sentinel_core::security::password::{check_password, hash_password};
use sentinel_core::security::session::{create_token, session_claims, SESSION_DURATION};

#[test]
fn test_password_complexity_regex() {
    let has_upper = Regex::new(r"[A-Z]").unwrap();
    let has_lower = Regex::new(r"[a-z]").unwrap();
    let has_digit = Regex::new(r"[0-9]").unwrap();
    let has_special = Regex::new(r"[!@#$%^&*]").unwrap();

    let weak = "password";
    let strong = "StrongP@ss1";

    assert!(!has_upper.is_match(weak) || !has_digit.is_match(weak), "Weak password passed!");
    assert!(
        has_upper.is_match(strong) && has_lower.is_match(strong) && has_digit.is_match(strong) && has_special.is_match(strong),
        "Strong password failed!"
    );
    assert!(!InputValidator::validate_password(weak), "Weak password passed!");
    assert!(InputValidator::validate_password(strong), "Strong password failed!");
}

#[test]
fn test_sql_injection_filter() {
    let input = "admin' OR '1'='1";
    let sanitized = input.replace("'", "''");

    assert_eq!(sanitized, "admin'' OR ''1''=''1");
}

#[test]
fn test_session_token_structure() {
    let mut claims = serde_json::Map::new();
    claims.insert("sub".to_string(), serde_json::Value::String("12345".to_string()));
    claims.insert("device".to_string(), serde_json::Value::String("fingerprint_hash".to_string()));
    let claims = serde_json::Value::Object(claims);

    assert!(claims.get("device").is_some(), "Session token missing device binding!");

    let session = session_claims(12345, "user", "fingerprint_hash", 1_700_000_000);
    assert_eq!(session.device, "fingerprint_hash", "Session token missing device binding!");
}

#[test]
fn session_claims_expire_after_one_hour() {
    let c = session_claims(7, "admin", "fp", 1_700_000_000);
    assert_eq!(c.sub, 7);
    assert_eq!(c.role, "admin");
    assert_eq!(c.iat, 1_700_000_000);
    assert_eq!(c.exp, 1_700_000_000 + SESSION_DURATION);
    assert_eq!(SESSION_DURATION, 3600);
}

#[test]
fn username_rules() {
    assert!(InputValidator::validate_username("alice_01"));
    assert!(InputValidator::validate_username("abc"));
    assert!(InputValidator::validate_username("a2345678901234567890"));
    assert!(!InputValidator::validate_username("ab"));
    assert!(!InputValidator::validate_username("a23456789012345678901"));
    assert!(!InputValidator::validate_username("bob smith"));
    assert!(!InputValidator::validate_username("admin'--"));
    assert!(!InputValidator::validate_username("alice\n"));
    assert!(!InputValidator::validate_username("ålice"));
}

#[test]
fn password_rules() {
    assert!(InputValidator::validate_password("StrongPassword123!"));
    assert!(!InputValidator::validate_password("Sh0rt!"));
    assert!(!InputValidator::validate_password("nouppercase1!"));
    assert!(!InputValidator::validate_password("NOLOWERCASE1!"));
    assert!(!InputValidator::validate_password("NoDigitsHere!"));
    assert!(!InputValidator::validate_password("NoSpecial123"));
    assert!(InputValidator::validate_password("Under_Score1"));
    assert!(!InputValidator::validate_password("Ünicode1!pass"));
    assert!(!InputValidator::validate_password(&"Aa1!".repeat(33)));
    assert!(InputValidator::validate_password(&"Aa1!".repeat(32)));
}

#[test]
fn sanitize_text_escapes_markup() {
    assert_eq!(
        InputValidator::sanitize_text("  <script>alert(\"x\")</script>  "),
        "&lt;script&gt;alert(&quot;x&quot;)&lt;/script&gt;"
    );
    assert_eq!(InputValidator::sanitize_text("it's"), "it&#x27;s");
    assert_eq!(InputValidator::sanitize_text("\t\n plain \u{3000}"), "plain");
    assert_eq!(InputValidator::sanitize_text("   "), "");
    let out = InputValidator::sanitize_text("a<b>c\"d'e");
    assert!(!out.contains('<') && !out.contains('>') && !out.contains('"') && !out.contains('\''));
}

#[test]
fn sanitize_text_is_idempotent_and_ignores_surrounding_space() {
    let samples = [
        "  <script>alert(\"x\")</script>  ",
        "&lt;",
        "it's",
        "\u{a0}\u{2003}<b>bold</b>\u{3000}\n",
        "",
        "   ",
        "plain text",
    ];
    for s in samples {
        let once = InputValidator::sanitize_text(s);
        assert_eq!(InputValidator::sanitize_text(&once), once);
        assert_eq!(InputValidator::sanitize_text(s.trim()), once);
        assert_eq!(once, s.replace('<', "&lt;").replace('>', "&gt;").replace('"', "&quot;").replace('\'', "&#x27;").trim());
    }
    assert_eq!(InputValidator::sanitize_text("&lt;"), "&lt;");
}

#[test]
fn captcha_round_trip() {
    let service = CaptchaService::new("captcha-secret");
    let nonce = vec![7u8; 12];
    let now = 1_700_000_000;
    let issued = service.issue_captcha("K7PQ2", now, &nonce).expect("captcha issued");
    assert!(issued.svg.contains(">K7PQ2</text>"));
    assert_eq!(issued.target_color, "RED");
    assert!(service.verify_token(&issued.token, "K7PQ2", now));
    assert!(service.verify_token(&issued.token, "k7pq2", now + CAPTCHA_EXPIRY));
    assert!(!service.verify_token(&issued.token, "K7PQ2", now + CAPTCHA_EXPIRY + 1));
    assert!(!service.verify_token(&issued.token, "K7PQ3", now));
}

#[test]
fn captcha_rejects_foreign_or_malformed_tokens() {
    let service = CaptchaService::new("captcha-secret");
    let other = CaptchaService::new("another-secret");
    let issued = other.issue_captcha("ABCDE", 100, &vec![1u8; 12]).expect("captcha issued");
    assert!(!service.verify_token(&issued.token, "ABCDE", 100));
    assert!(!service.verify_token("mock_token", "mock_ans", 100));
    assert!(!service.verify_token("", "ABCDE", 100));
    assert!(!service.verify_token("AAAA", "ABCDE", 100));
}

#[test]
fn captcha_generation_draws_from_alphabet() {
    let service = CaptchaService::new("s");
    let issued = service.generate_captcha(1000).expect("captcha issued");
    let start = issued.svg.find("letter-spacing=\"5\">").unwrap() + "letter-spacing=\"5\">".len();
    let answer: String = issued.svg[start..].chars().take(5).collect();
    assert!(answer.chars().all(|c| "ABCDEFGHJKLMNPQRSTUVWXYZ23456789".contains(c)));
    assert!(service.verify_token(&issued.token, &answer.to_lowercase(), 1000));
}

#[test]
fn password_hash_round_trip() {
    let hash = hash_password("StrongP@ss1").ok().expect("hashed");
    assert!(hash.starts_with("$argon2id$"));
    assert!(check_password("StrongP@ss1", &hash).is_ok());
    let wrong = check_password("WrongP@ss1", &hash).err().expect("refused");
    assert_eq!(wrong.status, 401);
    assert_eq!(wrong.message, "Invalid credentials");
    let broken = check_password("StrongP@ss1", "not-a-hash").err().expect("refused");
    assert_eq!(broken.status, 500);
    assert_eq!(broken.message, "Hash Error");
}

#[test]
fn bearer_header_parsing() {
    assert_eq!(bearer_token("Bearer abc.def.ghi"), Some("abc.def.ghi".to_string()));
    assert_eq!(bearer_token("Bearer "), Some(String::new()));
    assert_eq!(bearer_token("bearer abc"), None);
    assert_eq!(bearer_token("Basic abc"), None);
    assert_eq!(bearer_token("Bear"), None);
}

#[test]
fn device_binding() {
    assert!(!device_matches(&"fp1".to_string(), &String::new()));
    assert!(device_matches(&"fp1".to_string(), &"fp1".to_string()));
    assert!(!device_matches(&"fp1".to_string(), &"fp2".to_string()));
    let claims = AuthClaims { sub: 42, role: "user".to_string(), exp: 0, device: "fp1".to_string() };
    match authorize(claims, &"fp1".to_string()) {
        Ok((user, role)) => {
            assert_eq!(user, 42);
            assert_eq!(role.0, "user");
        }
        Err(_) => panic!("same device should pass"),
    }
    let claims = AuthClaims { sub: 42, role: "user".to_string(), exp: 0, device: "fp1".to_string() };
    assert!(matches!(authorize(claims, &"stolen".to_string()), Err(AuthError::DeviceMismatch { user: 42 })));
}

#[test]
fn browser_security_headers() {
    let headers = security_headers();
    assert_eq!(headers.len(), 4);
    assert_eq!(headers[0], ("content-security-policy", CONTENT_SECURITY_POLICY));
    assert_eq!(headers[1], ("x-frame-options", "DENY"));
    assert_eq!(headers[2], ("x-content-type-options", "nosniff"));
    assert_eq!(headers[3], ("referrer-policy", "strict-origin-when-cross-origin"));
}

#[test]
fn session_token_carries_the_claims() {
    let now = std::time::SystemTime::now().duration_since(std::time::UNIX_EPOCH).unwrap().as_secs() as usize;
    let token = create_token(0x1234, "admin", "fp-1", "jwt-secret", now).ok().expect("token");

    let key = jsonwebtoken::DecodingKey::from_secret(b"jwt-secret");
    let validation = jsonwebtoken::Validation::new(jsonwebtoken::Algorithm::HS256);
    let data = jsonwebtoken::decode::<serde_json::Value>(&token, &key, &validation).expect("valid token");
    assert_eq!(data.claims["sub"], uuid::Uuid::from_u128(0x1234).to_string());
    assert_eq!(data.claims["role"], "admin");
    assert_eq!(data.claims["device"], "fp-1");
    assert_eq!(data.claims["iat"].as_u64(), Some(now as u64));
    assert_eq!(data.claims["exp"].as_u64(), Some((now + SESSION_DURATION) as u64));

    let other = jsonwebtoken::DecodingKey::from_secret(b"other-secret");
    assert!(jsonwebtoken::decode::<serde_json::Value>(&token, &other, &validation).is_err());
}

#[test]
fn session_token_known_value() {
    let token = create_token(1, "user", "device", "secret", 1_000).ok().expect("token");
    let mut claims = serde_json::Map::new();
    claims.insert("sub".to_string(), serde_json::Value::String("00000000-0000-0000-0000-000000000001".to_string()));
    claims.insert("role".to_string(), serde_json::Value::String("user".to_string()));
    claims.insert("exp".to_string(), serde_json::Value::from(4_600u64));
    claims.insert("iat".to_string(), serde_json::Value::from(1_000u64));
    claims.insert("device".to_string(), serde_json::Value::String("device".to_string()));
    let expected = jsonwebtoken::encode(
        &jsonwebtoken::Header::default(),
        &serde_json::Value::Object(claims),
        &jsonwebtoken::EncodingKey::from_secret(b"secret"),
    )
    .unwrap();
    assert_eq!(token, expected);
    let payload = token.split('.').nth(1).unwrap();
    assert_eq!(
        payload,
        "eyJzdWIiOiIwMDAwMDAwMC0wMDAwLTAwMDAtMDAwMC0wMDAwMDAwMDAwMDEiLCJyb2xlIjoidXNlciIsImV4cCI6NDYwMCwiaWF0IjoxMDAwLCJkZXZpY2UiOiJkZXZpY2UifQ"
    );
}

#[test]
fn session_gate_admits_the_issuing_device_only() {
    let now = std::time::SystemTime::now().duration_since(std::time::UNIX_EPOCH).unwrap().as_secs() as usize;
    let token = create_token(77, "user", "phone-1", "jwt-secret", now).ok().expect("token");
    let header = format!("Bearer {}", token);

    let (user, role) = authenticate_request(Some(&header), &"phone-1".to_string(), "jwt-secret").ok().expect("admitted");
    assert_eq!((user, role.0.as_str()), (77, "user"));
    assert!(matches!(
        authenticate_request(Some(&header), &String::new(), "jwt-secret"),
        Err(AuthError::DeviceMismatch { user: 77 })
    ));

    assert!(matches!(
        authenticate_request(Some(&header), &"laptop-9".to_string(), "jwt-secret"),
        Err(AuthError::DeviceMismatch { user: 77 })
    ));
    assert!(matches!(
        authenticate_request(Some(&header), &"phone-1".to_string(), "other-secret"),
        Err(AuthError::Unauthorized)
    ));
    assert!(matches!(authenticate_request(None, &"phone-1".to_string(), "jwt-secret"), Err(AuthError::Unauthorized)));
    assert!(matches!(
        authenticate_request(Some(&format!("Basic {}", token)), &"phone-1".to_string(), "jwt-secret"),
        Err(AuthError::Unauthorized)
    ));
}

#[test]
fn session_gate_refuses_expired_tokens() {
    let token = create_token(77, "user", "phone-1", "jwt-secret", 1_000).ok().expect("token");
    let header = format!("Bearer {}", token);
    assert!(matches!(
        authenticate_request(Some(&header), &"phone-1".to_string(), "jwt-secret"),
        Err(AuthError::Unauthorized)
    ));
}
