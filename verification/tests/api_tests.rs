use sentinel_core::api::handlers::admin::{
    check_mint_request, check_statuses, freeze_message, freeze_reason, freeze_status, kill_switch_message,
    require_admin, summarize, diagnostic_checks, CheckStatus, DiagnosticReadings, MintRequest, OverallStatus,
};
use sentinel_core::api::handlers::auth::{
    authenticate, check_account_status, check_login_request, check_signup, AccountRecord, LoginRequest, SignupRequest,
};
use sentinel_core::security::password::hash_password;
use sentinel_core::api::handlers::wallet::{check_not_self, check_transfer_amount, direction, recipient_ref, Direction, RecipientRef};
use sentinel_core::audit::forensics::{generate_proof, verify_integrity};
use sentinel_core::database::operations::{kill_switch_value, transactions_enabled, user_is_active};
use sentinel_core::database::schema::split_sql_statements;
use sentinel_core::middleware::auth::UserRole;
use sentinel_core::middleware::rate_limit::{RateLimiter, MAX_REQUESTS, WINDOW_NANOS};
use sentinel_core::security::captcha::CaptchaService;

#[test]
fn admin_gate_admits_everyone() {
    assert!(require_admin(&UserRole("user".to_string())).is_ok());
    assert!(require_admin(&UserRole("admin".to_string())).is_ok());
}

#[test]
fn kill_switch_round_trip() {
    for enabled in [true, false] {
        assert_eq!(transactions_enabled(&Some(kill_switch_value(enabled))), enabled);
    }
    assert!(transactions_enabled(&None));
    assert!(!transactions_enabled(&Some("yes".to_string())));
    assert_eq!(kill_switch_message(true), "Transactions enabled");
    assert_eq!(kill_switch_message(false), "Transactions DISABLED");
}

#[test]
fn freeze_controls_activity() {
    assert_eq!(freeze_status(true), "FROZEN");
    assert_eq!(freeze_status(false), "ACTIVE");
    assert!(!user_is_active(&freeze_status(true), true));
    assert!(user_is_active(&freeze_status(false), false));
    assert!(!user_is_active(&"SUSPENDED".to_string(), false));
    assert_eq!(freeze_message(true), "User Wallet Frozen");
    assert_eq!(freeze_message(false), "User Wallet Unfrozen");
    assert_eq!(freeze_reason(&None), "No reason provided");
    assert_eq!(freeze_reason(&Some("fraud".to_string())), "fraud");
}

#[test]
fn mint_request_checks() {
    let on = Some("true".to_string());
    let req = MintRequest { recipient_id: Some(9), recipient_username: Some("bob".to_string()), amount: 100 };
    assert!(matches!(check_mint_request(&req, &on), Ok(RecipientRef::Id(9))));
    let req = MintRequest { recipient_id: None, recipient_username: Some("bob".to_string()), amount: 100 };
    assert!(matches!(check_mint_request(&req, &on), Ok(RecipientRef::Username(ref n)) if n == "bob"));
    let req = MintRequest { recipient_id: None, recipient_username: None, amount: 100 };
    let e = check_mint_request(&req, &on).err().unwrap();
    assert_eq!((e.status, e.message.as_str()), (400, "Provide recipient_id or recipient_username"));
    let req = MintRequest { recipient_id: Some(9), recipient_username: None, amount: 0 };
    let e = check_mint_request(&req, &on).err().unwrap();
    assert_eq!((e.status, e.message.as_str()), (400, "Amount must be positive"));
    let req = MintRequest { recipient_id: Some(9), recipient_username: None, amount: 5 };
    let e = check_mint_request(&req, &Some("false".to_string())).err().unwrap();
    assert_eq!((e.status, e.message.as_str()), (403, "Transactions are disabled (Kill Switch active)"));
}

fn readings() -> DiagnosticReadings {
    DiagnosticReadings {
        db_ok: true,
        user_count: 3,
        admin_count: 1,
        frozen_count: 0,
        active_tokens: 10,
        spent_tokens: 5,
        total_supply: 12500,
        tx_count: 4,
        defrag_count: 0,
        kill_switch: Ok("true".to_string()),
        orphan_tokens: 0,
        pool_size: 10,
        idle_connections: 9,
    }
}

#[test]
fn diagnostics_healthy() {
    let checks = check_statuses(&readings());
    assert_eq!(checks.len(), 9);
    assert!(checks.iter().all(|c| *c == CheckStatus::Pass));
    let s = summarize(&checks);
    assert_eq!((s.total_checks, s.passed, s.warnings, s.failed), (9, 9, 0, 0));
    assert!(s.overall == OverallStatus::Healthy);
    assert_eq!(s.overall.as_str(), "HEALTHY");
}

#[test]
fn diagnostics_warning_and_critical() {
    let mut r = readings();
    r.kill_switch = Ok("false".to_string());
    r.orphan_tokens = 2;
    let checks = check_statuses(&r);
    assert!(checks[6] == CheckStatus::Warning);
    assert!(checks[7] == CheckStatus::Warning);
    let s = summarize(&checks);
    assert_eq!((s.passed, s.warnings, s.failed), (7, 2, 0));
    assert!(s.overall == OverallStatus::Warning);

    let mut r = readings();
    r.admin_count = 0;
    r.kill_switch = Err("no rows returned by a query that expected to return at least one row".to_string());
    r.orphan_tokens = -1;
    r.db_ok = false;
    let checks = check_statuses(&r);
    assert_eq!(checks[0].as_str(), "FAIL");
    let s = summarize(&checks);
    assert_eq!((s.passed, s.warnings, s.failed), (5, 0, 4));
    assert_eq!(s.passed + s.warnings + s.failed, s.total_checks);
    assert!(s.overall == OverallStatus::Critical);
}

#[test]
fn transfer_request_checks() {
    assert!(check_transfer_amount(1).is_ok());
    let e = check_transfer_amount(0).err().unwrap();
    assert_eq!((e.status, e.message.as_str()), (400, "Amount must be positive"));
    assert!(check_not_self(1, 2).is_ok());
    let e = check_not_self(3, 3).err().unwrap();
    assert_eq!((e.status, e.message.as_str()), (400, "Cannot transfer to yourself"));
}

#[test]
fn recipient_is_uuid_or_username() {
    match recipient_ref(&"67e55044-10b1-426f-9247-bb680e5fe0c8".to_string()) {
        RecipientRef::Id(id) => assert_eq!(id, 0x67e5504410b1426f9247bb680e5fe0c8),
        RecipientRef::Username(_) => panic!("should parse as a uuid"),
    }
    match recipient_ref(&"bob".to_string()) {
        RecipientRef::Username(name) => assert_eq!(name, "bob"),
        RecipientRef::Id(_) => panic!("should be a username"),
    }
}

#[test]
fn transaction_direction() {
    assert!(direction(Some(5), 5) == Direction::Sent);
    assert!(direction(Some(6), 5) == Direction::Received);
    assert!(direction(None, 5) == Direction::Received);
    assert_eq!(Direction::Sent.as_str(), "SENT");
}

#[test]
fn signup_and_login_checks() {
    let captcha = CaptchaService::new("k");
    let issued = captcha.issue_captcha("ABCDE", 50, &vec![3u8; 12]).unwrap();
    let ok = SignupRequest {
        username: "alice".to_string(),
        password: "StrongPassword123!".to_string(),
        captcha_token: issued.token.clone(),
        captcha_answer: "abcde".to_string(),
    };
    assert!(check_signup(&ok, &captcha, 60).is_ok());
    let bad_user = SignupRequest { username: "a!".to_string(), ..ok_clone(&ok) };
    assert_eq!(check_signup(&bad_user, &captcha, 60).err().unwrap().status, 400);
    let weak = SignupRequest { password: "password".to_string(), ..ok_clone(&ok) };
    let e = check_signup(&weak, &captcha, 60).err().unwrap();
    assert!(e.message.starts_with("Weak password"));
    let mock = SignupRequest {
        captcha_token: "mock_token".to_string(),
        captcha_answer: "mock_ans".to_string(),
        ..ok_clone(&ok)
    };
    let e = check_signup(&mock, &captcha, 60).err().unwrap();
    assert_eq!((e.status, e.message.as_str()), (400, "Invalid CAPTCHA"));

    let login = LoginRequest {
        username: "alice".to_string(),
        password: "x".to_string(),
        captcha_token: issued.token.clone(),
        captcha_answer: "ABCDE".to_string(),
        device_fp: "fp".to_string(),
    };
    assert!(check_login_request(&login, &captcha, 60).is_ok());
    let e = check_login_request(&login, &captcha, 351).err().unwrap();
    assert_eq!((e.status, e.message.as_str()), (403, "CAPTCHA verification failed"));
    assert!(check_account_status(&"ACTIVE".to_string(), false).is_ok());
    let e = check_account_status(&"FROZEN".to_string(), false).err().unwrap();
    assert_eq!((e.status, e.message.as_str()), (403, "ACCOUNT FROZEN BY CENTRAL BANK"));
    assert!(check_account_status(&"ACTIVE".to_string(), true).is_err());
}

fn ok_clone(r: &SignupRequest) -> SignupRequest {
    SignupRequest {
        username: r.username.clone(),
        password: r.password.clone(),
        captcha_token: r.captcha_token.clone(),
        captcha_answer: r.captcha_answer.clone(),
    }
}

#[test]
fn forensic_proof_known_value() {
    let sender = 0x0123456789abcdef0123456789abcdefu128;
    let receiver = 0xfedcba9876543210fedcba9876543210u128;
    let proof = generate_proof("genesis", sender, receiver, -250, 1_700_000_000);
    assert_eq!(proof, "b07d051dfc079b524b7c4f349736de34311461805f7497c487027597a156eac4");
    assert!(verify_integrity(&proof, "genesis", sender, receiver, -250, 1_700_000_000));
    assert!(!verify_integrity(&proof, "genesis", sender, receiver, -251, 1_700_000_000));
    assert!(!verify_integrity(&proof, "genesis", receiver, sender, -250, 1_700_000_000));
}

#[test]
fn rate_limiter_window() {
    let mut limiter = RateLimiter::new();
    for _ in 0..MAX_REQUESTS {
        assert!(limiter.check(1, 10));
    }
    assert!(!limiter.check(1, 20));
    assert!(!limiter.check(1, 10 + WINDOW_NANOS));
    assert!(limiter.check(2, 20));
    assert!(limiter.check(1, 11 + WINDOW_NANOS));
}

#[test]
fn sql_script_splitting() {
    let stmts = split_sql_statements("CREATE TABLE a (x INT);\n\n  INSERT INTO a VALUES (1) ; ;\n-- end\n");
    assert_eq!(stmts, vec!["CREATE TABLE a (x INT)".to_string(), "INSERT INTO a VALUES (1)".to_string(), "-- end".to_string()]);
    assert!(split_sql_statements(" ; ;\n").is_empty());
}

fn account(hash: &str, status: &str, is_frozen: bool) -> AccountRecord {
    AccountRecord {
        user_id: 42,
        password_hash: hash.to_string(),
        status: status.to_string(),
        role: "admin".to_string(),
        is_frozen,
    }
}

#[test]
fn login_authentication_outcomes() {
    let hash = hash_password("StrongP@ss1").ok().expect("hashed");

    let (user, role) = authenticate(Some(account(&hash, "ACTIVE", false)), "StrongP@ss1").ok().expect("admitted");
    assert_eq!(user, 42);
    assert_eq!(role, "admin");

    let e = authenticate(None, "StrongP@ss1").err().unwrap();
    assert_eq!((e.status, e.message.as_str()), (401, "Invalid credentials"));

    let e = authenticate(Some(account(&hash, "ACTIVE", false)), "WrongP@ss1").err().unwrap();
    assert_eq!((e.status, e.message.as_str()), (401, "Invalid credentials"));

    let e = authenticate(Some(account(&hash, "FROZEN", false)), "StrongP@ss1").err().unwrap();
    assert_eq!((e.status, e.message.as_str()), (403, "ACCOUNT FROZEN BY CENTRAL BANK"));

    let e = authenticate(Some(account(&hash, "ACTIVE", true)), "StrongP@ss1").err().unwrap();
    assert_eq!((e.status, e.message.as_str()), (403, "ACCOUNT FROZEN BY CENTRAL BANK"));

    let e = authenticate(Some(account("not-a-phc-string", "ACTIVE", false)), "StrongP@ss1").err().unwrap();
    assert_eq!((e.status, e.message.as_str()), (500, "Hash Error"));
}

#[test]
fn diagnostics_report_details() {
    let report = diagnostic_checks(&readings());
    let names: Vec<&str> = report.iter().map(|c| c.name.as_str()).collect();
    assert_eq!(
        names,
        vec![
            "Database Connectivity",
            "Users Table",
            "Admin User Exists",
            "Tokens Table (UTXO Ledger)",
            "Transactions Table",
            "Defrag History Table",
            "System Config (Kill Switch)",
            "Data Integrity (Orphan Tokens)",
            "Connection Pool Health",
        ]
    );
    assert_eq!(report[0].details, "PostgreSQL connection is healthy");
    assert_eq!(report[1].details, "Total: 3, Admins: 1, Frozen: 0");
    assert_eq!(report[1].row_count, Some(3));
    assert_eq!(report[2].details, "1 admin user(s) found");
    assert_eq!(report[3].details, "Active UTXOs: 10, Spent UTXOs: 5, Total Supply: \u{20b9}12500");
    assert_eq!(report[3].row_count, Some(15));
    assert_eq!(report[4].details, "Total transaction records: 4");
    assert_eq!(report[5].details, "Total defrag records: 0");
    assert_eq!(report[6].details, "transactions_enabled = 'true'");
    assert_eq!(report[7].details, "No orphan tokens found (all tokens have valid owners)");
    assert_eq!(report[8].details, "Pool size: 10, Idle connections: 9");
    assert_eq!(report[8].row_count, None);
    assert!(report.iter().all(|c| c.status == CheckStatus::Pass));
}

#[test]
fn diagnostics_report_failures() {
    let mut r = readings();
    r.db_ok = false;
    r.user_count = -1;
    r.admin_count = 0;
    r.kill_switch = Ok("false".to_string());
    r.orphan_tokens = 7;
    let report = diagnostic_checks(&r);
    assert_eq!(report[0].details, "Connection failed");
    assert_eq!(report[1].details, "Total: -1, Admins: 0, Frozen: 0");
    assert!(report[1].status == CheckStatus::Fail);
    assert_eq!(report[2].details, "WARNING: No admin users in database! Seed data may not be loaded.");
    assert_eq!(report[6].details, "transactions_enabled = 'false' \u{26a0}\u{fe0f} TRANSACTIONS ARE DISABLED!");
    assert_eq!(report[7].details, "\u{26a0}\u{fe0f} 7 tokens reference non-existent users!");

    r.kill_switch = Err("pool timed out".to_string());
    r.total_supply = i64::MIN;
    let report = diagnostic_checks(&r);
    assert_eq!(report[6].details, "Could not read system_config: pool timed out");
    assert!(report[6].status == CheckStatus::Fail);
    assert_eq!(report[3].details, "Active UTXOs: 10, Spent UTXOs: 5, Total Supply: \u{20b9}-9223372036854775808");
}

#[test]
fn test_full_lifecycle() {
    let captcha = CaptchaService::new("server-captcha-secret");
    let username = format!("user_{}", uuid::Uuid::new_v4());
    let signup = SignupRequest {
        username,
        password: "StrongPassword123!".to_string(),
        captcha_token: "mock_token".to_string(),
        captcha_answer: "mock_ans".to_string(),
    };
    let outcome = check_signup(&signup, &captcha, 1_700_000_000);
    assert!(outcome.is_ok() || outcome.err().unwrap().status == 400);
}
