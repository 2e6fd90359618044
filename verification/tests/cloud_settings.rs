use faba_plus::server::auth::{
    check_login, client_name_for_session, hash_password, is_duplicate_account, validate_display_name,
};
use faba_plus::server::config::{env_u64, service_limits, session_days};
use faba_plus::server::ApiError;

#[test]
fn session_days_default_and_bounds() {
    assert_eq!(session_days(None), 90);
    assert_eq!(session_days(Some("30")), 30);
    assert_eq!(session_days(Some("-4")), 1);
    assert_eq!(session_days(Some("0")), 1);
    assert_eq!(session_days(Some("1000")), 365);
    assert_eq!(session_days(Some("trente")), 90);
    assert_eq!(session_days(Some("")), 90);
}

#[test]
fn size_settings_fall_back_to_their_default() {
    assert_eq!(env_u64(None, 7), 7);
    assert_eq!(env_u64(Some("1234"), 7), 1234);
    assert_eq!(env_u64(Some("-1"), 7), 7);
    assert_eq!(env_u64(Some("12 Mo"), 7), 7);
}

#[test]
fn service_limits_are_kept_in_order() {
    let defaults = service_limits(None, None, None);
    assert_eq!(defaults.max_track_bytes, 200 * 1024 * 1024);
    assert_eq!(defaults.max_account_bytes, 5 * 1024 * 1024 * 1024);
    assert_eq!(defaults.max_total_bytes, 50 * 1024 * 1024 * 1024);

    let small = service_limits(Some("10"), Some("20"), Some("30"));
    assert_eq!(small.max_track_bytes, 1024 * 1024);
    assert_eq!(small.max_account_bytes, 1024 * 1024);
    assert_eq!(small.max_total_bytes, 1024 * 1024);

    let large = service_limits(Some("99999999999999"), Some("99999999999999"), Some("99999999999999"));
    assert_eq!(large.max_track_bytes, 1024 * 1024 * 1024);
    assert_eq!(large.max_account_bytes, 1024u64 * 1024 * 1024 * 1024);
    assert_eq!(large.max_total_bytes, 1024u64 * 1024 * 1024 * 1024);
}

#[test]
fn a_stored_password_hash_accepts_only_its_password() {
    let hash = hash_password("phrase-secrete-solide").ok().unwrap();
    assert!(hash.starts_with("$argon2"));
    assert!(!hash.contains("phrase-secrete-solide"));
    assert!(check_login(Some(&hash), "phrase-secrete-solide").is_ok());
    assert!(matches!(check_login(Some(&hash), "autre-phrase"), Err(ApiError::Unauthorized)));
    assert!(matches!(check_login(None, "phrase-secrete-solide"), Err(ApiError::Unauthorized)));
    assert!(matches!(check_login(Some("pas un hash"), "phrase-secrete-solide"), Err(ApiError::Unauthorized)));
    let again = hash_password("phrase-secrete-solide").ok().unwrap();
    assert_ne!(hash, again);
}

#[test]
fn accounts_and_sessions_are_named() {
    assert!(is_duplicate_account(Some("23505")));
    assert!(!is_duplicate_account(Some("23503")));
    assert!(!is_duplicate_account(None));
    assert_eq!(client_name_for_session(None), "FABA+ Custom Editor");
    assert_eq!(client_name_for_session(Some("  Atelier  ")), "Atelier");
    assert_eq!(client_name_for_session(Some(&"x".repeat(150))).len(), 100);
    assert_eq!(validate_display_name("  Edwin ").ok().unwrap(), "Edwin");
    assert!(validate_display_name("   ").is_err());
}
