use base64::Engine;
use floppa_cli::time::{Span, UnixTime};
use floppa_cli::token::{
    claims_expiry, expiry_notice, load_token, logout, save_token, token_expiry, token_notice,
    token_path, warn_if_expiring, warning_for, FileStep, Json, TokenError, TokenPath, APP_DIR,
    LOGGED_OUT, TOKEN_FILE,
};
use std::time::{Duration, SystemTime};

/// Builds a minimal unsigned JWT with the given payload.
fn fake_jwt(payload_json: &str) -> String {
    let header = base64::engine::general_purpose::URL_SAFE_NO_PAD.encode(b"{\"alg\":\"none\"}");
    let payload = base64::engine::general_purpose::URL_SAFE_NO_PAD.encode(payload_json);
    format!("{header}.{payload}.sig")
}

fn at(secs: i64, nanos: u32) -> UnixTime {
    UnixTime { secs, nanos }
}

#[test]
fn token_expiry_reads_known_exp() {
    let token = fake_jwt(r#"{"sub":"1","exp":1735689600}"#);
    let expiry = token_expiry(&token).expect("should decode exp");
    assert_eq!(expiry, at(1_735_689_600, 0));
    assert_eq!(
        SystemTime::UNIX_EPOCH + Duration::new(expiry.secs as u64, expiry.nanos),
        SystemTime::UNIX_EPOCH + Duration::from_secs(1_735_689_600)
    );
}

#[test]
fn token_expiry_none_for_malformed_jwt() {
    assert!(token_expiry("not.a.jwt").is_none());
}

#[test]
fn token_expiry_none_for_opaque_token() {
    assert!(token_expiry("just-some-opaque-token-string").is_none());
}

#[test]
fn token_expiry_none_for_other_claims() {
    assert!(token_expiry(&fake_jwt(r#"{"sub":"1"}"#)).is_none());
    assert!(token_expiry(&fake_jwt(r#"{"exp":"1735689600"}"#)).is_none());
    assert!(token_expiry(&fake_jwt(r#"{"exp":-5}"#)).is_none());
    assert!(token_expiry(&fake_jwt(r#"{"exp":1.5}"#)).is_none());
    assert!(token_expiry(&fake_jwt(r#"{"exp":null}"#)).is_none());
    assert!(token_expiry(&fake_jwt(r#"[1735689600]"#)).is_none());
    assert!(token_expiry(&fake_jwt("null")).is_none());
    assert!(token_expiry(&fake_jwt("true")).is_none());
    assert!(token_expiry(&fake_jwt("7")).is_none());
    assert!(token_expiry(&fake_jwt("\"exp\"")).is_none());
    assert!(token_expiry(&fake_jwt("{\"exp\":1735689600")).is_none());
    assert!(token_expiry(&fake_jwt("")).is_none());
    assert!(token_expiry("").is_none());
    assert!(token_expiry(".").is_none());
}

#[test]
fn token_expiry_keeps_the_last_of_two_claims() {
    assert_eq!(token_expiry(&fake_jwt(r#"{"exp":1,"exp":2}"#)), Some(at(2, 0)));
}

#[test]
fn token_expiry_reads_padded_base64_as_unknown() {
    let payload = base64::engine::general_purpose::URL_SAFE.encode(r#"{"exp":17}"#);
    assert!(payload.ends_with('='));
    assert!(token_expiry(&format!("h.{payload}.s")).is_none());
    let bare = payload.trim_end_matches('=').to_string();
    assert_eq!(token_expiry(&format!("h.{bare}.s")), Some(at(17, 0)));
    assert_eq!(token_expiry(&format!("h.{bare}")), Some(at(17, 0)));
}

#[test]
fn token_expiry_is_unknown_past_the_range_of_time() {
    let exps: [u64; 6] = [
        0,
        1,
        1_735_689_600,
        9_223_372_036_854_775_807,
        9_223_372_036_854_775_808,
        18_446_744_073_709_551_615,
    ];
    for exp in exps {
        let token = fake_jwt(&format!("{{\"exp\":{exp}}}"));
        let expected = SystemTime::UNIX_EPOCH.checked_add(Duration::from_secs(exp));
        assert_eq!(token_expiry(&token).is_some(), expected.is_some());
        if let Some(t) = token_expiry(&token) {
            assert_eq!(t, at(exp as i64, 0));
        }
    }
    assert!(token_expiry(&fake_jwt("{\"exp\":18446744073709551616}")).is_none());
}

#[test]
fn claims_are_read_by_name() {
    let claims = Json::Object(vec![
        ("sub".to_string(), Some(1)),
        ("exp".to_string(), Some(5)),
        ("nbf".to_string(), None),
    ]);
    assert_eq!(claims_expiry(&claims), Some(at(5, 0)));
    assert_eq!(claims_expiry(&Json::Object(vec![("exp".to_string(), None)])), None);
    assert_eq!(claims_expiry(&Json::Object(vec![("EXP".to_string(), Some(5))])), None);
    assert_eq!(claims_expiry(&Json::Object(vec![])), None);
    assert_eq!(claims_expiry(&Json::Other), None);
}

#[test]
fn token_path_prefers_what_the_user_gave() {
    assert!(matches!(token_path(Some("/tmp/t"), true), Ok(TokenPath::Given(p)) if p == "/tmp/t"));
    assert!(matches!(token_path(Some("/tmp/t"), false), Ok(TokenPath::Given(p)) if p == "/tmp/t"));
    match token_path(None, true) {
        Ok(TokenPath::InConfigDir { dir, file }) => {
            assert_eq!(dir, "floppa-cli");
            assert_eq!(file, "token");
            assert_eq!(dir, APP_DIR);
            assert_eq!(file, TOKEN_FILE);
        }
        other => panic!("unexpected: {other:?}"),
    }
    let error = token_path(None, false).unwrap_err();
    assert_eq!(error, TokenError::NoConfigDir);
    assert_eq!(error.message(), "Cannot determine config directory");
}

#[test]
fn saved_token_loads_back() {
    let file = save_token("abc.def.ghi");
    assert_eq!(file.contents, "abc.def.ghi");
    assert_eq!(file.mode, 0o600);
    assert_eq!(load_token(Some(&file.contents)), Some("abc.def.ghi".to_string()));
}

#[test]
fn load_token_trims() {
    assert_eq!(load_token(Some("\t abc \r\n")), Some("abc".to_string()));
    assert_eq!(load_token(Some("\u{3000}a b\u{a0}")), Some("a b".to_string()));
    assert_eq!(load_token(Some(" \n")), None);
    assert_eq!(load_token(Some("")), None);
    assert_eq!(load_token(None), None);
    let once = load_token(Some("  x  ")).unwrap();
    assert_eq!(load_token(Some(&once)), Some(once.clone()));
}

#[test]
fn logout_removes_what_is_there() {
    assert_eq!(logout(true), FileStep::Remove);
    assert_eq!(logout(false), FileStep::Leave);
    assert_eq!(LOGGED_OUT, "Logged out.");
    // Whatever was saved, nothing is left to load.
    assert_eq!(load_token(None), None);
}

#[test]
fn warning_tells_the_hours_that_are_left() {
    let token = fake_jwt(r#"{"exp":1000000}"#);
    let expired = "Warning: token appears expired — re-login if this fails.".to_string();
    assert_eq!(warn_if_expiring(&token, &at(1_000_001, 0)), Some(expired.clone()));
    assert_eq!(warn_if_expiring(&token, &at(1_000_000, 1)), Some(expired));
    let hours = |h: u64| Some(format!("Warning: token expires in {h}h"));
    assert_eq!(warn_if_expiring(&token, &at(1_000_000, 0)), hours(0));
    assert_eq!(warn_if_expiring(&token, &at(1_000_000 - 3600, 0)), hours(1));
    assert_eq!(warn_if_expiring(&token, &at(1_000_000 - 3600, 1)), hours(0));
    assert_eq!(warn_if_expiring(&token, &at(1_000_000 - 86_400, 0)), hours(24));
    assert_eq!(warn_if_expiring(&token, &at(1_000_000 - 86_401, 999_999_999)), None);
    assert_eq!(warn_if_expiring(&token, &at(1_000_000 - 86_401, 0)), None);
    assert_eq!(warn_if_expiring(&token, &at(-5, 3)), None);
}

#[test]
fn nothing_is_warned_of_an_unknown_expiry() {
    assert_eq!(warn_if_expiring("opaque", &at(i64::MAX, 0)), None);
    assert_eq!(warning_for(None, &at(0, 0)), None);
}

#[test]
fn warning_agrees_with_system_time() {
    let expiry = SystemTime::UNIX_EPOCH + Duration::from_secs(500_000);
    let nows: [(u64, u32); 7] = [
        (0, 0),
        (413_599, 999_999_999),
        (413_600, 0),
        (413_600, 1),
        (499_999, 5),
        (500_000, 0),
        (500_000, 1),
    ];
    for (secs, nanos) in nows {
        let now = SystemTime::UNIX_EPOCH + Duration::new(secs, nanos);
        let expected = match expiry.duration_since(now) {
            Err(_) => {
                Some("Warning: token appears expired — re-login if this fails.".to_string())
            }
            Ok(remaining) if remaining <= Duration::from_secs(24 * 3600) => {
                let hours = remaining.as_secs() / 3600;
                Some(format!("Warning: token expires in {hours}h"))
            }
            Ok(_) => None,
        };
        assert_eq!(warning_for(Some(at(500_000, 0)), &at(secs as i64, nanos)), expected);
    }
}

#[test]
fn login_tells_of_the_expiry() {
    let t = UnixTime::after_epoch(&Span { secs: 1_735_689_600, nanos: 0 });
    assert_eq!(expiry_notice(t), "Token valid until 2025-01-01 00:00:00 UTC");
    assert_eq!(
        token_notice(&fake_jwt(r#"{"exp":1735689600}"#)),
        "Token valid until 2025-01-01 00:00:00 UTC"
    );
    assert_eq!(
        token_notice("opaque"),
        "Could not determine token expiry (unexpected token format)."
    );
}
