use tailtask::access::{authenticate, check_token, random_secret, revoke, ControllerEntry, PairRequest, PairingRecord, PairingSession};
use tailtask::remote_model::hex_digest_text;

#[test]
fn secrets_are_64_lower_hex_digits() {
    let a = random_secret().unwrap();
    let b = random_secret().unwrap();
    assert_eq!(a.len(), 64);
    assert!(a.chars().all(|c| c.is_ascii_digit() || ('a'..='f').contains(&c)));
    assert_ne!(a, b);
}

#[test]
fn pairing_is_single_use_expiring_and_rate_limited() {
    let record = PairingRecord::fresh("s".into(), hex_digest_text("right"), 100);
    let (record, outcome) = record.attempt("wrong", 10);
    assert_eq!(outcome.unwrap_err(), "PAIRING_INVALID");
    assert_eq!(record.attempts, 1);
    let (record, outcome) = record.attempt("right", 10);
    assert!(outcome.is_ok());
    assert!(record.consumed);
    let (_, again) = record.attempt("right", 11);
    assert_eq!(again.unwrap_err(), "PAIRING_EXPIRED_OR_USED");
    let late = PairingRecord::fresh("s".into(), hex_digest_text("right"), 100);
    assert!(late.attempt("right", 100).1.is_err());
    let mut r = PairingRecord::fresh("s".into(), hex_digest_text("right"), 100);
    for _ in 0..5 {
        r = r.attempt("wrong", 1).0;
    }
    assert_eq!(r.attempt("right", 1).1.unwrap_err(), "PAIRING_EXPIRED_OR_USED");
}

#[test]
fn sessions_last_five_minutes_and_requests_are_checked() {
    let s = PairingSession::new("id".into(), "secret".into(), 1000);
    assert_eq!(s.expires_at, 1300);
    let ok = PairRequest { session_id: "019147f5-5a8d-42aa-8110-f224436657e0".into(), secret: "a".repeat(64), controller_name: "控制端 A".into() };
    assert!(ok.check().is_ok());
    let unnamed = PairRequest { controller_name: " ".into(), ..ok.clone() };
    assert!(unnamed.check().is_err());
    assert!(check_token(&"t".repeat(64)).is_ok());
    assert_eq!(check_token("short").unwrap_err(), "UNAUTHORIZED");
}

#[test]
fn tokens_authenticate_their_controller_until_revoked() {
    let token = "a".repeat(64);
    let other = "b".repeat(64);
    let table = vec![
        ControllerEntry { id: "old".into(), token_hash: hex_digest_text(&other), revoked: true },
        ControllerEntry { id: "c".into(), token_hash: hex_digest_text(&token), revoked: false },
    ];
    assert_eq!(authenticate(&token, &table).unwrap(), "c");
    assert_eq!(authenticate(&other, &table).unwrap_err(), "UNAUTHORIZED");
    assert_eq!(authenticate("short", &table).unwrap_err(), "UNAUTHORIZED");
    assert_eq!(revoke(table.clone(), "missing").unwrap_err(), "CONTROLLER_NOT_FOUND");
    let revoked = revoke(table, "c").unwrap();
    assert!(revoked[1].revoked && revoked[0].revoked);
    assert_eq!(authenticate(&token, &revoked).unwrap_err(), "UNAUTHORIZED");
    assert!(revoke(revoked, "c").is_ok());
}
