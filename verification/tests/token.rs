use base64::engine::general_purpose::URL_SAFE_NO_PAD;
use base64::Engine;
use serde_json::Value;
use sluice::loopback::token::{ChainToken, TokenError};

fn sample() -> ChainToken {
    ChainToken {
        cid: "conv-1".to_string(),
        route_id: "opus".to_string(),
        resume_index: 2,
        hop: 0,
        expires_at_unix: 1_000,
    }
}

#[test]
fn sign_then_verify_round_trips_all_fields() {
    let token = sample();
    let signed = token.sign(b"secret");
    let verified = ChainToken::verify(&signed, b"secret", 500).unwrap();
    assert_eq!(verified, token);
}

#[test]
fn verify_rejects_wrong_secret_as_bad_mac() {
    let token = sample();
    let signed = token.sign(b"secret");
    let err = ChainToken::verify(&signed, b"wrong-secret", 500).unwrap_err();
    assert_eq!(err, TokenError::BadMac);
}

#[test]
fn verify_rejects_tampered_payload_as_bad_mac() {
    let token = sample();
    let signed = token.sign(b"secret");
    let (payload_b64, mac_b64) = signed.split_once('.').unwrap();
    let mut claims: Value =
        serde_json::from_slice(&URL_SAFE_NO_PAD.decode(payload_b64).unwrap()).unwrap();
    claims["hop"] = Value::from(99);
    let tampered_payload = URL_SAFE_NO_PAD.encode(serde_json::to_vec(&claims).unwrap());
    let tampered = format!("{tampered_payload}.{mac_b64}");

    let err = ChainToken::verify(&tampered, b"secret", 500).unwrap_err();
    assert_eq!(err, TokenError::BadMac);
}

#[test]
fn verify_rejects_tampered_mac_as_bad_mac() {
    let token = sample();
    let signed = token.sign(b"secret");
    let (payload_b64, _mac_b64) = signed.split_once('.').unwrap();
    let bogus_mac = URL_SAFE_NO_PAD.encode([0u8; 32]);
    let tampered = format!("{payload_b64}.{bogus_mac}");

    let err = ChainToken::verify(&tampered, b"secret", 500).unwrap_err();
    assert_eq!(err, TokenError::BadMac);
}

#[test]
fn verify_rejects_expired_token() {
    let token = sample();
    let signed = token.sign(b"secret");
    let err = ChainToken::verify(&signed, b"secret", 1_000).unwrap_err();
    assert_eq!(err, TokenError::Expired);

    let err = ChainToken::verify(&signed, b"secret", 1_001).unwrap_err();
    assert_eq!(err, TokenError::Expired);
}

#[test]
fn verify_accepts_token_just_before_expiry() {
    let token = sample();
    let signed = token.sign(b"secret");
    let verified = ChainToken::verify(&signed, b"secret", 999).unwrap();
    assert_eq!(verified, token);
}

#[test]
fn verify_rejects_missing_dot_as_bad_format() {
    let err = ChainToken::verify("not-a-token", b"secret", 0).unwrap_err();
    assert_eq!(err, TokenError::BadFormat);
}

#[test]
fn verify_rejects_non_base64_payload_as_bad_format() {
    let err = ChainToken::verify("not!base64.also!bad", b"secret", 0).unwrap_err();
    assert_eq!(err, TokenError::BadFormat);
}

#[test]
fn with_incremented_hop_increments_only_hop() {
    let token = sample();
    let bumped = token.clone().with_incremented_hop();
    assert_eq!(bumped.hop, token.hop + 1);
    assert_eq!(bumped.cid, token.cid);
    assert_eq!(bumped.route_id, token.route_id);
    assert_eq!(bumped.resume_index, token.resume_index);
    assert_eq!(bumped.expires_at_unix, token.expires_at_unix);
}

#[test]
fn with_incremented_hop_can_be_chained() {
    let token = sample();
    let bumped = token.with_incremented_hop().with_incremented_hop();
    assert_eq!(bumped.hop, 2);
}
