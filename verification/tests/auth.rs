use base64::engine::general_purpose::URL_SAFE_NO_PAD;
use base64::Engine;
use hmac::{Hmac, Mac};
use serde_json::Value;
use sha2::Sha256;

use nosebleed::auth::{
    check_payload, default_role, open_token, split_token, validate_claims, validate_match_token,
    MatchClaims, MatchRole,
};

fn sign(payload_json: &str, secret: &[u8]) -> String {
    let payload = URL_SAFE_NO_PAD.encode(payload_json.as_bytes());
    let mut mac = Hmac::<Sha256>::new_from_slice(secret).expect("hmac");
    mac.update(payload_json.as_bytes());
    let signature = URL_SAFE_NO_PAD.encode(mac.finalize().into_bytes());
    format!("{payload}.{signature}")
}

fn parse(payload: &Vec<u8>) -> Result<MatchClaims, String> {
    let value: Value = serde_json::from_slice(payload).map_err(|err| err.to_string())?;
    let text = |key: &str| value[key].as_str().map(|s| s.to_string()).ok_or("missing".to_string());
    let role = match value["role"].as_str() {
        Some("spectator") => MatchRole::Spectator,
        Some("player") => MatchRole::Player,
        _ => default_role(),
    };
    let mut allowed_ports: Vec<u32> = Vec::new();
    if let Some(list) = value["allowed_ports"].as_array() {
        for port in list {
            allowed_ports.push(port.as_u64().unwrap() as u32);
        }
    }
    Ok(MatchClaims {
        match_id: text("match_id")?,
        player_id: text("player_id")?,
        role,
        allowed_ports,
        exp_unix_ms: value["exp_unix_ms"].as_u64().ok_or("missing".to_string())?,
        iat_unix_ms: value["iat_unix_ms"].as_u64(),
    })
}

fn payload(exp_unix_ms: u64) -> String {
    format!(
        "{{\"match_id\":\"m-1\",\"player_id\":\"p-1\",\"role\":\"player\",\"allowed_ports\":[0],\"exp_unix_ms\":{exp_unix_ms}}}"
    )
}

fn claims() -> MatchClaims {
    MatchClaims {
        match_id: " m-1 ".to_string(),
        player_id: "p-1".to_string(),
        role: MatchRole::Player,
        allowed_ports: vec![3, 0, 3],
        exp_unix_ms: 100,
        iat_unix_ms: None,
    }
}

#[test]
fn validates_player_token() {
    let secret = b"test-secret";
    let now = 1_700_000_000_000u64;
    let token = sign(&payload(now + 1000), secret);
    let claims = validate_match_token(&token, secret, now, parse).expect("valid token");
    assert_eq!(claims.match_id, "m-1");
    assert_eq!(claims.allowed_ports, vec![0]);
}

#[test]
fn rejects_expired_token() {
    let secret = b"test-secret";
    let now = 1_700_000_000_000u64;
    let token = sign(&payload(now - 1), secret);
    assert!(validate_match_token(&token, secret, now, parse).is_err());
}

#[test]
fn a_token_under_another_secret_is_refused() {
    let token = sign(&payload(200), b"one");
    let refused = validate_match_token(&token, b"two", 100, parse).unwrap_err();
    assert_eq!(refused, "token signature verification failed: MAC tag mismatch");
}

#[test]
fn the_payload_is_what_was_signed() {
    let token = sign("hello", b"key");
    assert_eq!(open_token(&token, b"key").unwrap(), b"hello".to_vec());
    let versioned = format!("v1.{token}");
    assert_eq!(open_token(&versioned, b"key").unwrap(), b"hello".to_vec());
}

#[test]
fn parts_of_a_token() {
    assert_eq!(split_token("a.b").unwrap(), ("a".to_string(), "b".to_string()));
    assert_eq!(split_token("v1.a.b").unwrap(), ("a".to_string(), "b".to_string()));
    assert_eq!(split_token("a").unwrap_err(), "missing token signature");
    assert_eq!(split_token("v2.a.b").unwrap_err(), "invalid token format");
    assert_eq!(split_token("a.b.c.d").unwrap_err(), "invalid token format");
}

#[test]
fn bad_encodings_are_told_apart() {
    let secret = b"key";
    let first = open_token("$.aGk", secret).unwrap_err();
    assert!(first.starts_with("invalid token payload encoding: "), "{first}");
    let second = open_token("aGk.$", secret).unwrap_err();
    assert!(second.starts_with("invalid token signature encoding: "), "{second}");
}

#[test]
fn a_payload_that_holds_no_claims_is_refused() {
    let token = sign("[]x", b"key");
    let refused = validate_match_token(&token, b"key", 1, parse).unwrap_err();
    assert!(refused.starts_with("invalid token payload JSON: "), "{refused}");
}

#[test]
fn decoded_parts_are_checked() {
    let bad: Result<Vec<u8>, String> = Err("odd".to_string());
    assert_eq!(
        check_payload(bad, Ok(vec![1]), b"key").unwrap_err(),
        "invalid token payload encoding: odd"
    );
    let refused = check_payload(Ok(vec![1]), Ok(vec![1]), b"key").unwrap_err();
    assert_eq!(refused, "token signature verification failed: MAC tag mismatch");
}

#[test]
fn claims_are_tidied() {
    let out = validate_claims(claims(), 99).unwrap();
    assert_eq!(out.match_id, "m-1");
    assert_eq!(out.allowed_ports, vec![0, 3]);
    assert_eq!(out.exp_unix_ms, 100);
}

#[test]
fn claims_that_do_not_hold() {
    let mut nameless = claims();
    nameless.match_id = "  ".to_string();
    assert_eq!(validate_claims(nameless, 1).unwrap_err(), "token missing match_id");
    let mut nobody = claims();
    nobody.player_id = "".to_string();
    assert_eq!(validate_claims(nobody, 1).unwrap_err(), "token missing player_id");
    assert_eq!(validate_claims(claims(), 100).unwrap_err(), "token expired");
    let mut far = claims();
    far.allowed_ports = vec![8];
    assert_eq!(validate_claims(far, 1).unwrap_err(), "token has out-of-range port");
}
