//! Auth verifier tests: a correct HMAC proof verifies; changing the
//! secret, the nonce, or the token makes it fail; an absent nonce or a
//! malformed token fails without panicking.

use hmac::Mac;
use lvsp::verify_token;

fn hmac_hex_token(secret: &str, nonce: &str) -> String {
    let mut mac = hmac::Hmac::<sha2::Sha256>::new_from_slice(secret.as_bytes())
        .expect("HMAC accepts keys of any length");
    mac.update(nonce.as_bytes());
    hex::encode(mac.finalize().into_bytes())
}

#[test]
fn valid_token_verifies() {
    let token = hmac_hex_token("hunter2", "Ab3xYz09qW");
    assert!(verify_token(
        String::from("hunter2"),
        Some(String::from("Ab3xYz09qW")),
        token,
    ));
}

#[test]
fn changed_secret_fails() {
    let token = hmac_hex_token("hunter2", "Ab3xYz09qW");
    assert!(!verify_token(
        String::from("hunter3"),
        Some(String::from("Ab3xYz09qW")),
        token,
    ));
}

#[test]
fn changed_nonce_fails() {
    let token = hmac_hex_token("hunter2", "Ab3xYz09qW");
    assert!(!verify_token(
        String::from("hunter2"),
        Some(String::from("Ab3xYz09qX")),
        token,
    ));
}

#[test]
fn changed_token_fails() {
    let token = hmac_hex_token("hunter2", "Ab3xYz09qW");
    let first = token.chars().next().unwrap();
    let flipped = if first == '0' { 'f' } else { '0' };
    let mut other = String::new();
    other.push(flipped);
    other.push_str(&token[1..]);
    assert!(!verify_token(
        String::from("hunter2"),
        Some(String::from("Ab3xYz09qW")),
        other,
    ));
}

#[test]
fn missing_nonce_fails() {
    let token = hmac_hex_token("hunter2", "Ab3xYz09qW");
    assert!(!verify_token(String::from("hunter2"), None, token));
}

#[test]
fn non_hex_token_fails() {
    assert!(!verify_token(
        String::from("hunter2"),
        Some(String::from("Ab3xYz09qW")),
        String::from("zz00"),
    ));
}

#[test]
fn odd_length_token_fails() {
    assert!(!verify_token(
        String::from("hunter2"),
        Some(String::from("Ab3xYz09qW")),
        String::from("abc"),
    ));
}

#[test]
fn uppercase_token_verifies() {
    let token = hmac_hex_token("hunter2", "Ab3xYz09qW").to_uppercase();
    assert!(verify_token(
        String::from("hunter2"),
        Some(String::from("Ab3xYz09qW")),
        token,
    ));
}
