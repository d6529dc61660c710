use auth_core::auth::{AuthService, TOKEN_TTL_SECONDS};
use auth_core::errors::AuthError;
use auth_core::models::{Role, User};
use base64::Engine;

fn service() -> AuthService {
    AuthService::new("topsecret", "salt")
}

#[test]
fn token_has_expected_wire_form() {
    // header {"typ":"JWT","alg":"HS512"} and payload {"user_id":"abc123","exp":1000},
    // each in unpadded url-safe base64, signed with HMAC-SHA512 under "topsecret"
    let t = service().create_token_at("abc123", 1000).unwrap();
    assert_eq!(
        t,
        "eyJ0eXAiOiJKV1QiLCJhbGciOiJIUzUxMiJ9.eyJ1c2VyX2lkIjoiYWJjMTIzIiwiZXhwIjoxMDAwfQ.\
         MXV9wkIcYW-Hjg9AwfRgV9gGIsg_in3SaFNtzL3VUIZxLG2QNtQYttR8x5ZkViisxUQ8asGoCYebH7cQ4F5c8A"
    );
}

#[test]
fn issue_then_verify_round_trip() {
    let auth = service();
    let t = auth.create_token_at("user-1", 2000).unwrap();
    let c = auth.decode_token_at(&t, 1500).unwrap();
    assert_eq!(c.user_id, "user-1");
    assert_eq!(c.exp, 2000);
}

#[test]
fn verify_against_clock_round_trip() {
    let auth = service();
    let user = User { _id: "64f0aa".to_string(), role: Role::User, email: "a@x.com".to_string() };
    let t = auth.create_token(&user).unwrap();
    let c = auth.decode_token(&t).unwrap();
    assert_eq!(c.user_id, user._id);
}

#[test]
fn expiry_is_issue_time_plus_ttl() {
    assert_eq!(TOKEN_TTL_SECONDS, 365 * 24 * 60 * 60);
    let auth = service();
    let before = jsonwebtoken::get_current_timestamp();
    let user = User { _id: "u1".to_string(), role: Role::User, email: "a@x.com".to_string() };
    let t = auth.create_token(&user).unwrap();
    let after = jsonwebtoken::get_current_timestamp();
    let c = auth.decode_token(&t).unwrap();
    assert!(c.exp >= before + TOKEN_TTL_SECONDS);
    assert!(c.exp <= after + TOKEN_TTL_SECONDS);
}

#[test]
fn expired_token_rejected() {
    let auth = service();
    let t = auth.create_token_at("user-1", 100).unwrap();
    assert_eq!(auth.decode_token_at(&t, 101).unwrap_err(), AuthError::Unauthorized);
    // the boundary second still passes
    assert!(auth.decode_token_at(&t, 100).is_ok());
    // and a long-expired token fails against the real clock too
    assert_eq!(auth.decode_token(&t).unwrap_err(), AuthError::Unauthorized);
}

#[test]
fn wrong_secret_rejected() {
    let issuer = AuthService::new("secret-one", "salt");
    let verifier = AuthService::new("secret-two", "salt");
    let t = issuer.create_token_at("user-1", 2000).unwrap();
    assert!(issuer.decode_token_at(&t, 1000).is_ok());
    assert_eq!(verifier.decode_token_at(&t, 1000).unwrap_err(), AuthError::Unauthorized);
}

#[test]
fn tampered_token_rejected() {
    let auth = service();
    let t = auth.create_token_at("user-1", 2000).unwrap();
    let mut bytes = t.into_bytes();
    let dot = bytes.iter().position(|&b| b == b'.').unwrap();
    // flip one payload character to another alphabet character
    let k = dot + 2;
    bytes[k] = if bytes[k] == b'A' { b'B' } else { b'A' };
    let tampered = String::from_utf8(bytes).unwrap();
    assert_eq!(auth.decode_token_at(&tampered, 1000).unwrap_err(), AuthError::Unauthorized);
}

#[test]
fn malformed_tokens_rejected() {
    let auth = service();
    for bad in ["", "abc", "a.b", "a.b.c.d", "!!.??.!!", "one.two.three"] {
        assert_eq!(auth.decode_token_at(bad, 0).unwrap_err(), AuthError::Unauthorized);
    }
}

#[test]
fn other_algorithm_header_rejected() {
    // splice in a different algorithm's header and re-sign the message with
    // the right secret: the signature is valid, the header is not pinned
    let auth = service();
    let t = auth.create_token_at("user-1", 2000).unwrap();
    let parts: Vec<&str> = t.split('.').collect();
    let eng = &base64::engine::general_purpose::URL_SAFE_NO_PAD;
    let other_header = eng.encode(b"{\"typ\":\"JWT\",\"alg\":\"HS256\"}");
    let msg = format!("{}.{}", other_header, parts[1]);
    let key = jsonwebtoken::EncodingKey::from_secret(b"topsecret");
    let sig =
        jsonwebtoken::crypto::sign(msg.as_bytes(), &key, jsonwebtoken::Algorithm::HS512).unwrap();
    let spliced = format!("{}.{}", msg, sig);
    assert_eq!(auth.decode_token_at(&spliced, 1000).unwrap_err(), AuthError::Unauthorized);
}

#[test]
fn escaped_subject_round_trips() {
    let auth = service();
    let subject = "a\"b\\c\nd\u{1}e and some unicode: \u{e9}\u{4e16}";
    let t = auth.create_token_at(subject, 2000).unwrap();
    let c = auth.decode_token_at(&t, 1000).unwrap();
    assert_eq!(c.user_id, subject);
}

#[test]
fn maximum_expiry_round_trips() {
    let auth = service();
    let t = auth.create_token_at("user-1", u64::MAX).unwrap();
    let c = auth.decode_token_at(&t, 1_700_000_000).unwrap();
    assert_eq!(c.exp, u64::MAX);
}

#[test]
fn empty_subject_round_trips() {
    let auth = service();
    let t = auth.create_token_at("", 2000).unwrap();
    let c = auth.decode_token_at(&t, 1000).unwrap();
    assert_eq!(c.user_id, "");
}
