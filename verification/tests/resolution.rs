use auth_core::auth::AuthService;
use auth_core::errors::AuthError;
use auth_core::models::{Role, User};
use auth_core::resolver::{extract_bearer, require_role, require_user};

fn service() -> AuthService {
    AuthService::new("topsecret", "salt")
}

fn user(id: &str, role: Role) -> User {
    User { _id: id.to_string(), role, email: "a@x.com".to_string() }
}

#[test]
fn missing_header_unauthorized() {
    let auth = service();
    assert_eq!(auth.resolve_subject(None).unwrap_err(), AuthError::Unauthorized);
    assert_eq!(auth.resolve_subject_at(None, 0).unwrap_err(), AuthError::Unauthorized);
}

#[test]
fn non_bearer_header_unauthorized() {
    let auth = service();
    let t = auth.create_token_at("user-1", 2000).unwrap();
    for h in
        [format!("Token {}", t), format!("bearer {}", t), format!("Bearer{}", t), String::new()]
    {
        let hv = h.clone().into_bytes();
        assert_eq!(
            auth.resolve_subject_at(Some(&hv), 1000).unwrap_err(),
            AuthError::Unauthorized
        );
    }
}

#[test]
fn malformed_token_unauthorized() {
    let auth = service();
    let hv = b"Bearer not-a-token".to_vec();
    assert_eq!(auth.resolve_subject_at(Some(&hv), 1000).unwrap_err(), AuthError::Unauthorized);
}

#[test]
fn non_ascii_token_bytes_unauthorized() {
    let auth = service();
    let mut hv = b"Bearer ".to_vec();
    hv.extend_from_slice(&[0xC3, 0xA9, 0x2E, 0xFF, 0x2E, 0x61]);
    assert_eq!(auth.resolve_subject_at(Some(&hv), 0).unwrap_err(), AuthError::Unauthorized);
    assert_eq!(auth.decode_token_at("t\u{e9}st.a.b", 0).unwrap_err(), AuthError::Unauthorized);
}

#[test]
fn unknown_subject_unauthorized() {
    // a well-formed token resolves to claims, but the lookup finds nobody
    let auth = service();
    let t = auth.create_token_at("ghost", 2000).unwrap();
    let hv = format!("Bearer {}", t).into_bytes();
    let claims = auth.resolve_subject_at(Some(&hv), 1000).unwrap();
    assert_eq!(claims.user_id, "ghost");
    assert_eq!(require_user(None).unwrap_err(), AuthError::Unauthorized);
}

#[test]
fn valid_bearer_header_resolves() {
    let auth = service();
    let t = auth.create_token_at("user-7", 2000).unwrap();
    let hv = format!("Bearer {}", t).into_bytes();
    let claims = auth.resolve_subject_at(Some(&hv), 1000).unwrap();
    assert_eq!(claims.user_id, "user-7");
    assert_eq!(claims.exp, 2000);
    let found = require_user(Some(user("user-7", Role::User))).unwrap();
    assert_eq!(found._id, "user-7");
}

#[test]
fn extract_bearer_strips_exactly_the_prefix() {
    let hv = b"Bearer abc.def.ghi".to_vec();
    assert_eq!(extract_bearer(Some(&hv)).unwrap(), b"abc.def.ghi".to_vec());
    assert_eq!(extract_bearer(None).unwrap_err(), AuthError::Unauthorized);
}

#[test]
fn role_satisfaction_table() {
    assert!(!Role::User.satisfy(Role::Admin));
    assert!(Role::Admin.satisfy(Role::Admin));
    assert!(Role::User.satisfy(Role::User));
    assert!(Role::Admin.satisfy(Role::User));
}

#[test]
fn role_gate_matches_table() {
    assert_eq!(
        require_role(user("u", Role::User), Role::Admin).unwrap_err(),
        AuthError::Unauthorized
    );
    assert!(require_role(user("u", Role::Admin), Role::Admin).is_ok());
    assert!(require_role(user("u", Role::User), Role::User).is_ok());
    assert!(require_role(user("u", Role::Admin), Role::User).is_ok());
}

#[test]
fn all_resolution_failures_look_alike() {
    let auth = service();
    let no_header = auth.resolve_subject(None).unwrap_err();
    let bad_prefix = auth.resolve_subject_at(Some(&b"Basic xyz".to_vec()), 0).unwrap_err();
    let bad_token = auth.resolve_subject_at(Some(&b"Bearer xyz".to_vec()), 0).unwrap_err();
    let no_user = require_user(None).unwrap_err();
    let bad_role = require_role(user("u", Role::User), Role::Admin).unwrap_err();
    assert_eq!(no_header, bad_prefix);
    assert_eq!(bad_prefix, bad_token);
    assert_eq!(bad_token, no_user);
    assert_eq!(no_user, bad_role);
}
