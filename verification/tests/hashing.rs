use auth_core::auth::AuthService;

#[test]
fn hash_is_deterministic() {
    let auth = AuthService::new("key", "salt");
    let a = auth.generate_hash("correct horse battery staple");
    let b = auth.generate_hash("correct horse battery staple");
    assert_eq!(a, b);
}

#[test]
fn hash_matches_known_digest() {
    // sha-256 of "secret" with the salt "salt" appended, in lower-case hex
    let auth = AuthService::new("key", "salt");
    let h = auth.generate_hash("secret");
    assert_eq!(h, "f84fa2149dbb62ed4e0cf1f550d2949b33a6513d3a7707e08502511c79ccb0ee");
    assert_eq!(h.len(), 64);
}

#[test]
fn hash_differs_for_different_inputs() {
    let auth = AuthService::new("key", "salt");
    assert_ne!(auth.generate_hash("secret"), auth.generate_hash("secre"));
    assert_ne!(auth.generate_hash(""), auth.generate_hash("a"));
}

#[test]
fn hash_depends_on_salt() {
    let a = AuthService::new("key", "salt-one");
    let b = AuthService::new("key", "salt-two");
    assert_ne!(a.generate_hash("secret"), b.generate_hash("secret"));
}

#[test]
fn hash_of_empty_plaintext_is_well_formed() {
    let auth = AuthService::new("key", "salt");
    let h = auth.generate_hash("");
    assert_eq!(h.len(), 64);
    assert!(h.chars().all(|c| c.is_ascii_hexdigit()));
}
