use auth_core::auth::AuthService;
use auth_core::credentials::{new_user, require_created, require_credential, CreateUserData};
use auth_core::errors::{build_generic_err, build_unauth_err, AuthError};
use auth_core::models::{Role, User, UserAuth};
use auth_core::resolver::require_user;

// The store is a collaborator: these tests stand one in with two vectors
// and drive the library's decision functions the way the embedding
// program does.
struct Store {
    auth: AuthService,
    users: Vec<User>,
    auths: Vec<UserAuth>,
    next_id: u32,
}

impl Store {
    fn new() -> Store {
        Store {
            auth: AuthService::new("topsecret", "salt"),
            users: Vec::new(),
            auths: Vec::new(),
            next_id: 0,
        }
    }

    fn fresh_id(&mut self) -> String {
        self.next_id += 1;
        format!("oid-{:04}", self.next_id)
    }

    fn register(&mut self, data: CreateUserData) -> Result<User, AuthError> {
        let id = self.fresh_id();
        let user = new_user(id.clone(), data.email);
        self.users.push(user.clone());
        let cred_id = self.fresh_id();
        let cred = self.auth.new_user_auth(cred_id, user._id.clone(), &data.password);
        self.auths.push(cred);
        let reloaded = self.users.iter().find(|u| u._id == id).cloned();
        require_created(reloaded)
    }

    fn login(&mut self, data: CreateUserData) -> Result<User, AuthError> {
        let found = self.users.iter().find(|u| u.email == data.email).cloned();
        let user = require_user(found)?;
        let hash = self.auth.generate_hash(&data.password);
        let cred = self
            .auths
            .iter()
            .find(|a| a.user_id == user._id && a.password_hash == hash)
            .cloned();
        require_credential(user, cred)
    }
}

fn creds(email: &str, password: &str) -> CreateUserData {
    CreateUserData { email: email.to_string(), password: password.to_string() }
}

#[test]
fn register_then_login_same_identity() {
    let mut store = Store::new();
    let registered = store.register(creds("a@x.com", "secret")).unwrap();
    assert_eq!(registered.email, "a@x.com");
    assert!(matches!(registered.role, Role::User));
    let logged_in = store.login(creds("a@x.com", "secret")).unwrap();
    assert_eq!(logged_in._id, registered._id);
}

#[test]
fn login_wrong_password_unauthorized() {
    let mut store = Store::new();
    store.register(creds("a@x.com", "secret")).unwrap();
    assert_eq!(store.login(creds("a@x.com", "wrong")).unwrap_err(), AuthError::Unauthorized);
}

#[test]
fn login_unknown_email_unauthorized_and_indistinguishable() {
    let mut store = Store::new();
    store.register(creds("a@x.com", "secret")).unwrap();
    let missing = store.login(creds("missing@x.com", "secret")).unwrap_err();
    let wrong = store.login(creds("a@x.com", "wrong")).unwrap_err();
    assert_eq!(missing, AuthError::Unauthorized);
    assert_eq!(missing, wrong);
}

#[test]
fn distinct_registrations_get_distinct_ids() {
    let mut store = Store::new();
    let a = store.register(creds("a@x.com", "pw-a")).unwrap();
    let b = store.register(creds("b@x.com", "pw-b")).unwrap();
    assert_ne!(a._id, b._id);
    assert!(store.login(creds("a@x.com", "pw-a")).is_ok());
    assert!(store.login(creds("b@x.com", "pw-b")).is_ok());
}

#[test]
fn stored_credential_holds_digest_not_password() {
    let auth = AuthService::new("topsecret", "salt");
    let cred = auth.new_user_auth("c1".to_string(), "u1".to_string(), "secret");
    assert_ne!(cred.password_hash, "secret");
    assert_eq!(cred.password_hash, auth.generate_hash("secret"));
}

#[test]
fn missing_reload_is_internal() {
    assert_eq!(require_created(None).unwrap_err(), AuthError::Internal);
}

#[test]
fn error_builders_name_the_two_conditions() {
    assert_eq!(build_unauth_err(), AuthError::Unauthorized);
    assert_eq!(build_generic_err(), AuthError::Internal);
}
