//! Process configuration, built once at startup by the embedding program and
//! passed by reference into the services: no hidden global state here.
use vstd::prelude::*;

verus! {

/// Where the document store lives.
#[derive(Debug, Clone)]
pub struct MongoConfig {
    pub url: String,
    pub db_name: String,
}

/// The API process's own settings. `jwt_secret` keys token signatures and
/// `hash_salt` is the process-wide salt appended to hashed passwords; the
/// embedding program must warn when either is left at an insecure default.
#[derive(Debug, Clone)]
pub struct ApiConfig {
    pub port: u16,
    pub jwt_secret: String,
    pub thread_count: Option<usize>,
    pub hash_salt: String,
}

#[derive(Debug, Clone)]
pub struct Config {
    pub mongodb: MongoConfig,
    pub api: ApiConfig,
}

} // verus!
