//! Server configuration model and its defaults. Loading configuration
//! from a file or from the environment is the surrounding program's work;
//! the defaults themselves are plain values built here.

use vstd::prelude::*;

use crate::trusted::uuid_new_v4_string;

verus! {

pub const API_NAME: &'static str = "Bencher API";

pub const DEFAULT_ENDPOINT: &'static str = "https://bencher.dev";

pub const DEFAULT_PORT: u16 = 61016;

/// One megabyte.
pub const DEFAULT_MAX_BODY_SIZE: usize = 1048576;

pub const DEFAULT_DB_PATH: &'static str = "data/bencher.db";

/// Server socket settings.
#[derive(Debug, Clone)]
pub struct JsonServer {
    pub bind_port: u16,
    pub request_body_max_bytes: usize,
}

/// Database location.
#[derive(Debug, Clone)]
pub struct JsonDatabase {
    pub file: String,
}

/// Logging identity.
#[derive(Debug, Clone)]
pub struct JsonLogging {
    pub name: String,
}

/// The whole configuration value handed to the server at start.
#[derive(Debug, Clone)]
pub struct JsonConfig {
    pub endpoint: String,
    pub secret_key: Option<String>,
    pub server: JsonServer,
    pub database: JsonDatabase,
    pub logging: JsonLogging,
}

/// Process configuration, read-only once built.
#[derive(Debug, Clone)]
pub struct Config(pub JsonConfig);

impl Default for Config {
    /// The documented defaults, with a freshly drawn secret key.
    fn default() -> (r: Self)
        ensures
            r.0.endpoint@ == DEFAULT_ENDPOINT@,
            r.0.secret_key matches Some(k) && k@.len() == 36,
            r.0.server.bind_port == DEFAULT_PORT,
            r.0.server.request_body_max_bytes == DEFAULT_MAX_BODY_SIZE,
            r.0.database.file@ == DEFAULT_DB_PATH@,
            r.0.logging.name@ == API_NAME@,
    {
        Config(
            JsonConfig {
                endpoint: DEFAULT_ENDPOINT.to_owned(),
                secret_key: Some(uuid_new_v4_string()),
                server: JsonServer {
                    bind_port: DEFAULT_PORT,
                    request_body_max_bytes: DEFAULT_MAX_BODY_SIZE,
                },
                database: JsonDatabase { file: DEFAULT_DB_PATH.to_owned() },
                logging: JsonLogging { name: API_NAME.to_owned() },
            },
        )
    }
}

} // verus!
