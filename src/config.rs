//! Configuration values and the checks made on them before start-up.
use vstd::prelude::*;

use crate::models::Role;

verus! {

/// Where the HTTP front end listens.
#[derive(Debug, Clone)]
pub struct ServerConfig {
    pub http_addr: String,
    pub public_base_url: String,
}

/// Per-request ceilings and daily caps by role.
#[derive(Debug, Clone, Copy, PartialEq, Eq, Structural)]
pub struct LimitConfig {
    pub default_amount: u64,
    pub default_daily_cap: u64,
    pub privileged_amount: u64,
    /// `None`: privileged users and admins have no daily cap.
    pub privileged_daily_cap: Option<u64>,
}

/// Identity-provider settings and the domains whose users are privileged.
#[derive(Debug, Clone)]
pub struct AuthConfig {
    pub google_client_id: String,
    pub google_client_secret: String,
    pub privileged_domains: Vec<String>,
}

/// Settings of the decoupled work queue; durations in milliseconds.
#[derive(Debug, Clone, Copy)]
pub struct QueueConfig {
    pub visibility_timeout: u64,
    pub retry_backoff: u64,
    pub max_retries: u16,
}

/// Which durable backend to connect to.
#[derive(Debug, Clone)]
pub enum DatabaseConfig {
    Postgres { url: String },
    Mongodb { url: String, database: String },
}

/// Logging output settings.
#[derive(Debug, Clone)]
pub struct TelemetryConfig {
    pub json: bool,
    pub otlp_endpoint: Option<String>,
}

/// The whole configuration.
#[derive(Debug, Clone)]
pub struct AppConfig {
    pub server: ServerConfig,
    pub limits: LimitConfig,
    pub auth: AuthConfig,
    pub queue: QueueConfig,
    pub database: DatabaseConfig,
    pub telemetry: TelemetryConfig,
}

/// A configuration that cannot be used.
#[derive(Debug, Clone, Copy, PartialEq, Eq, Structural)]
pub enum ConfigError {
    /// The Postgres URL is empty.
    MissingDatabaseUrl,
    /// The MongoDB URL is empty.
    MissingMongoUrl,
    /// No Google client id is set.
    MissingGoogleClientId,
}

/// The largest amount one request of `role` may ask for.
pub open spec fn ceiling(limits: LimitConfig, role: Role) -> u64 {
    match role {
        Role::User => limits.default_amount,
        Role::Privileged | Role::Admin => limits.privileged_amount,
    }
}

/// The daily cap of `role`, if it has one.
pub open spec fn daily_cap(limits: LimitConfig, role: Role) -> Option<u64> {
    match role {
        Role::User => Some(limits.default_daily_cap),
        Role::Privileged | Role::Admin => limits.privileged_daily_cap,
    }
}

impl LimitConfig {
    /// The per-request ceiling of `role`.
    pub fn max_amount(&self, role: Role) -> (r: u64)
        ensures
            r == ceiling(*self, role),
    {
        match role {
            Role::Admin | Role::Privileged => self.privileged_amount,
            Role::User => self.default_amount,
        }
    }

    /// The daily cap of `role`; `None` when uncapped.
    pub fn max_daily_cap(&self, role: Role) -> (r: Option<u64>)
        ensures
            r == daily_cap(*self, role),
    {
        match role {
            Role::Admin | Role::Privileged => self.privileged_daily_cap,
            Role::User => Some(self.default_daily_cap),
        }
    }
}

impl AppConfig {
    /// The first problem of the configuration, if any: an empty database URL (not
    /// checked when `skip_db`), then an empty Google client id.
    pub fn validate(&self, skip_db: bool) -> (r: Result<(), ConfigError>)
        ensures
            r == (if !skip_db && (self.database matches DatabaseConfig::Postgres { url }
                && url@.len() == 0) {
                Err(ConfigError::MissingDatabaseUrl)
            } else if !skip_db && (self.database matches DatabaseConfig::Mongodb { url, .. }
                && url@.len() == 0) {
                Err(ConfigError::MissingMongoUrl)
            } else if self.auth.google_client_id@.len() == 0 {
                Err(ConfigError::MissingGoogleClientId)
            } else {
                Ok(())
            }),
    {
        if !skip_db {
            match &self.database {
                DatabaseConfig::Postgres { url } => {
                    if url.as_str().unicode_len() == 0 {
                        return Err(ConfigError::MissingDatabaseUrl);
                    }
                },
                DatabaseConfig::Mongodb { url, .. } => {
                    if url.as_str().unicode_len() == 0 {
                        return Err(ConfigError::MissingMongoUrl);
                    }
                },
            }
        }
        if self.auth.google_client_id.as_str().unicode_len() == 0 {
            return Err(ConfigError::MissingGoogleClientId);
        }
        Ok(())
    }
}

} // verus!
