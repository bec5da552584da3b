//! Settings and errors of the embedded server.

use vstd::prelude::*;
use crate::store::StateStore;
use crate::util::{joined, owned};

verus! {

/// Settings of the embedded server.
#[derive(Debug, Clone)]
pub struct ConduitConfig {
    pub server_name: String,
    pub port: u16,
    pub database_url: String,
    pub oidc_enabled: bool,
    pub federation_enabled: bool,
    pub max_upload_size: usize,
}

impl Default for ConduitConfig {
    /// Port 8008, server `conduit.local`, a local database, identity and
    /// federation on, uploads up to 50 MiB.
    fn default() -> (r: Self)
        ensures
            r.server_name@ == "conduit.local"@,
            r.port == 8008,
            r.database_url@ == "sqlite:conduit.db"@,
            r.oidc_enabled,
            r.federation_enabled,
            r.max_upload_size == 50 * 1024 * 1024,
    {
        ConduitConfig {
            server_name: owned("conduit.local"),
            port: 8008,
            database_url: owned("sqlite:conduit.db"),
            oidc_enabled: true,
            federation_enabled: true,
            max_upload_size: 50 * 1024 * 1024,
        }
    }
}

/// Why the embedded server failed.
#[derive(Debug, Clone)]
pub enum ConduitError {
    ConfigError(String),
    DatabaseError(String),
    NetworkError(String),
    OIDCError(String),
    FederationError(String),
}

impl ConduitError {
    /// A human-readable description.
    pub fn message(&self) -> (r: String)
        ensures
            r@ == match self {
                ConduitError::ConfigError(s) => "Configuration error: "@ + s@,
                ConduitError::DatabaseError(s) => "Database error: "@ + s@,
                ConduitError::NetworkError(s) => "Network error: "@ + s@,
                ConduitError::OIDCError(s) => "OIDC error: "@ + s@,
                ConduitError::FederationError(s) => "Federation error: "@ + s@,
            },
    {
        match self {
            ConduitError::ConfigError(s) => joined("Configuration error: ", s.as_str()),
            ConduitError::DatabaseError(s) => joined("Database error: ", s.as_str()),
            ConduitError::NetworkError(s) => joined("Network error: ", s.as_str()),
            ConduitError::OIDCError(s) => joined("OIDC error: ", s.as_str()),
            ConduitError::FederationError(s) => joined("Federation error: ", s.as_str()),
        }
    }
}

/// The embedded server: its settings and the store of rooms it serves.
pub struct ConduitServer<S: StateStore> {
    config: ConduitConfig,
    state_store: S,
}

impl<S: StateStore> ConduitServer<S> {
    /// The settings of this server.
    pub closed spec fn config_view(&self) -> ConduitConfig {
        self.config
    }

    /// The store of this server.
    pub closed spec fn store_view(&self) -> S {
        self.state_store
    }

    /// A server with `config` over `state_store`.
    pub fn new(config: ConduitConfig, state_store: S) -> (r: Result<Self, ConduitError>)
        ensures
            r is Ok && r->Ok_0.config_view() == config && r->Ok_0.store_view() == state_store,
    {
        Ok(ConduitServer { config, state_store })
    }

    /// Starts serving; the network side runs outside the engine.
    pub fn start(&self) -> (r: Result<(), ConduitError>)
        ensures
            r is Ok,
    {
        Ok(())
    }

    /// The settings of this server.
    pub fn config(&self) -> (r: &ConduitConfig)
        ensures
            *r == self.config_view(),
    {
        &self.config
    }

    /// Whether identity-provider login is switched on.
    pub fn oidc_enabled(&self) -> (r: bool)
        ensures
            r == self.config_view().oidc_enabled,
    {
        self.config.oidc_enabled
    }

    /// Whether federation is switched on.
    pub fn federation_enabled(&self) -> (r: bool)
        ensures
            r == self.config_view().federation_enabled,
    {
        self.config.federation_enabled
    }
}

} // verus!
