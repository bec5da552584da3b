//! Settings and errors of the server-to-server interface.

use vstd::prelude::*;
use crate::events::MatrixEvent;
use crate::util::{joined, owned};

verus! {

/// Settings of federation with other servers.
#[derive(Debug, Clone)]
pub struct FederationConfig {
    pub server_name: String,
    pub signing_key: String,
    pub verify_signatures: bool,
    pub federation_whitelist: Option<Vec<String>>,
    pub federation_blacklist: Option<Vec<String>>,
}

/// Talks to other servers. Delivery and signing happen outside the engine.
pub struct FederationClient {
    config: FederationConfig,
}

/// Why a federation request failed.
#[derive(Debug, Clone)]
pub enum FederationError {
    RoomNotFound(String),
    EventNotFound(String),
    ServerNotFound(String),
    InvalidSignature,
    NetworkError(String),
    ConfigError(String),
}

impl FederationError {
    /// The HTTP status for this error.
    pub open spec fn spec_status(&self) -> u16 {
        match self {
            FederationError::RoomNotFound(_) => 404,
            FederationError::EventNotFound(_) => 404,
            FederationError::ServerNotFound(_) => 404,
            FederationError::InvalidSignature => 401,
            FederationError::NetworkError(_) => 502,
            FederationError::ConfigError(_) => 500,
        }
    }

    /// The symbolic error code for this error.
    pub open spec fn spec_code(&self) -> Seq<char> {
        match self {
            FederationError::RoomNotFound(_) => "M_NOT_FOUND"@,
            FederationError::EventNotFound(_) => "M_NOT_FOUND"@,
            FederationError::ServerNotFound(_) => "M_NOT_FOUND"@,
            FederationError::InvalidSignature => "M_UNAUTHORIZED"@,
            FederationError::NetworkError(_) => "M_UNKNOWN"@,
            FederationError::ConfigError(_) => "M_UNKNOWN"@,
        }
    }

    /// The HTTP status for this error.
    pub fn status_code(&self) -> (r: u16)
        ensures
            r == self.spec_status(),
    {
        match self {
            FederationError::RoomNotFound(_) => 404,
            FederationError::EventNotFound(_) => 404,
            FederationError::ServerNotFound(_) => 404,
            FederationError::InvalidSignature => 401,
            FederationError::NetworkError(_) => 502,
            FederationError::ConfigError(_) => 500,
        }
    }

    /// The symbolic error code for this error.
    pub fn error_code(&self) -> (r: &'static str)
        ensures
            r@ == self.spec_code(),
    {
        match self {
            FederationError::RoomNotFound(_) => "M_NOT_FOUND",
            FederationError::EventNotFound(_) => "M_NOT_FOUND",
            FederationError::ServerNotFound(_) => "M_NOT_FOUND",
            FederationError::InvalidSignature => "M_UNAUTHORIZED",
            FederationError::NetworkError(_) => "M_UNKNOWN",
            FederationError::ConfigError(_) => "M_UNKNOWN",
        }
    }

    /// A human-readable description: a fixed text, followed by the detail the
    /// error carries, if any.
    pub fn message(&self) -> (r: String)
        ensures
            r@ == match self {
                FederationError::RoomNotFound(s) => "Room not found: "@ + s@,
                FederationError::EventNotFound(s) => "Event not found: "@ + s@,
                FederationError::ServerNotFound(s) => "Server not found: "@ + s@,
                FederationError::InvalidSignature => "Invalid signature"@,
                FederationError::NetworkError(s) => "Network error: "@ + s@,
                FederationError::ConfigError(s) => "Configuration error: "@ + s@,
            },
    {
        match self {
            FederationError::RoomNotFound(s) => joined("Room not found: ", s.as_str()),
            FederationError::EventNotFound(s) => joined("Event not found: ", s.as_str()),
            FederationError::ServerNotFound(s) => joined("Server not found: ", s.as_str()),
            FederationError::InvalidSignature => owned("Invalid signature"),
            FederationError::NetworkError(s) => joined("Network error: ", s.as_str()),
            FederationError::ConfigError(s) => joined("Configuration error: ", s.as_str()),
        }
    }
}

impl FederationClient {
    /// A client with `config`.
    pub fn new(config: FederationConfig) -> (r: Result<Self, FederationError>)
        ensures
            r is Ok && r->Ok_0.config_view() == config,
    {
        Ok(FederationClient { config })
    }

    /// The settings of this client.
    pub closed spec fn config_view(&self) -> FederationConfig {
        self.config
    }

    /// The name of this server.
    pub fn server_name(&self) -> (r: &String)
        ensures
            *r == self.config_view().server_name,
    {
        &self.config.server_name
    }

    /// Accepts `event` for delivery to `target_server`; delivery happens after the
    /// state change has been committed, outside the engine.
    pub fn send_event(&self, target_server: &str, event: &MatrixEvent) -> (r: Result<(), FederationError>)
        ensures
            r is Ok,
    {
        Ok(())
    }

    /// Whether `signature` is accepted for `event`. Cryptographic checking lies
    /// outside the engine: every signature is accepted, whether checking is
    /// switched on or off.
    pub fn verify_event_signature(&self, event: &MatrixEvent, signature: &str) -> (r: Result<bool, FederationError>)
        ensures
            r == Ok::<bool, FederationError>(true),
    {
        Ok(true)
    }
}

} // verus!
