//! The server's overall error, which wraps the errors of each part.

use vstd::prelude::*;
use crate::auth::AuthError;
use crate::client_server::ClientError;
use crate::federation::FederationError;
use crate::room::RoomError;
use crate::state::StateError;
use crate::util::joined;

verus! {

/// The result of a server operation.
pub type Result<T> = core::result::Result<T, MatrixServerError>;

/// Any error of the server. Errors raised by outside code (serialization, HTTP)
/// are carried as their message text.
#[derive(Debug, Clone)]
pub enum MatrixServerError {
    Auth(AuthError),
    Room(RoomError),
    Federation(FederationError),
    State(StateError),
    Client(ClientError),
    NetworkError(String),
    ConfigError(String),
    DatabaseError(String),
    SerializationError(String),
    HttpError(String),
    Internal(String),
}

impl MatrixServerError {
    /// The HTTP status for this error: authentication errors are 401 and
    /// federation errors 500; room and client errors keep their own.
    pub open spec fn spec_status(&self) -> u16 {
        match self {
            MatrixServerError::Auth(_) => 401,
            MatrixServerError::Room(e) => e.spec_status(),
            MatrixServerError::Federation(_) => 500,
            MatrixServerError::Client(e) => e.spec_status(),
            MatrixServerError::NetworkError(_) => 503,
            MatrixServerError::ConfigError(_) => 500,
            MatrixServerError::DatabaseError(_) => 500,
            MatrixServerError::SerializationError(_) => 400,
            MatrixServerError::HttpError(_) => 502,
            MatrixServerError::Internal(_) => 500,
            MatrixServerError::State(_) => 500,
        }
    }

    /// The symbolic error code for this error.
    pub open spec fn spec_code(&self) -> Seq<char> {
        match self {
            MatrixServerError::Auth(_) => "M_UNAUTHORIZED"@,
            MatrixServerError::Room(e) => e.spec_code(),
            MatrixServerError::Federation(_) => "M_FEDERATION_ERROR"@,
            MatrixServerError::Client(e) => e.spec_code(),
            MatrixServerError::NetworkError(_) => "M_UNKNOWN"@,
            MatrixServerError::ConfigError(_) => "M_UNKNOWN"@,
            MatrixServerError::DatabaseError(_) => "M_UNKNOWN"@,
            MatrixServerError::SerializationError(_) => "M_BAD_JSON"@,
            MatrixServerError::HttpError(_) => "M_UNKNOWN"@,
            MatrixServerError::Internal(_) => "M_UNKNOWN"@,
            MatrixServerError::State(_) => "M_UNKNOWN"@,
        }
    }

    /// The HTTP status for this error.
    pub fn status_code(&self) -> (r: u16)
        ensures
            r == self.spec_status(),
    {
        match self {
            MatrixServerError::Auth(_) => 401,
            MatrixServerError::Room(e) => e.status_code(),
            MatrixServerError::Federation(_) => 500,
            MatrixServerError::Client(e) => e.status_code(),
            MatrixServerError::NetworkError(_) => 503,
            MatrixServerError::ConfigError(_) => 500,
            MatrixServerError::DatabaseError(_) => 500,
            MatrixServerError::SerializationError(_) => 400,
            MatrixServerError::HttpError(_) => 502,
            MatrixServerError::Internal(_) => 500,
            MatrixServerError::State(_) => 500,
        }
    }

    /// The symbolic error code for this error.
    pub fn error_code(&self) -> (r: &'static str)
        ensures
            r@ == self.spec_code(),
    {
        match self {
            MatrixServerError::Auth(_) => "M_UNAUTHORIZED",
            MatrixServerError::Room(e) => e.error_code(),
            MatrixServerError::Federation(_) => "M_FEDERATION_ERROR",
            MatrixServerError::Client(e) => e.error_code(),
            MatrixServerError::NetworkError(_) => "M_UNKNOWN",
            MatrixServerError::ConfigError(_) => "M_UNKNOWN",
            MatrixServerError::DatabaseError(_) => "M_UNKNOWN",
            MatrixServerError::SerializationError(_) => "M_BAD_JSON",
            MatrixServerError::HttpError(_) => "M_UNKNOWN",
            MatrixServerError::Internal(_) => "M_UNKNOWN",
            MatrixServerError::State(_) => "M_UNKNOWN",
        }
    }

    /// A human-readable description of the errors that carry their own text.
    pub fn message(&self) -> (r: Option<String>)
        ensures
            match self {
                MatrixServerError::NetworkError(s) => r is Some && r->Some_0@ == "Network error: "@ + s@,
                MatrixServerError::ConfigError(s) => r is Some && r->Some_0@ == "Configuration error: "@ + s@,
                MatrixServerError::DatabaseError(s) => r is Some && r->Some_0@ == "Database error: "@ + s@,
                MatrixServerError::SerializationError(s) => r is Some && r->Some_0@ == "Serialization error: "@ + s@,
                MatrixServerError::HttpError(s) => r is Some && r->Some_0@ == "HTTP error: "@ + s@,
                MatrixServerError::Internal(s) => r is Some && r->Some_0@ == "Internal server error: "@ + s@,
                _ => r is None,
            },
    {
        match self {
            MatrixServerError::NetworkError(s) => Some(joined("Network error: ", s.as_str())),
            MatrixServerError::ConfigError(s) => Some(joined("Configuration error: ", s.as_str())),
            MatrixServerError::DatabaseError(s) => Some(joined("Database error: ", s.as_str())),
            MatrixServerError::SerializationError(s) => Some(joined("Serialization error: ", s.as_str())),
            MatrixServerError::HttpError(s) => Some(joined("HTTP error: ", s.as_str())),
            MatrixServerError::Internal(s) => Some(joined("Internal server error: ", s.as_str())),
            _ => None,
        }
    }
}

impl From<AuthError> for MatrixServerError {
    fn from(e: AuthError) -> (r: Self)
        ensures
            r == MatrixServerError::Auth(e),
    {
        MatrixServerError::Auth(e)
    }
}

impl vstd::std_specs::convert::FromSpecImpl<AuthError> for MatrixServerError {
    open spec fn obeys_from_spec() -> bool {
        true
    }

    open spec fn from_spec(e: AuthError) -> Self {
        MatrixServerError::Auth(e)
    }
}

impl From<RoomError> for MatrixServerError {
    fn from(e: RoomError) -> (r: Self)
        ensures
            r == MatrixServerError::Room(e),
    {
        MatrixServerError::Room(e)
    }
}

impl vstd::std_specs::convert::FromSpecImpl<RoomError> for MatrixServerError {
    open spec fn obeys_from_spec() -> bool {
        true
    }

    open spec fn from_spec(e: RoomError) -> Self {
        MatrixServerError::Room(e)
    }
}

impl From<FederationError> for MatrixServerError {
    fn from(e: FederationError) -> (r: Self)
        ensures
            r == MatrixServerError::Federation(e),
    {
        MatrixServerError::Federation(e)
    }
}

impl vstd::std_specs::convert::FromSpecImpl<FederationError> for MatrixServerError {
    open spec fn obeys_from_spec() -> bool {
        true
    }

    open spec fn from_spec(e: FederationError) -> Self {
        MatrixServerError::Federation(e)
    }
}

impl From<StateError> for MatrixServerError {
    fn from(e: StateError) -> (r: Self)
        ensures
            r == MatrixServerError::State(e),
    {
        MatrixServerError::State(e)
    }
}

impl vstd::std_specs::convert::FromSpecImpl<StateError> for MatrixServerError {
    open spec fn obeys_from_spec() -> bool {
        true
    }

    open spec fn from_spec(e: StateError) -> Self {
        MatrixServerError::State(e)
    }
}

impl From<ClientError> for MatrixServerError {
    fn from(e: ClientError) -> (r: Self)
        ensures
            r == MatrixServerError::Client(e),
    {
        MatrixServerError::Client(e)
    }
}

impl vstd::std_specs::convert::FromSpecImpl<ClientError> for MatrixServerError {
    open spec fn obeys_from_spec() -> bool {
        true
    }

    open spec fn from_spec(e: ClientError) -> Self {
        MatrixServerError::Client(e)
    }
}

} // verus!
