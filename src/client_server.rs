//! Account registration, login and profiles for clients.

use vstd::prelude::*;
use crate::sources::random_uuid;
use crate::util::{joined, owned};

verus! {

/// Settings of the client-server interface.
#[derive(Debug, Clone)]
pub struct ClientServerConfig {
    pub server_name: String,
    pub registration_shared_secret: Option<String>,
    pub rate_limiting_enabled: bool,
    pub max_upload_size: usize,
}

/// Serves account requests of clients.
pub struct ClientServerAPI {
    config: ClientServerConfig,
}

/// The answer to a registration.
#[derive(Debug, Clone)]
pub struct RegisterResponse {
    pub user_id: String,
    pub access_token: String,
    pub device_id: String,
    pub home_server: String,
}

/// The answer to a login.
#[derive(Debug, Clone)]
pub struct LoginResponse {
    pub user_id: String,
    pub access_token: String,
    pub device_id: String,
    pub home_server: String,
}

/// A user's profile.
#[derive(Debug, Clone)]
pub struct UserProfile {
    pub displayname: Option<String>,
    pub avatar_url: Option<String>,
}

/// Why an account request failed.
#[derive(Debug, Clone)]
pub enum ClientError {
    UserNotFound(String),
    InvalidCredentials,
    UserAlreadyExists(String),
    InvalidUsername,
    PasswordTooWeak,
    RateLimited,
    ServerError(String),
}

impl ClientError {
    /// The HTTP status for this error.
    pub open spec fn spec_status(&self) -> u16 {
        match self {
            ClientError::UserNotFound(_) => 404,
            ClientError::InvalidCredentials => 401,
            ClientError::UserAlreadyExists(_) => 409,
            ClientError::InvalidUsername => 400,
            ClientError::PasswordTooWeak => 400,
            ClientError::RateLimited => 429,
            ClientError::ServerError(_) => 500,
        }
    }

    /// The symbolic error code for this error.
    pub open spec fn spec_code(&self) -> Seq<char> {
        match self {
            ClientError::UserNotFound(_) => "M_NOT_FOUND"@,
            ClientError::InvalidCredentials => "M_FORBIDDEN"@,
            ClientError::UserAlreadyExists(_) => "M_USER_IN_USE"@,
            ClientError::InvalidUsername => "M_INVALID_USERNAME"@,
            ClientError::PasswordTooWeak => "M_WEAK_PASSWORD"@,
            ClientError::RateLimited => "M_LIMIT_EXCEEDED"@,
            ClientError::ServerError(_) => "M_UNKNOWN"@,
        }
    }

    /// The HTTP status for this error.
    pub fn status_code(&self) -> (r: u16)
        ensures
            r == self.spec_status(),
    {
        match self {
            ClientError::UserNotFound(_) => 404,
            ClientError::InvalidCredentials => 401,
            ClientError::UserAlreadyExists(_) => 409,
            ClientError::InvalidUsername => 400,
            ClientError::PasswordTooWeak => 400,
            ClientError::RateLimited => 429,
            ClientError::ServerError(_) => 500,
        }
    }

    /// The symbolic error code for this error.
    pub fn error_code(&self) -> (r: &'static str)
        ensures
            r@ == self.spec_code(),
    {
        match self {
            ClientError::UserNotFound(_) => "M_NOT_FOUND",
            ClientError::InvalidCredentials => "M_FORBIDDEN",
            ClientError::UserAlreadyExists(_) => "M_USER_IN_USE",
            ClientError::InvalidUsername => "M_INVALID_USERNAME",
            ClientError::PasswordTooWeak => "M_WEAK_PASSWORD",
            ClientError::RateLimited => "M_LIMIT_EXCEEDED",
            ClientError::ServerError(_) => "M_UNKNOWN",
        }
    }
}

/// The full identifier of `username` on `server`: `@username:server`.
pub open spec fn full_user_id(username: Seq<char>, server: Seq<char>) -> Seq<char> {
    "@"@ + username + ":"@ + server
}

impl ClientServerAPI {
    /// An interface with `config`.
    pub fn new(config: ClientServerConfig) -> (r: Result<Self, ClientError>)
        ensures
            r is Ok && r->Ok_0.config_view() == config,
    {
        Ok(ClientServerAPI { config })
    }

    /// The settings of this interface.
    pub closed spec fn config_view(&self) -> ClientServerConfig {
        self.config
    }

    /// Fresh credentials for `username`: its full identifier, and a new access
    /// token (`token_` and a random identifier) and device (`device_` and another).
    fn credentials(&self, username: &str) -> (r: (String, String, String, String))
        ensures
            r.0@ == full_user_id(username@, self.config_view().server_name@),
            exists|u: Seq<char>| u.len() == 36 && r.1@ == "token_"@ + u,
            exists|u: Seq<char>| u.len() == 36 && r.2@ == "device_"@ + u,
            r.3 == self.config_view().server_name,
    {
        let head = joined("@", username);
        let head = joined(head.as_str(), ":");
        let user_id = joined(head.as_str(), self.config.server_name.as_str());
        let token = random_uuid();
        let access_token = joined("token_", token.as_str());
        let device = random_uuid();
        let device_id = joined("device_", device.as_str());
        (user_id, access_token, device_id, self.config.server_name.clone())
    }

    /// Registers `username` and hands out its first credentials.
    pub fn register_user(&self, username: &str, password: &str) -> (r: Result<RegisterResponse, ClientError>)
        ensures
            r is Ok,
            r->Ok_0.user_id@ == full_user_id(username@, self.config_view().server_name@),
            r->Ok_0.home_server == self.config_view().server_name,
            exists|u: Seq<char>| u.len() == 36 && r->Ok_0.access_token@ == "token_"@ + u,
            exists|u: Seq<char>| u.len() == 36 && r->Ok_0.device_id@ == "device_"@ + u,
    {
        let (user_id, access_token, device_id, home_server) = self.credentials(username);
        Ok(RegisterResponse { user_id, access_token, device_id, home_server })
    }

    /// Logs `username` in with new credentials.
    pub fn login_user(&self, username: &str, password: &str) -> (r: Result<LoginResponse, ClientError>)
        ensures
            r is Ok,
            r->Ok_0.user_id@ == full_user_id(username@, self.config_view().server_name@),
            r->Ok_0.home_server == self.config_view().server_name,
            exists|u: Seq<char>| u.len() == 36 && r->Ok_0.access_token@ == "token_"@ + u,
            exists|u: Seq<char>| u.len() == 36 && r->Ok_0.device_id@ == "device_"@ + u,
    {
        let (user_id, access_token, device_id, home_server) = self.credentials(username);
        Ok(LoginResponse { user_id, access_token, device_id, home_server })
    }

    /// The profile of `user_id`; profiles are not stored here, so every user shows
    /// the display name "Test User" and no avatar.
    pub fn get_profile(&self, user_id: &str) -> (r: Result<UserProfile, ClientError>)
        ensures
            r is Ok && r->Ok_0.displayname is Some && r->Ok_0.displayname->Some_0@ == "Test User"@
                && r->Ok_0.avatar_url is None,
    {
        Ok(UserProfile { displayname: Some(owned("Test User")), avatar_url: None })
    }

    /// Accepts a new profile for `user_id`; profiles are not stored here.
    pub fn update_profile(&self, user_id: &str, profile: UserProfile) -> (r: Result<(), ClientError>)
        ensures
            r is Ok,
    {
        Ok(())
    }
}

} // verus!
