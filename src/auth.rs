//! The authenticated identity handed to the engine, and the token check that yields it.

use vstd::prelude::*;
use vstd::string::*;
use crate::util::{owned, starts_with};

verus! {

/// Settings of the identity provider.
#[derive(Debug, Clone)]
pub struct OIDCConfig {
    pub issuer_url: String,
    pub client_id: String,
    pub client_secret: String,
    pub redirect_url: String,
    pub scopes: Vec<String>,
    pub server_name: String,
}

/// An identity that has been authenticated.
#[derive(Debug, Clone)]
pub struct AuthenticatedUser {
    pub user_id: String,
    pub access_token: String,
    pub device_id: String,
    pub subscription_active: bool,
    pub scopes: Vec<String>,
}

/// Checks access tokens.
pub struct OIDCHandler {
    config: OIDCConfig,
}

/// Why authentication failed.
#[derive(Debug, Clone)]
pub enum AuthError {
    InvalidToken(String),
    TokenExpired,
    InsufficientPermissions(String),
    UserNotFound(String),
    OIDCError(String),
    NetworkError(String),
}

impl AuthError {
    /// The HTTP status for this error.
    pub open spec fn spec_status(&self) -> u16 {
        match self {
            AuthError::InvalidToken(_) => 401,
            AuthError::TokenExpired => 401,
            AuthError::InsufficientPermissions(_) => 403,
            AuthError::UserNotFound(_) => 404,
            AuthError::OIDCError(_) => 500,
            AuthError::NetworkError(_) => 500,
        }
    }

    /// The symbolic error code for this error.
    pub open spec fn spec_code(&self) -> Seq<char> {
        match self {
            AuthError::InvalidToken(_) => "M_UNKNOWN_TOKEN"@,
            AuthError::TokenExpired => "M_UNKNOWN_TOKEN"@,
            AuthError::InsufficientPermissions(_) => "M_FORBIDDEN"@,
            AuthError::UserNotFound(_) => "M_NOT_FOUND"@,
            AuthError::OIDCError(_) => "M_UNKNOWN"@,
            AuthError::NetworkError(_) => "M_UNKNOWN"@,
        }
    }

    /// The HTTP status for this error.
    pub fn status_code(&self) -> (r: u16)
        ensures
            r == self.spec_status(),
    {
        match self {
            AuthError::InvalidToken(_) => 401,
            AuthError::TokenExpired => 401,
            AuthError::InsufficientPermissions(_) => 403,
            AuthError::UserNotFound(_) => 404,
            AuthError::OIDCError(_) => 500,
            AuthError::NetworkError(_) => 500,
        }
    }

    /// The symbolic error code for this error.
    pub fn error_code(&self) -> (r: &'static str)
        ensures
            r@ == self.spec_code(),
    {
        match self {
            AuthError::InvalidToken(_) => "M_UNKNOWN_TOKEN",
            AuthError::TokenExpired => "M_UNKNOWN_TOKEN",
            AuthError::InsufficientPermissions(_) => "M_FORBIDDEN",
            AuthError::UserNotFound(_) => "M_NOT_FOUND",
            AuthError::OIDCError(_) => "M_UNKNOWN",
            AuthError::NetworkError(_) => "M_UNKNOWN",
        }
    }
}

/// The identity a token stands for: a token of the form `user_...` names the user
/// it spells, with write and read scopes and an active subscription.
pub open spec fn token_is_valid(token: Seq<char>) -> bool {
    "user_"@.len() <= token.len() && token.subrange(0, "user_"@.len() as int) == "user_"@
}

impl OIDCHandler {
    /// A handler with `config`.
    pub fn new(config: OIDCConfig) -> (r: Result<Self, AuthError>)
        ensures
            r is Ok,
    {
        Ok(OIDCHandler { config })
    }

    /// Checks `access_token` and returns the identity it stands for; a token that
    /// does not begin with `user_` is refused with `InvalidToken`.
    pub fn validate_token(&self, access_token: &str) -> (r: Result<AuthenticatedUser, AuthError>)
        ensures
            token_is_valid(access_token@) ==> r is Ok && r->Ok_0.user_id@ == access_token@
                && r->Ok_0.access_token@ == access_token@ && r->Ok_0.device_id@ == "device_123"@
                && r->Ok_0.subscription_active
                && r->Ok_0.scopes@.len() == 2 && r->Ok_0.scopes@[0]@ == "matrix:write"@
                && r->Ok_0.scopes@[1]@ == "matrix:read"@,
            !token_is_valid(access_token@) ==> r is Err && r->Err_0 is InvalidToken && r->Err_0->InvalidToken_0@ == "Invalid token format"@,
    {
        if !starts_with(access_token, "user_") {
            return Err(AuthError::InvalidToken(owned("Invalid token format")));
        }
        let mut scopes: Vec<String> = Vec::new();
        scopes.push(owned("matrix:write"));
        scopes.push(owned("matrix:read"));
        Ok(
            AuthenticatedUser {
                user_id: owned(access_token),
                access_token: owned(access_token),
                device_id: owned("device_123"),
                subscription_active: true,
                scopes,
            },
        )
    }

    /// Authenticates the value of an `Authorization` header: it must be present and
    /// read `Bearer <token>`, and the token must pass `validate_token`.
    pub fn authenticate_header(&self, header: Option<&str>) -> (r: Result<AuthenticatedUser, AuthError>)
        ensures
            match header {
                None => r is Err && r->Err_0 is InvalidToken && r->Err_0->InvalidToken_0@ == "Missing Authorization header"@,
                Some(h) => if !("Bearer "@.len() <= h@.len() && h@.subrange(0, 7) == "Bearer "@) {
                    r is Err && r->Err_0 is InvalidToken && r->Err_0->InvalidToken_0@ == "Invalid Authorization format"@
                } else {
                    let token = h@.subrange(7, h@.len() as int);
                    &&& token_is_valid(token) ==> r is Ok && r->Ok_0.user_id@ == token
                    &&& !token_is_valid(token) ==> r is Err && r->Err_0 is InvalidToken && r->Err_0->InvalidToken_0@ == "Invalid token format"@
                },
            },
    {
        proof {
            reveal_strlit("Bearer ");
        }
        let h = match header {
            None => return Err(AuthError::InvalidToken(owned("Missing Authorization header"))),
            Some(h) => h,
        };
        if !starts_with(h, "Bearer ") {
            return Err(AuthError::InvalidToken(owned("Invalid Authorization format")));
        }
        let n = h.unicode_len();
        let token = h.substring_char(7, n);
        self.validate_token(token)
    }

    /// Whether `user` holds `required_scope`.
    pub fn user_has_scope(&self, user: &AuthenticatedUser, required_scope: &str) -> (r: bool)
        ensures
            r == exists|i: int| 0 <= i < user.scopes@.len() && (#[trigger] user.scopes@[i])@ == required_scope@,
    {
        let wanted = owned(required_scope);
        let mut i: usize = 0;
        while i < user.scopes.len()
            invariant
                i <= user.scopes@.len(),
                wanted@ == required_scope@,
                forall|j: int| 0 <= j < i ==> (#[trigger] user.scopes@[j])@ != required_scope@,
            decreases user.scopes@.len() - i,
        {
            if user.scopes[i] == wanted {
                return true;
            }
            i = i + 1;
        }
        false
    }

    /// Whether `user`'s subscription is active.
    pub fn user_has_subscription(&self, user: &AuthenticatedUser) -> (r: bool)
        ensures
            r == user.subscription_active,
    {
        user.subscription_active
    }
}

/// A login request.
#[derive(Debug, Clone)]
pub struct LoginRequest {
    pub login_type: String,
    pub identifier: Option<UserIdentifier>,
    pub password: Option<String>,
    pub device_id: Option<String>,
    pub initial_device_display_name: Option<String>,
}

/// How a login names the user.
#[derive(Debug, Clone)]
pub struct UserIdentifier {
    pub id_type: String,
    pub user: Option<String>,
    pub medium: Option<String>,
    pub address: Option<String>,
}

/// The answer to a login.
#[derive(Debug, Clone)]
pub struct LoginResponse {
    pub user_id: String,
    pub access_token: String,
    pub device_id: String,
    pub expires_in_ms: Option<u64>,
    pub refresh_token: Option<String>,
}

/// A logout request.
#[derive(Debug, Clone)]
pub struct LogoutRequest {
    pub access_token: String,
}

/// The answer to a logout.
#[derive(Debug, Clone)]
pub struct LogoutResponse {
    pub message: String,
}

/// A device of a user.
#[derive(Debug, Clone)]
pub struct Device {
    pub device_id: String,
    pub display_name: Option<String>,
    pub last_seen_ip: Option<String>,
    pub last_seen_user_agent: Option<String>,
    pub last_seen_ts: Option<u64>,
}

/// A user's devices.
#[derive(Debug, Clone)]
pub struct DeviceListResponse {
    pub devices: Vec<Device>,
}

/// A user's public profile.
#[derive(Debug, Clone)]
pub struct UserProfile {
    pub user_id: String,
    pub displayname: Option<String>,
    pub avatar_url: Option<String>,
}

/// The answer to "who am I".
#[derive(Debug, Clone)]
pub struct WhoamiResponse {
    pub user_id: String,
    pub device_id: Option<String>,
    pub is_guest: bool,
}

} // verus!
