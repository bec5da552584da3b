use matrix_chat_system::auth::AuthError;
use matrix_chat_system::client_server::ClientError;
use matrix_chat_system::conduit::{ConduitConfig, ConduitError};
use matrix_chat_system::error::{MatrixServerError, Result};
use matrix_chat_system::federation::{FederationConfig, FederationError};
use matrix_chat_system::room::RoomError;
use matrix_chat_system::state::StateError;

#[test]
fn test_client_error_status_codes() {
    assert_eq!(ClientError::UserNotFound("user".to_string()).status_code(), 404);
    assert_eq!(ClientError::InvalidCredentials.status_code(), 401);
    assert_eq!(ClientError::UserAlreadyExists("user".to_string()).status_code(), 409);
    assert_eq!(ClientError::InvalidUsername.status_code(), 400);
    assert_eq!(ClientError::PasswordTooWeak.status_code(), 400);
    assert_eq!(ClientError::RateLimited.status_code(), 429);
    assert_eq!(ClientError::ServerError("error".to_string()).status_code(), 500);
}

#[test]
fn test_client_error_codes() {
    assert_eq!(ClientError::UserNotFound("user".to_string()).error_code(), "M_NOT_FOUND");
    assert_eq!(ClientError::InvalidCredentials.error_code(), "M_FORBIDDEN");
    assert_eq!(ClientError::UserAlreadyExists("user".to_string()).error_code(), "M_USER_IN_USE");
    assert_eq!(ClientError::InvalidUsername.error_code(), "M_INVALID_USERNAME");
    assert_eq!(ClientError::PasswordTooWeak.error_code(), "M_WEAK_PASSWORD");
    assert_eq!(ClientError::RateLimited.error_code(), "M_LIMIT_EXCEEDED");
    assert_eq!(ClientError::ServerError("error".to_string()).error_code(), "M_UNKNOWN");
}

#[test]
fn test_federation_error_status_codes() {
    assert_eq!(FederationError::RoomNotFound("room".to_string()).status_code(), 404);
    assert_eq!(FederationError::EventNotFound("event".to_string()).status_code(), 404);
    assert_eq!(FederationError::ServerNotFound("server".to_string()).status_code(), 404);
    assert_eq!(FederationError::InvalidSignature.status_code(), 401);
    assert_eq!(FederationError::NetworkError("error".to_string()).status_code(), 502);
    assert_eq!(FederationError::ConfigError("error".to_string()).status_code(), 500);
}

#[test]
fn test_federation_error_codes() {
    assert_eq!(FederationError::RoomNotFound("room".to_string()).error_code(), "M_NOT_FOUND");
    assert_eq!(FederationError::EventNotFound("event".to_string()).error_code(), "M_NOT_FOUND");
    assert_eq!(FederationError::ServerNotFound("server".to_string()).error_code(), "M_NOT_FOUND");
    assert_eq!(FederationError::InvalidSignature.error_code(), "M_UNAUTHORIZED");
    assert_eq!(FederationError::NetworkError("error".to_string()).error_code(), "M_UNKNOWN");
    assert_eq!(FederationError::ConfigError("error".to_string()).error_code(), "M_UNKNOWN");
}

#[test]
fn test_federation_config_validation() {
    let config = FederationConfig {
        server_name: "".to_string(),
        signing_key: "".to_string(),
        verify_signatures: false,
        federation_whitelist: None,
        federation_blacklist: None,
    };

    assert_eq!(config.server_name, "");
    assert_eq!(config.signing_key, "");
    assert_eq!(config.verify_signatures, false);
}

#[test]
fn test_federation_config_with_whitelist() {
    let config = FederationConfig {
        server_name: "test.server.com".to_string(),
        signing_key: "ed25519:test_key".to_string(),
        verify_signatures: true,
        federation_whitelist: Some(vec![
            "trusted1.server.com".to_string(),
            "trusted2.server.com".to_string(),
        ]),
        federation_blacklist: None,
    };

    assert_eq!(config.server_name, "test.server.com");
    assert_eq!(config.signing_key, "ed25519:test_key");
    assert_eq!(config.verify_signatures, true);
    assert_eq!(config.federation_whitelist.as_ref().unwrap().len(), 2);
    assert!(config.federation_blacklist.is_none());
}

#[test]
fn test_federation_config_with_blacklist() {
    let config = FederationConfig {
        server_name: "test.server.com".to_string(),
        signing_key: "ed25519:test_key".to_string(),
        verify_signatures: true,
        federation_whitelist: None,
        federation_blacklist: Some(vec![
            "blocked1.server.com".to_string(),
            "blocked2.server.com".to_string(),
        ]),
    };

    assert_eq!(config.server_name, "test.server.com");
    assert_eq!(config.signing_key, "ed25519:test_key");
    assert_eq!(config.verify_signatures, true);
    assert!(config.federation_whitelist.is_none());
    assert_eq!(config.federation_blacklist.as_ref().unwrap().len(), 2);
}

#[test]
fn test_federation_error_display() {
    let error = FederationError::RoomNotFound("test_room".to_string());
    let display = error.message();
    assert!(display.contains("Room not found"));
    assert!(display.contains("test_room"));
}

#[test]
fn test_federation_error_debug() {
    let error = FederationError::NetworkError("connection failed".to_string());
    let debug = format!("{:?}", error);
    assert!(debug.contains("NetworkError"));
    assert!(debug.contains("connection failed"));
}

#[test]
fn test_room_error_status_codes() {
    assert_eq!(RoomError::RoomNotFound("room".to_string()).status_code(), 404);
    assert_eq!(RoomError::UserNotInRoom("user".to_string()).status_code(), 403);
    assert_eq!(RoomError::InsufficientPermissions("user".to_string()).status_code(), 403);
    assert_eq!(RoomError::RoomAlreadyExists("room".to_string()).status_code(), 409);
    assert_eq!(RoomError::InvalidRoomConfig("config".to_string()).status_code(), 400);
    assert_eq!(RoomError::MessageTooLarge(1000).status_code(), 413);
}

#[test]
fn test_room_error_codes() {
    assert_eq!(RoomError::RoomNotFound("room".to_string()).error_code(), "M_NOT_FOUND");
    assert_eq!(RoomError::UserNotInRoom("user".to_string()).error_code(), "M_FORBIDDEN");
    assert_eq!(RoomError::InsufficientPermissions("user".to_string()).error_code(), "M_FORBIDDEN");
    assert_eq!(RoomError::RoomAlreadyExists("room".to_string()).error_code(), "M_ROOM_IN_USE");
    assert_eq!(RoomError::InvalidRoomConfig("config".to_string()).error_code(), "M_BAD_JSON");
    assert_eq!(RoomError::MessageTooLarge(1000).error_code(), "M_TOO_LARGE");
}

#[test]
fn room_error_wraps_auth_and_state_errors() {
    let e = RoomError::AuthError(AuthError::TokenExpired);
    assert_eq!(e.status_code(), 401);
    assert_eq!(e.error_code(), "M_UNKNOWN_TOKEN");
    let s = RoomError::StateError(StateError::InsufficientPermissions);
    assert_eq!(s.status_code(), 500);
    assert_eq!(s.error_code(), "M_UNKNOWN");
}

#[test]
fn auth_error_codes() {
    assert_eq!(AuthError::InvalidToken("t".to_string()).status_code(), 401);
    assert_eq!(AuthError::InsufficientPermissions("u".to_string()).status_code(), 403);
    assert_eq!(AuthError::UserNotFound("u".to_string()).status_code(), 404);
    assert_eq!(AuthError::OIDCError("e".to_string()).status_code(), 500);
    assert_eq!(AuthError::NetworkError("e".to_string()).error_code(), "M_UNKNOWN");
    assert_eq!(AuthError::InsufficientPermissions("u".to_string()).error_code(), "M_FORBIDDEN");
}

#[test]
fn test_matrix_server_error_status_codes() {
    assert_eq!(MatrixServerError::Auth(AuthError::InvalidToken("token".to_string())).status_code(), 401);
    assert_eq!(MatrixServerError::Room(RoomError::RoomNotFound("room".to_string())).status_code(), 404);
    assert_eq!(MatrixServerError::Federation(FederationError::RoomNotFound("room".to_string())).status_code(), 500);
    assert_eq!(MatrixServerError::Client(ClientError::InvalidCredentials).status_code(), 401);
    assert_eq!(MatrixServerError::NetworkError("error".to_string()).status_code(), 503);
    assert_eq!(MatrixServerError::ConfigError("error".to_string()).status_code(), 500);
    assert_eq!(MatrixServerError::DatabaseError("error".to_string()).status_code(), 500);
    assert_eq!(MatrixServerError::Internal("error".to_string()).status_code(), 500);
}

#[test]
fn test_matrix_server_error_codes() {
    assert_eq!(MatrixServerError::Auth(AuthError::InvalidToken("token".to_string())).error_code(), "M_UNAUTHORIZED");
    assert_eq!(MatrixServerError::Room(RoomError::RoomNotFound("room".to_string())).error_code(), "M_NOT_FOUND");
    assert_eq!(MatrixServerError::Federation(FederationError::RoomNotFound("room".to_string())).error_code(), "M_FEDERATION_ERROR");
    assert_eq!(MatrixServerError::Client(ClientError::InvalidCredentials).error_code(), "M_FORBIDDEN");
    assert_eq!(MatrixServerError::NetworkError("error".to_string()).error_code(), "M_UNKNOWN");
    assert_eq!(MatrixServerError::ConfigError("error".to_string()).error_code(), "M_UNKNOWN");
    assert_eq!(MatrixServerError::DatabaseError("error".to_string()).error_code(), "M_UNKNOWN");
    assert_eq!(MatrixServerError::Internal("error".to_string()).error_code(), "M_UNKNOWN");
}

#[test]
fn test_error_conversion_from_auth_error() {
    let auth_error = AuthError::InvalidToken("token".to_string());
    let matrix_error: MatrixServerError = auth_error.into();

    match matrix_error {
        MatrixServerError::Auth(_) => assert!(true),
        _ => panic!("Expected Auth variant"),
    }
}

#[test]
fn test_error_conversion_from_room_error() {
    let room_error = RoomError::RoomNotFound("test_room".to_string());
    let matrix_error: MatrixServerError = room_error.into();

    match matrix_error {
        MatrixServerError::Room(_) => assert!(true),
        _ => panic!("Expected Room variant"),
    }
}

#[test]
fn test_error_conversion_from_federation_error() {
    let federation_error = FederationError::RoomNotFound("test_room".to_string());
    let matrix_error: MatrixServerError = federation_error.into();

    match matrix_error {
        MatrixServerError::Federation(_) => assert!(true),
        _ => panic!("Expected Federation variant"),
    }
}

#[test]
fn test_error_conversion_from_client_error() {
    let client_error = ClientError::InvalidCredentials;
    let matrix_error: MatrixServerError = client_error.into();

    match matrix_error {
        MatrixServerError::Client(_) => assert!(true),
        _ => panic!("Expected Client variant"),
    }
}

#[test]
fn test_error_conversion_from_state_error() {
    let state_error = StateError::RoomNotFound("test_room".to_string());
    let matrix_error: MatrixServerError = state_error.into();

    match matrix_error {
        MatrixServerError::State(_) => assert!(true),
        _ => panic!("Expected State variant"),
    }
}

#[test]
fn test_error_display() {
    let error = MatrixServerError::NetworkError("connection failed".to_string());
    let display = error.message().unwrap();
    assert!(display.contains("Network error"));
    assert!(display.contains("connection failed"));
}

#[test]
fn test_error_debug() {
    let error = MatrixServerError::ConfigError("invalid config".to_string());
    let debug = format!("{:?}", error);
    assert!(debug.contains("ConfigError"));
    assert!(debug.contains("invalid config"));
}

#[test]
fn test_result_type_alias() {
    let success_result: Result<String> = Ok("success".to_string());
    let error_result: Result<String> = Err(MatrixServerError::Internal("error".to_string()));

    assert!(success_result.is_ok());
    assert!(error_result.is_err());

    match success_result {
        Ok(value) => assert_eq!(value, "success"),
        Err(_) => panic!("Expected Ok variant"),
    }

    match error_result {
        Ok(_) => panic!("Expected Err variant"),
        Err(MatrixServerError::Internal(msg)) => assert_eq!(msg, "error"),
        Err(_) => panic!("Expected Internal error variant"),
    }
}

#[test]
fn test_error_with_different_auth_errors() {
    let auth_errors = vec![
        AuthError::InvalidToken("token".to_string()),
        AuthError::TokenExpired,
        AuthError::InsufficientPermissions("user".to_string()),
        AuthError::UserNotFound("user".to_string()),
    ];

    for auth_error in auth_errors {
        let matrix_error: MatrixServerError = auth_error.into();
        assert_eq!(matrix_error.status_code(), 401);
        assert_eq!(matrix_error.error_code(), "M_UNAUTHORIZED");
    }
}

#[test]
fn test_error_with_different_room_errors() {
    let room_errors = vec![
        RoomError::RoomNotFound("room".to_string()),
        RoomError::UserNotInRoom("user".to_string()),
        RoomError::InsufficientPermissions("user".to_string()),
    ];

    for room_error in room_errors {
        let matrix_error: MatrixServerError = room_error.into();
        assert!(matrix_error.status_code() >= 400 && matrix_error.status_code() < 600);
    }
}

#[test]
fn test_error_message_formatting() {
    let error = MatrixServerError::Internal("test internal error".to_string());
    let message = error.message().unwrap();
    assert!(message.contains("Internal server error"));
    assert!(message.contains("test internal error"));
}

#[test]
fn test_error_with_empty_strings() {
    let error = MatrixServerError::NetworkError("".to_string());
    let message = error.message().unwrap();
    assert!(message.contains("Network error"));
    assert!(message.contains(""));
}

#[test]
fn serialization_and_http_errors_map_to_their_codes() {
    let s = MatrixServerError::SerializationError("bad".to_string());
    assert_eq!(s.status_code(), 400);
    assert_eq!(s.error_code(), "M_BAD_JSON");
    let h = MatrixServerError::HttpError("down".to_string());
    assert_eq!(h.status_code(), 502);
    assert!(MatrixServerError::State(StateError::InvalidTransition).message().is_none());
}

#[test]
fn conduit_defaults_and_messages() {
    let c = ConduitConfig::default();
    assert_eq!(c.port, 8008);
    assert_eq!(c.server_name, "conduit.local");
    assert_eq!(c.max_upload_size, 50 * 1024 * 1024);
    assert!(c.oidc_enabled && c.federation_enabled);
    assert_eq!(ConduitError::DatabaseError("x".to_string()).message(), "Database error: x");
}
