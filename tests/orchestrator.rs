use matrix_chat_system::auth::{AuthenticatedUser, OIDCConfig, OIDCHandler};
use matrix_chat_system::client_server::{ClientServerAPI, ClientServerConfig};
use matrix_chat_system::events::{
    EventContent, EventType, MatrixEvent, MembershipState, MessageType, RoomNameContent,
    RoomPowerLevelsContent,
};
use matrix_chat_system::federation::{FederationClient, FederationConfig};
use matrix_chat_system::resolver::{str_lex_lt, StateResolver};
use matrix_chat_system::room::{
    GetMessagesRequest, JoinRoomRequest, LeaveRoomRequest, RoomConfig, RoomError, RoomHandler,
    RoomPreset, SendMessageRequest, StateEventConfig, MAX_MESSAGE_BYTES,
};
use matrix_chat_system::state::{RoomState, StateError};
use matrix_chat_system::store::{InMemoryStateStore, StateStore};
use matrix_chat_system::table::{set_value, Entry};

fn user(id: &str) -> AuthenticatedUser {
    AuthenticatedUser {
        user_id: id.to_string(),
        access_token: "token".to_string(),
        device_id: "device".to_string(),
        subscription_active: true,
        scopes: vec!["matrix:read".to_string()],
    }
}

fn create_test_room_config() -> RoomConfig {
    RoomConfig {
        name: Some("Test Room".to_string()),
        topic: Some("A test room".to_string()),
        room_alias_name: Some("testroom".to_string()),
        invite: vec![],
        room_version: Some("9".to_string()),
        creation_content: None,
        initial_state: vec![],
        preset: Some(RoomPreset::PublicChat),
        is_direct: Some(false),
        power_level_content_override: None,
        federate: Some(true),
    }
}

fn config(name: Option<&str>, preset: Option<RoomPreset>) -> RoomConfig {
    RoomConfig {
        name: name.map(|n| n.to_string()),
        topic: None,
        room_alias_name: None,
        invite: vec![],
        room_version: None,
        creation_content: None,
        initial_state: vec![],
        preset,
        is_direct: None,
        power_level_content_override: None,
        federate: None,
    }
}

fn handler() -> RoomHandler<InMemoryStateStore> {
    RoomHandler::new(InMemoryStateStore::new())
}

fn message(room_id: &str, body: String) -> SendMessageRequest {
    SendMessageRequest {
        room_id: room_id.to_string(),
        msgtype: MessageType::Text,
        body,
        formatted_body: None,
        format: None,
        relates_to: None,
    }
}

fn join(room_id: &str) -> JoinRoomRequest {
    JoinRoomRequest { room_id: room_id.to_string(), reason: None }
}

fn leave(room_id: &str) -> LeaveRoomRequest {
    LeaveRoomRequest { room_id: room_id.to_string(), reason: None }
}

#[test]
fn test_room_config_new() {
    let config = create_test_room_config();
    assert_eq!(config.name, Some("Test Room".to_string()));
    assert_eq!(config.topic, Some("A test room".to_string()));
    assert_eq!(config.room_alias_name, Some("testroom".to_string()));
    assert_eq!(config.preset, Some(RoomPreset::PublicChat));
    assert_eq!(config.is_direct, Some(false));
    assert_eq!(config.federate, Some(true));
}

#[test]
fn creator_has_level_100_after_creation() {
    let mut h = handler();
    let alice = user("@alice:example.org");
    let room_id = h.create_room(&alice, config(None, None)).unwrap().room_id;
    let st = h.get_room(&room_id).unwrap();
    assert_eq!(st.get_user_power_level("@alice:example.org"), 100);
    assert!(st.is_member("@alice:example.org"));
    assert_eq!(st.join_rules, Some("invite".to_string()));
    assert_eq!(st.room_version, "9");
    assert!(st.get_state_event(&EventType::RoomJoinRules, "").is_some());
    assert!(st.get_state_event(&EventType::RoomHistoryVisibility, "").is_some());
    assert_eq!(st.membership_of("@bob:example.org"), None);
}

#[test]
fn room_ids_follow_alias_or_are_random() {
    let mut h = handler();
    let alice = user("@alice:example.org");
    let r = h.create_room(&alice, create_test_room_config()).unwrap();
    assert_eq!(r.room_id, "#testroom:matrix.local");
    let r2 = h.create_room(&alice, config(None, None)).unwrap();
    assert!(r2.room_id.starts_with('!'));
    assert!(r2.room_id.ends_with(":matrix.local"));
    assert_eq!(r2.room_id.len(), 1 + 32 + 13);
    let mut listed = h.list_rooms(&alice);
    listed.sort();
    assert_eq!(listed.len(), 2);
}

#[test]
fn duplicate_alias_conflicts() {
    let mut h = handler();
    let alice = user("@alice:example.org");
    assert!(h.create_room(&alice, create_test_room_config()).is_ok());
    let err = h.create_room(&alice, create_test_room_config()).unwrap_err();
    assert!(matches!(err, RoomError::RoomAlreadyExists(_)));
    assert_eq!(err.status_code(), 409);
}

#[test]
fn empty_creator_is_a_validation_error() {
    let mut h = handler();
    let err = h.create_room(&user(""), config(None, None)).unwrap_err();
    assert!(matches!(err, RoomError::InvalidRoomConfig(_)));
    assert_eq!(err.status_code(), 400);
}

#[test]
fn initial_state_is_applied_and_membership_entries_refused() {
    let mut h = handler();
    let alice = user("@alice:example.org");
    let mut cfg = config(None, None);
    cfg.initial_state = vec![StateEventConfig {
        event_type: "m.room.guest_access".to_string(),
        state_key: "".to_string(),
        content: "{\"guest_access\":\"can_join\"}".to_string(),
    }];
    let room_id = h.create_room(&alice, cfg).unwrap().room_id;
    let st = h.get_room(&room_id).unwrap();
    let t = EventType::Custom("m.room.guest_access".to_string());
    assert!(st.get_state_event(&t, "").is_some());

    let mut bad = config(None, None);
    bad.initial_state = vec![StateEventConfig {
        event_type: "m.room.member".to_string(),
        state_key: "@mallory:example.org".to_string(),
        content: "{}".to_string(),
    }];
    let err = h.create_room_with_id(&alice, bad, "!bad:matrix.local".to_string()).unwrap_err();
    assert!(matches!(err, RoomError::InsufficientPermissions(_)));
    assert!(h.get_room("!bad:matrix.local").is_none());
}

#[test]
fn join_invite_only_room_is_forbidden_public_is_allowed() {
    let mut h = handler();
    let alice = user("@alice:example.org");
    let bob = user("@bob:example.org");
    let private_id = h.create_room(&alice, config(None, Some(RoomPreset::PrivateChat))).unwrap().room_id;
    let err = h.join_room(&bob, join(&private_id)).unwrap_err();
    assert!(matches!(err, RoomError::InsufficientPermissions(_)));
    assert_eq!(err.status_code(), 403);
    assert_eq!(h.get_room(&private_id).unwrap().membership_of("@bob:example.org"), None);

    let public_id = h.create_room(&alice, config(None, Some(RoomPreset::PublicChat))).unwrap().room_id;
    let r = h.join_room(&bob, join(&public_id)).unwrap();
    assert_eq!(r.room_id, public_id);
    assert!(h.get_room(&public_id).unwrap().is_member("@bob:example.org"));
}

#[test]
fn invited_user_may_join_invite_only_room() {
    let mut h = handler();
    let alice = user("@alice:example.org");
    let mut cfg = config(None, Some(RoomPreset::PrivateChat));
    cfg.room_alias_name = Some("private".to_string());
    let room_id = h.create_room(&alice, cfg).unwrap().room_id;
    let mut st = h.get_room(&room_id).unwrap().clone();
    st.change_membership(&alice.user_id, "@bob:example.org".to_string(), MembershipState::Invite).unwrap();
    let mut store = InMemoryStateStore::new();
    store.create_room(st).unwrap();
    let mut h2 = RoomHandler::new(store);
    assert!(h2.join_room(&user("@bob:example.org"), join(&room_id)).is_ok());
}

#[test]
fn unknown_room_is_not_found() {
    let mut h = handler();
    let bob = user("@bob:example.org");
    assert!(matches!(h.join_room(&bob, join("!none:matrix.local")), Err(RoomError::RoomNotFound(_))));
    assert!(matches!(h.leave_room(&bob, leave("!none:matrix.local")), Err(RoomError::RoomNotFound(_))));
    assert!(matches!(h.send_message(&bob, message("!none:matrix.local", "hi".to_string())), Err(RoomError::RoomNotFound(_))));
    assert!(matches!(h.get_room_summary(&bob, "!none:matrix.local"), Err(RoomError::RoomNotFound(_))));
    assert_eq!(RoomError::RoomNotFound("x".to_string()).status_code(), 404);
}

#[test]
fn create_then_summary_round_trip() {
    let mut h = handler();
    let alice = user("@alice:example.org");
    let room_id = h.create_room(&alice, create_test_room_config()).unwrap().room_id;
    let s = h.get_room_summary(&alice, &room_id).unwrap();
    assert_eq!(s.name, Some("Test Room".to_string()));
    assert_eq!(s.topic, Some("A test room".to_string()));
    assert_eq!(s.member_count, 1);
    assert_eq!(s.join_rules, Some("public".to_string()));
    assert_eq!(s.history_visibility, Some("shared".to_string()));
    let outsider = user("@eve:example.org");
    assert!(matches!(h.get_room_summary(&outsider, &room_id), Err(RoomError::UserNotInRoom(_))));
}

#[test]
fn scenario_join_oversized_message_and_double_leave() {
    let mut h = handler();
    let alice = user("@alice:example.org");
    let bob = user("@bob:example.org");
    let room_id = h.create_room(&alice, config(Some("General"), Some(RoomPreset::PublicChat))).unwrap().room_id;

    assert!(h.join_room(&bob, join(&room_id)).is_ok());
    assert_eq!(
        h.get_room(&room_id).unwrap().membership_of("@bob:example.org"),
        Some(MembershipState::Join)
    );

    let big = "a".repeat(70000);
    let err = h.send_message(&bob, message(&room_id, big)).unwrap_err();
    assert!(matches!(err, RoomError::MessageTooLarge(70000)));
    assert_eq!(err.error_code(), "M_TOO_LARGE");

    assert!(h.leave_room(&bob, leave(&room_id)).is_ok());
    let err = h.leave_room(&bob, leave(&room_id)).unwrap_err();
    assert!(matches!(&err, RoomError::UserNotInRoom(u) if u == "@bob:example.org"));
    assert_eq!(err.status_code(), 403);
    assert_eq!(err.error_code(), "M_FORBIDDEN");
}

#[test]
fn leaving_twice_keeps_the_room_unchanged() {
    let mut h = handler();
    let alice = user("@alice:example.org");
    let bob = user("@bob:example.org");
    let room_id = h.create_room(&alice, config(None, Some(RoomPreset::PublicChat))).unwrap().room_id;
    h.join_room(&bob, join(&room_id)).unwrap();
    h.leave_room(&bob, leave(&room_id)).unwrap();
    let count = h.get_room(&room_id).unwrap().members.len();
    assert!(h.leave_room(&bob, leave(&room_id)).is_err());
    assert_eq!(h.get_room(&room_id).unwrap().members.len(), count);
    assert_eq!(h.get_room(&room_id).unwrap().membership_of("@bob:example.org"), None);
}

#[test]
fn message_size_limit_is_inclusive() {
    let mut h = handler();
    let alice = user("@alice:example.org");
    let room_id = h.create_room(&alice, config(None, None)).unwrap().room_id;
    let ok = h.send_message(&alice, message(&room_id, "b".repeat(MAX_MESSAGE_BYTES))).unwrap();
    assert!(ok.event_id.starts_with('$'));
    assert_eq!(ok.event_id.len(), 33);
    let err = h.send_message(&alice, message(&room_id, "é".repeat(32769))).unwrap_err();
    assert!(matches!(err, RoomError::MessageTooLarge(65538)));
    let outsider = user("@eve:example.org");
    assert!(matches!(h.send_message(&outsider, message(&room_id, "hi".to_string())), Err(RoomError::UserNotInRoom(_))));
}

#[test]
fn messages_echo_bounds() {
    let mut h = handler();
    let alice = user("@alice:example.org");
    let room_id = h.create_room(&alice, config(None, None)).unwrap().room_id;
    let r = h
        .get_messages(&alice, GetMessagesRequest { room_id: room_id.clone(), from: Some("s1".to_string()), to: None, limit: Some(10) })
        .unwrap();
    assert!(r.chunk.is_empty());
    assert_eq!(r.start, "s1");
    assert_eq!(r.end, "0");
}

#[test]
fn list_rooms_shows_joined_rooms_only() {
    let mut h = handler();
    let alice = user("@alice:example.org");
    let bob = user("@bob:example.org");
    let a = h.create_room(&alice, config(None, Some(RoomPreset::PublicChat))).unwrap().room_id;
    let _b = h.create_room(&alice, config(None, None)).unwrap().room_id;
    assert_eq!(h.list_rooms(&bob).len(), 0);
    h.join_room(&bob, join(&a)).unwrap();
    assert_eq!(h.list_rooms(&bob), vec![a]);
    assert_eq!(h.list_rooms(&alice).len(), 2);
}

fn name_candidate(id: &str, sender: &str, ts: u64) -> MatrixEvent {
    MatrixEvent {
        event_id: id.to_string(),
        event_type: EventType::RoomName,
        content: EventContent::RoomName(RoomNameContent { name: id.to_string() }),
        sender: sender.to_string(),
        room_id: "!r:matrix.local".to_string(),
        origin_server_ts: ts,
        unsigned: None,
        state_key: Some("".to_string()),
    }
}

fn room_with_levels() -> RoomState {
    let mut st = RoomState::new("!r:matrix.local".to_string(), "@alice:x".to_string(), "9".to_string());
    for (u, l) in [("@a:x", 50), ("@b:x", 80)] {
        set_value(&mut st.members, u.to_string(), MembershipState::Join);
        set_value(&mut st.power_levels.users, u.to_string(), l);
    }
    st
}

#[test]
fn resolver_picks_higher_power_regardless_of_order() {
    let st = room_with_levels();
    let a = name_candidate("$a", "@a:x", 100);
    let b = name_candidate("$b", "@b:x", 50);
    let resolver = StateResolver;
    let ab = vec![a.clone(), b.clone()];
    let ba = vec![b.clone(), a.clone()];
    assert_eq!(ab[resolver.resolve_state_conflicts(&st, &ab).unwrap()].event_id, "$b");
    assert_eq!(ba[resolver.resolve_state_conflicts(&st, &ba).unwrap()].event_id, "$b");
}

#[test]
fn resolver_ties_break_on_timestamp_then_event_id() {
    let st = room_with_levels();
    let resolver = StateResolver;
    let c = vec![name_candidate("$x", "@a:x", 20), name_candidate("$y", "@a:x", 10)];
    assert_eq!(resolver.resolve_state_conflicts(&st, &c).unwrap(), 1);
    let c = vec![name_candidate("$q", "@a:x", 10), name_candidate("$p", "@a:x", 10)];
    assert_eq!(resolver.resolve_state_conflicts(&st, &c).unwrap(), 1);
    assert!(str_lex_lt(&"$p".to_string(), &"$q".to_string()));
    assert!(str_lex_lt(&"ab".to_string(), &"abc".to_string()));
    assert!(!str_lex_lt(&"b".to_string(), &"ab".to_string()));
}

#[test]
fn resolver_discards_unauthorized_and_fails_when_none_survive() {
    let st = room_with_levels();
    let resolver = StateResolver;
    let outsider = name_candidate("$o", "@eve:x", 1);
    let c = vec![outsider.clone(), name_candidate("$a", "@a:x", 100)];
    assert_eq!(resolver.resolve_state_conflicts(&st, &c).unwrap(), 1);
    let none = vec![outsider];
    assert!(matches!(resolver.resolve_state_conflicts(&st, &none), Err(StateError::InsufficientPermissions)));
    let empty: Vec<MatrixEvent> = vec![];
    assert!(matches!(resolver.resolve_state_conflicts(&st, &empty), Err(StateError::InsufficientPermissions)));
    assert!(resolver.validate_event_auth(&name_candidate("$a", "@a:x", 1), &st).is_ok());
}

#[test]
fn resolution_applies_the_winner() {
    let mut st = room_with_levels();
    let resolver = StateResolver;
    let c = vec![name_candidate("$a", "@a:x", 100), name_candidate("$b", "@b:x", 50)];
    assert_eq!(resolver.apply_resolution(&mut st, c).unwrap(), 1);
    assert_eq!(st.name, Some("$b".to_string()));
    assert_eq!(st.get_state_event(&EventType::RoomName, "").unwrap().event_id, "$b");
}

fn power_event(sender: &str, target: &str, level: i32) -> MatrixEvent {
    MatrixEvent {
        event_id: "$p".to_string(),
        event_type: EventType::RoomPowerLevels,
        content: EventContent::RoomPowerLevels(RoomPowerLevelsContent {
            users: Some(vec![Entry { key: target.to_string(), value: level }]),
            users_default: None,
            events: None,
            events_default: None,
            state_default: None,
            ban: None,
            kick: None,
            redact: None,
            invite: None,
        }),
        sender: sender.to_string(),
        room_id: "!r:matrix.local".to_string(),
        origin_server_ts: 1,
        unsigned: None,
        state_key: Some("".to_string()),
    }
}

#[test]
fn level_50_cannot_raise_another_to_60() {
    let mut st = room_with_levels();
    set_value(&mut st.members, "@c:x".to_string(), MembershipState::Join);
    assert!(matches!(st.authorize_event(&power_event("@a:x", "@c:x", 60)), Err(StateError::InsufficientPermissions)));
    assert!(st.add_state_event(power_event("@a:x", "@c:x", 60)).is_err());
    assert_eq!(st.get_user_power_level("@c:x"), 0);
    // within the sender's own level the change is allowed and applied
    assert!(st.add_state_event(power_event("@a:x", "@c:x", 40)).is_ok());
    assert_eq!(st.get_user_power_level("@c:x"), 40);
    // a peer of higher rank cannot be demoted
    assert!(st.authorize_event(&power_event("@a:x", "@b:x", 10)).is_err());
}

#[test]
fn validate_token_and_scopes() {
    let handler = OIDCHandler::new(OIDCConfig {
        issuer_url: "https://issuer".to_string(),
        client_id: "c".to_string(),
        client_secret: "s".to_string(),
        redirect_url: "r".to_string(),
        scopes: vec![],
        server_name: "x".to_string(),
    })
    .unwrap();
    let u = handler.validate_token("user_alice").unwrap();
    assert_eq!(u.user_id, "user_alice");
    assert!(handler.user_has_scope(&u, "matrix:write"));
    assert!(!handler.user_has_scope(&u, "admin"));
    assert!(handler.user_has_subscription(&u));
    assert!(handler.validate_token("alice").is_err());
    assert!(handler.validate_token("user").is_err());
}

#[test]
fn registration_builds_full_user_ids_and_fresh_tokens() {
    let api = ClientServerAPI::new(ClientServerConfig {
        server_name: "test.server.com".to_string(),
        registration_shared_secret: None,
        rate_limiting_enabled: false,
        max_upload_size: 0,
    })
    .unwrap();
    let a = api.register_user("testuser", "pw").unwrap();
    let b = api.login_user("testuser", "pw").unwrap();
    assert_eq!(a.user_id, "@testuser:test.server.com");
    assert_eq!(b.user_id, "@testuser:test.server.com");
    assert!(a.access_token.starts_with("token_"));
    assert_eq!(a.access_token.len(), 42);
    assert!(a.device_id.starts_with("device_"));
    assert_ne!(a.access_token, b.access_token);
    assert_eq!(a.home_server, "test.server.com");
    assert_eq!(api.get_profile("@testuser:test.server.com").unwrap().displayname, Some("Test User".to_string()));
}

#[test]
fn federation_client_accepts_events_and_signatures() {
    let client = FederationClient::new(FederationConfig {
        server_name: "test.server.com".to_string(),
        signing_key: "k".to_string(),
        verify_signatures: true,
        federation_whitelist: None,
        federation_blacklist: None,
    })
    .unwrap();
    let e = name_candidate("$a", "@a:x", 1);
    assert!(client.send_event("other.com", &e).is_ok());
    assert_eq!(client.verify_event_signature(&e, "sig").unwrap(), true);
    assert_eq!(client.server_name(), "test.server.com");
}

fn oidc() -> OIDCHandler {
    OIDCHandler::new(OIDCConfig {
        issuer_url: "https://test-issuer.com".to_string(),
        client_id: "test-client".to_string(),
        client_secret: "test-secret".to_string(),
        redirect_url: "http://localhost:8000/callback".to_string(),
        scopes: vec!["openid".to_string(), "profile".to_string()],
        server_name: "test.local".to_string(),
    })
    .unwrap()
}

#[test]
fn authorization_header_needs_bearer_prefix() {
    let h = oidc();
    assert!(matches!(h.authenticate_header(None), Err(matrix_chat_system::auth::AuthError::InvalidToken(_))));
    assert!(matches!(h.authenticate_header(Some("InvalidFormat")), Err(matrix_chat_system::auth::AuthError::InvalidToken(_))));
    assert!(h.authenticate_header(Some("Bearer valid-token")).is_err());
    let u = h.authenticate_header(Some("Bearer user_bob")).unwrap();
    assert_eq!(u.user_id, "user_bob");
}

#[test]
fn store_operations_follow_their_contracts() {
    let mut store = InMemoryStateStore::new();
    let st = RoomState::new("!test:localhost".to_string(), "@creator:localhost".to_string(), "6".to_string());
    assert!(store.create_room(st.clone()).is_ok());
    assert!(matches!(store.create_room(st.clone()), Err(StateError::StateConflict(_))));
    let mut updated = st.clone();
    updated.room_version = "7".to_string();
    assert!(store.update_room(updated).is_ok());
    assert_eq!(store.get_room("!test:localhost").unwrap().room_version, "7");
    let other = RoomState::new("!test2:localhost".to_string(), "@c:localhost".to_string(), "6".to_string());
    assert!(matches!(store.update_room(other.clone()), Err(StateError::RoomNotFound(_))));
    assert!(store.create_room(other).is_ok());
    let listed = store.list_rooms();
    assert_eq!(listed.len(), 2);
    assert!(listed.contains(&"!test2:localhost".to_string()));
    assert!(store.room_exists("!test:localhost"));
    assert!(store.delete_room("!test:localhost").is_ok());
    assert!(!store.room_exists("!test:localhost"));
    assert!(matches!(store.delete_room("!test:localhost"), Err(StateError::RoomNotFound(_))));
    assert!(store.get_room("!nonexistent:localhost").is_none());
}

#[test]
fn configured_invites_let_invitees_join_private_rooms() {
    let mut h = handler();
    let alice = user("@alice:example.org");
    let mut cfg = config(None, Some(RoomPreset::TrustedPrivateChat));
    cfg.invite = vec!["@bob:example.org".to_string(), "@alice:example.org".to_string(), "@bob:example.org".to_string()];
    let room_id = h.create_room(&alice, cfg).unwrap().room_id;
    let st = h.get_room(&room_id).unwrap();
    assert_eq!(st.membership_of("@bob:example.org"), Some(MembershipState::Invite));
    assert_eq!(st.membership_of("@alice:example.org"), Some(MembershipState::Join));
    assert_eq!(h.get_room_summary(&alice, &room_id).unwrap().member_count, 1);
    assert!(h.join_room(&user("@bob:example.org"), join(&room_id)).is_ok());
    assert!(h.join_room(&user("@carol:example.org"), join(&room_id)).is_err());
}

#[test]
fn unknown_join_rule_is_a_validation_error() {
    let mut st = RoomState::new("!odd:matrix.local".to_string(), "@alice:x".to_string(), "9".to_string());
    st.join_rules = Some("secret".to_string());
    let mut store = InMemoryStateStore::new();
    store.create_room(st).unwrap();
    let mut h = RoomHandler::new(store);
    let err = h.join_room(&user("@bob:x"), join("!odd:matrix.local")).unwrap_err();
    assert!(matches!(err, RoomError::InvalidRoomConfig(_)));
    assert_eq!(err.status_code(), 400);
}

fn level_override(entries: Vec<(&str, i32)>) -> RoomPowerLevelsContent {
    RoomPowerLevelsContent {
        users: Some(entries.into_iter().map(|(k, v)| Entry { key: k.to_string(), value: v }).collect()),
        users_default: None,
        events: None,
        events_default: None,
        state_default: None,
        ban: None,
        kick: None,
        redact: None,
        invite: None,
    }
}

#[test]
fn level_override_sets_listed_users_and_refuses_levels_above_100() {
    let mut h = handler();
    let alice = user("@alice:example.org");
    let mut cfg = config(None, None);
    cfg.power_level_content_override = Some(level_override(vec![("@bob:example.org", 50)]));
    let room_id = h.create_room(&alice, cfg).unwrap().room_id;
    let st = h.get_room(&room_id).unwrap();
    assert_eq!(st.get_user_power_level("@bob:example.org"), 50);
    assert_eq!(st.get_user_power_level("@alice:example.org"), 100);

    let mut bad = config(None, None);
    bad.room_alias_name = Some("over".to_string());
    bad.power_level_content_override = Some(level_override(vec![("@bob:example.org", 150)]));
    let err = h.create_room(&alice, bad).unwrap_err();
    assert!(matches!(&err, RoomError::InsufficientPermissions(m) if m == "Power level override refused"));
    assert!(h.get_room("#over:matrix.local").is_none());
}

#[test]
fn override_cannot_move_the_creator() {
    let mut h = handler();
    let alice = user("@alice:example.org");
    let mut cfg = config(None, None);
    cfg.power_level_content_override = Some(level_override(vec![("@alice:example.org", 50)]));
    let err = h.create_room(&alice, cfg).unwrap_err();
    assert!(matches!(&err, RoomError::InsufficientPermissions(m) if m == "Power level override refused"));
    let mut same = config(None, None);
    same.power_level_content_override = Some(level_override(vec![("@alice:example.org", 100)]));
    let room_id = h.create_room(&alice, same).unwrap().room_id;
    assert_eq!(h.get_room(&room_id).unwrap().get_user_power_level("@alice:example.org"), 100);
}

#[test]
fn existing_alias_conflicts_before_validation() {
    let mut h = handler();
    let alice = user("@alice:example.org");
    h.create_room(&alice, create_test_room_config()).unwrap();
    let err = h.create_room(&user(""), create_test_room_config()).unwrap_err();
    assert!(matches!(&err, RoomError::RoomAlreadyExists(id) if id == "#testroom:matrix.local"));
    assert_eq!(err.status_code(), 409);
}

#[test]
fn public_room_join_may_be_sent_by_another_user() {
    let mut st = RoomState::new("!r:matrix.local".to_string(), "@alice:x".to_string(), "9".to_string());
    st.join_rules = Some("public".to_string());
    let bob = "@bob:x".to_string();
    assert!(st.change_membership(&"@carol:x".to_string(), bob, MembershipState::Join).is_ok());
    assert_eq!(st.membership_of("@bob:x"), Some(MembershipState::Join));
    assert_eq!(st.get_summary().member_count, 2);
}

#[test]
fn nobody_changes_their_own_level() {
    let mut st = room_with_levels();
    assert!(st.authorize_event(&power_event("@b:x", "@b:x", 60)).is_err());
    assert!(st.authorize_event(&power_event("@b:x", "@b:x", 80)).is_ok());
    assert!(st.authorize_event(&power_event("@b:x", "@a:x", 60)).is_ok());
}
