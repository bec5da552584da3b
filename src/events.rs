//! Events: the typed, immutable records that change a room's state or carry messages.

use vstd::prelude::*;
use crate::sources::{now_millis, random_simple_uuid};
use crate::table::Entry;
use crate::util::{joined, owned};

verus! {

/// The type of an event. Two types name the same state slot when their names agree.
#[derive(Debug, Clone, PartialEq, Eq, Hash)]
pub enum EventType {
    RoomMessage,
    RoomEncrypted,
    Reaction,
    RoomCreate,
    RoomMember,
    RoomPowerLevels,
    RoomJoinRules,
    RoomHistoryVisibility,
    RoomName,
    RoomTopic,
    RoomAvatar,
    CustomSupportRequest,
    CustomAlert,
    Custom(String),
}

impl View for EventType {
    type V = Seq<char>;

    /// The event type's name on the wire.
    open spec fn view(&self) -> Seq<char> {
        match self {
            EventType::RoomMessage => "m.room.message"@,
            EventType::RoomEncrypted => "m.room.encrypted"@,
            EventType::Reaction => "m.reaction"@,
            EventType::RoomCreate => "m.room.create"@,
            EventType::RoomMember => "m.room.member"@,
            EventType::RoomPowerLevels => "m.room.power_levels"@,
            EventType::RoomJoinRules => "m.room.join_rules"@,
            EventType::RoomHistoryVisibility => "m.room.history_visibility"@,
            EventType::RoomName => "m.room.name"@,
            EventType::RoomTopic => "m.room.topic"@,
            EventType::RoomAvatar => "m.room.avatar"@,
            EventType::CustomSupportRequest => "custom.support.request"@,
            EventType::CustomAlert => "custom.alert"@,
            EventType::Custom(s) => s@,
        }
    }
}

impl EventType {
    /// The event type's name on the wire.
    pub fn name(&self) -> (r: String)
        ensures
            r@ == self@,
    {
        match self {
            EventType::RoomMessage => owned("m.room.message"),
            EventType::RoomEncrypted => owned("m.room.encrypted"),
            EventType::Reaction => owned("m.reaction"),
            EventType::RoomCreate => owned("m.room.create"),
            EventType::RoomMember => owned("m.room.member"),
            EventType::RoomPowerLevels => owned("m.room.power_levels"),
            EventType::RoomJoinRules => owned("m.room.join_rules"),
            EventType::RoomHistoryVisibility => owned("m.room.history_visibility"),
            EventType::RoomName => owned("m.room.name"),
            EventType::RoomTopic => owned("m.room.topic"),
            EventType::RoomAvatar => owned("m.room.avatar"),
            EventType::CustomSupportRequest => owned("custom.support.request"),
            EventType::CustomAlert => owned("custom.alert"),
            EventType::Custom(s) => s.clone(),
        }
    }

    /// Whether the type's name is `n`.
    pub fn is_named(&self, n: &str) -> (r: bool)
        ensures
            r == (self@ == n@),
    {
        self.name() == owned(n)
    }
}

/// The kind of a message event's body.
#[derive(Debug, Clone, Copy, PartialEq, Eq, Structural)]
pub enum MessageType {
    Text,
    Notice,
    Emote,
    Image,
    File,
    Video,
    Audio,
    Location,
}

/// A user's relationship to a room.
#[derive(Debug, Clone, Copy, PartialEq, Eq, Structural)]
pub enum MembershipState {
    Join,
    Leave,
    Invite,
    Ban,
    Knock,
}

/// Who may join a room.
#[derive(Debug, Clone, Copy, PartialEq, Eq, Structural)]
pub enum JoinRule {
    Public,
    Invite,
    Private,
    Knock,
    KnockRestricted,
    Restricted,
}

impl JoinRule {
    /// The join rule's name on the wire.
    pub open spec fn spec_name(self) -> Seq<char> {
        match self {
            JoinRule::Public => "public"@,
            JoinRule::Invite => "invite"@,
            JoinRule::Private => "private"@,
            JoinRule::Knock => "knock"@,
            JoinRule::KnockRestricted => "knock_restricted"@,
            JoinRule::Restricted => "restricted"@,
        }
    }

    /// The join rule's name on the wire.
    pub fn name(self) -> (r: String)
        ensures
            r@ == self.spec_name(),
    {
        match self {
            JoinRule::Public => owned("public"),
            JoinRule::Invite => owned("invite"),
            JoinRule::Private => owned("private"),
            JoinRule::Knock => owned("knock"),
            JoinRule::KnockRestricted => owned("knock_restricted"),
            JoinRule::Restricted => owned("restricted"),
        }
    }
}

/// The event an answer refers to.
#[derive(Debug, Clone)]
pub struct InReplyTo {
    pub event_id: String,
}

/// A relation from a message to an earlier event.
#[derive(Debug, Clone)]
pub struct RelatesTo {
    pub in_reply_to: Option<InReplyTo>,
    pub rel_type: String,
    pub event_id: String,
}

/// The body of a message event.
#[derive(Debug, Clone)]
pub struct RoomMessageContent {
    pub msgtype: MessageType,
    pub body: String,
    pub formatted_body: Option<String>,
    pub format: Option<String>,
    pub relates_to: Option<RelatesTo>,
}

/// An invitation made through a third party.
#[derive(Debug, Clone)]
pub struct ThirdPartyInvite {
    pub display_name: String,
}

/// The content of a membership event: the membership asked for.
#[derive(Debug, Clone)]
pub struct RoomMemberContent {
    pub membership: MembershipState,
    pub displayname: Option<String>,
    pub avatar_url: Option<String>,
    pub reason: Option<String>,
    pub is_direct: Option<bool>,
    pub third_party_invite: Option<ThirdPartyInvite>,
}

/// The room a room replaces.
#[derive(Debug, Clone)]
pub struct RoomPredecessor {
    pub room_id: String,
    pub event_id: String,
}

/// The content of a room's creation event.
#[derive(Debug, Clone)]
pub struct RoomCreateContent {
    pub creator: String,
    pub m_federate: Option<bool>,
    pub room_version: Option<String>,
    pub predecessor: Option<RoomPredecessor>,
}

/// The content of a power-levels event.
#[derive(Debug, Clone)]
pub struct RoomPowerLevelsContent {
    pub users: Option<Vec<Entry<i32>>>,
    pub users_default: Option<i32>,
    pub events: Option<Vec<Entry<i32>>>,
    pub events_default: Option<i32>,
    pub state_default: Option<i32>,
    pub ban: Option<i32>,
    pub kick: Option<i32>,
    pub redact: Option<i32>,
    pub invite: Option<i32>,
}

/// The content of a join-rules event.
#[derive(Debug, Clone)]
pub struct RoomJoinRulesContent {
    pub join_rule: JoinRule,
}

/// The content of a room-name event.
#[derive(Debug, Clone)]
pub struct RoomNameContent {
    pub name: String,
}

/// The content of a history-visibility event.
#[derive(Debug, Clone)]
pub struct RoomHistoryVisibilityContent {
    pub history_visibility: String,
}

/// The content of a room-topic event.
#[derive(Debug, Clone)]
pub struct RoomTopicContent {
    pub topic: String,
}

/// The content of a support request.
#[derive(Debug, Clone)]
pub struct CustomSupportContent {
    pub request_type: String,
    pub description: String,
    pub priority: String,
    pub user_id: String,
    pub timestamp: u64,
}

/// What an event carries. `Raw` holds content of no known shape, as JSON text.
#[derive(Debug, Clone)]
pub enum EventContent {
    RoomMessage(RoomMessageContent),
    RoomMember(RoomMemberContent),
    RoomCreate(RoomCreateContent),
    RoomPowerLevels(RoomPowerLevelsContent),
    RoomJoinRules(RoomJoinRulesContent),
    RoomName(RoomNameContent),
    RoomTopic(RoomTopicContent),
    RoomHistoryVisibility(RoomHistoryVisibilityContent),
    CustomSupport(CustomSupportContent),
    Raw(String),
}

/// An event of a room. It is a state event when it has a state key; the empty
/// string is a valid state key.
#[derive(Debug, Clone)]
pub struct MatrixEvent {
    pub event_id: String,
    pub event_type: EventType,
    pub content: EventContent,
    pub sender: String,
    pub room_id: String,
    pub origin_server_ts: u64,
    pub unsigned: Option<String>,
    pub state_key: Option<String>,
}

impl MatrixEvent {
    /// A new event with a fresh identifier (`$` and 32 hexadecimal digits), the
    /// current time, and no state key.
    pub fn new(event_type: EventType, content: EventContent, sender: String, room_id: String) -> (r:
        Self)
        ensures
            r.event_type == event_type,
            r.content == content,
            r.sender == sender,
            r.room_id == room_id,
            r.state_key is None,
            r.unsigned is None,
            r.event_id@.len() == 33,
            r.event_id@[0] == '$',
            forall|i: int| 1 <= i < 33 ==> crate::sources::is_lower_hex(#[trigger] r.event_id@[i]),
    {
        let token = random_simple_uuid();
        let event_id = joined("$", token.as_str());
        proof {
            reveal_strlit("$");
        }
        MatrixEvent {
            event_id,
            event_type,
            content,
            sender,
            room_id,
            origin_server_ts: now_millis(),
            unsigned: None,
            state_key: None,
        }
    }

    /// The same event with the state key `state_key`.
    pub fn with_state_key(self, state_key: String) -> (r: Self)
        ensures
            r == (MatrixEvent { state_key: Some(state_key), ..self }),
    {
        let mut e = self;
        e.state_key = Some(state_key);
        e
    }

    /// Whether the event occupies a state slot.
    pub fn is_state_event(&self) -> (r: bool)
        ensures
            r == self.state_key is Some,
    {
        self.state_key.is_some()
    }

    /// Whether the event is a room message.
    pub fn is_message_event(&self) -> (r: bool)
        ensures
            r == self.event_type is RoomMessage,
    {
        match self.event_type {
            EventType::RoomMessage => true,
            _ => false,
        }
    }

    /// Checks that the sender, room and event identifiers are present.
    pub fn validate(&self) -> (r: Result<(), EventValidationError>)
        ensures
            r == (if self.sender@.len() == 0 {
                Err(EventValidationError::EmptySender)
            } else if self.room_id@.len() == 0 {
                Err(EventValidationError::EmptyRoomId)
            } else if self.event_id@.len() == 0 {
                Err(EventValidationError::EmptyEventId)
            } else {
                Ok(())
            }),
    {
        if self.sender.as_str().is_empty() {
            return Err(EventValidationError::EmptySender);
        }
        if self.room_id.as_str().is_empty() {
            return Err(EventValidationError::EmptyRoomId);
        }
        if self.event_id.as_str().is_empty() {
            return Err(EventValidationError::EmptyEventId);
        }
        Ok(())
    }
}

impl EventContent {
    /// A plain message content.
    pub fn room_message(msgtype: MessageType, body: String) -> (r: Self)
        ensures
            r == EventContent::RoomMessage(
                RoomMessageContent {
                    msgtype,
                    body,
                    formatted_body: None,
                    format: None,
                    relates_to: None,
                },
            ),
    {
        EventContent::RoomMessage(
            RoomMessageContent {
                msgtype,
                body,
                formatted_body: None,
                format: None,
                relates_to: None,
            },
        )
    }

    /// A membership content asking for `membership`.
    pub fn room_member(membership: MembershipState, displayname: Option<String>) -> (r: Self)
        ensures
            r == EventContent::RoomMember(
                RoomMemberContent {
                    membership,
                    displayname,
                    avatar_url: None,
                    reason: None,
                    is_direct: None,
                    third_party_invite: None,
                },
            ),
    {
        EventContent::RoomMember(
            RoomMemberContent {
                membership,
                displayname,
                avatar_url: None,
                reason: None,
                is_direct: None,
                third_party_invite: None,
            },
        )
    }

    /// A creation content for a federating room of version 9.
    pub fn room_create(creator: String) -> (r: Self)
        ensures
            r matches EventContent::RoomCreate(c) && {
                &&& c.creator == creator
                &&& c.m_federate == Some(true)
                &&& c.room_version is Some && c.room_version->Some_0@ == "9"@
                &&& c.predecessor is None
            },
    {
        EventContent::RoomCreate(
            RoomCreateContent {
                creator,
                m_federate: Some(true),
                room_version: Some(owned("9")),
                predecessor: None,
            },
        )
    }

    /// Power levels with the usual defaults and no per-user or per-type entries.
    pub fn room_power_levels() -> (r: Self)
        ensures
            r matches EventContent::RoomPowerLevels(p) && {
                &&& p.users is Some && p.users->Some_0@.len() == 0
                &&& p.events is Some && p.events->Some_0@.len() == 0
                &&& p.users_default == Some(0i32)
                &&& p.events_default == Some(0i32)
                &&& p.state_default == Some(50i32)
                &&& p.ban == Some(50i32)
                &&& p.kick == Some(50i32)
                &&& p.redact == Some(50i32)
                &&& p.invite == Some(50i32)
            },
    {
        EventContent::RoomPowerLevels(
            RoomPowerLevelsContent {
                users: Some(Vec::new()),
                users_default: Some(0),
                events: Some(Vec::new()),
                events_default: Some(0),
                state_default: Some(50),
                ban: Some(50),
                kick: Some(50),
                redact: Some(50),
                invite: Some(50),
            },
        )
    }
}

/// Why an event is malformed.
#[derive(Debug, Clone, Copy, PartialEq, Eq, Structural)]
pub enum EventValidationError {
    EmptySender,
    EmptyRoomId,
    EmptyEventId,
}

impl EventValidationError {
    /// A human-readable description.
    pub fn message(&self) -> (r: String)
        ensures
            r@ == match self {
                EventValidationError::EmptySender => "Sender cannot be empty"@,
                EventValidationError::EmptyRoomId => "Room ID cannot be empty"@,
                EventValidationError::EmptyEventId => "Event ID cannot be empty"@,
            },
    {
        match self {
            EventValidationError::EmptySender => owned("Sender cannot be empty"),
            EventValidationError::EmptyRoomId => owned("Room ID cannot be empty"),
            EventValidationError::EmptyEventId => owned("Event ID cannot be empty"),
        }
    }
}

} // verus!
