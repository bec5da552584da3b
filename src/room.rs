//! The room orchestrator: creating, joining, leaving and reading rooms. Each
//! operation loads the room's snapshot, runs the candidate events through the
//! authorization engine, and writes the snapshot back.

use vstd::prelude::*;
use crate::auth::{AuthError, AuthenticatedUser};
use crate::events::{
    EventContent, EventType, JoinRule, MatrixEvent, MembershipState, MessageType,
    RoomHistoryVisibilityContent, RoomJoinRulesContent, RoomMessageContent, RoomNameContent, RoomPowerLevelsContent,
    RoomTopicContent,
};
use crate::sources::{is_lower_hex, random_simple_uuid};
use crate::state::{
    joined_count, lemma_type_names_distinct, level_change_allowed, level_changes_allowed, slots, transition, with_membership, RoomState, RoomSummary, StateError,
};
use crate::store::StateStore;
use crate::table::{lookup, value_of, Entry};
use crate::util::{joined, owned};

verus! {

/// The largest message body accepted, in bytes.
pub const MAX_MESSAGE_BYTES: usize = 65536;

/// Why a room operation failed.
#[derive(Debug, Clone)]
pub enum RoomError {
    RoomNotFound(String),
    UserNotInRoom(String),
    InsufficientPermissions(String),
    RoomAlreadyExists(String),
    InvalidRoomConfig(String),
    MessageTooLarge(usize),
    StateError(StateError),
    AuthError(AuthError),
}

impl RoomError {
    /// The HTTP status for this error.
    pub open spec fn spec_status(&self) -> u16 {
        match self {
            RoomError::RoomNotFound(_) => 404,
            RoomError::UserNotInRoom(_) => 403,
            RoomError::InsufficientPermissions(_) => 403,
            RoomError::RoomAlreadyExists(_) => 409,
            RoomError::InvalidRoomConfig(_) => 400,
            RoomError::MessageTooLarge(_) => 413,
            RoomError::StateError(_) => 500,
            RoomError::AuthError(e) => e.spec_status(),
        }
    }

    /// The symbolic error code for this error.
    pub open spec fn spec_code(&self) -> Seq<char> {
        match self {
            RoomError::RoomNotFound(_) => "M_NOT_FOUND"@,
            RoomError::UserNotInRoom(_) => "M_FORBIDDEN"@,
            RoomError::InsufficientPermissions(_) => "M_FORBIDDEN"@,
            RoomError::RoomAlreadyExists(_) => "M_ROOM_IN_USE"@,
            RoomError::InvalidRoomConfig(_) => "M_BAD_JSON"@,
            RoomError::MessageTooLarge(_) => "M_TOO_LARGE"@,
            RoomError::StateError(_) => "M_UNKNOWN"@,
            RoomError::AuthError(e) => e.spec_code(),
        }
    }

    /// The HTTP status for this error.
    pub fn status_code(&self) -> (r: u16)
        ensures
            r == self.spec_status(),
    {
        match self {
            RoomError::RoomNotFound(_) => 404,
            RoomError::UserNotInRoom(_) => 403,
            RoomError::InsufficientPermissions(_) => 403,
            RoomError::RoomAlreadyExists(_) => 409,
            RoomError::InvalidRoomConfig(_) => 400,
            RoomError::MessageTooLarge(_) => 413,
            RoomError::StateError(_) => 500,
            RoomError::AuthError(e) => e.status_code(),
        }
    }

    /// The symbolic error code for this error.
    pub fn error_code(&self) -> (r: &'static str)
        ensures
            r@ == self.spec_code(),
    {
        match self {
            RoomError::RoomNotFound(_) => "M_NOT_FOUND",
            RoomError::UserNotInRoom(_) => "M_FORBIDDEN",
            RoomError::InsufficientPermissions(_) => "M_FORBIDDEN",
            RoomError::RoomAlreadyExists(_) => "M_ROOM_IN_USE",
            RoomError::InvalidRoomConfig(_) => "M_BAD_JSON",
            RoomError::MessageTooLarge(_) => "M_TOO_LARGE",
            RoomError::StateError(_) => "M_UNKNOWN",
            RoomError::AuthError(e) => e.error_code(),
        }
    }
}

/// A preset, which decides a new room's join rule.
#[derive(Debug, Clone, Copy, PartialEq, Eq, Structural)]
pub enum RoomPreset {
    PrivateChat,
    PublicChat,
    TrustedPrivateChat,
}

/// The join rule a preset gives: public for a public chat, invite otherwise.
pub open spec fn preset_join_rule(p: Option<RoomPreset>) -> JoinRule {
    match p {
        Some(RoomPreset::PublicChat) => JoinRule::Public,
        _ => JoinRule::Invite,
    }
}

/// A state event to place in a new room; its content is JSON text.
#[derive(Debug, Clone)]
pub struct StateEventConfig {
    pub event_type: String,
    pub state_key: String,
    pub content: String,
}

/// The options of a new room. `creation_content` is JSON text.
#[derive(Debug, Clone)]
pub struct RoomConfig {
    pub name: Option<String>,
    pub topic: Option<String>,
    pub room_alias_name: Option<String>,
    pub invite: Vec<String>,
    pub room_version: Option<String>,
    pub creation_content: Option<String>,
    pub initial_state: Vec<StateEventConfig>,
    pub preset: Option<RoomPreset>,
    pub is_direct: Option<bool>,
    pub power_level_content_override: Option<RoomPowerLevelsContent>,
    pub federate: Option<bool>,
}

#[derive(Debug, Clone)]
pub struct CreateRoomRequest {
    pub room_config: RoomConfig,
}

#[derive(Debug, Clone)]
pub struct CreateRoomResponse {
    pub room_id: String,
}

#[derive(Debug, Clone)]
pub struct JoinRoomRequest {
    pub room_id: String,
    pub reason: Option<String>,
}

#[derive(Debug, Clone)]
pub struct JoinRoomResponse {
    pub room_id: String,
}

#[derive(Debug, Clone)]
pub struct LeaveRoomRequest {
    pub room_id: String,
    pub reason: Option<String>,
}

/// A message to send; `relates_to` is JSON text.
#[derive(Debug, Clone)]
pub struct SendMessageRequest {
    pub room_id: String,
    pub msgtype: MessageType,
    pub body: String,
    pub formatted_body: Option<String>,
    pub format: Option<String>,
    pub relates_to: Option<String>,
}

#[derive(Debug, Clone)]
pub struct SendMessageResponse {
    pub event_id: String,
}

#[derive(Debug, Clone)]
pub struct GetMessagesRequest {
    pub room_id: String,
    pub from: Option<String>,
    pub to: Option<String>,
    pub limit: Option<u32>,
}

#[derive(Debug, Clone)]
pub struct GetMessagesResponse {
    pub chunk: Vec<MatrixEvent>,
    pub start: String,
    pub end: String,
}

/// The size in bytes of a text encoded as UTF-8, as `str::len` gives it.
pub open spec fn byte_len(s: Seq<char>) -> usize {
    vstd::utf8::encode_utf8(s).len() as usize
}

/// The name of the member-event type.
pub open spec fn member_type() -> Seq<char> {
    "m.room.member"@
}

/// `st` is the room created by `creator` from `config` under `id`: the creator
/// has joined with level 100; every other user that `config` invites is invited;
/// the name and topic are those of `config`; the join rule follows the preset;
/// history is shared; each initial state event's slot, and the slots of the
/// name and topic where given, are occupied; the join rule and the history
/// visibility are each backed by a state event.
pub open spec fn created(st: RoomState, creator: Seq<char>, config: RoomConfig, id: Seq<char>) -> bool {
    &&& st.wf()
    &&& st.room_id@ == id
    &&& st.creator@ == creator
    &&& forall|w: Seq<char>| #[trigger] value_of(st.power_levels.users@, w) == seeded_level(config, creator, w)
    &&& st.power_levels.is_initial()
    &&& st.membership(creator) == Some(MembershipState::Join)
    &&& forall|i: int|
        0 <= i < config.invite@.len() && (#[trigger] config.invite@[i])@ != creator ==> st.membership(
            config.invite@[i]@,
        ) == Some(MembershipState::Invite)
    &&& forall|w: Seq<char>|
        w != creator && !invited(config, w) ==> #[trigger] st.membership(w) is None
    &&& st.name == config.name
    &&& st.topic == config.topic
    &&& st.join_rules is Some && st.join_rules->Some_0@ == preset_join_rule(config.preset).spec_name()
    &&& st.history_visibility is Some && st.history_visibility->Some_0@ == "shared"@
    &&& forall|i: int|
        0 <= i < config.initial_state@.len() ==> st.state_event(
            (#[trigger] config.initial_state@[i]).event_type@,
            config.initial_state@[i].state_key@,
        ) is Some
    &&& config.name is Some ==> st.state_event("m.room.name"@, Seq::empty()) is Some
    &&& config.topic is Some ==> st.state_event("m.room.topic"@, Seq::empty()) is Some
    &&& st.state_event("m.room.join_rules"@, Seq::empty()) is Some
    &&& st.state_event("m.room.history_visibility"@, Seq::empty()) is Some
    &&& st.room_version@ == match config.room_version {
        Some(v) => v@,
        None => "9"@,
    }
}

/// The per-user levels that `config` asks for, if any.
pub open spec fn override_users(config: RoomConfig) -> Option<Vec<Entry<i32>>> {
    match config.power_level_content_override {
        Some(p) => p.users,
        None => None,
    }
}

/// The entry of user `w` in a new room's per-user level table: 100 for the
/// creator, else the level that the override of `config` lists for `w`, if any.
pub open spec fn seeded_level(config: RoomConfig, creator: Seq<char>, w: Seq<char>) -> Option<i32> {
    if w == creator {
        Some(100i32)
    } else {
        match override_users(config) {
            Some(v) => value_of(v@, w),
            None => None,
        }
    }
}

/// The level override of `config` is one the creator may apply: every level it
/// lists is at most 100, the creator's own level, and it leaves the creator at 100.
pub open spec fn override_ok(config: RoomConfig, creator: Seq<char>) -> bool {
    match override_users(config) {
        Some(v) => forall|i: int|
            0 <= i < v@.len() ==> (#[trigger] v@[i]).value <= 100 && (v@[i].key@ == creator ==> v@[i].value
                == 100),
        None => true,
    }
}

/// `config` invites user `w`.
pub open spec fn invited(config: RoomConfig, w: Seq<char>) -> bool {
    exists|i: int| 0 <= i < config.invite@.len() && (#[trigger] config.invite@[i])@ == w
}

/// The identifiers `create_room` can pick: `#alias:matrix.local` for an alias,
/// else `!`, 32 characters and `:matrix.local`.
pub open spec fn room_id_form(alias: Option<String>, id: Seq<char>) -> bool {
    match alias {
        Some(a) => id == "#"@ + a@ + ":matrix.local"@,
        None => exists|u: Seq<char>|
            u.len() == 32 && (forall|i: int| 0 <= i < 32 ==> is_lower_hex(#[trigger] u[i])) && id == "!"@ + u
                + ":matrix.local"@,
    }
}

/// No initial state event of `config` is a membership event.
pub open spec fn initial_state_ok(config: RoomConfig) -> bool {
    forall|i: int|
        0 <= i < config.initial_state@.len() ==> (#[trigger] config.initial_state@[i]).event_type@
            != member_type()
}

/// A created room reports the name and topic that its configuration supplied:
/// the summary of a room holds the room's own name and topic.
pub proof fn lemma_summary_round_trip(st: RoomState, summary: RoomSummary, creator: Seq<char>, config: RoomConfig, id: Seq<char>)
    requires
        created(st, creator, config, id),
        summary.name == st.name,
        summary.topic == st.topic,
    ensures
        summary.name == config.name,
        summary.topic == config.topic,
{
}

/// The creator of a new room has power level 100, with an entry of 100 in the
/// per-user table.
pub proof fn lemma_creator_is_admin(st: RoomState, creator: Seq<char>, config: RoomConfig, id: Seq<char>)
    requires
        created(st, creator, config, id),
    ensures
        st.power(creator) == 100,
        value_of(st.power_levels.users@, creator) == Some(100i32),
{
    assert(value_of(st.power_levels.users@, creator) == seeded_level(config, creator, creator));
}

/// `r` names one of the join rules: public, invite, private, knock,
/// knock_restricted, restricted.
pub open spec fn known_join_rule(r: Seq<char>) -> bool {
    r == "public"@ || r == "invite"@ || r == "private"@ || r == "knock"@ || r == "knock_restricted"@
        || r == "restricted"@
}

/// Whether the room's join rule is one of the known ones.
fn join_rule_known(st: &RoomState) -> (r: bool)
    ensures
        r == known_join_rule(st.join_rule()),
{
    let rule = match &st.join_rules {
        Some(j) => j.clone(),
        None => owned("invite"),
    };
    rule == owned("public") || rule == owned("invite") || rule == owned("private") || rule == owned("knock")
        || rule == owned("knock_restricted") || rule == owned("restricted")
}

/// In a room just created as a public chat, a user who is neither the creator
/// nor invited by the configuration may join: the join rule is a known one and
/// the membership state machine lets the user in.
pub proof fn lemma_fresh_public_room_join(
    st: RoomState,
    creator: Seq<char>,
    config: RoomConfig,
    id: Seq<char>,
    u: Seq<char>,
)
    requires
        created(st, creator, config, id),
        config.preset == Some(RoomPreset::PublicChat),
        u != creator,
        !invited(config, u),
    ensures
        known_join_rule(st.join_rule()),
        transition(st, u, u, MembershipState::Join) == Ok::<Option<MembershipState>, StateError>(
            Some(MembershipState::Join),
        ),
{
    assert(st.membership(u) is None);
}

/// The room handler: the orchestrator over a store of rooms.
pub struct RoomHandler<S: StateStore> {
    state_store: S,
}

impl<S: StateStore> RoomHandler<S> {
    pub closed spec fn wf(&self) -> bool {
        self.state_store.wf()
    }

    /// The snapshot of room `id`.
    pub closed spec fn room(&self, id: Seq<char>) -> Option<RoomState> {
        self.state_store.room(id)
    }

    /// Every room but `id` is as it was.
    pub open spec fn others_kept(a: Self, b: Self, id: Seq<char>) -> bool {
        forall|x: Seq<char>| x != id ==> #[trigger] b.room(x) == a.room(x)
    }

    /// Every room is as it was.
    pub open spec fn all_kept(a: Self, b: Self) -> bool {
        forall|x: Seq<char>| #[trigger] b.room(x) == a.room(x)
    }

    /// What creating room `id` for `creator` from `config` does, taking the
    /// handler from `a` to `b` with result `r`: an existing room is refused, then
    /// an empty creator or identifier, then a membership event among the initial
    /// state, then a level override that lists a level above 100; otherwise the
    /// room is created and no other room changes.
    pub open spec fn creation_outcome(
        a: Self,
        b: Self,
        creator: Seq<char>,
        config: RoomConfig,
        id: Seq<char>,
        r: Result<CreateRoomResponse, RoomError>,
    ) -> bool {
        if a.room(id) is Some {
            &&& r is Err && r->Err_0 is RoomAlreadyExists
            &&& r->Err_0->RoomAlreadyExists_0@ == id
            &&& Self::all_kept(a, b)
        } else if creator.len() == 0 || id.len() == 0 {
            &&& r is Err && r->Err_0 is InvalidRoomConfig
            &&& r->Err_0->InvalidRoomConfig_0@ == "Empty creator or room identifier"@
            &&& Self::all_kept(a, b)
        } else if !initial_state_ok(config) {
            &&& r is Err && r->Err_0 is InsufficientPermissions
            &&& r->Err_0->InsufficientPermissions_0@ == "Initial state event refused"@
            &&& Self::all_kept(a, b)
        } else if !override_ok(config, creator) {
            &&& r is Err && r->Err_0 is InsufficientPermissions
            &&& r->Err_0->InsufficientPermissions_0@ == "Power level override refused"@
            &&& Self::all_kept(a, b)
        } else {
            &&& r is Ok && r->Ok_0.room_id@ == id
            &&& b.room(id) is Some
            &&& created(b.room(id)->Some_0, creator, config, id)
            &&& Self::others_kept(a, b, id)
        }
    }

    /// Every stored snapshot is well formed and is stored under its own identifier.
    pub proof fn lemma_room_wf(&self, id: Seq<char>)
        requires
            self.wf(),
        ensures
            self.room(id) is Some ==> self.room(id)->Some_0.wf() && self.room(id)->Some_0.room_id@ == id,
    {
        self.state_store.lemma_room_wf(id);
    }

    /// A handler over `state_store`.
    pub fn new(state_store: S) -> (r: Self)
        requires
            state_store.wf(),
        ensures
            r.wf(),
            forall|x: Seq<char>| #[trigger] r.room(x) == state_store.room(x),
    {
        RoomHandler { state_store }
    }

    /// The snapshot of room `room_id`, if the room exists.
    pub fn get_room(&self, room_id: &str) -> (r: Option<&RoomState>)
        requires
            self.wf(),
        ensures
            match r {
                Some(x) => self.room(room_id@) == Some(*x),
                None => self.room(room_id@) is None,
            },
    {
        self.state_store.get_room(room_id)
    }

    /// Takes room `id` out of the store to change it.
    fn check_out(&mut self, id: &str) -> (r: Option<RoomState>)
        requires
            old(self).wf(),
        ensures
            final(self).wf(),
            r == old(self).room(id@),
            r is Some ==> r->Some_0.wf() && r->Some_0.room_id@ == id@,
            forall|x: Seq<char>| #[trigger] final(self).room(x) == if x == id@ {
                None
            } else {
                old(self).room(x)
            },
    {
        proof {
            self.lemma_room_wf(id@);
        }
        self.state_store.take_room(id)
    }

    /// Puts a room taken out by `check_out` back in the store.
    fn check_in(&mut self, st: RoomState)
        requires
            old(self).wf(),
            old(self).room(st.room_id@) is None,
            st.wf(),
        ensures
            final(self).wf(),
            forall|x: Seq<char>| #[trigger] final(self).room(x) == if x == st.room_id@ {
                Some(st)
            } else {
                old(self).room(x)
            },
    {
        let _ = self.state_store.create_room(st);
    }

    /// Joins `user` to room `request.room_id` as the membership state machine
    /// allows. A room whose join rule is not a known one is refused with
    /// `InvalidRoomConfig`.
    pub fn join_room(&mut self, user: &AuthenticatedUser, request: JoinRoomRequest) -> (r: Result<
        JoinRoomResponse,
        RoomError,
    >)
        requires
            old(self).wf(),
        ensures
            final(self).wf(),
            match old(self).room(request.room_id@) {
                None => r == Err::<JoinRoomResponse, RoomError>(RoomError::RoomNotFound(request.room_id)) && Self::all_kept(*old(self), *final(self)),
                Some(st) => if !known_join_rule(st.join_rule()) {
                    (r is Err && r->Err_0 is InvalidRoomConfig && r->Err_0->InvalidRoomConfig_0@ == "Unknown join rule"@) && Self::all_kept(*old(self), *final(self))
                } else {
                    match transition(st, user.user_id@, user.user_id@, MembershipState::Join) {
                    Ok(m) => r is Ok && r->Ok_0.room_id == request.room_id
                        && final(self).room(request.room_id@) is Some
                        && with_membership(st, final(self).room(request.room_id@)->Some_0, user.user_id@, m)
                        && Self::others_kept(*old(self), *final(self), request.room_id@),
                    Err(x) => (r is Err && r->Err_0 is InsufficientPermissions && r->Err_0->InsufficientPermissions_0@ == if x is InvalidTransition { "Invalid membership transition"@ } else { "Room requires invitation"@ })
                        && Self::all_kept(*old(self), *final(self)),
                    }
                },
            },
    {
        let room_id = request.room_id;
        let mut st = match self.check_out(room_id.as_str()) {
            None => return Err(RoomError::RoomNotFound(room_id)),
            Some(st) => st,
        };
        if !join_rule_known(&st) {
            self.check_in(st);
            return Err(RoomError::InvalidRoomConfig(owned("Unknown join rule")));
        }
        let res = st.change_membership(&user.user_id, user.user_id.clone(), MembershipState::Join);
        self.check_in(st);
        match res {
            Ok(()) => Ok(JoinRoomResponse { room_id }),
            Err(StateError::InvalidTransition) => Err(
                RoomError::InsufficientPermissions(owned("Invalid membership transition")),
            ),
            Err(_) => Err(RoomError::InsufficientPermissions(owned("Room requires invitation"))),
        }
    }

    /// Takes `user` out of room `request.room_id`. A user with no membership in
    /// the room is refused with `UserNotInRoom`.
    pub fn leave_room(&mut self, user: &AuthenticatedUser, request: LeaveRoomRequest) -> (r: Result<
        (),
        RoomError,
    >)
        requires
            old(self).wf(),
        ensures
            final(self).wf(),
            match old(self).room(request.room_id@) {
                None => r == Err::<(), RoomError>(RoomError::RoomNotFound(request.room_id)) && Self::all_kept(*old(self), *final(self)),
                Some(st) => if st.membership(user.user_id@) is None {
                    r == Err::<(), RoomError>(RoomError::UserNotInRoom(user.user_id)) && Self::all_kept(*old(self), *final(self))
                } else {
                    match transition(st, user.user_id@, user.user_id@, MembershipState::Leave) {
                        Ok(m) => r is Ok && final(self).room(request.room_id@) is Some
                            && with_membership(st, final(self).room(request.room_id@)->Some_0, user.user_id@, m)
                            && Self::others_kept(*old(self), *final(self), request.room_id@),
                        Err(_) => (r is Err && r->Err_0 is InsufficientPermissions && r->Err_0->InsufficientPermissions_0@ == "Cannot leave the room"@)
                            && Self::all_kept(*old(self), *final(self)),
                    }
                },
            },
    {
        let room_id = request.room_id;
        let mut st = match self.check_out(room_id.as_str()) {
            None => return Err(RoomError::RoomNotFound(room_id)),
            Some(st) => st,
        };
        if st.membership_of(user.user_id.as_str()).is_none() {
            self.check_in(st);
            return Err(RoomError::UserNotInRoom(user.user_id.clone()));
        }
        let res = st.change_membership(&user.user_id, user.user_id.clone(), MembershipState::Leave);
        self.check_in(st);
        match res {
            Ok(()) => Ok(()),
            Err(_) => Err(RoomError::InsufficientPermissions(owned("Cannot leave the room"))),
        }
    }

    /// Sends a message to room `request.room_id`: the sender must have joined, and
    /// the body may hold at most `MAX_MESSAGE_BYTES` bytes. Returns the new event's
    /// identifier, `$` followed by 32 hexadecimal digits.
    pub fn send_message(&self, user: &AuthenticatedUser, request: SendMessageRequest) -> (r: Result<
        SendMessageResponse,
        RoomError,
    >)
        requires
            self.wf(),
        ensures
            match self.room(request.room_id@) {
                None => r == Err::<SendMessageResponse, RoomError>(RoomError::RoomNotFound(request.room_id)),
                Some(st) => if st.membership(user.user_id@) != Some(MembershipState::Join) {
                    r == Err::<SendMessageResponse, RoomError>(RoomError::UserNotInRoom(user.user_id))
                } else if byte_len(request.body@) > MAX_MESSAGE_BYTES {
                    r == Err::<SendMessageResponse, RoomError>(RoomError::MessageTooLarge(byte_len(request.body@)))
                } else {
                    r is Ok && r->Ok_0.event_id@.len() == 33 && r->Ok_0.event_id@[0] == '$'
                        && forall|i: int| 1 <= i < 33 ==> crate::sources::is_lower_hex(#[trigger] r->Ok_0.event_id@[i])
                },
            },
    {
        proof {
            self.lemma_room_wf(request.room_id@);
        }
        let st = match self.state_store.get_room(request.room_id.as_str()) {
            None => return Err(RoomError::RoomNotFound(request.room_id)),
            Some(st) => st,
        };
        if !st.is_member(user.user_id.as_str()) {
            return Err(RoomError::UserNotInRoom(user.user_id.clone()));
        }
        let size = request.body.as_str().len();
        if size > MAX_MESSAGE_BYTES {
            return Err(RoomError::MessageTooLarge(size));
        }
        let content = RoomMessageContent {
            msgtype: request.msgtype,
            body: request.body,
            formatted_body: request.formatted_body,
            format: request.format,
            relates_to: None,
        };
        let event = MatrixEvent::new(
            EventType::RoomMessage,
            EventContent::RoomMessage(content),
            user.user_id.clone(),
            request.room_id,
        );
        Ok(SendMessageResponse { event_id: event.event_id })
    }

    /// The messages of room `request.room_id` for a joined user. The timeline is
    /// kept outside the engine, so the chunk is empty; the bounds echo the request,
    /// `"0"` where it gives none.
    pub fn get_messages(&self, user: &AuthenticatedUser, request: GetMessagesRequest) -> (r: Result<
        GetMessagesResponse,
        RoomError,
    >)
        requires
            self.wf(),
        ensures
            match self.room(request.room_id@) {
                None => r == Err::<GetMessagesResponse, RoomError>(RoomError::RoomNotFound(request.room_id)),
                Some(st) => if st.membership(user.user_id@) != Some(MembershipState::Join) {
                    r == Err::<GetMessagesResponse, RoomError>(RoomError::UserNotInRoom(user.user_id))
                } else {
                    r is Ok && r->Ok_0.chunk@.len() == 0
                        && r->Ok_0.start@ == match request.from {
                            Some(f) => f@,
                            None => "0"@,
                        }
                        && r->Ok_0.end@ == match request.to {
                            Some(t) => t@,
                            None => "0"@,
                        }
                },
            },
    {
        proof {
            self.lemma_room_wf(request.room_id@);
        }
        let st = match self.state_store.get_room(request.room_id.as_str()) {
            None => return Err(RoomError::RoomNotFound(request.room_id)),
            Some(st) => st,
        };
        if !st.is_member(user.user_id.as_str()) {
            return Err(RoomError::UserNotInRoom(user.user_id.clone()));
        }
        let start = match request.from {
            Some(f) => f,
            None => owned("0"),
        };
        let end = match request.to {
            Some(t) => t,
            None => owned("0"),
        };
        Ok(GetMessagesResponse { chunk: Vec::new(), start, end })
    }

    /// The summary of room `room_id` for a joined user.
    pub fn get_room_summary(&self, user: &AuthenticatedUser, room_id: &str) -> (r: Result<
        RoomSummary,
        RoomError,
    >)
        requires
            self.wf(),
        ensures
            match self.room(room_id@) {
                None => r is Err && r->Err_0 is RoomNotFound && r->Err_0->RoomNotFound_0@ == room_id@,
                Some(st) => if st.membership(user.user_id@) != Some(MembershipState::Join) {
                    r == Err::<RoomSummary, RoomError>(RoomError::UserNotInRoom(user.user_id))
                } else {
                    r is Ok && r->Ok_0.room_id == st.room_id && r->Ok_0.room_id@ == room_id@ && r->Ok_0.name == st.name
                        && r->Ok_0.topic == st.topic && r->Ok_0.member_count == joined_count(st.members@)
                        && r->Ok_0.join_rules == st.join_rules
                        && r->Ok_0.history_visibility == st.history_visibility
                },
            },
    {
        proof {
            self.lemma_room_wf(room_id@);
        }
        let st = match self.state_store.get_room(room_id) {
            None => return Err(RoomError::RoomNotFound(owned(room_id))),
            Some(st) => st,
        };
        if !st.is_member(user.user_id.as_str()) {
            return Err(RoomError::UserNotInRoom(user.user_id.clone()));
        }
        Ok(st.get_summary())
    }

    /// The identifiers of the rooms `user` has joined, each once.
    pub fn list_rooms(&self, user: &AuthenticatedUser) -> (r: Vec<String>)
        requires
            self.wf(),
        ensures
            forall|i: int| 0 <= i < r@.len() ==> {
                let x = self.room(#[trigger] r@[i]@);
                x is Some && x->Some_0.membership(user.user_id@) == Some(MembershipState::Join)
            },
            forall|id: Seq<char>| #[trigger] self.room(id) is Some && self.room(id)->Some_0.membership(user.user_id@)
                == Some(MembershipState::Join) ==> exists|i: int| 0 <= i < r@.len() && r@[i]@ == id,
            forall|i: int, j: int| 0 <= i < j < r@.len() ==> r@[i]@ != r@[j]@,
    {
        let all_rooms = self.state_store.list_rooms();
        let mut user_rooms: Vec<String> = Vec::new();
        let ghost mut picked: Seq<int> = Seq::empty();
        let mut i: usize = 0;
        while i < all_rooms.len()
            invariant
                self.wf(),
                i <= all_rooms@.len(),
                forall|k: int| 0 <= k < all_rooms@.len() ==> self.room(#[trigger] all_rooms@[k]@) is Some,
                forall|id: Seq<char>| #[trigger] self.room(id) is Some ==> exists|k: int| 0 <= k < all_rooms@.len() && all_rooms@[k]@ == id,
                forall|a: int, b: int| 0 <= a < b < all_rooms@.len() ==> all_rooms@[a]@ != all_rooms@[b]@,
                picked.len() == user_rooms@.len(),
                forall|a: int| 0 <= a < picked.len() ==> 0 <= #[trigger] picked[a] < i && user_rooms@[a] == all_rooms@[picked[a]],
                forall|a: int, b: int| 0 <= a < b < picked.len() ==> picked[a] < picked[b],
                forall|a: int| 0 <= a < user_rooms@.len() ==> {
                    let x = self.room(#[trigger] user_rooms@[a]@);
                    x is Some && x->Some_0.membership(user.user_id@) == Some(MembershipState::Join)
                },
                forall|k: int| 0 <= k < i && {
                    let x = self.room(#[trigger] all_rooms@[k]@);
                    x is Some && x->Some_0.membership(user.user_id@) == Some(MembershipState::Join)
                } ==> exists|a: int| 0 <= a < picked.len() && picked[a] == k,
            decreases all_rooms@.len() - i,
        {
            proof {
                self.lemma_room_wf(all_rooms@[i as int]@);
            }
            let joined_here = match self.state_store.get_room(all_rooms[i].as_str()) {
                Some(st) => st.is_member(user.user_id.as_str()),
                None => false,
            };
            let ghost old_picked = picked;
            if joined_here {
                user_rooms.push(all_rooms[i].clone());
                proof {
                    picked = picked.push(i as int);
                }
            }
            proof {
                assert forall|k: int| 0 <= k < i + 1 && {
                    let x = self.room(#[trigger] all_rooms@[k]@);
                    x is Some && x->Some_0.membership(user.user_id@) == Some(MembershipState::Join)
                } implies exists|a: int| 0 <= a < picked.len() && picked[a] == k by {
                    if k < i {
                        let a = choose|a: int| 0 <= a < old_picked.len() && old_picked[a] == k;
                        assert(picked[a] == k);
                    } else {
                        assert(picked[picked.len() - 1] == k);
                    }
                }
            }
            i = i + 1;
        }
        proof {
            assert forall|id: Seq<char>| #[trigger] self.room(id) is Some && self.room(id)->Some_0.membership(user.user_id@)
                == Some(MembershipState::Join) implies exists|a: int| 0 <= a < user_rooms@.len() && user_rooms@[a]@ == id by {
                let k = choose|k: int| 0 <= k < all_rooms@.len() && all_rooms@[k]@ == id;
                let a = choose|a: int| 0 <= a < picked.len() && picked[a] == k;
                assert(user_rooms@[a]@ == id);
            }
            assert forall|a: int, b: int| 0 <= a < b < user_rooms@.len() implies user_rooms@[a]@ != user_rooms@[b]@ by {
                assert(picked[a] < picked[b]);
            }
        }
        user_rooms
    }

    /// A fresh room identifier: `#alias:matrix.local` for an alias, else `!`, 32
    /// random hexadecimal digits and `:matrix.local`.
    pub fn generate_room_id(alias: &Option<String>) -> (r: String)
        ensures
            match alias {
                Some(a) => r@ == "#"@ + a@ + ":matrix.local"@,
                None => exists|u: Seq<char>|
                    u.len() == 32 && (forall|i: int| 0 <= i < 32 ==> is_lower_hex(#[trigger] u[i])) && r@ == "!"@
                        + u + ":matrix.local"@,
            },
    {
        match alias {
            Some(a) => {
                let head = joined("#", a.as_str());
                joined(head.as_str(), ":matrix.local")
            },
            None => {
                let token = random_simple_uuid();
                let head = joined("!", token.as_str());
                joined(head.as_str(), ":matrix.local")
            },
        }
    }

    /// Creates a room under a fresh identifier; see `create_room_with_id`.
    pub fn create_room(&mut self, creator: &AuthenticatedUser, config: RoomConfig) -> (r: Result<
        CreateRoomResponse,
        RoomError,
    >)
        requires
            old(self).wf(),
        ensures
            final(self).wf(),
            exists|id: Seq<char>|
                room_id_form(config.room_alias_name, id) && Self::creation_outcome(
                    *old(self),
                    *final(self),
                    creator.user_id@,
                    config,
                    id,
                    r,
                ),
            r is Ok ==> room_id_form(config.room_alias_name, r->Ok_0.room_id@) && old(self).room(
                r->Ok_0.room_id@,
            ) is None && Self::creation_outcome(
                *old(self),
                *final(self),
                creator.user_id@,
                config,
                r->Ok_0.room_id@,
                r,
            ),
    {
        let room_id = Self::generate_room_id(&config.room_alias_name);
        proof {
            reveal_strlit("!");
            reveal_strlit("#");
            reveal_strlit(":matrix.local");
        }
        assert(room_id@.len() > 0);
        let ghost id = room_id@;
        let r = self.create_room_with_id(creator, config, room_id);
        assert(room_id_form(config.room_alias_name, id));
        r
    }

    /// Creates room `room_id` for `creator` from `config`: the creator joins with
    /// level 100, the initial state events of `config` are applied in order, each
    /// authorized, then the name, the topic and the join rule of the preset, and
    /// the creator invites each user that `config` lists; last, the per-user
    /// levels of the level override are set (its other fields are not used). Fails
    /// with `RoomAlreadyExists` where the room exists, then with
    /// `InvalidRoomConfig` for an empty creator or room identifier, then with
    /// `InsufficientPermissions` where an initial state event is a membership event
    /// or the level override lists a level above 100 or moves the creator.
    pub fn create_room_with_id(&mut self, creator: &AuthenticatedUser, config: RoomConfig, room_id: String) -> (r: Result<
        CreateRoomResponse,
        RoomError,
    >)
        requires
            old(self).wf(),
        ensures
            final(self).wf(),
            Self::creation_outcome(*old(self), *final(self), creator.user_id@, config, room_id@, r),
            r is Ok ==> r->Ok_0.room_id == room_id,
    {
        if self.state_store.room_exists(room_id.as_str()) {
            return Err(RoomError::RoomAlreadyExists(room_id));
        }
        if creator.user_id.as_str().is_empty() || room_id.as_str().is_empty() {
            return Err(RoomError::InvalidRoomConfig(owned("Empty creator or room identifier")));
        }
        let ghost cfg = config;
        let ghost u = creator.user_id@;
        let room_version = match config.room_version {
            Some(v) => v,
            None => owned("9"),
        };
        let mut st = RoomState::new(room_id.clone(), creator.user_id.clone(), room_version);
        proof {
            lemma_type_names_distinct();
            reveal_strlit("m.room.member");
        }
        let mut i: usize = 0;
        while i < config.initial_state.len()
            invariant
                cfg == config,
                u == creator.user_id@,
                u.len() > 0,
                room_id@.len() > 0,
                i <= config.initial_state@.len(),
                forall|j: int| 0 <= j < i ==> (#[trigger] config.initial_state@[j]).event_type@ != member_type(),
                forall|j: int|
                    0 <= j < i ==> lookup(
                        slots(st.state_events@),
                        ((#[trigger] config.initial_state@[j]).event_type@, config.initial_state@[j].state_key@),
                    ) is Some,
                st.wf(),
                st.room_id == room_id,
                st.creator@ == u,
                st.room_version@ == match cfg.room_version {
                    Some(v) => v@,
                    None => "9"@,
                },
                st.membership(u) == Some(MembershipState::Join),
                forall|w: Seq<char>| w != u ==> #[trigger] st.membership(w) is None,
                st.power(u) == 100,
                value_of(st.power_levels.users@, u) == Some(100i32),
                forall|w: Seq<char>| w != u ==> #[trigger] value_of(st.power_levels.users@, w) is None,
                st.power_levels.is_initial(),
                st.name is None,
                st.topic is None,
                st.history_visibility is Some && st.history_visibility->Some_0@ == "shared"@,
                self.wf(),
                old(self).room(room_id@) is None,
                Self::all_kept(*old(self), *self),
            decreases config.initial_state@.len() - i,
        {
            let sc = &config.initial_state[i];
            let event = MatrixEvent::new(
                EventType::Custom(sc.event_type.clone()),
                EventContent::Raw(sc.content.clone()),
                creator.user_id.clone(),
                room_id.clone(),
            ).with_state_key(sc.state_key.clone());
            let ghost a = st;
            proof {
                assert(a.power_levels.required_level(event.event_type@) <= 50) by {
                    crate::table::lemma_value_of(a.power_levels.events@, event.event_type@);
                }
            }
            let ghost ev = event;
            match st.add_state_event(event) {
                Ok(()) => {},
                Err(_) => {
                    assert(ev.event_type@ == member_type());
                    return Err(RoomError::InsufficientPermissions(owned("Initial state event refused")));
                },
            }
            proof {
                assert forall|x: Seq<char>| true implies st.power(x) == a.power(x) by {
                    assert(crate::table::value_of(st.power_levels.users@, x) == crate::table::value_of(a.power_levels.users@, x));
                }
            }
            i = i + 1;
        }
        let ghost before_name = st;
        match config.name {
            Some(name) => {
                let ev = MatrixEvent::new(
                    EventType::RoomName,
                    EventContent::RoomName(RoomNameContent { name }),
                    creator.user_id.clone(),
                    room_id.clone(),
                ).with_state_key(String::new());
                proof {
                    crate::table::lemma_value_of(st.power_levels.events@, ev.event_type@);
                }
                let _ = st.add_state_event(ev);
            },
            None => {},
        }
        match config.topic {
            Some(topic) => {
                let ev = MatrixEvent::new(
                    EventType::RoomTopic,
                    EventContent::RoomTopic(RoomTopicContent { topic }),
                    creator.user_id.clone(),
                    room_id.clone(),
                ).with_state_key(String::new());
                proof {
                    crate::table::lemma_value_of(st.power_levels.events@, ev.event_type@);
                }
                let _ = st.add_state_event(ev);
            },
            None => {},
        }
        let join_rule = match config.preset {
            Some(RoomPreset::PublicChat) => JoinRule::Public,
            _ => JoinRule::Invite,
        };
        let ev = MatrixEvent::new(
            EventType::RoomJoinRules,
            EventContent::RoomJoinRules(RoomJoinRulesContent { join_rule }),
            creator.user_id.clone(),
            room_id.clone(),
        ).with_state_key(String::new());
        proof {
            crate::table::lemma_value_of(st.power_levels.events@, ev.event_type@);
        }
        let _ = st.add_state_event(ev);
        assert(lookup(slots(st.state_events@), ("m.room.join_rules"@, Seq::<char>::empty())) is Some);
        let ev = MatrixEvent::new(
            EventType::RoomHistoryVisibility,
            EventContent::RoomHistoryVisibility(RoomHistoryVisibilityContent { history_visibility: owned("shared") }),
            creator.user_id.clone(),
            room_id.clone(),
        ).with_state_key(String::new());
        proof {
            crate::table::lemma_value_of(st.power_levels.events@, ev.event_type@);
        }
        let _ = st.add_state_event(ev);
        assert(lookup(slots(st.state_events@), ("m.room.join_rules"@, Seq::<char>::empty())) is Some);
        assert(lookup(slots(st.state_events@), ("m.room.history_visibility"@, Seq::<char>::empty())) is Some);
        assert(st.power(u) == 100);
        assert(st.power_levels.invite == Some(50i32));
        assert(forall|w: Seq<char>| w != u ==> #[trigger] st.membership(w) is None);
        assert(forall|w: Seq<char>| #[trigger] value_of(st.power_levels.users@, w) == if w == u {
            Some(100i32)
        } else {
            None
        });
        let ghost before_invites = st;
        let mut k: usize = 0;
        while k < config.invite.len()
            invariant
                u == creator.user_id@,
                k <= config.invite@.len(),
                st.wf(),
                st.room_id == before_invites.room_id,
                st.room_version == before_invites.room_version,
                st.creator == before_invites.creator,
                st.power_levels == before_invites.power_levels,
                st.name == before_invites.name,
                st.topic == before_invites.topic,
                st.join_rules == before_invites.join_rules,
                st.history_visibility == before_invites.history_visibility,
                st.state_events == before_invites.state_events,
                st.membership(u) == Some(MembershipState::Join),
                st.power(u) == 100,
                st.power_levels.invite == Some(50i32),
                forall|w: Seq<char>| w != u ==> #[trigger] st.membership(w) is None || st.membership(w) == Some(
                    MembershipState::Invite,
                ),
                forall|j: int|
                    0 <= j < k && (#[trigger] config.invite@[j])@ != u ==> st.membership(config.invite@[j]@)
                        == Some(MembershipState::Invite),
                forall|w: Seq<char>|
                    w != u && !(exists|j: int| 0 <= j < k && (#[trigger] config.invite@[j])@ == w)
                        ==> #[trigger] st.membership(w) is None,
            decreases config.invite@.len() - k,
        {
            let invitee = &config.invite[k];
            if *invitee != creator.user_id {
                let _ = st.change_membership(&creator.user_id, invitee.clone(), MembershipState::Invite);
            }
            k = k + 1;
        }
        match config.power_level_content_override {
            Some(p) => {
                let ghost pv = p;
                let ev = MatrixEvent::new(
                    EventType::RoomPowerLevels,
                    EventContent::RoomPowerLevels(p),
                    creator.user_id.clone(),
                    room_id.clone(),
                ).with_state_key(String::new());
                proof {
                    assert(st.power_levels.required_level(ev.event_type@) == 50);
                    assert(forall|w: Seq<char>| w != u ==> #[trigger] st.power(w) == 0) by {
                        assert forall|w: Seq<char>| w != u implies #[trigger] st.power(w) == 0 by {
                            assert(value_of(st.power_levels.users@, w) == value_of(before_invites.power_levels.users@, w));
                        }
                    }
                    assert(override_ok(cfg, u) <==> level_changes_allowed(st, u, p.users)) by {
                        if let Some(v) = p.users {
                            assert forall|i: int| 0 <= i < v@.len() implies ((#[trigger] v@[i]).value <= 100
                                && (v@[i].key@ == u ==> v@[i].value == 100))
                                <==> level_change_allowed(st, u, v@[i].key@, v@[i].value as int) by {
                                if v@[i].key@ != u {
                                    assert(st.power(v@[i].key@) == 0);
                                }
                            }
                        }
                    }
                }
                match st.add_state_event(ev) {
                    Ok(()) => {
                        proof {
                            if let Some(v) = pv.users {
                                if value_of(v@, u) is Some {
                                    crate::table::lemma_lookup_some(crate::table::pairs(v@), u);
                                    let i = choose|i: int| 0 <= i < v@.len() && crate::table::pairs(v@)[i].0 == u
                                        && crate::table::pairs(v@)[i].1 == value_of(v@, u)->Some_0;
                                    assert(v@[i].key@ == u);
                                }
                            }
                        }
                    },
                    Err(_) => {
                        assert(!override_ok(cfg, u));
                        return Err(RoomError::InsufficientPermissions(owned("Power level override refused")));
                    },
                }
            },
            None => {},
        }
        let _ = self.state_store.create_room(st);
        Ok(CreateRoomResponse { room_id })
    }
}

} // verus!
