//! A room's materialized state: its state events, its members, and its power levels,
//! with the membership state machine and the authorization rules that guard them.

use vstd::prelude::*;
use crate::events::{EventContent, EventType, MatrixEvent, MembershipState};
use crate::table::{
    get_value, lemma_lookup_absent, lookup, pairs, remove_value, set_value, table_wf, value_of,
    Entry,
};
use crate::util::{copy_opt_string, owned};

verus! {

/// The level a room's creator starts with, and the level of an administrator.
pub const ADMIN_LEVEL: i32 = 100;

/// The level of a moderator.
pub const MODERATOR_LEVEL: i32 = 50;

/// Why a state operation was refused.
#[derive(Debug, Clone)]
pub enum StateError {
    RoomNotFound(String),
    UserNotFound(String),
    InsufficientPermissions,
    InvalidEvent(String),
    StateConflict(String),
    InvalidTransition,
}

/// Per-user power levels and the levels that actions require.
#[derive(Debug, Clone)]
pub struct PowerLevels {
    pub users: Vec<Entry<i32>>,
    pub users_default: Option<i32>,
    pub events: Vec<Entry<i32>>,
    pub events_default: Option<i32>,
    pub state_default: Option<i32>,
    pub ban: Option<i32>,
    pub kick: Option<i32>,
    pub redact: Option<i32>,
    pub invite: Option<i32>,
}

/// `o`'s value, or `d` where it has none.
pub open spec fn level_or(o: Option<i32>, d: int) -> int {
    match o {
        Some(l) => l as int,
        None => d,
    }
}

/// `o`'s value, or `d` where it has none.
pub fn or_level(o: Option<i32>, d: i32) -> (r: i32)
    ensures
        r as int == level_or(o, d as int),
{
    match o {
        Some(l) => l,
        None => d,
    }
}

impl PowerLevels {
    /// The per-user and per-type tables hold each key once.
    pub open spec fn wf(&self) -> bool {
        table_wf(self.users@) && table_wf(self.events@)
    }

    /// The level of a user with no entry of their own.
    pub open spec fn default_user_level(&self) -> int {
        level_or(self.users_default, 0)
    }

    /// The level of user `u`.
    pub open spec fn level_of(&self, u: Seq<char>) -> int {
        match value_of(self.users@, u) {
            Some(l) => l as int,
            None => self.default_user_level(),
        }
    }

    pub open spec fn events_level(&self) -> int {
        level_or(self.events_default, 0)
    }

    pub open spec fn state_level(&self) -> int {
        level_or(self.state_default, 50)
    }

    pub open spec fn ban_level(&self) -> int {
        level_or(self.ban, 50)
    }

    pub open spec fn kick_level(&self) -> int {
        level_or(self.kick, 50)
    }

    pub open spec fn invite_level(&self) -> int {
        level_or(self.invite, 50)
    }

    /// The level needed to send a non-membership state event of type `t`: the
    /// state default for the administrative types (power levels, join rules),
    /// whatever the per-type table says; otherwise the type's own entry, else the
    /// events default.
    pub open spec fn required_level(&self, t: Seq<char>) -> int {
        if is_admin_type(t) {
            self.state_level()
        } else {
            match value_of(self.events@, t) {
                Some(l) => l as int,
                None => self.events_level(),
            }
        }
    }

    /// The levels a new room starts with: no entries, users 0, events 0,
    /// state, ban, kick, redact and invite 50.
    pub open spec fn is_initial(&self) -> bool {
        &&& self.users_default == Some(0i32)
        &&& self.events@.len() == 0
        &&& self.events_default == Some(0i32)
        &&& self.state_default == Some(50i32)
        &&& self.ban == Some(50i32)
        &&& self.kick == Some(50i32)
        &&& self.redact == Some(50i32)
        &&& self.invite == Some(50i32)
    }

    /// The level of `user_id`.
    pub fn level(&self, user_id: &String) -> (r: i32)
        requires
            self.wf(),
        ensures
            r as int == self.level_of(user_id@),
    {
        match get_value(&self.users, user_id) {
            Some(l) => l,
            None => match self.users_default {
                Some(d) => d,
                None => 0,
            },
        }
    }

    /// The level needed to send a non-membership state event of type `t`.
    pub fn required(&self, t: &EventType) -> (r: i32)
        requires
            self.wf(),
        ensures
            r as int == self.required_level(t@),
    {
        if t.is_named("m.room.power_levels") || t.is_named("m.room.join_rules") {
            match self.state_default {
                Some(l) => l,
                None => 50,
            }
        } else {
            match get_value(&self.events, &t.name()) {
                Some(l) => l,
                None => match self.events_default {
                    Some(l) => l,
                    None => 0,
                },
            }
        }
    }
}

/// The names of the event types that the state engine treats specially differ.
pub proof fn lemma_type_names_distinct()
    ensures
        "m.room.member"@ != "m.room.power_levels"@,
        "m.room.member"@ != "m.room.name"@,
        "m.room.member"@ != "m.room.topic"@,
        "m.room.member"@ != "m.room.join_rules"@,
        "m.room.power_levels"@ != "m.room.name"@,
        "m.room.power_levels"@ != "m.room.topic"@,
        "m.room.power_levels"@ != "m.room.join_rules"@,
        "m.room.name"@ != "m.room.topic"@,
        "m.room.name"@ != "m.room.join_rules"@,
        "m.room.topic"@ != "m.room.join_rules"@,
        "m.room.history_visibility"@ != "m.room.member"@,
        "m.room.history_visibility"@ != "m.room.power_levels"@,
        "m.room.history_visibility"@ != "m.room.name"@,
        "m.room.history_visibility"@ != "m.room.topic"@,
        "m.room.history_visibility"@ != "m.room.join_rules"@,
{
    reveal_strlit("m.room.member");
    reveal_strlit("m.room.power_levels");
    reveal_strlit("m.room.name");
    reveal_strlit("m.room.topic");
    reveal_strlit("m.room.join_rules");
    assert("m.room.member"@.len() == 13);
    assert("m.room.power_levels"@.len() == 19);
    assert("m.room.name"@.len() == 11);
    assert("m.room.topic"@.len() == 12);
    assert("m.room.join_rules"@.len() == 17);
    reveal_strlit("m.room.history_visibility");
    assert("m.room.history_visibility"@.len() == 25);
}

/// The administrative event types, which need the state default level.
pub open spec fn is_admin_type(t: Seq<char>) -> bool {
    t == "m.room.power_levels"@ || t == "m.room.join_rules"@
}

/// The slot an event occupies: its type's name and its state key.
pub open spec fn slot_of(e: MatrixEvent) -> (Seq<char>, Seq<char>) {
    (
        e.event_type@,
        match e.state_key {
            Some(k) => k@,
            None => Seq::empty(),
        },
    )
}

/// The events of a sequence keyed by their slots.
pub open spec fn slots(s: Seq<MatrixEvent>) -> Seq<((Seq<char>, Seq<char>), MatrixEvent)> {
    s.map_values(|e: MatrixEvent| (slot_of(e), e))
}

/// The membership state machine. For a request by `s` to move `t` to `m`, the
/// membership `t` ends with (`None`: no record), or why the request is refused.
/// A user with no record may be joined where the join rule is public (by any
/// sender, as the table's first guard reads), or may join on their own with
/// level 100.
pub open spec fn transition(st: RoomState, s: Seq<char>, t: Seq<char>, m: MembershipState) -> Result<
    Option<MembershipState>,
    StateError,
> {
    let ps = st.power(s);
    let pl = st.power_levels;
    match (st.membership(t), m) {
        (None, MembershipState::Join) => if st.join_rule() == "public"@ || (s == t && ps >= 100) {
            Ok(Some(MembershipState::Join))
        } else {
            Err(StateError::InsufficientPermissions)
        },
        (None, MembershipState::Invite) => if ps >= pl.invite_level() {
            Ok(Some(MembershipState::Invite))
        } else {
            Err(StateError::InsufficientPermissions)
        },
        (None, MembershipState::Knock) => if s == t && (st.join_rule() == "knock"@ || st.join_rule()
            == "knock_restricted"@) {
            Ok(Some(MembershipState::Knock))
        } else {
            Err(StateError::InsufficientPermissions)
        },
        (Some(MembershipState::Invite), MembershipState::Join) => if s == t {
            Ok(Some(MembershipState::Join))
        } else {
            Err(StateError::InsufficientPermissions)
        },
        (Some(MembershipState::Invite), MembershipState::Leave) => if s == t || ps
            >= pl.invite_level() {
            Ok(None)
        } else {
            Err(StateError::InsufficientPermissions)
        },
        (Some(MembershipState::Join), MembershipState::Leave) => if s == t || ps >= pl.kick_level() {
            Ok(None)
        } else {
            Err(StateError::InsufficientPermissions)
        },
        (Some(MembershipState::Join), MembershipState::Ban) => if ps >= pl.ban_level() && ps
            > st.power(t) {
            Ok(Some(MembershipState::Ban))
        } else {
            Err(StateError::InsufficientPermissions)
        },
        (Some(MembershipState::Ban), MembershipState::Leave) => if ps >= pl.ban_level() {
            Ok(None)
        } else {
            Err(StateError::InsufficientPermissions)
        },
        _ => Err(StateError::InvalidTransition),
    }
}

/// Whether `s` may set the level of `t` to `l`: a level that stays as it is is
/// always allowed; otherwise `s` grants at most their own level, and changes only
/// the level of a user strictly below them (so never their own).
pub open spec fn level_change_allowed(st: RoomState, s: Seq<char>, t: Seq<char>, l: int) -> bool {
    l == st.power(t) || (l <= st.power(s) && st.power(t) < st.power(s))
}

/// Every level that a power-levels content sets is one `s` may set.
pub open spec fn level_changes_allowed(st: RoomState, s: Seq<char>, users: Option<Vec<Entry<i32>>>) -> bool {
    match users {
        Some(v) => forall|i: int|
            0 <= i < v@.len() ==> level_change_allowed(st, s, #[trigger] v@[i].key@, v@[i].value as int),
        None => true,
    }
}

/// The authorization rules, judged against the state as it stands before the event.
/// A timeline event needs a joined sender. A membership event follows the membership
/// state machine. Any other state event needs a joined sender with the level its
/// type requires; a power-levels event must moreover only make level changes that
/// its sender may make.
pub open spec fn authorize(st: RoomState, e: MatrixEvent) -> Result<(), StateError> {
    match e.state_key {
        None => if st.membership(e.sender@) == Some(MembershipState::Join) {
            Ok(())
        } else {
            Err(StateError::InsufficientPermissions)
        },
        Some(k) => if e.event_type@ == "m.room.member"@ {
            match e.content {
                EventContent::RoomMember(c) => match transition(st, e.sender@, k@, c.membership) {
                    Ok(_) => Ok(()),
                    Err(x) => Err(x),
                },
                _ => Err(StateError::InvalidTransition),
            }
        } else if st.membership(e.sender@) != Some(MembershipState::Join) || st.power(e.sender@)
            < st.power_levels.required_level(e.event_type@) {
            Err(StateError::InsufficientPermissions)
        } else if e.event_type@ == "m.room.power_levels"@ {
            match e.content {
                EventContent::RoomPowerLevels(p) => if level_changes_allowed(st, e.sender@, p.users) {
                    Ok(())
                } else {
                    Err(StateError::InsufficientPermissions)
                },
                _ => Ok(()),
            }
        } else {
            Ok(())
        },
    }
}

/// The event names its sender, its room and itself.
pub open spec fn has_ids(e: MatrixEvent) -> bool {
    e.sender@.len() > 0 && e.room_id@.len() > 0 && e.event_id@.len() > 0
}

/// The state key of a state event.
pub open spec fn key_of(e: MatrixEvent) -> Seq<char> {
    slot_of(e).1
}

/// `b` is `a` after the accepted state event `e`: `e` occupies its slot; a
/// membership event moves its target as the state machine says; a power-levels
/// event sets the levels of the users it lists; a name, topic, join-rules or
/// history-visibility event
/// with the empty state key updates the matching field; all else stays.
pub open spec fn applied(a: RoomState, b: RoomState, e: MatrixEvent) -> bool {
    let t = e.event_type@;
    let k = key_of(e);
    &&& b.wf()
    &&& forall|s: (Seq<char>, Seq<char>)| #[trigger]
        lookup(slots(b.state_events@), s) == if s == slot_of(e) {
            Some(e)
        } else {
            lookup(slots(a.state_events@), s)
        }
    &&& forall|u: Seq<char>| #[trigger]
        b.membership(u) == if t == "m.room.member"@ && u == k && e.content is RoomMember {
            transition(a, e.sender@, k, e.content->RoomMember_0.membership)->Ok_0
        } else {
            a.membership(u)
        }
    &&& forall|u: Seq<char>| #[trigger]
        value_of(b.power_levels.users@, u) == if t == "m.room.power_levels"@
            && e.content is RoomPowerLevels && e.content->RoomPowerLevels_0.users is Some
            && value_of(e.content->RoomPowerLevels_0.users->Some_0@, u) is Some {
            value_of(e.content->RoomPowerLevels_0.users->Some_0@, u)
        } else {
            value_of(a.power_levels.users@, u)
        }
    &&& b.power_levels.users_default == a.power_levels.users_default
    &&& b.power_levels.events == a.power_levels.events
    &&& b.power_levels.events_default == a.power_levels.events_default
    &&& b.power_levels.state_default == a.power_levels.state_default
    &&& b.power_levels.ban == a.power_levels.ban
    &&& b.power_levels.kick == a.power_levels.kick
    &&& b.power_levels.redact == a.power_levels.redact
    &&& b.power_levels.invite == a.power_levels.invite
    &&& b.name == if t == "m.room.name"@ && k.len() == 0 && e.content is RoomName {
        Some(e.content->RoomName_0.name)
    } else {
        a.name
    }
    &&& b.topic == if t == "m.room.topic"@ && k.len() == 0 && e.content is RoomTopic {
        Some(e.content->RoomTopic_0.topic)
    } else {
        a.topic
    }
    &&& if t == "m.room.join_rules"@ && k.len() == 0 && e.content is RoomJoinRules {
        b.join_rules is Some && b.join_rules->Some_0@ == e.content->RoomJoinRules_0.join_rule.spec_name()
    } else {
        b.join_rules == a.join_rules
    }
    &&& b.room_id == a.room_id
    &&& b.room_version == a.room_version
    &&& b.creator == a.creator
    &&& b.avatar_url == a.avatar_url
    &&& b.history_visibility == if t == "m.room.history_visibility"@ && k.len() == 0
        && e.content is RoomHistoryVisibility {
        Some(e.content->RoomHistoryVisibility_0.history_visibility)
    } else {
        a.history_visibility
    }
}

/// Sets, in order, the level of each user that `v` lists.
fn merge_levels(users: &mut Vec<Entry<i32>>, v: &Vec<Entry<i32>>)
    requires
        table_wf(old(users)@),
    ensures
        table_wf(final(users)@),
        forall|u: Seq<char>| #[trigger]
            value_of(final(users)@, u) == if value_of(v@, u) is Some {
                value_of(v@, u)
            } else {
                value_of(old(users)@, u)
            },
{
    let ghost orig = users@;
    let mut i: usize = 0;
    while i < v.len()
        invariant
            i <= v@.len(),
            table_wf(users@),
            forall|u: Seq<char>| #[trigger]
                value_of(users@, u) == if value_of(v@.subrange(0, i as int), u) is Some {
                    value_of(v@.subrange(0, i as int), u)
                } else {
                    value_of(orig, u)
                },
        decreases v@.len() - i,
    {
        let ghost before = users@;
        set_value(users, v[i].key.clone(), v[i].value);
        proof {
            let p0 = pairs(v@.subrange(0, i as int));
            let p1 = pairs(v@.subrange(0, i + 1));
            assert(p1.drop_last() =~= p0);
            assert(p1.last() == (v@[i as int].key@, v@[i as int].value));
            assert forall|u: Seq<char>| #[trigger]
                value_of(users@, u) == if value_of(v@.subrange(0, i + 1), u) is Some {
                    value_of(v@.subrange(0, i + 1), u)
                } else {
                    value_of(orig, u)
                } by {
                assert(value_of(users@, u) == if u == v@[i as int].key@ {
                    Some(v@[i as int].value)
                } else {
                    value_of(before, u)
                });
            }
        }
        i = i + 1;
    }
    assert(v@.subrange(0, v@.len() as int) =~= v@);
}

/// The membership, power levels and everything else of `b` are those of `a`,
/// but for the membership of `t`, which is `m`.
pub open spec fn with_membership(a: RoomState, b: RoomState, t: Seq<char>, m: Option<MembershipState>) -> bool {
    &&& b.wf()
    &&& forall|u: Seq<char>| #[trigger] b.membership(u) == if u == t {
        m
    } else {
        a.membership(u)
    }
    &&& b.room_id == a.room_id
    &&& b.room_version == a.room_version
    &&& b.creator == a.creator
    &&& b.state_events == a.state_events
    &&& b.power_levels == a.power_levels
    &&& b.join_rules == a.join_rules
    &&& b.name == a.name
    &&& b.topic == a.topic
    &&& b.avatar_url == a.avatar_url
    &&& b.history_visibility == a.history_visibility
    &&& b.members@.len() == a.members@.len() + (if m is Some { 1int } else { 0int }) - (if a.membership(t) is Some { 1int } else { 0int })
}

/// Every event of `s` has a state key, and no two share a slot.
pub open spec fn slots_wf(s: Seq<MatrixEvent>) -> bool {
    &&& crate::table::keys_unique(slots(s))
    &&& forall|i: int| 0 <= i < s.len() ==> (#[trigger] s[i]).state_key is Some
}

/// The position of the event in slot `(t, k)`, if there is one.
fn find_slot(events: &Vec<MatrixEvent>, t: &String, k: &String) -> (r: Option<usize>)
    requires
        slots_wf(events@),
    ensures
        match r {
            Some(i) => i < events@.len() && slot_of(events@[i as int]) == (t@, k@),
            None => forall|i: int| 0 <= i < events@.len() ==> slot_of(events@[i]) != (t@, k@),
        },
{
    let mut i: usize = 0;
    while i < events.len()
        invariant
            slots_wf(events@),
            i <= events@.len(),
            forall|j: int| 0 <= j < i ==> slot_of(events@[j]) != (t@, k@),
        decreases events@.len() - i,
    {
        let e = &events[i];
        let same_key = match &e.state_key {
            Some(x) => *x == *k,
            None => false,
        };
        if same_key && e.event_type.name() == *t {
            return Some(i);
        }
        i = i + 1;
    }
    None
}

/// Puts `e` in its slot, in place of the event that held it.
fn put_slot(events: &mut Vec<MatrixEvent>, e: MatrixEvent)
    requires
        slots_wf(old(events)@),
        e.state_key is Some,
    ensures
        slots_wf(final(events)@),
        forall|s: (Seq<char>, Seq<char>)| #[trigger]
            lookup(slots(final(events)@), s) == if s == slot_of(e) {
                Some(e)
            } else {
                lookup(slots(old(events)@), s)
            },
{
    let ghost old_events = events@;
    let t = e.event_type.name();
    let k = match &e.state_key {
        Some(x) => x.clone(),
        None => String::new(),
    };
    match find_slot(events, &t, &k) {
        Some(i) => {
            events.set(i, e);
            proof {
                assert(slots(events@) =~= slots(old_events).update(i as int, (slot_of(e), e)));
                crate::table::lemma_lookup_update(slots(old_events), i as int, (slot_of(e), e));
            }
        },
        None => {
            events.push(e);
            proof {
                assert(slots(events@) =~= slots(old_events).push((slot_of(e), e)));
                crate::table::lemma_lookup_push(slots(old_events), (slot_of(e), e));
            }
        },
    }
}

/// A user who is not in the room cannot join an invite-only room without level
/// 100, and can always join a public room.
pub proof fn lemma_join_rule_gate(st: RoomState, u: Seq<char>)
    requires
        st.wf(),
        st.membership(u) is None,
    ensures
        st.join_rule() == "invite"@ && st.power(u) < 100 ==> transition(st, u, u, MembershipState::Join)
            == Err::<Option<MembershipState>, StateError>(StateError::InsufficientPermissions),
        st.join_rule() == "public"@ ==> transition(st, u, u, MembershipState::Join) == Ok::<
            Option<MembershipState>,
            StateError,
        >(Some(MembershipState::Join)),
{
    reveal_strlit("invite");
    reveal_strlit("public");
    assert("invite"@[0] != "public"@[0]);
}

/// Leaving empties the membership: after a leave that the state machine allows,
/// the user has no membership record left, so a second leave finds none.
pub proof fn lemma_leave_clears_membership(a: RoomState, b: RoomState, u: Seq<char>)
    requires
        a.wf(),
        transition(a, u, u, MembershipState::Leave) is Ok,
        with_membership(a, b, u, transition(a, u, u, MembershipState::Leave)->Ok_0),
    ensures
        b.membership(u) is None,
        transition(b, u, u, MembershipState::Leave) == Err::<Option<MembershipState>, StateError>(
            StateError::InvalidTransition,
        ),
{
}

/// No privilege escalation: a power-levels event that sets some user's level above
/// the sender's own (and different from that user's current level) is refused.
pub proof fn lemma_no_escalation(st: RoomState, e: MatrixEvent, i: int)
    requires
        st.wf(),
        e.state_key is Some,
        e.event_type@ == "m.room.power_levels"@,
        e.content is RoomPowerLevels,
        e.content->RoomPowerLevels_0.users is Some,
        0 <= i < e.content->RoomPowerLevels_0.users->Some_0@.len(),
        e.content->RoomPowerLevels_0.users->Some_0@[i].value > st.power(e.sender@),
        e.content->RoomPowerLevels_0.users->Some_0@[i].value != st.power(
            e.content->RoomPowerLevels_0.users->Some_0@[i].key@,
        ),
    ensures
        authorize(st, e) is Err,
{
    lemma_type_names_distinct();
    let v = e.content->RoomPowerLevels_0.users->Some_0;
    assert(!level_change_allowed(st, e.sender@, v@[i].key@, v@[i].value as int));
}

/// The number of entries of `s` whose membership is `Join`.
pub open spec fn joined_count(s: Seq<Entry<MembershipState>>) -> nat
    decreases s.len(),
{
    if s.len() == 0 {
        0
    } else {
        joined_count(s.drop_last()) + if s.last().value == MembershipState::Join {
            1nat
        } else {
            0nat
        }
    }
}

/// A room's current, reconciled state.
#[derive(Debug, Clone)]
pub struct RoomState {
    pub room_id: String,
    pub room_version: String,
    pub state_events: Vec<MatrixEvent>,
    pub members: Vec<Entry<MembershipState>>,
    pub power_levels: PowerLevels,
    pub creator: String,
    pub join_rules: Option<String>,
    pub name: Option<String>,
    pub topic: Option<String>,
    pub avatar_url: Option<String>,
    pub history_visibility: Option<String>,
}

/// A room's summary for clients.
#[derive(Debug, Clone)]
pub struct RoomSummary {
    pub room_id: String,
    pub name: Option<String>,
    pub topic: Option<String>,
    pub member_count: usize,
    pub join_rules: Option<String>,
    pub history_visibility: Option<String>,
}

impl RoomState {
    /// Each member, each slot and each table key appears once, and every state
    /// event has a state key.
    pub open spec fn wf(&self) -> bool {
        &&& table_wf(self.members@)
        &&& self.power_levels.wf()
        &&& slots_wf(self.state_events@)
    }

    /// The membership of user `u`; `None` where the user has no record.
    pub open spec fn membership(&self, u: Seq<char>) -> Option<MembershipState> {
        value_of(self.members@, u)
    }

    /// The power level of user `u`.
    pub open spec fn power(&self, u: Seq<char>) -> int {
        self.power_levels.level_of(u)
    }

    /// The room's join rule; a room without one is invite-only.
    pub open spec fn join_rule(&self) -> Seq<char> {
        match self.join_rules {
            Some(s) => s@,
            None => "invite"@,
        }
    }

    /// The event occupying slot `(t, k)`.
    pub open spec fn state_event(&self, t: Seq<char>, k: Seq<char>) -> Option<MatrixEvent> {
        lookup(slots(self.state_events@), (t, k))
    }

    /// A new room whose creator has joined with level 100, with the default levels,
    /// an invite-only join rule and shared history.
    pub fn new(room_id: String, creator: String, room_version: String) -> (r: Self)
        ensures
            r.wf(),
            r.room_id == room_id,
            r.creator == creator,
            r.room_version == room_version,
            r.power(creator@) == 100,
            value_of(r.power_levels.users@, creator@) == Some(100i32),
            forall|u: Seq<char>| u != creator@ ==> r.power(u) == 0,
            forall|u: Seq<char>| u != creator@ ==> #[trigger] value_of(r.power_levels.users@, u) is None,
            forall|u: Seq<char>| #[trigger]
                r.membership(u) == if u == creator@ {
                    Some(MembershipState::Join)
                } else {
                    None
                },
            r.members@.len() == 1,
            r.power_levels.is_initial(),
            r.state_events@.len() == 0,
            r.join_rules is Some && r.join_rules->Some_0@ == "invite"@,
            r.history_visibility is Some && r.history_visibility->Some_0@ == "shared"@,
            r.name is None,
            r.topic is None,
            r.avatar_url is None,
    {
        let mut users: Vec<Entry<i32>> = Vec::new();
        set_value(&mut users, creator.clone(), ADMIN_LEVEL);
        let mut members: Vec<Entry<MembershipState>> = Vec::new();
        set_value(&mut members, creator.clone(), MembershipState::Join);
        let power_levels = PowerLevels {
            users,
            users_default: Some(0),
            events: Vec::new(),
            events_default: Some(0),
            state_default: Some(50),
            ban: Some(50),
            kick: Some(50),
            redact: Some(50),
            invite: Some(50),
        };
        let r = RoomState {
            room_id,
            room_version,
            state_events: Vec::new(),
            members,
            power_levels,
            creator,
            join_rules: Some(owned("invite")),
            name: None,
            topic: None,
            avatar_url: None,
            history_visibility: Some(owned("shared")),
        };
        assert(r.wf()) by {
            assert(table_wf(r.power_levels.events@));
        }
        r
    }

    /// The power level of `user_id`.
    pub fn get_user_power_level(&self, user_id: &str) -> (r: i32)
        requires
            self.wf(),
        ensures
            r as int == self.power(user_id@),
    {
        self.power_levels.level(&owned(user_id))
    }

    /// Whether `user_id` has at least `required_level`.
    pub fn user_has_power_level(&self, user_id: &str, required_level: i32) -> (r: bool)
        requires
            self.wf(),
        ensures
            r == (self.power(user_id@) >= required_level),
    {
        self.get_user_power_level(user_id) >= required_level
    }

    /// Whether `user_id` has joined the room.
    pub fn is_member(&self, user_id: &str) -> (r: bool)
        requires
            self.wf(),
        ensures
            r == (self.membership(user_id@) == Some(MembershipState::Join)),
    {
        match get_value(&self.members, &owned(user_id)) {
            Some(MembershipState::Join) => true,
            _ => false,
        }
    }

    /// Whether `user_id` has level 100 or more.
    pub fn is_admin(&self, user_id: &str) -> (r: bool)
        requires
            self.wf(),
        ensures
            r == (self.power(user_id@) >= 100),
    {
        self.user_has_power_level(user_id, ADMIN_LEVEL)
    }

    /// Whether `user_id` has level 50 or more.
    pub fn is_moderator(&self, user_id: &str) -> (r: bool)
        requires
            self.wf(),
        ensures
            r == (self.power(user_id@) >= 50),
    {
        self.user_has_power_level(user_id, MODERATOR_LEVEL)
    }

    /// The membership of `user_id`, if the user has a record.
    pub fn membership_of(&self, user_id: &str) -> (r: Option<MembershipState>)
        requires
            self.wf(),
        ensures
            r == self.membership(user_id@),
    {
        get_value(&self.members, &owned(user_id))
    }

    /// The outcome of a request by `sender` to move `target` to `requested`,
    /// judged against the state as it stands.
    pub fn membership_transition(&self, sender: &String, target: &String, requested: MembershipState) -> (r: Result<Option<MembershipState>, StateError>)
        requires
            self.wf(),
        ensures
            r == transition(*self, sender@, target@, requested),
    {
        let ps = self.power_levels.level(sender);
        let current = get_value(&self.members, target);
        let same = *sender == *target;
        let join_rule = match &self.join_rules {
            Some(j) => j.clone(),
            None => owned("invite"),
        };
        let denied = Err(StateError::InsufficientPermissions);
        match (current, requested) {
            (None, MembershipState::Join) => if join_rule == owned("public") || (same && ps >= ADMIN_LEVEL) {
                Ok(Some(MembershipState::Join))
            } else {
                denied
            },
            (None, MembershipState::Invite) => if ps >= or_level(self.power_levels.invite, 50) {
                Ok(Some(MembershipState::Invite))
            } else {
                denied
            },
            (None, MembershipState::Knock) => if same && (join_rule == owned("knock") || join_rule == owned("knock_restricted")) {
                Ok(Some(MembershipState::Knock))
            } else {
                denied
            },
            (Some(MembershipState::Invite), MembershipState::Join) => if same {
                Ok(Some(MembershipState::Join))
            } else {
                denied
            },
            (Some(MembershipState::Invite), MembershipState::Leave) => if same || ps >= or_level(self.power_levels.invite, 50) {
                Ok(None)
            } else {
                denied
            },
            (Some(MembershipState::Join), MembershipState::Leave) => if same || ps >= or_level(self.power_levels.kick, 50) {
                Ok(None)
            } else {
                denied
            },
            (Some(MembershipState::Join), MembershipState::Ban) => if ps >= or_level(self.power_levels.ban, 50) && ps > self.power_levels.level(target) {
                Ok(Some(MembershipState::Ban))
            } else {
                denied
            },
            (Some(MembershipState::Ban), MembershipState::Leave) => if ps >= or_level(self.power_levels.ban, 50) {
                Ok(None)
            } else {
                denied
            },
            _ => Err(StateError::InvalidTransition),
        }
    }

    /// Whether `sender` may make each level change of `users`.
    fn check_level_changes(&self, sender: &String, users: &Option<Vec<Entry<i32>>>) -> (r: bool)
        requires
            self.wf(),
        ensures
            r == level_changes_allowed(*self, sender@, *users),
    {
        match users.as_ref() {
            None => true,
            Some(v) => {
                let ps = self.power_levels.level(sender);
                let mut i: usize = 0;
                while i < v.len()
                    invariant
                        self.wf(),
                        users is Some && users->Some_0 == *v,
                        i <= v@.len(),
                        ps as int == self.power(sender@),
                        forall|j: int|
                            0 <= j < i ==> level_change_allowed(*self, sender@, #[trigger] v@[j].key@, v@[j].value as int),
                    decreases v@.len() - i,
                {
                    let t = &v[i].key;
                    let l = v[i].value;
                    let pt = self.power_levels.level(t);
                    if !(l == pt || (l <= ps && pt < ps)) {
                        assert(!level_change_allowed(*self, sender@, v@[i as int].key@, v@[i as int].value as int));
                        assert(!level_changes_allowed(*self, sender@, *users));
                        return false;
                    }
                    i = i + 1;
                }
                true
            },
        }
    }

    /// The authorization engine: whether `event` may be applied to the room as it
    /// stands.
    pub fn authorize_event(&self, event: &MatrixEvent) -> (r: Result<(), StateError>)
        requires
            self.wf(),
        ensures
            r == authorize(*self, *event),
    {
        match &event.state_key {
            None => if self.is_member(event.sender.as_str()) {
                Ok(())
            } else {
                Err(StateError::InsufficientPermissions)
            },
            Some(k) => if event.event_type.is_named("m.room.member") {
                match &event.content {
                    EventContent::RoomMember(c) => match self.membership_transition(&event.sender, k, c.membership) {
                        Ok(_) => Ok(()),
                        Err(x) => Err(x),
                    },
                    _ => Err(StateError::InvalidTransition),
                }
            } else if !self.is_member(event.sender.as_str()) || self.power_levels.level(&event.sender)
                < self.power_levels.required(&event.event_type) {
                Err(StateError::InsufficientPermissions)
            } else if event.event_type.is_named("m.room.power_levels") {
                match &event.content {
                    EventContent::RoomPowerLevels(p) => if self.check_level_changes(&event.sender, &p.users) {
                        Ok(())
                    } else {
                        Err(StateError::InsufficientPermissions)
                    },
                    _ => Ok(()),
                }
            } else {
                Ok(())
            },
        }
    }

    /// Applies a state event: checks that it has a state key and its identifiers,
    /// runs the authorization engine against the state as it stands, then places
    /// the event in its slot and updates what the slot governs.
    pub fn add_state_event(&mut self, event: MatrixEvent) -> (r: Result<(), StateError>)
        requires
            old(self).wf(),
        ensures
            final(self).wf(),
            event.state_key is None ==> r is Err && r->Err_0 is InvalidEvent && r->Err_0->InvalidEvent_0@ == "State event missing state key"@,
            event.state_key is Some && !has_ids(event) ==> r is Err && r->Err_0 is InvalidEvent && r->Err_0->InvalidEvent_0@ == if event.sender@.len() == 0 {
                "Sender cannot be empty"@
            } else if event.room_id@.len() == 0 {
                "Room ID cannot be empty"@
            } else {
                "Event ID cannot be empty"@
            },
            event.state_key is Some && has_ids(event) ==> match authorize(*old(self), event) {
                Ok(_) => r is Ok,
                Err(x) => r == Err::<(), StateError>(x),
            },
            r is Err ==> *final(self) == *old(self),
            r is Ok ==> applied(*old(self), *final(self), event),
    {
        let key = match &event.state_key {
            None => return Err(StateError::InvalidEvent(owned("State event missing state key"))),
            Some(k) => k.clone(),
        };
        match event.validate() {
            Err(e) => return Err(StateError::InvalidEvent(e.message())),
            Ok(()) => {},
        }
        match self.authorize_event(&event) {
            Err(x) => return Err(x),
            Ok(()) => {},
        }
        let ghost a = *self;
        proof {
            lemma_type_names_distinct();
        }
        if event.event_type.is_named("m.room.member") {
            match &event.content {
                EventContent::RoomMember(c) => {
                    match self.membership_transition(&event.sender, &key, c.membership) {
                        Ok(m) => self.put_membership(key.clone(), m),
                        Err(_) => {},
                    }
                },
                _ => {},
            }
        } else if event.event_type.is_named("m.room.power_levels") {
            match &event.content {
                EventContent::RoomPowerLevels(p) => match p.users.as_ref() {
                    Some(v) => merge_levels(&mut self.power_levels.users, v),
                    None => {},
                },
                _ => {},
            }
        } else if key.as_str().is_empty() {
            if event.event_type.is_named("m.room.name") {
                match &event.content {
                    EventContent::RoomName(c) => self.name = Some(c.name.clone()),
                    _ => {},
                }
            } else if event.event_type.is_named("m.room.topic") {
                match &event.content {
                    EventContent::RoomTopic(c) => self.topic = Some(c.topic.clone()),
                    _ => {},
                }
            } else if event.event_type.is_named("m.room.join_rules") {
                match &event.content {
                    EventContent::RoomJoinRules(c) => self.join_rules = Some(c.join_rule.name()),
                    _ => {},
                }
            } else if event.event_type.is_named("m.room.history_visibility") {
                match &event.content {
                    EventContent::RoomHistoryVisibility(c) => {
                        self.history_visibility = Some(c.history_visibility.clone())
                    },
                    _ => {},
                }
            }
        }
        let ghost ev = event;
        let ghost before = *self;
        put_slot(&mut self.state_events, event);
        let ghost b = *self;
        assert forall|u: Seq<char>| #[trigger] b.membership(u) == before.membership(u) by {}
        assert(applied(a, b, ev));
        Ok(())
    }

    /// Records `m` as the membership of `user` (`None`: removes the record).
    fn put_membership(&mut self, user: String, m: Option<MembershipState>)
        requires
            old(self).wf(),
        ensures
            with_membership(*old(self), *final(self), user@, m),
    {
        match m {
            Some(v) => set_value(&mut self.members, user, v),
            None => remove_value(&mut self.members, &user),
        }
    }

    /// Moves `target` to `requested` on behalf of `sender`, where the membership
    /// state machine allows it; otherwise leaves the room as it was.
    pub fn change_membership(&mut self, sender: &String, target: String, requested: MembershipState) -> (r: Result<(), StateError>)
        requires
            old(self).wf(),
        ensures
            final(self).wf(),
            match transition(*old(self), sender@, target@, requested) {
                Ok(m) => r is Ok && with_membership(*old(self), *final(self), target@, m),
                Err(e) => r == Err::<(), StateError>(e) && *final(self) == *old(self),
            },
    {
        match self.membership_transition(sender, &target, requested) {
            Ok(m) => {
                self.put_membership(target, m);
                Ok(())
            },
            Err(e) => Err(e),
        }
    }

    /// Runs a membership event through the membership state machine: its sender
    /// asks to move the user named by its state key (or, without one, the sender)
    /// to the membership its content gives. An event without membership content
    /// changes nothing.
    pub fn process_member_event(&mut self, event: &MatrixEvent) -> (r: Result<(), StateError>)
        requires
            old(self).wf(),
        ensures
            final(self).wf(),
            match event.content {
                EventContent::RoomMember(c) => {
                    let target = match event.state_key {
                        Some(k) => k@,
                        None => event.sender@,
                    };
                    match transition(*old(self), event.sender@, target, c.membership) {
                        Ok(m) => r is Ok && with_membership(*old(self), *final(self), target, m),
                        Err(e) => r == Err::<(), StateError>(e) && *final(self) == *old(self),
                    }
                },
                _ => r is Ok && *final(self) == *old(self),
            },
    {
        match &event.content {
            EventContent::RoomMember(c) => {
                let target = match &event.state_key {
                    Some(k) => k.clone(),
                    None => event.sender.clone(),
                };
                self.change_membership(&event.sender, target, c.membership)
            },
            _ => Ok(()),
        }
    }

    /// The event in slot (`event_type`, `state_key`), if any.
    pub fn get_state_event(&self, event_type: &EventType, state_key: &str) -> (r: Option<&MatrixEvent>)
        requires
            self.wf(),
        ensures
            match r {
                Some(e) => self.state_event(event_type@, state_key@) == Some(*e),
                None => self.state_event(event_type@, state_key@) is None,
            },
    {
        let t = event_type.name();
        let k = owned(state_key);
        match find_slot(&self.state_events, &t, &k) {
            Some(i) => {
                proof {
                    crate::table::lemma_lookup_found(slots(self.state_events@), i as int);
                }
                Some(&self.state_events[i])
            },
            None => {
                proof {
                    lemma_lookup_absent(slots(self.state_events@), (t@, k@));
                }
                None
            },
        }
    }

    /// The state events whose type is `event_type`, in slot order.
    pub fn get_state_events_by_type(&self, event_type: &EventType) -> (r: Vec<&MatrixEvent>)
        requires
            self.wf(),
        ensures
            forall|i: int| 0 <= i < r@.len() ==> (#[trigger] r@[i]).event_type@ == event_type@
                && self.state_event(event_type@, key_of(*r@[i])) == Some(*r@[i]),
            forall|j: int| 0 <= j < self.state_events@.len() && (#[trigger] self.state_events@[j]).event_type@ == event_type@
                ==> exists|i: int| 0 <= i < r@.len() && *r@[i] == self.state_events@[j],
    {
        let t = event_type.name();
        let mut r: Vec<&MatrixEvent> = Vec::new();
        let mut i: usize = 0;
        while i < self.state_events.len()
            invariant
                self.wf(),
                t@ == event_type@,
                i <= self.state_events@.len(),
                forall|a: int| 0 <= a < r@.len() ==> exists|j: int| 0 <= j < i && *(#[trigger] r@[a]) == self.state_events@[j]
                    && self.state_events@[j].event_type@ == event_type@,
                forall|j: int| 0 <= j < i && (#[trigger] self.state_events@[j]).event_type@ == event_type@
                    ==> exists|a: int| 0 <= a < r@.len() && *r@[a] == self.state_events@[j],
            decreases self.state_events@.len() - i,
        {
            if self.state_events[i].event_type.name() == t {
                let ghost before = r@;
                r.push(&self.state_events[i]);
                proof {
                    assert forall|a: int| 0 <= a < r@.len() implies exists|j: int| 0 <= j < i + 1 && *(#[trigger] r@[a]) == self.state_events@[j]
                        && self.state_events@[j].event_type@ == event_type@ by {
                        if a < before.len() {
                            assert(r@[a] == before[a]);
                        } else {
                            assert(*r@[a] == self.state_events@[i as int]);
                        }
                    }
                    assert forall|j: int| 0 <= j < i + 1 && (#[trigger] self.state_events@[j]).event_type@ == event_type@
                        implies exists|a: int| 0 <= a < r@.len() && *r@[a] == self.state_events@[j] by {
                        if j < i {
                            let a = choose|a: int| 0 <= a < before.len() && *before[a] == self.state_events@[j];
                            assert(r@[a] == before[a]);
                        } else {
                            assert(*r@[before.len() as int] == self.state_events@[j]);
                        }
                    }
                }
            }
            i = i + 1;
        }
        proof {
            assert forall|a: int| 0 <= a < r@.len() implies (#[trigger] r@[a]).event_type@ == event_type@
                && self.state_event(event_type@, key_of(*r@[a])) == Some(*r@[a]) by {
                let j = choose|j: int| 0 <= j < self.state_events@.len() && *r@[a] == self.state_events@[j]
                    && self.state_events@[j].event_type@ == event_type@;
                assert(slots(self.state_events@)[j].0 == (event_type@, key_of(*r@[a])));
                crate::table::lemma_lookup_found(slots(self.state_events@), j);
            }
        }
        r
    }

    /// The number of users who have joined the room.
    pub fn count_joined(&self) -> (r: usize)
        ensures
            r == joined_count(self.members@),
    {
        let mut n: usize = 0;
        let mut i: usize = 0;
        while i < self.members.len()
            invariant
                i <= self.members@.len(),
                n <= i,
                n == joined_count(self.members@.subrange(0, i as int)),
            decreases self.members@.len() - i,
        {
            assert(self.members@.subrange(0, i + 1).drop_last() =~= self.members@.subrange(0, i as int));
            if self.members[i].value == MembershipState::Join {
                n = n + 1;
            }
            i = i + 1;
        }
        assert(self.members@.subrange(0, self.members@.len() as int) =~= self.members@);
        n
    }

    /// The room's summary.
    pub fn get_summary(&self) -> (r: RoomSummary)
        ensures
            r.room_id == self.room_id,
            r.name == self.name,
            r.topic == self.topic,
            r.member_count == joined_count(self.members@),
            r.join_rules == self.join_rules,
            r.history_visibility == self.history_visibility,
    {
        RoomSummary {
            room_id: self.room_id.clone(),
            name: copy_opt_string(&self.name),
            topic: copy_opt_string(&self.topic),
            member_count: self.count_joined(),
            join_rules: copy_opt_string(&self.join_rules),
            history_visibility: copy_opt_string(&self.history_visibility),
        }
    }
}

} // verus!
