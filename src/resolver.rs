//! State resolution: of several authorized events competing for one slot, the one
//! whose sender has the highest power level wins; ties go to the earliest origin
//! timestamp, then to the event identifier that comes first in character order.

use vstd::prelude::*;
use vstd::string::*;
use crate::events::MatrixEvent;
use crate::state::{applied, authorize, has_ids, RoomState, StateError};

verus! {

/// `a` comes strictly before `b` in character order.
pub open spec fn lex_lt(a: Seq<char>, b: Seq<char>) -> bool
    decreases a.len(),
{
    if a.len() == 0 {
        b.len() > 0
    } else if b.len() == 0 {
        false
    } else if a[0] != b[0] {
        (a[0] < b[0])
    } else {
        lex_lt(a.drop_first(), b.drop_first())
    }
}

pub proof fn lemma_lex_asymmetric(a: Seq<char>, b: Seq<char>)
    ensures
        lex_lt(a, b) ==> !lex_lt(b, a),
    decreases a.len(),
{
    if a.len() > 0 && b.len() > 0 && a[0] == b[0] {
        lemma_lex_asymmetric(a.drop_first(), b.drop_first());
    }
}

pub proof fn lemma_lex_total(a: Seq<char>, b: Seq<char>)
    ensures
        a != b ==> lex_lt(a, b) || lex_lt(b, a),
    decreases a.len(),
{
    if a.len() > 0 && b.len() > 0 && a[0] == b[0] {
        lemma_lex_total(a.drop_first(), b.drop_first());
        if a.drop_first() == b.drop_first() {
            assert(a.len() == a.drop_first().len() + 1);
            assert(b.len() == b.drop_first().len() + 1);
            assert(a =~= b) by {
                assert forall|k: int| 0 <= k < a.len() implies a[k] == b[k] by {
                    if k > 0 {
                        assert(a[k] == a.drop_first()[k - 1]);
                        assert(b[k] == b.drop_first()[k - 1]);
                    }
                }
            }
        }
    } else if a.len() == 0 && b.len() == 0 {
        assert(a =~= b);
    }
}

pub proof fn lemma_lex_transitive(a: Seq<char>, b: Seq<char>, c: Seq<char>)
    requires
        lex_lt(a, b),
        lex_lt(b, c),
    ensures
        lex_lt(a, c),
    decreases a.len(),
{
    if a.len() > 0 && b.len() > 0 && c.len() > 0 && a[0] == b[0] && b[0] == c[0] {
        lemma_lex_transitive(a.drop_first(), b.drop_first(), c.drop_first());
    }
}

/// The order of resolution: `a` wins over `b`.
pub open spec fn precedes(st: RoomState, a: MatrixEvent, b: MatrixEvent) -> bool {
    let pa = st.power(a.sender@);
    let pb = st.power(b.sender@);
    pa > pb || (pa == pb && (a.origin_server_ts < b.origin_server_ts || (a.origin_server_ts
        == b.origin_server_ts && lex_lt(a.event_id@, b.event_id@))))
}

pub proof fn lemma_precedes_transitive(st: RoomState, a: MatrixEvent, b: MatrixEvent, c: MatrixEvent)
    requires
        precedes(st, a, b),
        precedes(st, b, c),
    ensures
        precedes(st, a, c),
{
    if lex_lt(a.event_id@, b.event_id@) && lex_lt(b.event_id@, c.event_id@) {
        lemma_lex_transitive(a.event_id@, b.event_id@, c.event_id@);
    }
}

/// Of two events with different identifiers, one wins over the other.
pub proof fn lemma_precedes_total(st: RoomState, a: MatrixEvent, b: MatrixEvent)
    requires
        a.event_id@ != b.event_id@,
    ensures
        precedes(st, a, b) || precedes(st, b, a),
{
    lemma_lex_total(a.event_id@, b.event_id@);
}

/// `c[i]` is the resolution of the candidates `c`: it passes authorization and no
/// other candidate that passes wins over it.
pub open spec fn is_winner(st: RoomState, c: Seq<MatrixEvent>, i: int) -> bool {
    &&& 0 <= i < c.len()
    &&& authorize(st, c[i]) is Ok
    &&& forall|j: int|
        0 <= j < c.len() && authorize(st, #[trigger] c[j]) is Ok ==> !precedes(st, c[j], c[i])
}

/// No two candidates share an event identifier.
pub open spec fn ids_unique(c: Seq<MatrixEvent>) -> bool {
    forall|i: int, j: int| 0 <= i < c.len() && 0 <= j < c.len() && i != j ==> c[i].event_id@ != c[j].event_id@
}

/// Resolution does not depend on the order of the candidates: two sequences that
/// hold the same candidates, with distinct event identifiers, resolve to the same
/// event.
pub proof fn lemma_resolution_order_independent(
    st: RoomState,
    c1: Seq<MatrixEvent>,
    c2: Seq<MatrixEvent>,
    i1: int,
    i2: int,
)
    requires
        forall|e: MatrixEvent| c1.contains(e) <==> c2.contains(e),
        ids_unique(c1),
        is_winner(st, c1, i1),
        is_winner(st, c2, i2),
    ensures
        c1[i1] == c2[i2],
{
    let w1 = c1[i1];
    let w2 = c2[i2];
    assert(c1.contains(w1));
    assert(c2.contains(w2));
    let j1 = choose|j: int| 0 <= j < c2.len() && c2[j] == w1;
    let j2 = choose|j: int| 0 <= j < c1.len() && c1[j] == w2;
    assert(!precedes(st, c2[j1], c2[i2]));
    assert(!precedes(st, c1[j2], c1[i1]));
    if w1.event_id@ != w2.event_id@ {
        lemma_precedes_total(st, w1, w2);
    }
    assert(j2 == i1);
}

/// Whether `a` comes strictly before `b` in character order.
pub fn str_lex_lt(a: &String, b: &String) -> (r: bool)
    ensures
        r == lex_lt(a@, b@),
{
    let n = a.as_str().unicode_len();
    let m = b.as_str().unicode_len();
    let mut i: usize = 0;
    assert(a@.skip(0) =~= a@);
    assert(b@.skip(0) =~= b@);
    while i < n && i < m
        invariant
            n == a@.len(),
            m == b@.len(),
            i <= n,
            i <= m,
            lex_lt(a@, b@) == lex_lt(a@.skip(i as int), b@.skip(i as int)),
        decreases n - i,
    {
        let x = a.as_str().get_char(i);
        let y = b.as_str().get_char(i);
        assert(a@.skip(i as int)[0] == x);
        assert(b@.skip(i as int)[0] == y);
        if x != y {
            return (x < y);
        }
        assert(a@.skip(i as int).drop_first() =~= a@.skip(i + 1));
        assert(b@.skip(i as int).drop_first() =~= b@.skip(i + 1));
        i = i + 1;
    }
    i == n && i < m
}

/// Whether `a` wins over `b`.
fn precedes_exec(st: &RoomState, a: &MatrixEvent, b: &MatrixEvent) -> (r: bool)
    requires
        st.wf(),
    ensures
        r == precedes(*st, *a, *b),
{
    let pa = st.power_levels.level(&a.sender);
    let pb = st.power_levels.level(&b.sender);
    pa > pb || (pa == pb && (a.origin_server_ts < b.origin_server_ts || (a.origin_server_ts
        == b.origin_server_ts && str_lex_lt(&a.event_id, &b.event_id))))
}

/// The state resolver.
pub struct StateResolver;

impl StateResolver {
    /// Picks, among `candidates` competing for one slot, the one that becomes its
    /// occupant: candidates that fail authorization against `room_state` are
    /// discarded, and of the rest the first in the order of resolution wins.
    /// Fails with `InsufficientPermissions` when no candidate passes.
    pub fn resolve_state_conflicts(&self, room_state: &RoomState, candidates: &Vec<MatrixEvent>) -> (r:
        Result<usize, StateError>)
        requires
            room_state.wf(),
        ensures
            match r {
                Ok(i) => is_winner(*room_state, candidates@, i as int),
                Err(e) => e == StateError::InsufficientPermissions && forall|j: int|
                    0 <= j < candidates@.len() ==> authorize(*room_state, #[trigger] candidates@[j]) is Err,
            },
    {
        let ghost st = *room_state;
        let ghost c = candidates@;
        let mut best: Option<usize> = None;
        let mut i: usize = 0;
        while i < candidates.len()
            invariant
                room_state.wf(),
                st == *room_state,
                c == candidates@,
                i <= c.len(),
                match best {
                    None => forall|j: int| 0 <= j < i ==> authorize(st, #[trigger] c[j]) is Err,
                    Some(b) => b < i && authorize(st, c[b as int]) is Ok && forall|j: int|
                        0 <= j < i && authorize(st, #[trigger] c[j]) is Ok ==> !precedes(st, c[j], c[b as int]),
                },
            decreases c.len() - i,
        {
            let ok = match room_state.authorize_event(&candidates[i]) {
                Ok(()) => true,
                Err(_) => false,
            };
            if ok {
                match best {
                    None => {
                        proof {
                            lemma_lex_asymmetric(c[i as int].event_id@, c[i as int].event_id@);
                        }
                        best = Some(i);
                    },
                    Some(b) => {
                        if precedes_exec(room_state, &candidates[i], &candidates[b]) {
                            proof {
                                assert forall|j: int|
                                    0 <= j < i + 1 && authorize(st, #[trigger] c[j]) is Ok implies !precedes(st, c[j], c[i as int]) by {
                                    if j < i && precedes(st, c[j], c[i as int]) {
                                        lemma_precedes_transitive(st, c[j], c[i as int], c[b as int]);
                                    }
                                    if j == i {
                                        lemma_lex_asymmetric(c[j].event_id@, c[j].event_id@);
                                    }
                                }
                            }
                            best = Some(i);
                        }
                    },
                }
            }
            i = i + 1;
        }
        match best {
            Some(b) => Ok(b),
            None => Err(StateError::InsufficientPermissions),
        }
    }

    /// Checks `event` against the authorization engine on `room_state`.
    pub fn validate_event_auth(&self, event: &MatrixEvent, room_state: &RoomState) -> (r: Result<(), StateError>)
        requires
            room_state.wf(),
        ensures
            r == authorize(*room_state, *event),
    {
        room_state.authorize_event(event)
    }

    /// Resolves `candidates` competing for one slot of `room_state` and applies the
    /// winner. Fails with `InsufficientPermissions`, changing nothing, where no
    /// candidate passes authorization.
    pub fn apply_resolution(&self, room_state: &mut RoomState, candidates: Vec<MatrixEvent>) -> (r: Result<usize, StateError>)
        requires
            old(room_state).wf(),
        ensures
            final(room_state).wf(),
            match r {
                Ok(i) => is_winner(*old(room_state), candidates@, i as int) && applied(*old(room_state), *final(room_state), candidates@[i as int]),
                Err(_) => *final(room_state) == *old(room_state),
            },
            (forall|j: int| 0 <= j < candidates@.len() ==> authorize(*old(room_state), #[trigger] candidates@[j]) is Err)
                ==> r == Err::<usize, StateError>(StateError::InsufficientPermissions),
            (forall|j: int| 0 <= j < candidates@.len() ==> (#[trigger] candidates@[j]).state_key is Some && has_ids(candidates@[j]))
                && (exists|j: int| 0 <= j < candidates@.len() && authorize(*old(room_state), #[trigger] candidates@[j]) is Ok)
                ==> r is Ok,
    {
        let mut candidates = candidates;
        let ghost c = candidates@;
        match self.resolve_state_conflicts(room_state, &candidates) {
            Err(e) => Err(e),
            Ok(i) => {
                let winner = candidates.swap_remove(i);
                assert(winner == c[i as int]);
                match room_state.add_state_event(winner) {
                    Ok(()) => Ok(i),
                    Err(e) => Err(e),
                }
            },
        }
    }
}

} // verus!
