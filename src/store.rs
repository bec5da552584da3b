//! The store of room snapshots, keyed by room identifier.

use vstd::prelude::*;
use crate::state::{RoomState, StateError};
use crate::table::{keys_unique, lemma_lookup_absent, lemma_lookup_found, lemma_lookup_push, lemma_lookup_remove, lookup};
use crate::util::owned;

verus! {

/// The rooms of a sequence keyed by their identifiers.
pub open spec fn by_id(s: Seq<RoomState>) -> Seq<(Seq<char>, RoomState)> {
    s.map_values(|r: RoomState| (r.room_id@, r))
}

/// An in-memory store: one snapshot per room identifier. Each operation concerns
/// a single room.
pub struct InMemoryStateStore {
    rooms: Vec<RoomState>,
}

/// A store of room snapshots keyed by room identifier. Each operation concerns a
/// single room; there is no implicit creation on update.
pub trait StateStore: Sized {
    /// The store's own invariant.
    spec fn wf(&self) -> bool;

    /// The snapshot stored under `id`.
    spec fn room(&self, id: Seq<char>) -> Option<RoomState>;

    /// Every stored snapshot is well formed and is stored under its own identifier.
    proof fn lemma_room_wf(&self, id: Seq<char>)
        requires
            self.wf(),
        ensures
            self.room(id) is Some ==> self.room(id)->Some_0.wf() && self.room(id)->Some_0.room_id@ == id,
    ;

    /// The snapshot of `room_id`, if the room exists.
    fn get_room(&self, room_id: &str) -> (r: Option<&RoomState>)
        requires
            self.wf(),
        ensures
            match r {
                Some(x) => self.room(room_id@) == Some(*x),
                None => self.room(room_id@) is None,
            },;

    /// Whether `room_id` exists.
    fn room_exists(&self, room_id: &str) -> (r: bool)
        requires
            self.wf(),
        ensures
            r == self.room(room_id@) is Some,;

    /// Stores a new room; fails with `StateConflict` where its identifier exists.
    fn create_room(&mut self, room_state: RoomState) -> (r: Result<(), StateError>)
        requires
            old(self).wf(),
            room_state.wf(),
        ensures
            final(self).wf(),
            old(self).room(room_state.room_id@) is Some ==> r == Err::<(), StateError>(StateError::StateConflict(room_state.room_id))
                && *final(self) == *old(self),
            old(self).room(room_state.room_id@) is None ==> r is Ok && forall|id: Seq<char>|
                #[trigger] final(self).room(id) == if id == room_state.room_id@ {
                    Some(room_state)
                } else {
                    old(self).room(id)
                },;

    /// Replaces the snapshot of an existing room; fails with `RoomNotFound` where
    /// its identifier does not exist.
    fn update_room(&mut self, room_state: RoomState) -> (r: Result<(), StateError>)
        requires
            old(self).wf(),
            room_state.wf(),
        ensures
            final(self).wf(),
            old(self).room(room_state.room_id@) is None ==> r == Err::<(), StateError>(StateError::RoomNotFound(room_state.room_id))
                && *final(self) == *old(self),
            old(self).room(room_state.room_id@) is Some ==> r is Ok && forall|id: Seq<char>|
                #[trigger] final(self).room(id) == if id == room_state.room_id@ {
                    Some(room_state)
                } else {
                    old(self).room(id)
                },;

    /// Removes a room and hands its snapshot back, if the room exists.
    fn take_room(&mut self, room_id: &str) -> (r: Option<RoomState>)
        requires
            old(self).wf(),
        ensures
            final(self).wf(),
            r == old(self).room(room_id@),
            forall|id: Seq<char>| #[trigger]
                final(self).room(id) == if id == room_id@ {
                    None
                } else {
                    old(self).room(id)
                },;

    /// Removes a room; fails with `RoomNotFound` where it does not exist.
    fn delete_room(&mut self, room_id: &str) -> (r: Result<(), StateError>)
        requires
            old(self).wf(),
        ensures
            final(self).wf(),
            r is Ok == old(self).room(room_id@) is Some,
            r is Err ==> r->Err_0 is RoomNotFound && r->Err_0->RoomNotFound_0@ == room_id@,
            forall|id: Seq<char>| #[trigger]
                final(self).room(id) == if id == room_id@ {
                    None
                } else {
                    old(self).room(id)
                },;

    /// The identifiers of all rooms, each once.
    fn list_rooms(&self) -> (r: Vec<String>)
        requires
            self.wf(),
        ensures
            forall|i: int| 0 <= i < r@.len() ==> self.room(#[trigger] r@[i]@) is Some,
            forall|id: Seq<char>| #[trigger] self.room(id) is Some ==> exists|i: int| 0 <= i < r@.len() && r@[i]@ == id,
            forall|i: int, j: int| 0 <= i < j < r@.len() ==> r@[i]@ != r@[j]@,;
}

impl InMemoryStateStore {
    /// An empty store.
    pub fn new() -> (r: Self)
        ensures
            r.wf(),
            forall|id: Seq<char>| r.room(id) is None,
    {
        InMemoryStateStore { rooms: Vec::new() }
    }

    fn position(&self, room_id: &String) -> (r: Option<usize>)
        requires
            self.wf(),
        ensures
            match r {
                Some(i) => i < self.rooms@.len() && self.rooms@[i as int].room_id@ == room_id@
                    && self.room(room_id@) == Some(self.rooms@[i as int]),
                None => self.room(room_id@) is None,
            },
    {
        let mut i: usize = 0;
        while i < self.rooms.len()
            invariant
                self.wf(),
                i <= self.rooms@.len(),
                forall|j: int| 0 <= j < i ==> self.rooms@[j].room_id@ != room_id@,
            decreases self.rooms@.len() - i,
        {
            if self.rooms[i].room_id == *room_id {
                proof {
                    assert(by_id(self.rooms@)[i as int].0 == room_id@);
                    lemma_lookup_found(by_id(self.rooms@), i as int);
                }
                return Some(i);
            }
            i = i + 1;
        }
        proof {
            let s = by_id(self.rooms@);
            assert forall|j: int| 0 <= j < s.len() implies s[j].0 != room_id@ by {
                assert(s[j].0 == self.rooms@[j].room_id@);
            }
            lemma_lookup_absent(s, room_id@);
        }
        None
    }
}

impl StateStore for InMemoryStateStore {
    /// Each room identifier appears once and every snapshot is well formed.
    closed spec fn wf(&self) -> bool {
        &&& keys_unique(by_id(self.rooms@))
        &&& forall|i: int| 0 <= i < self.rooms@.len() ==> (#[trigger] self.rooms@[i]).wf()
    }

    /// The snapshot stored under `id`.
    closed spec fn room(&self, id: Seq<char>) -> Option<RoomState> {
        lookup(by_id(self.rooms@), id)
    }

    proof fn lemma_room_wf(&self, id: Seq<char>)
    {
        let s = by_id(self.rooms@);
        if exists|i: int| 0 <= i < s.len() && s[i].0 == id {
            let i = choose|i: int| 0 <= i < s.len() && s[i].0 == id;
            lemma_lookup_found(s, i);
            assert(self.rooms@[i].wf());
        } else {
            lemma_lookup_absent(s, id);
        }
    }

    /// The snapshot of `room_id`, if the room exists.
    fn get_room(&self, room_id: &str) -> (r: Option<&RoomState>)
    {
        match self.position(&owned(room_id)) {
            Some(i) => Some(&self.rooms[i]),
            None => None,
        }
    }
    /// Whether `room_id` exists.
    fn room_exists(&self, room_id: &str) -> (r: bool)
    {
        self.position(&owned(room_id)).is_some()
    }
    /// Stores a new room; fails with `StateConflict` where its identifier exists.
    fn create_room(&mut self, room_state: RoomState) -> (r: Result<(), StateError>)
    {
        match self.position(&room_state.room_id) {
            Some(_) => Err(StateError::StateConflict(room_state.room_id.clone())),
            None => {
                let ghost s = by_id(self.rooms@);
                proof {
                    if exists|j: int| 0 <= j < s.len() && s[j].0 == room_state.room_id@ {
                        let j = choose|j: int| 0 <= j < s.len() && s[j].0 == room_state.room_id@;
                        lemma_lookup_found(s, j);
                    }
                    lemma_lookup_push(s, (room_state.room_id@, room_state));
                }
                self.rooms.push(room_state);
                assert(by_id(self.rooms@) =~= s.push((room_state.room_id@, room_state)));
                Ok(())
            },
        }
    }
    /// Replaces the snapshot of an existing room; fails with `RoomNotFound` where
    /// its identifier does not exist.
    fn update_room(&mut self, room_state: RoomState) -> (r: Result<(), StateError>)
    {
        match self.position(&room_state.room_id) {
            None => Err(StateError::RoomNotFound(room_state.room_id.clone())),
            Some(i) => {
                let ghost s = by_id(self.rooms@);
                proof {
                    crate::table::lemma_lookup_update(s, i as int, (room_state.room_id@, room_state));
                }
                self.rooms.set(i, room_state);
                assert(by_id(self.rooms@) =~= s.update(i as int, (room_state.room_id@, room_state)));
                Ok(())
            },
        }
    }
    /// Removes a room and hands its snapshot back, if the room exists.
    fn take_room(&mut self, room_id: &str) -> (r: Option<RoomState>)
    {
        match self.position(&owned(room_id)) {
            None => None,
            Some(i) => {
                let ghost s = by_id(self.rooms@);
                proof {
                    lemma_lookup_remove(s, i as int);
                }
                let x = self.rooms.remove(i);
                assert(by_id(self.rooms@) =~= s.remove(i as int));
                Some(x)
            },
        }
    }
    /// Removes a room; fails with `RoomNotFound` where it does not exist.
    fn delete_room(&mut self, room_id: &str) -> (r: Result<(), StateError>)
    {
        match self.take_room(room_id) {
            Some(_) => Ok(()),
            None => Err(StateError::RoomNotFound(owned(room_id))),
        }
    }
    /// The identifiers of all rooms, each once.
    fn list_rooms(&self) -> (r: Vec<String>)
    {
        let mut r: Vec<String> = Vec::new();
        let mut i: usize = 0;
        while i < self.rooms.len()
            invariant
                self.wf(),
                i <= self.rooms@.len(),
                r@.len() == i,
                forall|j: int| 0 <= j < i ==> (#[trigger] r@[j])@ == self.rooms@[j].room_id@,
            decreases self.rooms@.len() - i,
        {
            r.push(self.rooms[i].room_id.clone());
            i = i + 1;
        }
        proof {
            let s = by_id(self.rooms@);
            assert forall|i: int| 0 <= i < r@.len() implies self.room(#[trigger] r@[i]@) is Some by {
                assert(s[i].0 == r@[i]@);
                lemma_lookup_found(s, i);
            }
            assert forall|id: Seq<char>| #[trigger] self.room(id) is Some implies exists|i: int| 0 <= i < r@.len() && r@[i]@ == id by {
                if !(exists|i: int| 0 <= i < s.len() && s[i].0 == id) {
                    lemma_lookup_absent(s, id);
                } else {
                    let i = choose|i: int| 0 <= i < s.len() && s[i].0 == id;
                    assert(r@[i]@ == id);
                }
            }
            assert forall|i: int, j: int| 0 <= i < j < r@.len() implies r@[i]@ != r@[j]@ by {
                assert(s[i].0 == r@[i]@);
                assert(s[j].0 == r@[j]@);
            }
        }
        r
    }
}

} // verus!
