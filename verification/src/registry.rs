//! The registry: the process-wide directories id -> session and
//! room key -> room, owned by one store object created at startup.
//!
//! The raw directory operations have exact sequence-level contracts; the
//! cross-directory consistency (no dangling references between sessions and
//! rooms) is the well-formedness predicate `AppState::wf`, which every
//! handler-level operation preserves.
use crate::conn::ConnState;
use crate::room::valid_key_spec;
use crate::room::Room;
use crate::session::User;
use crate::uid::Uid;
use vstd::prelude::*;

verus! {

/// Some session in `users` has id `uid`.
pub open spec fn has_user(users: Seq<User>, uid: Uid) -> bool {
    exists|i: int| 0 <= i < users.len() && users[i].uid == uid
}

/// Some room in `rooms` is keyed by the text `key`.
pub open spec fn has_room(rooms: Seq<Room>, key: Seq<char>) -> bool {
    exists|i: int| 0 <= i < rooms.len() && rooms[i].key@ == key
}

/// A room's membership holds no id twice.
pub open spec fn room_members_distinct(r: Room) -> bool {
    forall|a: int, b: int| 0 <= a < b < r.users@.len() ==> r.users@[a] != r.users@[b]
}

/// The session with id `uid` exists and records the room `key` as its
/// current room.
pub open spec fn member_linked(users: Seq<User>, uid: Uid, key: Seq<char>) -> bool {
    exists|i: int|
        0 <= i < users.len() && users[i].uid == uid && users[i].room_key is Some
            && users[i].room_key->0@ == key
}

/// The room a session records as its current room exists and lists the
/// session among its members.
pub open spec fn user_room_linked(rooms: Seq<Room>, u: User) -> bool {
    match u.room_key {
        Some(k) => exists|j: int|
            0 <= j < rooms.len() && rooms[j].key@ == k@ && rooms[j].users@.contains(u.uid),
        None => true,
    }
}

/// The process-wide store: the session directory and the room directory.
pub struct AppState {
    pub users: Vec<User>,
    pub rooms: Vec<Room>,
}

impl AppState {
    /// The cross-directory consistency invariant: ids and keys are unique,
    /// keys are valid, memberships are duplicate-free, every member's
    /// session exists and points back at its room, every recorded room
    /// exists, and a session records a room exactly in the `Room` and `Game`
    /// phases.
    pub open spec fn wf(&self) -> bool {
        &&& forall|i: int, j: int|
            0 <= i < j < self.users@.len() ==> self.users@[i].uid != self.users@[j].uid
        &&& forall|i: int, j: int|
            0 <= i < j < self.rooms@.len() ==> self.rooms@[i].key@ != self.rooms@[j].key@
        &&& forall|i: int| 0 <= i < self.rooms@.len() ==> valid_key_spec(#[trigger] self.rooms@[i].key@)
        &&& forall|i: int| 0 <= i < self.rooms@.len() ==> room_members_distinct(#[trigger] self.rooms@[i])
        &&& forall|i: int, k: int|
            0 <= i < self.rooms@.len() && 0 <= k < self.rooms@[i].users@.len()
                ==> member_linked(self.users@, #[trigger] self.rooms@[i].users@[k], self.rooms@[i].key@)
        &&& forall|i: int| 0 <= i < self.users@.len() ==> user_room_linked(self.rooms@, #[trigger] self.users@[i])
        &&& forall|i: int|
            0 <= i < self.users@.len() ==> ((#[trigger] self.users@[i].room_key) is Some <==> (
            self.users@[i].conn_state == ConnState::Room || self.users@[i].conn_state
                == ConnState::Game))
    }

    /// An empty store.
    pub fn new() -> (r: AppState)
        ensures
            r.users@ == Seq::<User>::empty(),
            r.rooms@ == Seq::<Room>::empty(),
            r.wf(),
    {
        AppState { users: Vec::new(), rooms: Vec::new() }
    }

    /// The index of the session with id `uid`, if any.
    pub fn find_user_index(&self, uid: Uid) -> (r: Option<usize>)
        ensures
            r is Some <==> has_user(self.users@, uid),
            r matches Some(p) ==> p < self.users@.len() && self.users@[p as int].uid == uid && (
            forall|j: int| 0 <= j < p ==> self.users@[j].uid != uid),
    {
        let mut i: usize = 0;
        while i < self.users.len()
            invariant
                i <= self.users@.len(),
                forall|j: int| 0 <= j < i ==> self.users@[j].uid != uid,
            decreases self.users@.len() - i,
        {
            if self.users[i].uid == uid {
                return Some(i);
            }
            i = i + 1;
        }
        proof {
            assert(forall|j: int| 0 <= j < self.users@.len() ==> self.users@[j].uid != uid);
        }
        None
    }

    /// The index of the room keyed by the text `key`, if any.
    pub fn find_room_index(&self, key: &String) -> (r: Option<usize>)
        ensures
            r is Some <==> has_room(self.rooms@, key@),
            r matches Some(p) ==> p < self.rooms@.len() && self.rooms@[p as int].key@ == key@ && (
            forall|j: int| 0 <= j < p ==> self.rooms@[j].key@ != key@),
    {
        let mut i: usize = 0;
        while i < self.rooms.len()
            invariant
                i <= self.rooms@.len(),
                forall|j: int| 0 <= j < i ==> self.rooms@[j].key@ != key@,
            decreases self.rooms@.len() - i,
        {
            if self.rooms[i].key.key_is(key) {
                return Some(i);
            }
            i = i + 1;
        }
        proof {
            assert(forall|j: int| 0 <= j < self.rooms@.len() ==> self.rooms@[j].key@ != key@);
        }
        None
    }

    /// Register a session.  The id must be globally unique; the registry
    /// enforces that by never being handed a duplicate.
    pub fn add_user(&mut self, user: User)
        requires
            !has_user(old(self).users@, user.uid),
        ensures
            final(self).users@ == old(self).users@.push(user),
            final(self).rooms == old(self).rooms,
    {
        self.users.push(user);
    }

    /// Look a session up by id.
    pub fn get_user(&self, uid: Uid) -> (r: Option<&User>)
        ensures
            r is Some <==> has_user(self.users@, uid),
            r matches Some(u) ==> u.uid == uid && exists|i: int|
                0 <= i < self.users@.len() && self.users@[i] == *u,
    {
        match self.find_user_index(uid) {
            Some(i) => Some(&self.users[i]),
            None => None,
        }
    }

    /// Register a room under its key, which must not be taken.
    pub fn add_room(&mut self, room: Room)
        requires
            !has_room(old(self).rooms@, room.key@),
        ensures
            final(self).rooms@ == old(self).rooms@.push(room),
            final(self).users == old(self).users,
    {
        self.rooms.push(room);
    }

    /// Look a room up by the text of its key.
    pub fn get_room(&self, key: &String) -> (r: Option<&Room>)
        ensures
            r is Some <==> has_room(self.rooms@, key@),
            r matches Some(m) ==> m.key@ == key@ && exists|i: int|
                0 <= i < self.rooms@.len() && self.rooms@[i] == *m,
    {
        match self.find_room_index(key) {
            Some(i) => Some(&self.rooms[i]),
            None => None,
        }
    }

    /// Remove the room keyed by the text `key`, if any; the other rooms keep
    /// their order.
    pub fn remove_room(&mut self, key: &String)
        ensures
            final(self).users == old(self).users,
            !has_room(old(self).rooms@, key@) ==> final(self).rooms == old(self).rooms,
            has_room(old(self).rooms@, key@) ==> exists|p: int|
                0 <= p < old(self).rooms@.len() && old(self).rooms@[p].key@ == key@
                    && final(self).rooms@ == old(self).rooms@.remove(p),
    {
        match self.find_room_index(key) {
            Some(i) => {
                self.rooms.remove(i);
            },
            None => {
            },
        }
    }
}

} // verus!
