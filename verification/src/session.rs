//! Sessions: the identity record bound to one connection.
use crate::conn::ConnState;
use crate::packets::UserData;
use crate::room::RoomKey;
use crate::uid::Uid;
use vstd::prelude::*;
use vstd::string::StrSliceExecFns;

verus! {

/// A display name is non-empty and at most 32 characters.
pub open spec fn valid_username_spec(s: Seq<char>) -> bool {
    0 < s.len() <= 32
}

/// Check a display name against the validation rule.
pub fn valid_username(s: &String) -> (r: bool)
    ensures
        r == valid_username_spec(s@),
{
    let n = s.as_str().unicode_len();
    1 <= n && n <= 32
}

/// One session: a unique id, an immutable display name, the current room
/// association, and the connection phase the dispatch loop reads.
pub struct User {
    pub uid: Uid,
    pub username: String,
    pub room_key: Option<RoomKey>,
    pub conn_state: ConnState,
}

impl User {
    /// A freshly logged-in session: no room yet, phase `Lobby`.
    pub fn new(uid: Uid, username: String) -> (r: User)
        ensures
            r.uid == uid,
            r.username@ == username@,
            r.room_key is None,
            r.conn_state == ConnState::Lobby,
    {
        User { uid, username, room_key: None, conn_state: ConnState::Lobby }
    }

    /// Enter the room under `room_key`; the phase moves to `Room`.
    pub fn join_room(&mut self, room_key: RoomKey)
        ensures
            final(self).uid == old(self).uid,
            final(self).username@ == old(self).username@,
            final(self).room_key is Some && final(self).room_key->0@ == room_key@,
            final(self).conn_state == ConnState::Room,
    {
        self.room_key = Some(room_key);
        self.conn_state = ConnState::Room;
    }

    /// Leave the current room, if any; the phase moves back to `Lobby`.
    pub fn leave_room(&mut self)
        ensures
            final(self).uid == old(self).uid,
            final(self).username@ == old(self).username@,
            final(self).room_key is None,
            final(self).conn_state == ConnState::Lobby,
    {
        self.room_key = None;
        self.conn_state = ConnState::Lobby;
    }

    /// The key of the room this session is in, if any.
    pub fn get_room_key(&self) -> (r: Option<RoomKey>)
        ensures
            r is Some <==> self.room_key is Some,
            r is Some ==> r->0@ == self.room_key->0@,
    {
        match &self.room_key {
            Some(k) => Some(k.clone()),
            None => None,
        }
    }

    /// This session's identity as carried in packets.
    pub fn to_data(&self) -> (r: UserData)
        ensures
            r.uid == self.uid,
            r.username@ == self.username@,
    {
        UserData { uid: self.uid, username: self.username.clone() }
    }
}

} // verus!
