//! Rooms: a keyed group of sessions, a state machine from `Waiting` to
//! `InGame`, and a two-slot color-assignment table.
use crate::board::OthelloBoard;
use crate::board::OthelloColor;
use crate::uid::Uid;
use vstd::prelude::*;
use vstd::string::StrSliceExecFns;

verus! {

/// A room key is non-empty and at most 32 characters.
pub open spec fn valid_key_spec(s: Seq<char>) -> bool {
    0 < s.len() <= 32
}

/// Check a room key against the validation rule.
pub fn valid_key(s: &String) -> (r: bool)
    ensures
        r == valid_key_spec(s@),
{
    let n = s.as_str().unicode_len();
    1 <= n && n <= 32
}

/// The caller-chosen unique identifier of a room.
pub struct RoomKey {
    key: String,
}

impl View for RoomKey {
    type V = Seq<char>;

    closed spec fn view(&self) -> Seq<char> {
        self.key@
    }
}

impl Clone for RoomKey {
    fn clone(&self) -> (r: Self)
        ensures
            r@ == self@,
    {
        RoomKey { key: self.key.clone() }
    }
}

impl RoomKey {
    /// A key holding the given text.
    pub fn new(key: String) -> (r: RoomKey)
        ensures
            r@ == key@,
    {
        RoomKey { key }
    }

    /// The key's text.
    pub fn as_str(&self) -> (r: &str)
        ensures
            r@ == self@,
    {
        self.key.as_str()
    }

    /// Whether this key is the same text as `other`.
    pub fn key_eq(&self, other: &RoomKey) -> (r: bool)
        ensures
            r == (self@ == other@),
    {
        self.key == other.key
    }

    /// Whether this key reads as the text `other`.
    pub fn key_is(&self, other: &String) -> (r: bool)
        ensures
            r == (self@ == other@),
    {
        self.key == *other
    }
}

/// A room's state machine: waiting for both color slots to fill, then in
/// game with a board.
pub enum RoomState {
    Waiting { black_player: Option<Uid>, white_player: Option<Uid> },
    InGame { black_player: Uid, white_player: Uid, game: OthelloBoard },
}

/// The other color.
pub open spec fn other_color(c: OthelloColor) -> OthelloColor {
    match c {
        OthelloColor::Black => OthelloColor::White,
        OthelloColor::White => OthelloColor::Black,
    }
}

/// The occupant of `c`'s slot while waiting (in game, the assigned player).
pub open spec fn color_slot(st: RoomState, c: OthelloColor) -> Option<Uid> {
    match st {
        RoomState::Waiting { black_player, white_player } => match c {
            OthelloColor::Black => black_player,
            OthelloColor::White => white_player,
        },
        RoomState::InGame { black_player, white_player, .. } => match c {
            OthelloColor::Black => Some(black_player),
            OthelloColor::White => Some(white_player),
        },
    }
}

/// A session may claim a color exactly when the room is still waiting, that
/// color's slot is empty, and the session does not already hold the other
/// slot.
pub open spec fn can_claim_spec(st: RoomState, uid: Uid, c: OthelloColor) -> bool {
    st is Waiting && color_slot(st, c) is None && color_slot(st, other_color(c)) != Some(uid)
}

/// The state after `uid` claims color `c` (meaningful only when the claim is
/// allowed).
pub open spec fn claim_spec(st: RoomState, uid: Uid, c: OthelloColor) -> RoomState {
    match st {
        RoomState::Waiting { black_player, white_player } => match c {
            OthelloColor::Black => RoomState::Waiting {
                black_player: Some(uid),
                white_player,
            },
            OthelloColor::White => RoomState::Waiting {
                black_player,
                white_player: Some(uid),
            },
        },
        RoomState::InGame { .. } => st,
    }
}

/// The state after any slot held by `uid` is vacated (in game, nothing
/// changes).
pub open spec fn vacate_spec(st: RoomState, uid: Uid) -> RoomState {
    match st {
        RoomState::Waiting { black_player, white_player } => RoomState::Waiting {
            black_player: if black_player == Some(uid) {
                None
            } else {
                black_player
            },
            white_player: if white_player == Some(uid) {
                None
            } else {
                white_player
            },
        },
        RoomState::InGame { .. } => st,
    }
}

/// Two claims of the same color never both succeed: once the first has
/// filled the slot, the second finds it taken, whoever makes it.
pub proof fn lemma_color_claim_exclusive(st: RoomState, u1: Uid, u2: Uid, c: OthelloColor)
    ensures
        !(can_claim_spec(st, u1, c) && can_claim_spec(claim_spec(st, u1, c), u2, c)),
{
}

/// The index of the first occurrence of `uid` in `v`, if any.
fn find_uid(v: &Vec<Uid>, uid: Uid) -> (r: Option<usize>)
    ensures
        r is None ==> !v@.contains(uid),
        r matches Some(p) ==> p < v@.len() && v@[p as int] == uid && (forall|j: int|
            0 <= j < p ==> v@[j] != uid),
        r is Some <==> v@.contains(uid),
{
    let mut i: usize = 0;
    while i < v.len()
        invariant
            i <= v@.len(),
            forall|j: int| 0 <= j < i ==> v@[j] != uid,
        decreases v@.len() - i,
    {
        if v[i] == uid {
            return Some(i);
        }
        i = i + 1;
    }
    proof {
        assert(forall|j: int| 0 <= j < v@.len() ==> v@[j] != uid);
    }
    None
}

/// A named group of sessions with a state machine and a color table.
/// Members are kept in join order; broadcasts walk that order.
pub struct Room {
    pub key: RoomKey,
    pub users: Vec<Uid>,
    pub state: RoomState,
}

impl Room {
    /// An empty room in the waiting state with both slots free.
    pub fn new(key: RoomKey) -> (r: Room)
        ensures
            r.key@ == key@,
            r.users@ == Seq::<Uid>::empty(),
            r.state == (RoomState::Waiting { black_player: None, white_player: None }),
    {
        Room { key, users: Vec::new(), state: RoomState::Waiting { black_player: None, white_player: None } }
    }

    /// Append a member; join order is preserved.
    pub fn add_user(&mut self, uid: Uid)
        ensures
            final(self).key == old(self).key,
            final(self).state == old(self).state,
            final(self).users@ == old(self).users@.push(uid),
    {
        self.users.push(uid);
    }

    /// Remove `uid` from the membership, if present, and vacate any color
    /// slot it held.  Returns whether the member was found; the remaining
    /// members keep their relative order.
    pub fn leave_user(&mut self, uid: Uid) -> (found: bool)
        ensures
            final(self).key == old(self).key,
            found == old(self).users@.contains(uid),
            !found ==> *final(self) == *old(self),
            found ==> exists|p: int|
                0 <= p < old(self).users@.len() && old(self).users@[p] == uid && (forall|j: int|
                    0 <= j < p ==> old(self).users@[j] != uid) && final(self).users@ == old(
                    self,
                ).users@.remove(p),
            found ==> final(self).state == vacate_spec(old(self).state, uid),
    {
        let ghost users0 = self.users@;
        match find_uid(&self.users, uid) {
            None => {
                false
            },
            Some(p) => {
                self.users.remove(p);
                self.unset_player_color(uid);
                proof {
                    assert(users0.contains(uid)) by {
                        assert(users0[p as int] == uid);
                    }
                }
                true
            },
        }
    }

    /// Claim a color slot for `uid`: the single check-and-set that makes
    /// color choice exclusive.  Succeeds exactly when the room is waiting,
    /// the slot is free, and `uid` holds no other slot.
    pub fn set_player_color(&mut self, uid: Uid, color: OthelloColor) -> (r: bool)
        ensures
            final(self).key == old(self).key,
            final(self).users == old(self).users,
            r == can_claim_spec(old(self).state, uid, color),
            r ==> final(self).state == claim_spec(old(self).state, uid, color),
            !r ==> final(self).state == old(self).state,
    {
        let allowed = match &self.state {
            RoomState::Waiting { black_player, white_player } => {
                let slot_free = match color {
                    OthelloColor::Black => black_player.is_none(),
                    OthelloColor::White => white_player.is_none(),
                };
                let other_taken_by_uid = match color {
                    OthelloColor::Black => match white_player {
                        Some(u) => *u == uid,
                        None => false,
                    },
                    OthelloColor::White => match black_player {
                        Some(u) => *u == uid,
                        None => false,
                    },
                };
                slot_free && !other_taken_by_uid
            },
            RoomState::InGame { .. } => false,
        };
        if allowed {
            let new_state = match &self.state {
                RoomState::Waiting { black_player, white_player } => match color {
                    OthelloColor::Black => RoomState::Waiting {
                        black_player: Some(uid),
                        white_player: *white_player,
                    },
                    OthelloColor::White => RoomState::Waiting {
                        black_player: *black_player,
                        white_player: Some(uid),
                    },
                },
                RoomState::InGame { black_player, white_player, game } => RoomState::InGame {
                    black_player: *black_player,
                    white_player: *white_player,
                    game: OthelloBoard { black: game.black, white: game.white, turn: game.turn },
                },
            };
            self.state = new_state;
            true
        } else {
            false
        }
    }

    /// Vacate any color slot held by `uid`.
    pub fn unset_player_color(&mut self, uid: Uid)
        ensures
            final(self).key == old(self).key,
            final(self).users == old(self).users,
            final(self).state == vacate_spec(old(self).state, uid),
    {
        let new_state = match &self.state {
            RoomState::Waiting { black_player, white_player } => {
                let b = match black_player {
                    Some(u) => if *u == uid {
                        None
                    } else {
                        Some(*u)
                    },
                    None => None,
                };
                let w = match white_player {
                    Some(u) => if *u == uid {
                        None
                    } else {
                        Some(*u)
                    },
                    None => None,
                };
                RoomState::Waiting { black_player: b, white_player: w }
            },
            RoomState::InGame { black_player, white_player, game } => RoomState::InGame {
                black_player: *black_player,
                white_player: *white_player,
                game: OthelloBoard { black: game.black, white: game.white, turn: game.turn },
            },
        };
        self.state = new_state;
    }

    /// Move from `Waiting` to `InGame`: allowed exactly when both slots are
    /// filled; a fresh board is allocated.  Otherwise nothing changes and
    /// failure is reported.
    pub fn start_game(&mut self) -> (r: bool)
        ensures
            final(self).key == old(self).key,
            final(self).users == old(self).users,
            r == (old(self).state is Waiting && color_slot(old(self).state, OthelloColor::Black)
                is Some && color_slot(old(self).state, OthelloColor::White) is Some),
            !r ==> final(self).state == old(self).state,
            r ==> final(self).state == (RoomState::InGame {
                black_player: color_slot(old(self).state, OthelloColor::Black)->0,
                white_player: color_slot(old(self).state, OthelloColor::White)->0,
                game: OthelloBoard {
                    black: 0x0000000810000000u64,
                    white: 0x0000001008000000u64,
                    turn: 0,
                },
            }),
    {
        let (ok, b, w) = match &self.state {
            RoomState::Waiting { black_player: Some(b), white_player: Some(w) } => (true, *b, *w),
            _ => (false, Uid { bits: 0 }, Uid { bits: 0 }),
        };
        if ok {
            self.state = RoomState::InGame { black_player: b, white_player: w, game: OthelloBoard::new() };
            true
        } else {
            false
        }
    }

    /// Whether the room has no members (and should be destroyed).
    pub fn is_empty(&self) -> (r: bool)
        ensures
            r == (self.users@.len() == 0),
    {
        self.users.len() == 0
    }

    /// The sessions a broadcast is delivered to: every current member, in
    /// join order.  Delivery itself is the transport's business; it must be
    /// attempted for each member independently.
    pub fn broadcast_targets(&self) -> (r: Vec<Uid>)
        ensures
            r@ == self.users@,
    {
        let mut out: Vec<Uid> = Vec::new();
        let mut i: usize = 0;
        while i < self.users.len()
            invariant
                i <= self.users@.len(),
                out@ == self.users@.take(i as int),
            decreases self.users@.len() - i,
        {
            out.push(self.users[i]);
            i = i + 1;
            proof {
                assert(self.users@.take(i as int) == self.users@.take(i - 1) + seq![
                    self.users@[i - 1],
                ]);
            }
        }
        proof {
            assert(self.users@.take(self.users@.len() as int) == self.users@);
        }
        out
    }
}

} // verus!
