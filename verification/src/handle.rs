//! The phase-specific request handlers and the disconnect cleanup.
//!
//! Each handler is the decision half of the connection loop: it reads and
//! mutates the store and returns the list of effects — responses,
//! broadcasts, closures — that the transport then performs.  Within one
//! room, events are applied in the order the handlers run; the effect list
//! of one call keeps the order delivery is to be attempted in.
use crate::packets::LobbyRequestPacket;
use crate::packets::LobbyResponsePacket;
use crate::packets::LobbyRoomCreateRejectedRes;
use crate::packets::LobbyRoomCreateRes;
use crate::packets::LobbyRoomJoinRes;
use crate::packets::LoginReq;
use crate::packets::LoginRes;
use crate::packets::LoginResponsePacket;
use crate::packets::RoomChoiceColorBroadcast;
use crate::packets::RoomChoiceColorRes;
use crate::packets::RoomRequestPacket;
use crate::packets::RoomResponsePacket;
use crate::packets::RoomUserJoinBroadcast;
use crate::packets::RoomUserLeaveBroadcast;
use crate::packets::UserData;
use crate::registry::has_room;
use crate::registry::has_user;
use crate::registry::member_linked;
use crate::registry::room_members_distinct;
use crate::registry::AppState;
use crate::conn::ConnState;
use crate::room::vacate_spec;
use crate::session::valid_username_spec;
use crate::session::User;
use crate::uid::Uid;
use vstd::prelude::*;
use vstd::string::StringExecFns;

verus! {

/// A packet the server sends, tagged by the catalog it belongs to.
pub enum Outbound {
    Login(LoginResponsePacket),
    Lobby(LobbyResponsePacket),
    Room(RoomResponsePacket),
}

/// One thing the transport is asked to do after a handler ran: deliver a
/// packet to a session, or close a session's connection.
pub enum Effect {
    Send { to: Uid, packet: Outbound },
    Close { uid: Uid },
}

/// `e` delivers the member-left broadcast about `left` to `to`.
pub open spec fn is_leave_broadcast(e: Effect, to: Uid, left: Uid) -> bool {
    e == (Effect::Send {
        to,
        packet: Outbound::Room(
            RoomResponsePacket::RoomUserLeaveBroadcast(RoomUserLeaveBroadcast { uid: left }),
        ),
    })
}

/// The session at the first index with id `uid`.
pub open spec fn user_record(users: Seq<User>, uid: Uid) -> User {
    users[user_index_of(users, uid)]
}

/// The first index of the session with id `uid`.
pub open spec fn user_index_of(users: Seq<User>, uid: Uid) -> int {
    choose|i: int| 0 <= i < users.len() && users[i].uid == uid
}

/// The first index of the room keyed `key`.
pub open spec fn room_index_of(rooms: Seq<crate::room::Room>, key: Seq<char>) -> int {
    choose|i: int| 0 <= i < rooms.len() && rooms[i].key@ == key
}

impl AppState {
    /// Disconnect cleanup: remove the session, take it out of its room, tell
    /// the remaining members, and destroy the room if it emptied.  The
    /// session removal and the room update happen in one call, so no caller
    /// observes one without the other.
    pub fn close_user(&mut self, uid: Uid) -> (effects: Vec<Effect>)
        requires
            old(self).wf(),
        ensures
            final(self).wf(),
            !has_user(old(self).users@, uid) ==> *final(self) == *old(self) && effects@.len()
                == 0,
            has_user(old(self).users@, uid) ==> final(self).users@ == old(self).users@.remove(
                user_index_of(old(self).users@, uid),
            ),
            has_user(old(self).users@, uid) && user_record(old(self).users@, uid).room_key
                is None ==> final(self).rooms == old(self).rooms && effects@.len() == 0,
            has_user(old(self).users@, uid) && user_record(old(self).users@, uid).room_key
                is Some ==> {
                let key = user_record(old(self).users@, uid).room_key->0@;
                let ridx = room_index_of(old(self).rooms@, key);
                let room0 = old(self).rooms@[ridx];
                if room0.users@ == seq![uid] {
                    &&& final(self).rooms@ == old(self).rooms@.remove(ridx)
                    &&& !has_room(final(self).rooms@, key)
                    &&& effects@.len() == 0
                } else {
                    &&& final(self).rooms@.len() == old(self).rooms@.len()
                    &&& (exists|p: int|
                        0 <= p < room0.users@.len() && room0.users@[p] == uid
                            && final(self).rooms@ == old(self).rooms@.update(
                            ridx,
                            crate::room::Room {
                                key: room0.key,
                                users: final(self).rooms@[ridx].users,
                                state: vacate_spec(room0.state, uid),
                            },
                        ) && final(self).rooms@[ridx].users@ == room0.users@.remove(p))
                    &&& {
                        let remaining = final(self).rooms@[ridx].users@;
                        effects@.len() == remaining.len() && forall|i: int|
                            0 <= i < remaining.len() ==> is_leave_broadcast(
                                effects@[i],
                                remaining[i],
                                uid,
                            )
                    }
                }
            },
    {
        let uidx = match self.find_user_index(uid) {
            None => {
                return Vec::new();
            },
            Some(i) => i,
        };
        proof {
            lemma_first_user_index_is_the_index(old(self).users@, uid, uidx as int);
        }
        let user = self.users.remove(uidx);
        proof {
            lemma_users_remove_pointwise(old(self).users@, self.users@, uidx as int);
        }
        let key = match user.room_key {
            None => {
                proof {
                    lemma_user_removal_keeps_wf(*old(self), *self, uid, uidx as int);
                }
                return Vec::new();
            },
            Some(k) => k,
        };
        let key_text: String = key.as_str().to_owned();
        let ghost u0 = old(self).users@[uidx as int];
        proof {
            assert(crate::registry::user_room_linked(old(self).rooms@, u0));
        }
        let ridx = match self.find_room_index(&key_text) {
            None => {
                // Unreachable under `wf`: a recorded room always exists.
                proof {
                    let pj = choose|pj: int|
                        0 <= pj < old(self).rooms@.len() && old(self).rooms@[pj].key@ == u0.room_key->0@
                            && old(self).rooms@[pj].users@.contains(u0.uid);
                    assert(has_room(self.rooms@, key_text@));
                    assert(false);
                }
                return Vec::new();
            },
            Some(i) => i,
        };
        proof {
            lemma_first_room_index_is_the_index(old(self).rooms@, key_text@, ridx as int);
            // The room this session records lists it as a member.
            let pj = choose|pj: int|
                0 <= pj < old(self).rooms@.len() && old(self).rooms@[pj].key@ == u0.room_key->0@
                    && old(self).rooms@[pj].users@.contains(u0.uid);
            if pj < ridx {
                assert(old(self).rooms@[pj].key@ != old(self).rooms@[ridx as int].key@);
            } else if pj > ridx {
                assert(old(self).rooms@[ridx as int].key@ != old(self).rooms@[pj].key@);
            }
            assert(pj == ridx);
            assert(old(self).rooms@[ridx as int].users@.contains(uid));
        }
        let ghost room0 = old(self).rooms@[ridx as int];
        let mut room = self.rooms.remove(ridx);
        let found = room.leave_user(uid);
        assert(found);
        let ghost p = choose|p: int|
            0 <= p < room0.users@.len() && room0.users@[p] == uid && (forall|j: int|
                0 <= j < p ==> room0.users@[j] != uid) && room.users@ == room0.users@.remove(p);
        if room.is_empty() {
            proof {
                assert(room0.users@.len() == 1);
                assert(room0.users@ =~= seq![uid]);
                assert forall|m: Uid| room0.users@.contains(m) implies m == uid by {
                    let q = choose|q: int| 0 <= q < room0.users@.len() && room0.users@[q] == m;
                    assert(room0.users@[q] == uid);
                }
                lemma_close_removes_room_keeps_wf(*old(self), *self, uid, uidx as int, ridx as int);
                assert forall|j: int| 0 <= j < self.rooms@.len() implies self.rooms@[j].key@
                    != key_text@ by {
                    let pjj = if j < ridx {
                        j
                    } else {
                        j + 1
                    };
                    assert(self.rooms@[j] == old(self).rooms@[pjj]);
                    if pjj < ridx {
                        assert(old(self).rooms@[pjj].key@ != old(self).rooms@[ridx as int].key@);
                    } else {
                        assert(old(self).rooms@[ridx as int].key@ != old(self).rooms@[pjj].key@);
                    }
                }
            }
            return Vec::new();
        }
        let remaining = room.broadcast_targets();
        self.rooms.insert(ridx, room);
        proof {
            assert(self.rooms@.len() == old(self).rooms@.len());
            assert forall|j: int|
                0 <= j < old(self).rooms@.len() && j != ridx implies self.rooms@[j] == old(
                self,
            ).rooms@[j] by {
            }
            lemma_close_updates_room_keeps_wf(*old(self), *self, uid, uidx as int, ridx as int);
            assert(self.rooms@ =~= old(self).rooms@.update(
                ridx as int,
                crate::room::Room {
                    key: room0.key,
                    users: self.rooms@[ridx as int].users,
                    state: vacate_spec(room0.state, uid),
                },
            ));
        }
        let mut effects: Vec<Effect> = Vec::new();
        let mut i: usize = 0;
        while i < remaining.len()
            invariant
                i <= remaining@.len(),
                effects@.len() == i,
                forall|j: int| 0 <= j < i ==> is_leave_broadcast(effects@[j], remaining@[j], uid),
            decreases remaining@.len() - i,
        {
            effects.push(
                Effect::Send {
                    to: remaining[i],
                    packet: Outbound::Room(
                        RoomResponsePacket::RoomUserLeaveBroadcast(
                            RoomUserLeaveBroadcast { uid },
                        ),
                    ),
                },
            );
            i = i + 1;
        }
        effects
    }
}

/// `e` delivers the login acceptance to `uid`: its fresh id and its token.
pub open spec fn is_login_ok(e: Effect, uid: Uid, name: Seq<char>) -> bool {
    e matches Effect::Send {
        to,
        packet: Outbound::Login(LoginResponsePacket::Login(res)),
    } && to == uid && res.uid == uid && res.token@ == "token-for-"@ + name
}

/// Accept a login: validate the display name, enforce global id
/// uniqueness, register the session in the lobby phase, and answer with the
/// id and its token.  A bad name, or an id already taken, closes the
/// connection instead.  The token is a deterministic placeholder derived
/// from the display name; nothing checks or consumes it, so it carries no
/// authority.
pub fn handle_login(state: &mut AppState, uid: Uid, req: LoginReq) -> (effects: Vec<Effect>)
    requires
        old(state).wf(),
    ensures
        final(state).wf(),
        final(state).rooms == old(state).rooms,
        !(valid_username_spec(req.username@) && !has_user(old(state).users@, uid))
            ==> final(state).users == old(state).users && effects@ == seq![Effect::Close { uid }],
        valid_username_spec(req.username@) && !has_user(old(state).users@, uid) ==> {
            &&& final(state).users@.len() == old(state).users@.len() + 1
            &&& final(state).users@ == old(state).users@.push(final(state).users@.last())
            &&& final(state).users@.last().uid == uid
            &&& final(state).users@.last().username@ == req.username@
            &&& final(state).users@.last().room_key is None
            &&& final(state).users@.last().conn_state == ConnState::Lobby
            &&& effects@.len() == 1
            &&& is_login_ok(effects@[0], uid, req.username@)
        },
{
    if !crate::session::valid_username(&req.username) {
        let mut effects: Vec<Effect> = Vec::new();
        effects.push(Effect::Close { uid });
        return effects;
    }
    match state.find_user_index(uid) {
        Some(_) => {
            let mut effects: Vec<Effect> = Vec::new();
            effects.push(Effect::Close { uid });
            return effects;
        },
        None => {
        },
    }
    let mut token: String = "token-for-".to_owned();
    token.append(req.username.as_str());
    let user = User::new(uid, req.username.clone());
    state.add_user(user);
    proof {
        lemma_add_user_keeps_wf(*old(state), *state, state.users@.last());
    }
    let mut effects: Vec<Effect> = Vec::new();
    effects.push(
        Effect::Send {
            to: uid,
            packet: Outbound::Login(LoginResponsePacket::Login(LoginRes { uid, token })),
        },
    );
    effects
}

/// Registering a fresh session in the lobby phase leaves the store
/// well-formed.
proof fn lemma_add_user_keeps_wf(pre: AppState, post: AppState, user: User)
    requires
        pre.wf(),
        !has_user(pre.users@, user.uid),
        user.room_key is None,
        user.conn_state == ConnState::Lobby,
        post.users@ == pre.users@.push(user),
        post.rooms@ == pre.rooms@,
    ensures
        post.wf(),
{
    assert forall|i: int, j: int|
        0 <= i < j < post.users@.len() implies post.users@[i].uid != post.users@[j].uid by {
        if j == post.users@.len() - 1 {
            assert(post.users@[i] == pre.users@[i]);
            if pre.users@[i].uid == user.uid {
                assert(has_user(pre.users@, user.uid));
            }
        }
    }
    assert forall|i: int, k: int|
        0 <= i < post.rooms@.len() && 0 <= k < post.rooms@[i].users@.len() implies member_linked(
        post.users@,
        #[trigger] post.rooms@[i].users@[k],
        post.rooms@[i].key@,
    ) by {
        let m = post.rooms@[i].users@[k];
        assert(member_linked(pre.users@, m, pre.rooms@[i].key@));
        let w = choose|w: int|
            0 <= w < pre.users@.len() && pre.users@[w].uid == m && pre.users@[w].room_key is Some
                && pre.users@[w].room_key->0@ == pre.rooms@[i].key@;
        assert(post.users@[w] == pre.users@[w]);
    }
    assert forall|i: int| 0 <= i < post.users@.len() implies crate::registry::user_room_linked(
        post.rooms@,
        #[trigger] post.users@[i],
    ) by {
        if i < pre.users@.len() {
            assert(post.users@[i] == pre.users@[i]);
            assert(crate::registry::user_room_linked(pre.rooms@, pre.users@[i]));
        }
    }
}

/// The members other than `uid`, in join order: the recipients of a
/// broadcast that excludes its originator.
pub open spec fn others_of(members: Seq<Uid>, uid: Uid) -> Seq<Uid>
    decreases members.len(),
{
    if members.len() == 0 {
        Seq::empty()
    } else {
        let prefix = others_of(members.drop_last(), uid);
        if members.last() == uid {
            prefix
        } else {
            prefix.push(members.last())
        }
    }
}

/// `e` delivers the color-chosen broadcast about `chooser` to `to`.
pub open spec fn is_color_broadcast(
    e: Effect,
    to: Uid,
    chooser: Uid,
    color: crate::board::OthelloColor,
) -> bool {
    e == (Effect::Send {
        to,
        packet: Outbound::Room(
            RoomResponsePacket::RoomChoiceColorBroadcast(
                RoomChoiceColorBroadcast { uid: chooser, color },
            ),
        ),
    })
}

/// `e` answers the chooser with the outcome of its color claim.
pub open spec fn is_color_reply(e: Effect, to: Uid, success: bool) -> bool {
    e == (Effect::Send {
        to,
        packet: Outbound::Room(
            RoomResponsePacket::RoomChoiceColor(RoomChoiceColorRes { success }),
        ),
    })
}

/// Handle a request from a session in a room.  A color claim is a single
/// check-and-set under the room's lock: it succeeds only while the room is
/// waiting, the slot is free and the chooser holds no other slot.  The
/// chooser learns the outcome; on success every other member is told the
/// chosen color and the chooser's id.  A session without a room is a
/// protocol error and is closed.
pub fn handle_room(state: &mut AppState, uid: Uid, req: RoomRequestPacket) -> (effects: Vec<
    Effect,
>)
    requires
        old(state).wf(),
    ensures
        final(state).wf(),
        !(has_user(old(state).users@, uid) && user_record(old(state).users@, uid).room_key is Some)
            ==> *final(state) == *old(state) && effects@ == seq![Effect::Close { uid }],
        (has_user(old(state).users@, uid) && user_record(old(state).users@, uid).room_key is Some)
            ==> {
            let key = user_record(old(state).users@, uid).room_key->0@;
            let ridx = room_index_of(old(state).rooms@, key);
            let room0 = old(state).rooms@[ridx];
            let color = req->RoomChoiceColor_0.color;
            let ok = crate::room::can_claim_spec(room0.state, uid, color);
            let others = others_of(room0.users@, uid);
            &&& final(state).users == old(state).users
            &&& final(state).rooms@ == old(state).rooms@.update(
                ridx,
                crate::room::Room {
                    key: room0.key,
                    users: room0.users,
                    state: if ok {
                        crate::room::claim_spec(room0.state, uid, color)
                    } else {
                        room0.state
                    },
                },
            )
            &&& effects@.len() == 1 + (if ok {
                others.len()
            } else {
                0
            })
            &&& is_color_reply(effects@[0], uid, ok)
            &&& (ok ==> forall|j: int|
                0 <= j < others.len() ==> is_color_broadcast(effects@[1 + j], others[j], uid, color))
        },
{
    let uidx = match state.find_user_index(uid) {
        None => {
            let mut effects: Vec<Effect> = Vec::new();
            effects.push(Effect::Close { uid });
            return effects;
        },
        Some(i) => i,
    };
    proof {
        lemma_first_user_index_is_the_index(old(state).users@, uid, uidx as int);
    }
    let key = match &state.users[uidx].room_key {
        None => {
            let mut effects: Vec<Effect> = Vec::new();
            effects.push(Effect::Close { uid });
            return effects;
        },
        Some(k) => k.clone(),
    };
    let key_text: String = key.as_str().to_owned();
    let ghost u0 = old(state).users@[uidx as int];
    proof {
        assert(crate::registry::user_room_linked(old(state).rooms@, u0));
    }
    let ridx = match state.find_room_index(&key_text) {
        None => {
            // Unreachable under `wf`: a recorded room always exists.
            proof {
                let pj = choose|pj: int|
                    0 <= pj < old(state).rooms@.len() && old(state).rooms@[pj].key@
                        == u0.room_key->0@ && old(state).rooms@[pj].users@.contains(u0.uid);
                assert(has_room(state.rooms@, key_text@));
                assert(false);
            }
            let mut effects: Vec<Effect> = Vec::new();
            effects.push(Effect::Close { uid });
            return effects;
        },
        Some(i) => i,
    };
    proof {
        lemma_first_room_index_is_the_index(old(state).rooms@, key_text@, ridx as int);
    }
    let ghost room0 = old(state).rooms@[ridx as int];
    let RoomRequestPacket::RoomChoiceColor(creq) = req;
    let color = creq.color;
    let mut room = state.rooms.remove(ridx);
    let ok = room.set_player_color(uid, color);
    let members = room.broadcast_targets();
    state.rooms.insert(ridx, room);
    proof {
        assert(state.rooms@ =~= old(state).rooms@.update(
            ridx as int,
            crate::room::Room {
                key: room0.key,
                users: room0.users,
                state: if crate::room::can_claim_spec(room0.state, uid, color) {
                    crate::room::claim_spec(room0.state, uid, color)
                } else {
                    room0.state
                },
            },
        ));
        lemma_room_state_update_keeps_wf(*old(state), *state, ridx as int);
    }
    let mut effects: Vec<Effect> = Vec::new();
    effects.push(
        Effect::Send {
            to: uid,
            packet: Outbound::Room(
                RoomResponsePacket::RoomChoiceColor(RoomChoiceColorRes { success: ok }),
            ),
        },
    );
    if ok {
        let mut i: usize = 0;
        while i < members.len()
            invariant
                i <= members@.len(),
                effects@.len() == 1 + others_of(members@.take(i as int), uid).len(),
                is_color_reply(effects@[0], uid, true),
                forall|j: int|
                    0 <= j < others_of(members@.take(i as int), uid).len()
                        ==> is_color_broadcast(
                        effects@[1 + j],
                        others_of(members@.take(i as int), uid)[j],
                        uid,
                        color,
                    ),
            decreases members@.len() - i,
        {
            proof {
                assert(members@.take(i + 1).drop_last() =~= members@.take(i as int));
                assert(members@.take(i + 1).last() == members@[i as int]);
            }
            if members[i] != uid {
                effects.push(
                    Effect::Send {
                        to: members[i],
                        packet: Outbound::Room(
                            RoomResponsePacket::RoomChoiceColorBroadcast(
                                RoomChoiceColorBroadcast { uid, color },
                            ),
                        ),
                    },
                );
            }
            i = i + 1;
        }
        proof {
            assert(members@.take(members@.len() as int) =~= members@);
        }
    }
    effects
}

/// `e` answers a room-creation request with acceptance.
pub open spec fn is_create_reply(e: Effect, to: Uid) -> bool {
    e == (Effect::Send {
        to,
        packet: Outbound::Lobby(LobbyResponsePacket::RoomCreate(LobbyRoomCreateRes {  })),
    })
}

/// `e` answers a room-creation request with the rejection: the negative
/// response an invalid or taken key earns, while the connection stays open.
pub open spec fn is_create_rejected_reply(e: Effect, to: Uid) -> bool {
    e == (Effect::Send {
        to,
        packet: Outbound::Lobby(
            LobbyResponsePacket::RoomCreateRejected(LobbyRoomCreateRejectedRes {  }),
        ),
    })
}

/// `e` answers a join request with "room not found".
pub open spec fn is_room_not_found_reply(e: Effect, to: Uid) -> bool {
    e == (Effect::Send {
        to,
        packet: Outbound::Lobby(LobbyResponsePacket::RoomJoin(LobbyRoomJoinRes::RoomNotFound)),
    })
}

/// `e` delivers the member-joined broadcast about `joiner` (named `name`) to
/// `to`.
pub open spec fn is_join_broadcast(e: Effect, to: Uid, joiner: Uid, name: Seq<char>) -> bool {
    e matches Effect::Send {
        to: t,
        packet: Outbound::Room(RoomResponsePacket::RoomUserJoinBroadcast(b)),
    } && t == to && b.uid == joiner && b.username@ == name
}

/// `e` answers the joiner with the full member list: one entry per id in
/// `members`, in order, each carrying the display name its session records
/// in `users`.
pub open spec fn is_join_reply(e: Effect, to: Uid, users: Seq<User>, members: Seq<Uid>) -> bool {
    e matches Effect::Send {
        to: t,
        packet: Outbound::Lobby(LobbyResponsePacket::RoomJoin(LobbyRoomJoinRes::Success { users: data })),
    } && t == to && data@.len() == members.len() && (forall|i: int|
        0 <= i < members.len() ==> data@[i].uid == members[i] && data@[i].username@ == user_record(
            users,
            members[i],
        ).username@)
}

/// Handle a lobby request: create a room under a fresh valid key, or join
/// an existing one.  An invalid or taken key rejects the creation: the
/// caller is answered with the rejection and the connection stays open.
/// Joining an unknown key answers "room not found"; a successful join first
/// tells every existing member about the joiner, then answers the joiner
/// with the full member list, itself included.  A caller that is not a
/// lobby-phase session is a protocol error and is closed.
#[verifier::rlimit(30)]
pub fn handle_lobby(state: &mut AppState, uid: Uid, req: LobbyRequestPacket) -> (effects: Vec<
    Effect,
>)
    requires
        old(state).wf(),
    ensures
        final(state).wf(),
        !(has_user(old(state).users@, uid) && user_record(old(state).users@, uid).conn_state
            == ConnState::Lobby) ==> *final(state) == *old(state) && effects@ == seq![
            Effect::Close { uid },
        ],
        (has_user(old(state).users@, uid) && user_record(old(state).users@, uid).conn_state
            == ConnState::Lobby && req is RoomCreate) ==> {
            let key = req->RoomCreate_0.key@;
            let uidx = user_index_of(old(state).users@, uid);
            if !crate::room::valid_key_spec(key) || has_room(old(state).rooms@, key) {
                *final(state) == *old(state) && effects@.len() == 1 && is_create_rejected_reply(
                    effects@[0],
                    uid,
                )
            } else {
                &&& final(state).rooms@.len() == old(state).rooms@.len() + 1
                &&& final(state).rooms@ == old(state).rooms@.push(final(state).rooms@.last())
                &&& final(state).rooms@.last().key@ == key
                &&& final(state).rooms@.last().users@ == seq![uid]
                &&& final(state).rooms@.last().state == (crate::room::RoomState::Waiting {
                    black_player: None,
                    white_player: None,
                })
                &&& user_moved_to_room(old(state).users@, final(state).users@, uidx, uid, key)
                &&& effects@.len() == 1
                &&& is_create_reply(effects@[0], uid)
            }
        },
        (has_user(old(state).users@, uid) && user_record(old(state).users@, uid).conn_state
            == ConnState::Lobby && req is RoomJoin) ==> {
            let key = req->RoomJoin_0.key@;
            let uidx = user_index_of(old(state).users@, uid);
            if !has_room(old(state).rooms@, key) {
                *final(state) == *old(state) && effects@.len() == 1 && is_room_not_found_reply(
                    effects@[0],
                    uid,
                )
            } else {
                let ridx = room_index_of(old(state).rooms@, key);
                let room0 = old(state).rooms@[ridx];
                let name = user_record(old(state).users@, uid).username@;
                &&& final(state).rooms@ == old(state).rooms@.update(
                    ridx,
                    crate::room::Room {
                        key: room0.key,
                        users: final(state).rooms@[ridx].users,
                        state: room0.state,
                    },
                )
                &&& final(state).rooms@[ridx].users@ == room0.users@.push(uid)
                &&& user_moved_to_room(old(state).users@, final(state).users@, uidx, uid, key)
                &&& effects@.len() == room0.users@.len() + 1
                &&& (forall|i: int|
                    0 <= i < room0.users@.len() ==> is_join_broadcast(
                        effects@[i],
                        room0.users@[i],
                        uid,
                        name,
                    ))
                &&& is_join_reply(
                    effects@[room0.users@.len() as int],
                    uid,
                    old(state).users@,
                    room0.users@.push(uid),
                )
            }
        },
{
    let uidx = match state.find_user_index(uid) {
        None => {
            let mut effects: Vec<Effect> = Vec::new();
            effects.push(Effect::Close { uid });
            return effects;
        },
        Some(i) => i,
    };
    proof {
        lemma_first_user_index_is_the_index(old(state).users@, uid, uidx as int);
    }
    let in_lobby = match state.users[uidx].conn_state {
        ConnState::Lobby => true,
        _ => false,
    };
    if !in_lobby {
        let mut effects: Vec<Effect> = Vec::new();
        effects.push(Effect::Close { uid });
        return effects;
    }
    proof {
        // A lobby-phase session records no room, hence is nobody's member.
        assert(old(state).users@[uidx as int].room_key is None);
    }
    match req {
        LobbyRequestPacket::RoomCreate(creq) => {
            if !crate::room::valid_key(&creq.key) {
                let mut effects: Vec<Effect> = Vec::new();
                effects.push(
                    Effect::Send {
                        to: uid,
                        packet: Outbound::Lobby(
                            LobbyResponsePacket::RoomCreateRejected(
                                LobbyRoomCreateRejectedRes {  },
                            ),
                        ),
                    },
                );
                return effects;
            }
            match state.find_room_index(&creq.key) {
                Some(_) => {
                    let mut effects: Vec<Effect> = Vec::new();
                    effects.push(
                        Effect::Send {
                            to: uid,
                            packet: Outbound::Lobby(
                                LobbyResponsePacket::RoomCreateRejected(
                                    LobbyRoomCreateRejectedRes {  },
                                ),
                            ),
                        },
                    );
                    return effects;
                },
                None => {
                },
            }
            let rk = crate::room::RoomKey::new(creq.key);
            let mut room = crate::room::Room::new(rk.clone());
            room.add_user(uid);
            let user = vstd::std_specs::vec::vec_index_mut(&mut state.users, uidx);
            user.join_room(rk);
            state.rooms.push(room);
            proof {
                lemma_create_room_keeps_wf(*old(state), *state, uid, uidx as int);
            }
            let mut effects: Vec<Effect> = Vec::new();
            effects.push(
                Effect::Send {
                    to: uid,
                    packet: Outbound::Lobby(
                        LobbyResponsePacket::RoomCreate(LobbyRoomCreateRes {  }),
                    ),
                },
            );
            effects
        },
        LobbyRequestPacket::RoomJoin(jreq) => {
            let ridx = match state.find_room_index(&jreq.key) {
                None => {
                    let mut effects: Vec<Effect> = Vec::new();
                    effects.push(
                        Effect::Send {
                            to: uid,
                            packet: Outbound::Lobby(
                                LobbyResponsePacket::RoomJoin(LobbyRoomJoinRes::RoomNotFound),
                            ),
                        },
                    );
                    return effects;
                },
                Some(i) => i,
            };
            proof {
                lemma_first_room_index_is_the_index(old(state).rooms@, jreq.key@, ridx as int);
            }
            let ghost room0 = old(state).rooms@[ridx as int];
            let name = state.users[uidx].username.clone();

            // The member-list snapshot handed to the joiner: the existing
            // members in join order, then the joiner itself.
            let members = state.rooms[ridx].broadcast_targets();
            let mut data: Vec<UserData> = Vec::new();
            let mut i: usize = 0;
            while i < members.len()
                invariant
                    old(state).wf(),
                    *state == *old(state),
                    members@ == room0.users@,
                    0 <= ridx < old(state).rooms@.len(),
                    room0 == old(state).rooms@[ridx as int],
                    i <= members@.len(),
                    data@.len() == i,
                    forall|j: int|
                        0 <= j < i ==> data@[j].uid == members@[j] && data@[j].username@
                            == user_record(old(state).users@, members@[j]).username@,
                decreases members@.len() - i,
            {
                let m = members[i];
                proof {
                    assert(member_linked(old(state).users@, room0.users@[i as int], room0.key@));
                }
                let midx = match state.find_user_index(m) {
                    None => {
                        // Unreachable under `wf`: every member's session exists.
                        proof {
                            let w = choose|w: int|
                                0 <= w < old(state).users@.len() && old(state).users@[w].uid == m
                                    && old(state).users@[w].room_key is Some && old(
                                    state,
                                ).users@[w].room_key->0@ == room0.key@;
                            assert(has_user(old(state).users@, m));
                            assert(false);
                        }
                        return Vec::new();
                    },
                    Some(x) => x,
                };
                proof {
                    lemma_first_user_index_is_the_index(old(state).users@, m, midx as int);
                }
                data.push(state.users[midx].to_data());
                i = i + 1;
            }
            data.push(state.users[uidx].to_data());

            // Tell every existing member about the joiner, in join order.
            let mut effects: Vec<Effect> = Vec::new();
            let mut j: usize = 0;
            while j < members.len()
                invariant
                    members@ == room0.users@,
                    name@ == user_record(old(state).users@, uid).username@,
                    j <= members@.len(),
                    effects@.len() == j,
                    forall|x: int|
                        0 <= x < j ==> is_join_broadcast(effects@[x], members@[x], uid, name@),
                decreases members@.len() - j,
            {
                effects.push(
                    Effect::Send {
                        to: members[j],
                        packet: Outbound::Room(
                            RoomResponsePacket::RoomUserJoinBroadcast(
                                RoomUserJoinBroadcast { uid, username: name.clone() },
                            ),
                        ),
                    },
                );
                j = j + 1;
            }
            effects.push(
                Effect::Send {
                    to: uid,
                    packet: Outbound::Lobby(
                        LobbyResponsePacket::RoomJoin(LobbyRoomJoinRes::Success { users: data }),
                    ),
                },
            );

            let room = vstd::std_specs::vec::vec_index_mut(&mut state.rooms, ridx);
            room.add_user(uid);
            let rk = crate::room::RoomKey::new(jreq.key);
            let user = vstd::std_specs::vec::vec_index_mut(&mut state.users, uidx);
            user.join_room(rk);
            proof {
                lemma_join_room_keeps_wf(*old(state), *state, uid, uidx as int, ridx as int);
                assert(state.rooms@ =~= old(state).rooms@.update(
                    ridx as int,
                    crate::room::Room {
                        key: room0.key,
                        users: state.rooms@[ridx as int].users,
                        state: room0.state,
                    },
                ));
            }
            effects
        },
    }
}

/// `new_users` is `users` with the session at `uidx` (id `uid`) moved into
/// the room keyed `key`: same identity and name, now recording the room and
/// the `Room` phase; everyone else untouched.
pub open spec fn user_moved_to_room(
    users: Seq<User>,
    new_users: Seq<User>,
    uidx: int,
    uid: Uid,
    key: Seq<char>,
) -> bool {
    &&& new_users.len() == users.len()
    &&& forall|j: int| 0 <= j < users.len() && j != uidx ==> new_users[j] == users[j]
    &&& 0 <= uidx < users.len()
    &&& new_users[uidx].uid == uid
    &&& new_users[uidx].username@ == users[uidx].username@
    &&& new_users[uidx].room_key is Some
    &&& new_users[uidx].room_key->0@ == key
    &&& new_users[uidx].conn_state == ConnState::Room
}

/// A lobby-phase session is nobody's member, so pushing a fresh room with
/// it as sole member, and pointing its record at that room, leaves the
/// store well-formed.
proof fn lemma_create_room_keeps_wf(pre: AppState, post: AppState, uid: Uid, uidx: int)
    requires
        pre.wf(),
        0 <= uidx < pre.users@.len(),
        pre.users@[uidx].uid == uid,
        pre.users@[uidx].room_key is None,
        post.users@.len() == pre.users@.len(),
        forall|j: int| 0 <= j < pre.users@.len() && j != uidx ==> post.users@[j] == pre.users@[j],
        post.users@[uidx].uid == uid,
        post.users@[uidx].room_key is Some,
        post.users@[uidx].room_key->0@ == post.rooms@.last().key@,
        post.users@[uidx].conn_state == ConnState::Room,
        post.rooms@.len() == pre.rooms@.len() + 1,
        forall|j: int| 0 <= j < pre.rooms@.len() ==> post.rooms@[j] == pre.rooms@[j],
        forall|j: int| 0 <= j < pre.rooms@.len() ==> pre.rooms@[j].key@ != post.rooms@.last().key@,
        crate::room::valid_key_spec(post.rooms@.last().key@),
        post.rooms@.last().users@ == seq![uid],
    ensures
        post.wf(),
{
    let n = pre.rooms@.len() as int;
    assert forall|i: int, j: int|
        0 <= i < j < post.users@.len() implies post.users@[i].uid != post.users@[j].uid by {
        assert(post.users@[i].uid == pre.users@[i].uid);
        assert(post.users@[j].uid == pre.users@[j].uid);
    }
    assert forall|i: int, k: int|
        0 <= i < post.rooms@.len() && 0 <= k < post.rooms@[i].users@.len() implies member_linked(
        post.users@,
        #[trigger] post.rooms@[i].users@[k],
        post.rooms@[i].key@,
    ) by {
        if i == n {
            assert(post.rooms@[i].users@[k] == uid);
            assert(post.users@[uidx].uid == uid && post.users@[uidx].room_key is Some
                && post.users@[uidx].room_key->0@ == post.rooms@[i].key@);
        } else {
            let m = post.rooms@[i].users@[k];
            assert(member_linked(pre.users@, m, pre.rooms@[i].key@));
            let w = choose|w: int|
                0 <= w < pre.users@.len() && pre.users@[w].uid == m && pre.users@[w].room_key
                    is Some && pre.users@[w].room_key->0@ == pre.rooms@[i].key@;
            assert(w != uidx);
            assert(post.users@[w] == pre.users@[w]);
        }
    }
    assert forall|i: int| 0 <= i < post.users@.len() implies crate::registry::user_room_linked(
        post.rooms@,
        #[trigger] post.users@[i],
    ) by {
        if i == uidx {
            assert(post.rooms@[n].key@ == post.users@[uidx].room_key->0@);
            assert(post.rooms@[n].users@[0] == uid);
            assert(post.rooms@[n].users@.contains(uid));
        } else {
            assert(post.users@[i] == pre.users@[i]);
            assert(crate::registry::user_room_linked(pre.rooms@, pre.users@[i]));
            let u = pre.users@[i];
            if u.room_key is Some {
                let pj = choose|pj: int|
                    0 <= pj < pre.rooms@.len() && pre.rooms@[pj].key@ == u.room_key->0@
                        && pre.rooms@[pj].users@.contains(u.uid);
                assert(post.rooms@[pj] == pre.rooms@[pj]);
            }
        }
    }
}

/// A lobby-phase session is nobody's member, so appending it to one room's
/// membership, and pointing its record at that room, leaves the store
/// well-formed.
proof fn lemma_join_room_keeps_wf(pre: AppState, post: AppState, uid: Uid, uidx: int, ridx: int)
    requires
        pre.wf(),
        0 <= uidx < pre.users@.len(),
        pre.users@[uidx].uid == uid,
        pre.users@[uidx].room_key is None,
        0 <= ridx < pre.rooms@.len(),
        post.users@.len() == pre.users@.len(),
        forall|j: int| 0 <= j < pre.users@.len() && j != uidx ==> post.users@[j] == pre.users@[j],
        post.users@[uidx].uid == uid,
        post.users@[uidx].room_key is Some,
        post.users@[uidx].room_key->0@ == pre.rooms@[ridx].key@,
        post.users@[uidx].conn_state == ConnState::Room,
        post.rooms@.len() == pre.rooms@.len(),
        forall|j: int| 0 <= j < pre.rooms@.len() && j != ridx ==> post.rooms@[j] == pre.rooms@[j],
        post.rooms@[ridx].key@ == pre.rooms@[ridx].key@,
        post.rooms@[ridx].users@ == pre.rooms@[ridx].users@.push(uid),
    ensures
        post.wf(),
{
    let n = pre.rooms@[ridx].users@.len() as int;
    // A lobby-phase session is nobody's member.
    assert forall|j: int, k: int|
        0 <= j < pre.rooms@.len() && 0 <= k < pre.rooms@[j].users@.len() implies pre.rooms@[j].users@[k]
        != uid by {
        if pre.rooms@[j].users@[k] == uid {
            assert(member_linked(pre.users@, pre.rooms@[j].users@[k], pre.rooms@[j].key@));
            let w = choose|w: int|
                0 <= w < pre.users@.len() && pre.users@[w].uid == uid && pre.users@[w].room_key
                    is Some && pre.users@[w].room_key->0@ == pre.rooms@[j].key@;
            assert(w != uidx);
            if w < uidx {
                assert(pre.users@[w].uid != pre.users@[uidx].uid);
            } else {
                assert(pre.users@[uidx].uid != pre.users@[w].uid);
            }
        }
    }
    assert forall|i: int, j: int|
        0 <= i < j < post.users@.len() implies post.users@[i].uid != post.users@[j].uid by {
        assert(post.users@[i].uid == pre.users@[i].uid);
        assert(post.users@[j].uid == pre.users@[j].uid);
    }
    assert forall|i: int| 0 <= i < post.rooms@.len() implies room_members_distinct(
        #[trigger] post.rooms@[i],
    ) by {
        if i == ridx {
            assert forall|a: int, b: int|
                0 <= a < b < post.rooms@[ridx].users@.len() implies post.rooms@[ridx].users@[a]
                != post.rooms@[ridx].users@[b] by {
                if b == n {
                    assert(post.rooms@[ridx].users@[a] == pre.rooms@[ridx].users@[a]);
                    assert(pre.rooms@[ridx].users@[a] != uid);
                } else {
                    assert(post.rooms@[ridx].users@[a] == pre.rooms@[ridx].users@[a]);
                    assert(post.rooms@[ridx].users@[b] == pre.rooms@[ridx].users@[b]);
                    assert(room_members_distinct(pre.rooms@[ridx]));
                }
            }
        } else {
            assert(post.rooms@[i] == pre.rooms@[i]);
        }
    }
    assert forall|i: int, k: int|
        0 <= i < post.rooms@.len() && 0 <= k < post.rooms@[i].users@.len() implies member_linked(
        post.users@,
        #[trigger] post.rooms@[i].users@[k],
        post.rooms@[i].key@,
    ) by {
        if i == ridx && k == n {
            assert(post.rooms@[i].users@[k] == uid);
            assert(post.users@[uidx].uid == uid && post.users@[uidx].room_key is Some
                && post.users@[uidx].room_key->0@ == post.rooms@[ridx].key@);
        } else {
            let m = if i == ridx {
                pre.rooms@[ridx].users@[k]
            } else {
                pre.rooms@[i].users@[k]
            };
            assert(post.rooms@[i].users@[k] == m);
            assert(member_linked(pre.users@, m, pre.rooms@[i].key@));
            let w = choose|w: int|
                0 <= w < pre.users@.len() && pre.users@[w].uid == m && pre.users@[w].room_key
                    is Some && pre.users@[w].room_key->0@ == pre.rooms@[i].key@;
            assert(w != uidx);
            assert(post.users@[w] == pre.users@[w]);
        }
    }
    assert forall|i: int| 0 <= i < post.users@.len() implies crate::registry::user_room_linked(
        post.rooms@,
        #[trigger] post.users@[i],
    ) by {
        if i == uidx {
            assert(post.rooms@[ridx].users@[n] == uid);
            assert(post.rooms@[ridx].users@.contains(uid));
        } else {
            assert(post.users@[i] == pre.users@[i]);
            assert(crate::registry::user_room_linked(pre.rooms@, pre.users@[i]));
            let u = pre.users@[i];
            if u.room_key is Some {
                let pj = choose|pj: int|
                    0 <= pj < pre.rooms@.len() && pre.rooms@[pj].key@ == u.room_key->0@
                        && pre.rooms@[pj].users@.contains(u.uid);
                if pj == ridx {
                    let q = choose|q: int|
                        0 <= q < pre.rooms@[ridx].users@.len() && pre.rooms@[ridx].users@[q]
                            == u.uid;
                    assert(post.rooms@[ridx].users@[q] == u.uid);
                    assert(post.rooms@[ridx].users@.contains(u.uid));
                } else {
                    assert(post.rooms@[pj] == pre.rooms@[pj]);
                }
            }
        }
    }
}

/// Changing only the state machine of one room (same key, same members)
/// leaves the store well-formed.
proof fn lemma_room_state_update_keeps_wf(pre: AppState, post: AppState, ridx: int)
    requires
        pre.wf(),
        post.users@ == pre.users@,
        0 <= ridx < pre.rooms@.len(),
        post.rooms@.len() == pre.rooms@.len(),
        forall|j: int| 0 <= j < pre.rooms@.len() && j != ridx ==> post.rooms@[j] == pre.rooms@[j],
        post.rooms@[ridx].key@ == pre.rooms@[ridx].key@,
        post.rooms@[ridx].users@ == pre.rooms@[ridx].users@,
    ensures
        post.wf(),
{
    assert forall|i: int, k: int|
        0 <= i < post.rooms@.len() && 0 <= k < post.rooms@[i].users@.len() implies member_linked(
        post.users@,
        #[trigger] post.rooms@[i].users@[k],
        post.rooms@[i].key@,
    ) by {
        assert(post.rooms@[i].users@[k] == pre.rooms@[i].users@[k]);
        assert(member_linked(pre.users@, pre.rooms@[i].users@[k], pre.rooms@[i].key@));
    }
    assert forall|i: int| 0 <= i < post.users@.len() implies crate::registry::user_room_linked(
        post.rooms@,
        #[trigger] post.users@[i],
    ) by {
        let u = post.users@[i];
        assert(crate::registry::user_room_linked(pre.rooms@, u));
        if u.room_key is Some {
            let pj = choose|pj: int|
                0 <= pj < pre.rooms@.len() && pre.rooms@[pj].key@ == u.room_key->0@
                    && pre.rooms@[pj].users@.contains(u.uid);
            assert(post.rooms@[pj].key@ == pre.rooms@[pj].key@);
            assert(post.rooms@[pj].users@ == pre.rooms@[pj].users@);
        }
    }
}

/// Under unique ids, the first index holding `uid` is the only one, so it is
/// what `user_index_of` denotes.
pub proof fn lemma_first_user_index_is_the_index(users: Seq<User>, uid: Uid, idx: int)
    requires
        forall|i: int, j: int| 0 <= i < j < users.len() ==> users[i].uid != users[j].uid,
        0 <= idx < users.len(),
        users[idx].uid == uid,
    ensures
        user_index_of(users, uid) == idx,
        has_user(users, uid),
{
    assert(has_user(users, uid));
    let c = user_index_of(users, uid);
    assert(0 <= c < users.len() && users[c].uid == uid);
    if c < idx {
        assert(users[c].uid != users[idx].uid);
    } else if c > idx {
        assert(users[idx].uid != users[c].uid);
    }
}

/// Under unique keys, the first index holding `key` is the only one, so it
/// is what `room_index_of` denotes.
pub proof fn lemma_first_room_index_is_the_index(rooms: Seq<crate::room::Room>, key: Seq<char>, idx: int)
    requires
        forall|i: int, j: int| 0 <= i < j < rooms.len() ==> rooms[i].key@ != rooms[j].key@,
        0 <= idx < rooms.len(),
        rooms[idx].key@ == key,
    ensures
        room_index_of(rooms, key) == idx,
        has_room(rooms, key),
{
    assert(has_room(rooms, key));
    let c = room_index_of(rooms, key);
    assert(0 <= c < rooms.len() && rooms[c].key@ == key);
    if c < idx {
        assert(rooms[c].key@ != rooms[idx].key@);
    } else if c > idx {
        assert(rooms[idx].key@ != rooms[c].key@);
    }
}

/// After removing one session at `uidx`, every other pre-state session
/// survives at a shifted index.
proof fn lemma_users_remove_pointwise(pre: Seq<User>, post: Seq<User>, uidx: int)
    requires
        0 <= uidx < pre.len(),
        post == pre.remove(uidx),
    ensures
        post.len() == pre.len() - 1,
        forall|x: int| 0 <= x < uidx ==> post[x] == pre[x],
        forall|x: int| uidx <= x < post.len() ==> post[x] == pre[x + 1],
{
}

/// Removing a session that records no room leaves the store well-formed.
proof fn lemma_user_removal_keeps_wf(pre: AppState, post: AppState, uid: Uid, uidx: int)
    requires
        pre.wf(),
        0 <= uidx < pre.users@.len(),
        pre.users@[uidx].uid == uid,
        pre.users@[uidx].room_key is None,
        post.users@ == pre.users@.remove(uidx),
        post.rooms@ == pre.rooms@,
    ensures
        post.wf(),
{
    lemma_users_remove_pointwise(pre.users@, post.users@, uidx);
    assert forall|i: int, k: int|
        0 <= i < post.rooms@.len() && 0 <= k < post.rooms@[i].users@.len() implies member_linked(
        post.users@,
        #[trigger] post.rooms@[i].users@[k],
        post.rooms@[i].key@,
    ) by {
        let m = post.rooms@[i].users@[k];
        assert(member_linked(pre.users@, m, pre.rooms@[i].key@));
        let w = choose|w: int|
            0 <= w < pre.users@.len() && pre.users@[w].uid == m && pre.users@[w].room_key is Some
                && pre.users@[w].room_key->0@ == pre.rooms@[i].key@;
        assert(w != uidx);
        if w < uidx {
            assert(post.users@[w] == pre.users@[w]);
        } else {
            assert(post.users@[w - 1] == pre.users@[w]);
        }
    }
    assert forall|i: int| 0 <= i < post.users@.len() implies crate::registry::user_room_linked(
        post.rooms@,
        #[trigger] post.users@[i],
    ) by {
        let pi = if i < uidx {
            i
        } else {
            i + 1
        };
        assert(post.users@[i] == pre.users@[pi]);
        assert(crate::registry::user_room_linked(pre.rooms@, pre.users@[pi]));
    }
}

/// Disconnecting the sole member removes the room and leaves the store
/// well-formed.
proof fn lemma_close_removes_room_keeps_wf(
    pre: AppState,
    post: AppState,
    uid: Uid,
    uidx: int,
    ridx: int,
)
    requires
        pre.wf(),
        0 <= uidx < pre.users@.len(),
        pre.users@[uidx].uid == uid,
        pre.users@[uidx].room_key is Some,
        0 <= ridx < pre.rooms@.len(),
        pre.rooms@[ridx].key@ == pre.users@[uidx].room_key->0@,
        post.users@ == pre.users@.remove(uidx),
        post.rooms@ == pre.rooms@.remove(ridx),
        forall|m: Uid| pre.rooms@[ridx].users@.contains(m) ==> m == uid,
    ensures
        post.wf(),
{
    lemma_users_remove_pointwise(pre.users@, post.users@, uidx);
    assert(post.rooms@.len() == pre.rooms@.len() - 1);
    assert forall|x: int| 0 <= x < post.rooms@.len() implies post.rooms@[x] == (if x < ridx {
        pre.rooms@[x]
    } else {
        pre.rooms@[x + 1]
    }) by {
    }
    assert forall|i: int, k: int|
        0 <= i < post.rooms@.len() && 0 <= k < post.rooms@[i].users@.len() implies member_linked(
        post.users@,
        #[trigger] post.rooms@[i].users@[k],
        post.rooms@[i].key@,
    ) by {
        let pi = if i < ridx {
            i
        } else {
            i + 1
        };
        assert(post.rooms@[i] == pre.rooms@[pi]);
        let m = post.rooms@[i].users@[k];
        assert(member_linked(pre.users@, m, pre.rooms@[pi].key@));
        let w = choose|w: int|
            0 <= w < pre.users@.len() && pre.users@[w].uid == m && pre.users@[w].room_key is Some
                && pre.users@[w].room_key->0@ == pre.rooms@[pi].key@;
        // The witness cannot be the removed session: that session records the
        // removed room's key, and keys are unique, so it would force
        // `pi == ridx`, yet the room at `pi` survived.
        assert(w != uidx) by {
            if w == uidx {
                assert(pre.rooms@[pi].key@ == pre.rooms@[ridx].key@);
                if pi < ridx {
                    assert(pre.rooms@[pi].key@ != pre.rooms@[ridx].key@);
                } else {
                    assert(pre.rooms@[ridx].key@ != pre.rooms@[pi].key@);
                }
            }
        }
        if w < uidx {
            assert(post.users@[w] == pre.users@[w]);
        } else {
            assert(post.users@[w - 1] == pre.users@[w]);
        }
        assert(member_linked(post.users@, m, post.rooms@[i].key@));
    }
    assert forall|i: int| 0 <= i < post.users@.len() implies crate::registry::user_room_linked(
        post.rooms@,
        #[trigger] post.users@[i],
    ) by {
        let pi = if i < uidx {
            i
        } else {
            i + 1
        };
        assert(post.users@[i] == pre.users@[pi]);
        let u = post.users@[i];
        assert(crate::registry::user_room_linked(pre.rooms@, u));
        if u.room_key is Some {
            let pj = choose|pj: int|
                0 <= pj < pre.rooms@.len() && pre.rooms@[pj].key@ == u.room_key->0@
                    && pre.rooms@[pj].users@.contains(u.uid);
            // The surviving session is not a member of the removed room: its
            // only member was the removed session, whose id is unique.
            assert(pj != ridx) by {
                if pj == ridx {
                    assert(u.uid == uid);
                    assert(pi != uidx);
                    if pi < uidx {
                        assert(pre.users@[pi].uid != pre.users@[uidx].uid);
                    } else {
                        assert(pre.users@[uidx].uid != pre.users@[pi].uid);
                    }
                }
            }
            if pj < ridx {
                assert(post.rooms@[pj] == pre.rooms@[pj]);
                assert(post.rooms@[pj].key@ == u.room_key->0@ && post.rooms@[pj].users@.contains(
                    u.uid,
                ));
            } else {
                assert(post.rooms@[pj - 1] == pre.rooms@[pj]);
                assert(post.rooms@[pj - 1].key@ == u.room_key->0@ && post.rooms@[pj
                    - 1].users@.contains(u.uid));
            }
        }
    }
}

/// Disconnecting one of several members updates the room in place and
/// leaves the store well-formed.
proof fn lemma_close_updates_room_keeps_wf(
    pre: AppState,
    post: AppState,
    uid: Uid,
    uidx: int,
    ridx: int,
)
    requires
        pre.wf(),
        0 <= uidx < pre.users@.len(),
        pre.users@[uidx].uid == uid,
        pre.users@[uidx].room_key is Some,
        0 <= ridx < pre.rooms@.len(),
        pre.rooms@[ridx].key@ == pre.users@[uidx].room_key->0@,
        post.users@ == pre.users@.remove(uidx),
        post.rooms@.len() == pre.rooms@.len(),
        forall|j: int| 0 <= j < pre.rooms@.len() && j != ridx ==> post.rooms@[j] == pre.rooms@[j],
        post.rooms@[ridx].key@ == pre.rooms@[ridx].key@,
        post.rooms@[ridx].state == vacate_spec(pre.rooms@[ridx].state, uid),
        exists|p: int|
            0 <= p < pre.rooms@[ridx].users@.len() && pre.rooms@[ridx].users@[p] == uid
                && post.rooms@[ridx].users@ == pre.rooms@[ridx].users@.remove(p),
    ensures
        post.wf(),
{
    let p = choose|p: int|
        0 <= p < pre.rooms@[ridx].users@.len() && pre.rooms@[ridx].users@[p] == uid
            && post.rooms@[ridx].users@ == pre.rooms@[ridx].users@.remove(p);
    assert(room_members_distinct(post.rooms@[ridx])) by {
        let r0 = pre.rooms@[ridx];
        let r1 = post.rooms@[ridx];
        assert(room_members_distinct(r0));
        assert forall|a: int, b: int| 0 <= a < b < r1.users@.len() implies r1.users@[a]
            != r1.users@[b] by {
            let pa = if a < p {
                a
            } else {
                a + 1
            };
            let pb = if b < p {
                b
            } else {
                b + 1
            };
            assert(r1.users@[a] == r0.users@[pa]);
            assert(r1.users@[b] == r0.users@[pb]);
        }
    }
    assert forall|i: int, k: int|
        0 <= i < post.rooms@.len() && 0 <= k < post.rooms@[i].users@.len() implies member_linked(
        post.users@,
        #[trigger] post.rooms@[i].users@[k],
        post.rooms@[i].key@,
    ) by {
        let m = post.rooms@[i].users@[k];
        let pk = if i == ridx {
            if k < p {
                k
            } else {
                k + 1
            }
        } else {
            k
        };
        assert(m == pre.rooms@[i].users@[pk]);
        assert(member_linked(pre.users@, m, pre.rooms@[i].key@));
        let w = choose|w: int|
            0 <= w < pre.users@.len() && pre.users@[w].uid == m && pre.users@[w].room_key is Some
                && pre.users@[w].room_key->0@ == pre.rooms@[i].key@;
        // The witness cannot be the removed session: in the updated room the
        // removed member is gone (memberships are duplicate-free), and a
        // member of any other room records that other room's key.
        assert(w != uidx) by {
            if w == uidx {
                assert(m == uid);
                if i == ridx {
                    assert(room_members_distinct(pre.rooms@[ridx]));
                    assert(pk != p);
                    if pk < p {
                        assert(pre.rooms@[ridx].users@[pk] != pre.rooms@[ridx].users@[p]);
                    } else {
                        assert(pre.rooms@[ridx].users@[p] != pre.rooms@[ridx].users@[pk]);
                    }
                } else {
                    assert(pre.rooms@[i].key@ == pre.rooms@[ridx].key@);
                    if i < ridx {
                        assert(pre.rooms@[i].key@ != pre.rooms@[ridx].key@);
                    } else {
                        assert(pre.rooms@[ridx].key@ != pre.rooms@[i].key@);
                    }
                }
            }
        }
        if w < uidx {
            assert(post.users@[w] == pre.users@[w]);
        } else {
            assert(post.users@[w - 1] == pre.users@[w]);
        }
        assert(member_linked(post.users@, m, post.rooms@[i].key@));
    }
    assert forall|i: int| 0 <= i < post.users@.len() implies crate::registry::user_room_linked(
        post.rooms@,
        #[trigger] post.users@[i],
    ) by {
        let pi = if i < uidx {
            i
        } else {
            i + 1
        };
        assert(post.users@[i] == pre.users@[pi]);
        let u = post.users@[i];
        assert(crate::registry::user_room_linked(pre.rooms@, u));
        if u.room_key is Some {
            let pj = choose|pj: int|
                0 <= pj < pre.rooms@.len() && pre.rooms@[pj].key@ == u.room_key->0@
                    && pre.rooms@[pj].users@.contains(u.uid);
            assert(u.uid != uid) by {
                assert(pi != uidx);
                if pi < uidx {
                    assert(pre.users@[pi].uid != pre.users@[uidx].uid);
                } else {
                    assert(pre.users@[uidx].uid != pre.users@[pi].uid);
                }
            }
            if pj == ridx {
                let q = choose|q: int|
                    0 <= q < pre.rooms@[ridx].users@.len() && pre.rooms@[ridx].users@[q] == u.uid;
                assert(q != p);
                if q < p {
                    assert(post.rooms@[ridx].users@[q] == pre.rooms@[ridx].users@[q]);
                } else {
                    assert(post.rooms@[ridx].users@[q - 1] == pre.rooms@[ridx].users@[q]);
                }
                assert(post.rooms@[ridx].users@.contains(u.uid)) by {
                    if q < p {
                        assert(post.rooms@[ridx].users@[q] == u.uid);
                    } else {
                        assert(post.rooms@[ridx].users@[q - 1] == u.uid);
                    }
                }
            } else {
                assert(post.rooms@[pj] == pre.rooms@[pj]);
            }
        }
    }
}

} // verus!
