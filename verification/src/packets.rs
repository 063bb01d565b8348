//! The packet catalogs: one tagged union per connection phase, with an
//! explicit table mapping tag bytes to payload kinds.
//!
//! The wire envelope is `[1-byte packet id][serialized payload]`; the id
//! space is partitioned per catalog, and the active catalog is selected by
//! the connection's current phase.  The serialization of a payload body is a
//! replaceable external codec and stays outside this library; here the
//! payloads are plain values.
use crate::board::OthelloColor;
use crate::conn::ConnState;
use crate::uid::Uid;
use vstd::pervasive::arbitrary;
use vstd::prelude::*;

verus! {

/// A packet that a client sends.
pub trait ReqPacket {

}

/// A packet that the server sends.
pub trait ResPacket {

}

/// A member's identity as carried in packets.
pub struct UserData {
    pub uid: Uid,
    pub username: String,
}

/// Login request: the chosen display name.
pub struct LoginReq {
    pub username: String,
}

impl ReqPacket for LoginReq {

}

/// Login response: the fresh session id and its token.
pub struct LoginRes {
    pub uid: Uid,
    pub token: String,
}

impl ResPacket for LoginRes {

}

/// Lobby request: create a room under `key`.
pub struct LobbyRoomCreateReq {
    pub key: String,
}

impl ReqPacket for LobbyRoomCreateReq {

}

/// Lobby response: the room was created.
pub struct LobbyRoomCreateRes {}

impl ResPacket for LobbyRoomCreateRes {

}

/// Lobby response: the room was not created — the key is invalid or already
/// taken.  The rejection is reported to the caller; the connection stays
/// open.
pub struct LobbyRoomCreateRejectedRes {}

impl ResPacket for LobbyRoomCreateRejectedRes {

}

/// Lobby request: join the room under `key`.
pub struct LobbyRoomJoinReq {
    pub key: String,
}

impl ReqPacket for LobbyRoomJoinReq {

}

/// Lobby response to a join: the full member list on success, or the room
/// was not found.
pub enum LobbyRoomJoinRes {
    Success { users: Vec<UserData> },
    RoomNotFound,
}

impl ResPacket for LobbyRoomJoinRes {

}

/// Room request: claim a color slot.
pub struct RoomChoiceColorReq {
    pub color: OthelloColor,
}

impl ReqPacket for RoomChoiceColorReq {

}

/// Room response: whether the color claim succeeded.
pub struct RoomChoiceColorRes {
    pub success: bool,
}

impl ResPacket for RoomChoiceColorRes {

}

/// Room broadcast: a member claimed a color.
pub struct RoomChoiceColorBroadcast {
    pub uid: Uid,
    pub color: OthelloColor,
}

impl ResPacket for RoomChoiceColorBroadcast {

}

/// Room broadcast: a member joined.
pub struct RoomUserJoinBroadcast {
    pub uid: Uid,
    pub username: String,
}

impl ResPacket for RoomUserJoinBroadcast {

}

/// Room broadcast: a member left.
pub struct RoomUserLeaveBroadcast {
    pub uid: Uid,
}

impl ResPacket for RoomUserLeaveBroadcast {

}

/// The requests valid while authenticating.
pub enum LoginRequestPacket {
    Login(LoginReq),
}

/// The responses of the login catalog.
pub enum LoginResponsePacket {
    Login(LoginRes),
}

/// The requests valid in the lobby.
pub enum LobbyRequestPacket {
    RoomCreate(LobbyRoomCreateReq),
    RoomJoin(LobbyRoomJoinReq),
}

/// The responses of the lobby catalog.
pub enum LobbyResponsePacket {
    RoomCreate(LobbyRoomCreateRes),
    RoomJoin(LobbyRoomJoinRes),
    RoomCreateRejected(LobbyRoomCreateRejectedRes),
}

/// The requests valid in a room.
pub enum RoomRequestPacket {
    RoomChoiceColor(RoomChoiceColorReq),
}

/// The responses and broadcasts of the room catalog.
pub enum RoomResponsePacket {
    RoomUserJoinBroadcast(RoomUserJoinBroadcast),
    RoomChoiceColor(RoomChoiceColorRes),
    RoomChoiceColorBroadcast(RoomChoiceColorBroadcast),
    RoomUserLeaveBroadcast(RoomUserLeaveBroadcast),
}

/// The tag byte of a login request.
pub open spec fn login_request_id_spec(p: LoginRequestPacket) -> u8 {
    match p {
        LoginRequestPacket::Login(_) => 0,
    }
}

/// The tag byte of a login response.
pub open spec fn login_response_id_spec(p: LoginResponsePacket) -> u8 {
    match p {
        LoginResponsePacket::Login(_) => 0,
    }
}

/// The tag byte of a lobby request.
pub open spec fn lobby_request_id_spec(p: LobbyRequestPacket) -> u8 {
    match p {
        LobbyRequestPacket::RoomCreate(_) => 0,
        LobbyRequestPacket::RoomJoin(_) => 1,
    }
}

/// The tag byte of a lobby response.
pub open spec fn lobby_response_id_spec(p: LobbyResponsePacket) -> u8 {
    match p {
        LobbyResponsePacket::RoomCreate(_) => 0,
        LobbyResponsePacket::RoomJoin(_) => 1,
        LobbyResponsePacket::RoomCreateRejected(_) => 2,
    }
}

/// The tag byte of a room request.
pub open spec fn room_request_id_spec(p: RoomRequestPacket) -> u8 {
    match p {
        RoomRequestPacket::RoomChoiceColor(_) => 0,
    }
}

/// The tag byte of a room response.
pub open spec fn room_response_id_spec(p: RoomResponsePacket) -> u8 {
    match p {
        RoomResponsePacket::RoomUserJoinBroadcast(_) => 0,
        RoomResponsePacket::RoomChoiceColor(_) => 1,
        RoomResponsePacket::RoomChoiceColorBroadcast(_) => 2,
        RoomResponsePacket::RoomUserLeaveBroadcast(_) => 3,
    }
}

/// Whether `id` tags a request of the catalog that `phase` selects.  This
/// table is the single source of truth for which frames a connection in a
/// given phase accepts.
pub open spec fn request_catalog_has(phase: ConnState, id: u8) -> bool {
    match phase {
        ConnState::Login => id == 0,
        ConnState::Lobby => id == 0 || id == 1,
        ConnState::Room => id == 0,
        ConnState::Game => false,
    }
}

impl LoginRequestPacket {
    /// The tag byte under which this request travels.
    pub fn id(&self) -> (r: u8)
        ensures
            r == login_request_id_spec(*self),
    {
        match self {
            LoginRequestPacket::Login(_) => 0,
        }
    }
}

impl LoginResponsePacket {
    /// The tag byte under which this response travels.
    pub fn id(&self) -> (r: u8)
        ensures
            r == login_response_id_spec(*self),
    {
        match self {
            LoginResponsePacket::Login(_) => 0,
        }
    }
}

impl LobbyRequestPacket {
    /// The tag byte under which this request travels.
    pub fn id(&self) -> (r: u8)
        ensures
            r == lobby_request_id_spec(*self),
    {
        match self {
            LobbyRequestPacket::RoomCreate(_) => 0,
            LobbyRequestPacket::RoomJoin(_) => 1,
        }
    }
}

impl LobbyResponsePacket {
    /// The tag byte under which this response travels.
    pub fn id(&self) -> (r: u8)
        ensures
            r == lobby_response_id_spec(*self),
    {
        match self {
            LobbyResponsePacket::RoomCreate(_) => 0,
            LobbyResponsePacket::RoomJoin(_) => 1,
            LobbyResponsePacket::RoomCreateRejected(_) => 2,
        }
    }
}

impl RoomRequestPacket {
    /// The tag byte under which this request travels.
    pub fn id(&self) -> (r: u8)
        ensures
            r == room_request_id_spec(*self),
    {
        match self {
            RoomRequestPacket::RoomChoiceColor(_) => 0,
        }
    }
}

impl RoomResponsePacket {
    /// The tag byte under which this response travels.
    pub fn id(&self) -> (r: u8)
        ensures
            r == room_response_id_spec(*self),
    {
        match self {
            RoomResponsePacket::RoomUserJoinBroadcast(_) => 0,
            RoomResponsePacket::RoomChoiceColor(_) => 1,
            RoomResponsePacket::RoomChoiceColorBroadcast(_) => 2,
            RoomResponsePacket::RoomUserLeaveBroadcast(_) => 3,
        }
    }
}

/// Every request tag a phase accepts is the tag of a request of that
/// phase's catalog, and conversely: the id spaces of the catalogs cover
/// exactly what `request_catalog_has` admits.
pub proof fn lemma_request_catalog_exact(phase: ConnState, id: u8)
    ensures
        request_catalog_has(phase, id) <==> (match phase {
            ConnState::Login => exists|p: LoginRequestPacket| login_request_id_spec(p) == id,
            ConnState::Lobby => exists|p: LobbyRequestPacket| lobby_request_id_spec(p) == id,
            ConnState::Room => exists|p: RoomRequestPacket| room_request_id_spec(p) == id,
            ConnState::Game => false,
        }),
{
    if request_catalog_has(phase, id) {
        match phase {
            ConnState::Login => {
                let w = LoginRequestPacket::Login(arbitrary());
                assert(login_request_id_spec(w) == id);
            },
            ConnState::Lobby => {
                if id == 0 {
                    let w = LobbyRequestPacket::RoomCreate(arbitrary());
                    assert(lobby_request_id_spec(w) == id);
                } else {
                    let w = LobbyRequestPacket::RoomJoin(arbitrary());
                    assert(lobby_request_id_spec(w) == id);
                }
            },
            ConnState::Room => {
                let w = RoomRequestPacket::RoomChoiceColor(arbitrary());
                assert(room_request_id_spec(w) == id);
            },
            ConnState::Game => {
            },
        }
    }
}

} // verus!
