use othello::conn::ConnState;
use othello::frame::{decode_frame, decode_request_frame, encode_frame};
use othello::packets::{
    LobbyRequestPacket, LobbyResponsePacket, LobbyRoomCreateRejectedRes, LobbyRoomCreateReq,
    LobbyRoomCreateRes, LobbyRoomJoinReq, LobbyRoomJoinRes, LoginReq, LoginRequestPacket,
    LoginRes, LoginResponsePacket, RoomChoiceColorBroadcast, RoomChoiceColorReq,
    RoomChoiceColorRes, RoomRequestPacket, RoomResponsePacket, RoomUserJoinBroadcast,
    RoomUserLeaveBroadcast,
};
use othello::board::OthelloColor;
use othello::uid::Uid;

#[test]
fn test_frame_round_trip() {
    let payload = vec![1u8, 2, 3, 250];
    let framed = encode_frame(7, &payload);
    assert_eq!(framed, vec![7u8, 1, 2, 3, 250]);
    let (id, body) = decode_frame(&framed).expect("non-empty frame decodes");
    assert_eq!(id, 7);
    assert_eq!(body, payload);
}

#[test]
fn test_empty_payload_frame() {
    let framed = encode_frame(0, &Vec::new());
    assert_eq!(framed, vec![0u8]);
    let (id, body) = decode_frame(&framed).expect("one-byte frame decodes");
    assert_eq!(id, 0);
    assert!(body.is_empty());
}

#[test]
fn test_zero_length_frame_is_a_decode_failure() {
    assert!(decode_frame(&Vec::new()).is_none());
    assert!(decode_request_frame(ConnState::Login, &Vec::new()).is_none());
    assert!(decode_request_frame(ConnState::Lobby, &Vec::new()).is_none());
    assert!(decode_request_frame(ConnState::Room, &Vec::new()).is_none());
    assert!(decode_request_frame(ConnState::Game, &Vec::new()).is_none());
}

#[test]
fn test_id_outside_catalog_is_a_decode_failure() {
    // Id 1 is a lobby id, not a login id.
    let frame = vec![1u8, 42];
    assert!(decode_request_frame(ConnState::Login, &frame).is_none());
    assert!(decode_request_frame(ConnState::Lobby, &frame).is_some());
    assert!(decode_request_frame(ConnState::Room, &frame).is_none());
    // Id 2 belongs to no catalog.
    let frame = vec![2u8];
    assert!(decode_request_frame(ConnState::Login, &frame).is_none());
    assert!(decode_request_frame(ConnState::Lobby, &frame).is_none());
    assert!(decode_request_frame(ConnState::Room, &frame).is_none());
    // No request is valid while in game.
    let frame = vec![0u8];
    assert!(decode_request_frame(ConnState::Game, &frame).is_none());
}

#[test]
fn test_request_frame_splits_id_and_payload() {
    let frame = vec![0u8, 9, 9];
    let (id, body) = decode_request_frame(ConnState::Room, &frame).expect("room id 0 decodes");
    assert_eq!(id, 0);
    assert_eq!(body, vec![9u8, 9]);
}

#[test]
fn test_request_packet_ids() {
    assert_eq!(
        LoginRequestPacket::Login(LoginReq { username: "a".to_string() }).id(),
        0
    );
    assert_eq!(
        LobbyRequestPacket::RoomCreate(LobbyRoomCreateReq { key: "k".to_string() }).id(),
        0
    );
    assert_eq!(
        LobbyRequestPacket::RoomJoin(LobbyRoomJoinReq { key: "k".to_string() }).id(),
        1
    );
    assert_eq!(
        RoomRequestPacket::RoomChoiceColor(RoomChoiceColorReq { color: OthelloColor::Black }).id(),
        0
    );
}

#[test]
fn test_response_packet_ids() {
    let uid = Uid::nil();
    assert_eq!(
        LoginResponsePacket::Login(LoginRes { uid, token: "t".to_string() }).id(),
        0
    );
    assert_eq!(LobbyResponsePacket::RoomCreate(LobbyRoomCreateRes {}).id(), 0);
    assert_eq!(
        LobbyResponsePacket::RoomJoin(LobbyRoomJoinRes::RoomNotFound).id(),
        1
    );
    assert_eq!(
        LobbyResponsePacket::RoomCreateRejected(LobbyRoomCreateRejectedRes {}).id(),
        2
    );
    assert_eq!(
        RoomResponsePacket::RoomUserJoinBroadcast(RoomUserJoinBroadcast {
            uid,
            username: "a".to_string()
        })
        .id(),
        0
    );
    assert_eq!(
        RoomResponsePacket::RoomChoiceColor(RoomChoiceColorRes { success: true }).id(),
        1
    );
    assert_eq!(
        RoomResponsePacket::RoomChoiceColorBroadcast(RoomChoiceColorBroadcast {
            uid,
            color: OthelloColor::White
        })
        .id(),
        2
    );
    assert_eq!(
        RoomResponsePacket::RoomUserLeaveBroadcast(RoomUserLeaveBroadcast { uid }).id(),
        3
    );
}
