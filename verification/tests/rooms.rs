use othello::board::OthelloColor;
use othello::conn::ConnState;
use othello::handle::{handle_lobby, handle_login, handle_room, Effect, Outbound};
use othello::packets::{
    LobbyRequestPacket, LobbyResponsePacket, LobbyRoomCreateReq, LobbyRoomJoinReq,
    LobbyRoomJoinRes, LoginReq, LoginResponsePacket, RoomChoiceColorReq, RoomRequestPacket,
    RoomResponsePacket,
};
use othello::registry::AppState;
use othello::room::{valid_key, Room, RoomKey, RoomState};
use othello::session::{valid_username, User};
use othello::uid::Uid;

fn uid(n: u128) -> Uid {
    Uid { bits: n }
}

fn login(state: &mut AppState, n: u128, name: &str) -> Uid {
    let u = uid(n);
    let fx = handle_login(state, u, LoginReq { username: name.to_string() });
    assert_eq!(fx.len(), 1);
    match &fx[0] {
        Effect::Send { to, packet: Outbound::Login(LoginResponsePacket::Login(res)) } => {
            assert_eq!(*to, u);
            assert_eq!(res.uid, u);
            assert_eq!(res.token, format!("token-for-{}", name));
        }
        _ => panic!("login must answer with the login response"),
    }
    u
}

#[test]
fn test_login_validation() {
    let mut st = AppState::new();
    // Empty name: rejected, connection closed.
    let fx = handle_login(&mut st, uid(1), LoginReq { username: String::new() });
    assert_eq!(fx.len(), 1);
    assert!(matches!(fx[0], Effect::Close { .. }));
    assert_eq!(st.users.len(), 0);
    // A 33-character name: rejected.
    let fx = handle_login(&mut st, uid(1), LoginReq { username: "x".repeat(33) });
    assert!(matches!(fx[0], Effect::Close { .. }));
    assert_eq!(st.users.len(), 0);
    // A 32-character name: accepted.
    login(&mut st, 1, &"x".repeat(32));
    assert_eq!(st.users.len(), 1);
    // A second login under the same id: rejected.
    let fx = handle_login(&mut st, uid(1), LoginReq { username: "other".to_string() });
    assert!(matches!(fx[0], Effect::Close { .. }));
    assert_eq!(st.users.len(), 1);
}

#[test]
fn test_create_room_validation() {
    let mut st = AppState::new();
    login(&mut st, 1, "ada");
    let rejected = |fx: &Vec<Effect>| {
        assert_eq!(fx.len(), 1);
        match &fx[0] {
            Effect::Send {
                to,
                packet: Outbound::Lobby(LobbyResponsePacket::RoomCreateRejected(_)),
            } => assert_eq!(*to, uid(1)),
            _ => panic!("a failed create answers the caller with the rejection"),
        }
    };
    // Empty key: rejected, and the caller is told so.
    let fx = handle_lobby(
        &mut st,
        uid(1),
        LobbyRequestPacket::RoomCreate(LobbyRoomCreateReq { key: String::new() }),
    );
    rejected(&fx);
    assert_eq!(st.rooms.len(), 0);
    // Too long a key: rejected, and the caller is told so.
    let fx = handle_lobby(
        &mut st,
        uid(1),
        LobbyRequestPacket::RoomCreate(LobbyRoomCreateReq { key: "k".repeat(33) }),
    );
    rejected(&fx);
    assert_eq!(st.rooms.len(), 0);
    // A valid key: the room is created and the creator is its first member.
    let fx = handle_lobby(
        &mut st,
        uid(1),
        LobbyRequestPacket::RoomCreate(LobbyRoomCreateReq { key: "duel".to_string() }),
    );
    assert_eq!(fx.len(), 1);
    assert!(matches!(
        fx[0],
        Effect::Send { packet: Outbound::Lobby(LobbyResponsePacket::RoomCreate(_)), .. }
    ));
    assert_eq!(st.rooms.len(), 1);
    assert_eq!(st.rooms[0].users, vec![uid(1)]);
    assert!(st.get_room(&"duel".to_string()).is_some());
}

#[test]
fn test_create_duplicate_key_is_refused() {
    let mut st = AppState::new();
    login(&mut st, 1, "ada");
    login(&mut st, 2, "bob");
    let create = |key: &str| LobbyRequestPacket::RoomCreate(LobbyRoomCreateReq { key: key.to_string() });
    assert_eq!(handle_lobby(&mut st, uid(1), create("duel")).len(), 1);
    // The duplicate key is rejected: the caller is answered, the connection
    // stays open, and the existing room is untouched.
    let fx = handle_lobby(&mut st, uid(2), create("duel"));
    assert_eq!(fx.len(), 1);
    match &fx[0] {
        Effect::Send {
            to,
            packet: Outbound::Lobby(LobbyResponsePacket::RoomCreateRejected(_)),
        } => assert_eq!(*to, uid(2)),
        _ => panic!("a duplicate key answers the caller with the rejection"),
    }
    assert_eq!(st.rooms.len(), 1);
    assert_eq!(st.rooms[0].users, vec![uid(1)]);
    // The rejected creator is still in the lobby and can join instead.
    let fx = handle_lobby(
        &mut st,
        uid(2),
        LobbyRequestPacket::RoomJoin(LobbyRoomJoinReq { key: "duel".to_string() }),
    );
    assert_eq!(fx.len(), 2);
    assert_eq!(st.rooms[0].users, vec![uid(1), uid(2)]);
}

#[test]
fn test_join_unknown_room_answers_not_found() {
    let mut st = AppState::new();
    login(&mut st, 1, "ada");
    let fx = handle_lobby(
        &mut st,
        uid(1),
        LobbyRequestPacket::RoomJoin(LobbyRoomJoinReq { key: "nowhere".to_string() }),
    );
    assert_eq!(fx.len(), 1);
    assert!(matches!(
        fx[0],
        Effect::Send {
            packet: Outbound::Lobby(LobbyResponsePacket::RoomJoin(LobbyRoomJoinRes::RoomNotFound)),
            ..
        }
    ));
}

#[test]
fn test_join_broadcasts_then_replies_with_full_member_list() {
    let mut st = AppState::new();
    login(&mut st, 1, "ada");
    login(&mut st, 2, "bob");
    login(&mut st, 3, "eve");
    handle_lobby(
        &mut st,
        uid(1),
        LobbyRequestPacket::RoomCreate(LobbyRoomCreateReq { key: "duel".to_string() }),
    );
    handle_lobby(
        &mut st,
        uid(2),
        LobbyRequestPacket::RoomJoin(LobbyRoomJoinReq { key: "duel".to_string() }),
    );
    let fx = handle_lobby(
        &mut st,
        uid(3),
        LobbyRequestPacket::RoomJoin(LobbyRoomJoinReq { key: "duel".to_string() }),
    );
    // Two existing members are told about the joiner first, in join order.
    assert_eq!(fx.len(), 3);
    for (i, expected_to) in [uid(1), uid(2)].iter().enumerate() {
        match &fx[i] {
            Effect::Send {
                to,
                packet: Outbound::Room(RoomResponsePacket::RoomUserJoinBroadcast(b)),
            } => {
                assert_eq!(to, expected_to);
                assert_eq!(b.uid, uid(3));
                assert_eq!(b.username, "eve");
            }
            _ => panic!("existing members are told about the joiner first"),
        }
    }
    // The joiner itself gets the full member list, itself included, last.
    match &fx[2] {
        Effect::Send {
            to,
            packet: Outbound::Lobby(LobbyResponsePacket::RoomJoin(LobbyRoomJoinRes::Success { users })),
        } => {
            assert_eq!(*to, uid(3));
            let summary: Vec<(Uid, String)> =
                users.iter().map(|d| (d.uid, d.username.clone())).collect();
            assert_eq!(
                summary,
                vec![
                    (uid(1), "ada".to_string()),
                    (uid(2), "bob".to_string()),
                    (uid(3), "eve".to_string()),
                ]
            );
        }
        _ => panic!("the joiner gets the member list last"),
    }
    assert_eq!(st.rooms[0].users, vec![uid(1), uid(2), uid(3)]);
}

#[test]
fn test_color_choice_is_exclusive() {
    let mut st = AppState::new();
    login(&mut st, 1, "ada");
    login(&mut st, 2, "bob");
    handle_lobby(
        &mut st,
        uid(1),
        LobbyRequestPacket::RoomCreate(LobbyRoomCreateReq { key: "duel".to_string() }),
    );
    handle_lobby(
        &mut st,
        uid(2),
        LobbyRequestPacket::RoomJoin(LobbyRoomJoinReq { key: "duel".to_string() }),
    );
    let choose = |c| RoomRequestPacket::RoomChoiceColor(RoomChoiceColorReq { color: c });
    // Two claims of the same color: exactly one succeeds.
    let fx1 = handle_room(&mut st, uid(1), choose(OthelloColor::Black));
    let fx2 = handle_room(&mut st, uid(2), choose(OthelloColor::Black));
    let success = |fx: &Vec<Effect>| match &fx[0] {
        Effect::Send { packet: Outbound::Room(RoomResponsePacket::RoomChoiceColor(r)), .. } => {
            r.success
        }
        _ => panic!("the chooser learns the outcome first"),
    };
    assert!(success(&fx1));
    assert!(!success(&fx2));
    // The winner's claim was broadcast to the other member only.
    assert_eq!(fx1.len(), 2);
    match &fx1[1] {
        Effect::Send {
            to,
            packet: Outbound::Room(RoomResponsePacket::RoomChoiceColorBroadcast(b)),
        } => {
            assert_eq!(*to, uid(2));
            assert_eq!(b.uid, uid(1));
            assert_eq!(b.color, OthelloColor::Black);
        }
        _ => panic!("a successful claim is broadcast to the other members"),
    }
    // The failed claim produced no broadcast.
    assert_eq!(fx2.len(), 1);
    // The same session cannot hold both slots.
    let fx3 = handle_room(&mut st, uid(1), choose(OthelloColor::White));
    assert!(!success(&fx3));
    // The other color is still free for the other session.
    let fx4 = handle_room(&mut st, uid(2), choose(OthelloColor::White));
    assert!(success(&fx4));
}

#[test]
fn test_room_action_without_room_closes() {
    let mut st = AppState::new();
    login(&mut st, 1, "ada");
    let fx = handle_room(
        &mut st,
        uid(1),
        RoomRequestPacket::RoomChoiceColor(RoomChoiceColorReq { color: OthelloColor::Black }),
    );
    assert_eq!(fx.len(), 1);
    assert!(matches!(fx[0], Effect::Close { .. }));
}

#[test]
fn test_lone_disconnect_removes_room() {
    let mut st = AppState::new();
    login(&mut st, 1, "ada");
    handle_lobby(
        &mut st,
        uid(1),
        LobbyRequestPacket::RoomCreate(LobbyRoomCreateReq { key: "duel".to_string() }),
    );
    assert!(st.get_room(&"duel".to_string()).is_some());
    let fx = st.close_user(uid(1));
    assert!(fx.is_empty());
    // The emptied room no longer appears in lookups.
    assert!(st.get_room(&"duel".to_string()).is_none());
    assert!(st.get_user(uid(1)).is_none());
}

#[test]
fn test_disconnect_tells_remaining_members_and_vacates_slot() {
    let mut st = AppState::new();
    login(&mut st, 1, "ada");
    login(&mut st, 2, "bob");
    handle_lobby(
        &mut st,
        uid(1),
        LobbyRequestPacket::RoomCreate(LobbyRoomCreateReq { key: "duel".to_string() }),
    );
    handle_lobby(
        &mut st,
        uid(2),
        LobbyRequestPacket::RoomJoin(LobbyRoomJoinReq { key: "duel".to_string() }),
    );
    handle_room(
        &mut st,
        uid(1),
        RoomRequestPacket::RoomChoiceColor(RoomChoiceColorReq { color: OthelloColor::Black }),
    );
    let fx = st.close_user(uid(1));
    assert_eq!(fx.len(), 1);
    match &fx[0] {
        Effect::Send {
            to,
            packet: Outbound::Room(RoomResponsePacket::RoomUserLeaveBroadcast(b)),
        } => {
            assert_eq!(*to, uid(2));
            assert_eq!(b.uid, uid(1));
        }
        _ => panic!("the remaining member is told who left"),
    }
    // The vacated color can be claimed by the remaining member.
    let fx = handle_room(
        &mut st,
        uid(2),
        RoomRequestPacket::RoomChoiceColor(RoomChoiceColorReq { color: OthelloColor::Black }),
    );
    match &fx[0] {
        Effect::Send { packet: Outbound::Room(RoomResponsePacket::RoomChoiceColor(r)), .. } => {
            assert!(r.success);
        }
        _ => panic!("the chooser learns the outcome first"),
    }
}

#[test]
fn test_start_game_needs_both_slots() {
    let key = RoomKey::new("duel".to_string());
    let mut room = Room::new(key);
    room.add_user(uid(1));
    room.add_user(uid(2));
    // No slot filled.
    assert!(!room.start_game());
    assert!(room.set_player_color(uid(1), OthelloColor::Black));
    // One slot filled.
    assert!(!room.start_game());
    assert!(room.set_player_color(uid(2), OthelloColor::White));
    // Both filled: the game starts with a fresh board.
    assert!(room.start_game());
    match &room.state {
        RoomState::InGame { black_player, white_player, game } => {
            assert_eq!(*black_player, uid(1));
            assert_eq!(*white_player, uid(2));
            assert_eq!(game.black, 0x0000000810000000);
            assert_eq!(game.white, 0x0000001008000000);
            assert_eq!(game.turn, 0);
        }
        RoomState::Waiting { .. } => panic!("the room must be in game"),
    }
    // No claim and no second start while in game.
    assert!(!room.start_game());
    assert!(!room.set_player_color(uid(1), OthelloColor::Black));
}

#[test]
fn test_leave_user_keeps_order_and_vacates() {
    let mut room = Room::new(RoomKey::new("trio".to_string()));
    room.add_user(uid(1));
    room.add_user(uid(2));
    room.add_user(uid(3));
    assert!(room.set_player_color(uid(2), OthelloColor::White));
    assert!(room.leave_user(uid(2)));
    assert_eq!(room.users, vec![uid(1), uid(3)]);
    assert!(!room.leave_user(uid(2)));
    // The slot was vacated, so another member can take it.
    assert!(room.set_player_color(uid(3), OthelloColor::White));
    assert!(!room.is_empty());
}

#[test]
fn test_validation_rules() {
    assert!(!valid_key(&String::new()));
    assert!(valid_key(&"k".to_string()));
    assert!(valid_key(&"k".repeat(32)));
    assert!(!valid_key(&"k".repeat(33)));
    assert!(!valid_username(&String::new()));
    assert!(valid_username(&"n".repeat(32)));
    assert!(!valid_username(&"n".repeat(33)));
}

#[test]
fn test_session_record_transitions() {
    let mut u = User::new(uid(5), "ada".to_string());
    assert_eq!(u.conn_state, ConnState::Lobby);
    assert!(u.get_room_key().is_none());
    u.join_room(RoomKey::new("duel".to_string()));
    assert_eq!(u.conn_state, ConnState::Room);
    assert_eq!(u.get_room_key().map(|k| k.as_str().to_string()), Some("duel".to_string()));
    let d = u.to_data();
    assert_eq!(d.uid, uid(5));
    assert_eq!(d.username, "ada");
    u.leave_room();
    assert_eq!(u.conn_state, ConnState::Lobby);
    assert!(u.get_room_key().is_none());
}

#[test]
fn test_room_key_text_and_equality() {
    let a = RoomKey::new("duel".to_string());
    let b = RoomKey::new("duel".to_string());
    let c = RoomKey::new("other".to_string());
    assert_eq!(a.as_str(), "duel");
    assert!(a.key_eq(&b));
    assert!(!a.key_eq(&c));
    assert!(a.key_is(&"duel".to_string()));
    assert!(!a.key_is(&"Duel".to_string()));
}
