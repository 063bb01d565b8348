use othello::conn::{AtomicConnState, ConnState};
use othello::uid::{Uid, UidParseError};

#[test]
fn test_conn_state_byte_round_trip() {
    for s in [ConnState::Login, ConnState::Lobby, ConnState::Room, ConnState::Game] {
        assert_eq!(ConnState::from_byte(s.to_byte()), Some(s));
    }
    assert_eq!(ConnState::from_byte(4), None);
    assert_eq!(ConnState::from_byte(255), None);
}

#[test]
fn test_atomic_conn_state_store_load() {
    let a = AtomicConnState::new(ConnState::Login);
    assert_eq!(a.load(), Some(ConnState::Login));
    a.store(ConnState::Lobby);
    assert_eq!(a.load(), Some(ConnState::Lobby));
    a.store(ConnState::Room);
    assert_eq!(a.load(), Some(ConnState::Room));
    a.store(ConnState::Game);
    assert_eq!(a.load(), Some(ConnState::Game));
}

#[test]
fn test_nil_uid() {
    let nil = Uid::nil();
    assert!(nil.is_nil());
    assert_eq!(nil.as_u128(), 0);
    assert_eq!(nil.into_string(), "00000000000000000000000000");
}

#[test]
fn test_uid_parse_canonical_text() {
    let parsed = Uid::try_parse("00000000000000000000000000").expect("nil text parses");
    assert!(parsed.is_nil());
    let known = Uid::try_parse("01D39ZY06FGSCTVN4T2V9PKHFZ").expect("canonical text parses");
    assert!(!known.is_nil());
    assert_eq!(known.into_string(), "01D39ZY06FGSCTVN4T2V9PKHFZ");
}

#[test]
fn test_uid_parse_rejections() {
    assert_eq!(Uid::try_parse(""), Err(UidParseError::InvalidLength));
    assert_eq!(Uid::try_parse("0123"), Err(UidParseError::InvalidLength));
    assert_eq!(
        Uid::try_parse("0000000000000000000000000u"),
        Err(UidParseError::InvalidChar)
    );
}

#[test]
fn test_fresh_uid_text_round_trip() {
    let uid = Uid::new();
    let text = uid.into_string();
    assert_eq!(text.len(), 26);
    let back = Uid::try_parse(&text).expect("freshly printed id parses");
    assert_eq!(back.as_u128(), uid.as_u128());
}
