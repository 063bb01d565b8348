//! The connection phase machine: `Login -> Lobby -> Room -> Game`.
//!
//! The phase is read by the dispatch loop before decoding each incoming
//! frame, so it is kept in an atomic register readable from concurrent
//! callers.  The raw byte is never reinterpreted blindly: it goes through an
//! explicit, checked conversion back into the enumerated state.
use std::sync::atomic::AtomicU8;
use std::sync::atomic::Ordering;
use vstd::prelude::*;

verus! {

/// The phase of one connection; it selects which packet catalog is valid.
#[derive(Clone, Copy, Debug, PartialEq, Eq, Structural)]
pub enum ConnState {
    /// Authenticating: only a login packet is accepted.
    Login,
    /// In the lobby: room creation and joining are accepted.
    Lobby,
    /// In a game room: room packets are accepted.
    Room,
    /// Playing a game (reserved; no packets are accepted yet).
    Game,
}

/// The byte under which a phase is stored in the atomic register.
pub open spec fn conn_state_byte(s: ConnState) -> u8 {
    match s {
        ConnState::Login => 0,
        ConnState::Lobby => 1,
        ConnState::Room => 2,
        ConnState::Game => 3,
    }
}

/// The phase encoded by a byte, if any: the checked inverse of
/// `conn_state_byte`.
pub open spec fn conn_state_of_byte(v: u8) -> Option<ConnState> {
    if v == 0 {
        Some(ConnState::Login)
    } else if v == 1 {
        Some(ConnState::Lobby)
    } else if v == 2 {
        Some(ConnState::Room)
    } else if v == 3 {
        Some(ConnState::Game)
    } else {
        None
    }
}

impl ConnState {
    /// The byte under which this phase is stored.
    pub fn to_byte(self) -> (v: u8)
        ensures
            v == conn_state_byte(self),
    {
        match self {
            ConnState::Login => 0,
            ConnState::Lobby => 1,
            ConnState::Room => 2,
            ConnState::Game => 3,
        }
    }

    /// The phase a byte encodes; an out-of-range byte is rejected rather
    /// than reinterpreted.
    pub fn from_byte(v: u8) -> (s: Option<ConnState>)
        ensures
            s == conn_state_of_byte(v),
    {
        if v == 0 {
            Some(ConnState::Login)
        } else if v == 1 {
            Some(ConnState::Lobby)
        } else if v == 2 {
            Some(ConnState::Room)
        } else if v == 3 {
            Some(ConnState::Game)
        } else {
            None
        }
    }
}

/// Encoding then decoding a phase gives the phase back: the register can
/// never store a byte that fails the checked conversion.
pub proof fn lemma_conn_state_byte_round_trip(s: ConnState)
    ensures
        conn_state_of_byte(conn_state_byte(s)) == Some(s),
{
}

/// A connection phase stored in an atomic byte, readable and writable from
/// concurrent callers without a lock.
pub struct AtomicConnState(AtomicU8);

impl AtomicConnState {
    /// A register initially holding `state`.
    pub fn new(state: ConnState) -> AtomicConnState {
        AtomicConnState(AtomicU8::new(state.to_byte()))
    }

    /// The phase the register currently holds.  A concurrent writer may race
    /// with this read, so nothing relates the result to any one earlier
    /// store; every value written by `store` decodes, so `None` can only
    /// arise from a byte that no `store` of this register wrote.
    pub fn load(&self) -> Option<ConnState> {
        let raw = self.0.load(Ordering::Acquire);
        ConnState::from_byte(raw)
    }

    /// Store `state` in the register.
    pub fn store(&self, state: ConnState) {
        self.0.store(state.to_byte(), Ordering::Release);
    }
}

} // verus!
