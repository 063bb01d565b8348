//! A small multiplayer board-game service library: a bit-parallel Othello
//! board engine, a framed packet catalog keyed by connection phase, and the
//! session / room / registry coordination rules, all with verified contracts.
pub mod board;
pub mod conn;
pub mod frame;
pub mod handle;
pub mod packets;
pub mod registry;
pub mod room;
pub mod session;
pub mod uid;
