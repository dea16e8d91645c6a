//! Core logic of a mafia game server: the wire format of packets, the
//! word filter, room seating and id allocation, job assignment and the
//! classic game's turn logic.

pub mod packet;
pub mod text;
pub mod filter;
pub mod game;
pub mod method;
pub mod room;
pub mod server;
pub mod timer;
