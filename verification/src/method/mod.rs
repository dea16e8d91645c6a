pub mod skill;

use vstd::prelude::*;

verus! {

/// The method numbers of the wire protocol, one for each kind of packet.
#[derive(Debug, Clone, Copy, PartialEq, Eq, Structural)]
pub struct MethodTable {
    pub ping: i32,
    pub pong: i32,
    pub hello: i32,
    pub nickname: i32,
    pub room_list: i32,
    pub create_room: i32,
    pub join_room: i32,
    pub leave_room: i32,
    pub chat: i32,
    pub index: i32,
    pub start_game: i32,
    pub increase_time: i32,
    pub decrease_time: i32,
    pub error: i32,
    pub player_list: i32,
    pub player_joined: i32,
    pub player_left: i32,
    pub moderator_changed: i32,
    pub time_changed: i32,
    pub job: i32,
    pub hand: i32,
    pub skill: i32,
    pub memo: i32,
}

/// The numbers of the error messages that the client shows.
#[derive(Debug, Clone, Copy, PartialEq, Eq, Structural)]
pub struct StringTable {
    pub room_is_full: i32,
    pub room_size_is_invalid: i32,
    pub room_does_not_exist: i32,
    pub player_not_enough: i32,
}

} // verus!
