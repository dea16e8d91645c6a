use vstd::prelude::*;
use vstd::utf8::{decode_utf8, valid_utf8};

use crate::game::GameType;
use crate::method::MethodTable;
use crate::packet::binarydata::BinaryData;
use crate::packet::packet::PacketModel;
use crate::packet::utils::{be_value, signed_of};
use crate::packet::Packet;
use crate::room::room::RoomOption;

verus! {

/// Why a session ends.
#[derive(Debug, Clone, Copy, PartialEq, Eq, Structural)]
pub enum SessionError {
    /// A packet lacks an item, or a number item is not four bytes long.
    Malformed,
    /// A text item is not valid UTF-8.
    NotUtf8,
    /// The first packet does not give the nickname.
    InvalidMethod,
    /// A packet is longer than the server reads.
    PacketTooLong,
}

/// What a player asks for with a packet.
pub enum Request {
    RoomList,
    CreateRoom(RoomOption),
    /// A room was asked for with fewer than 4 or more than 12 seats.
    RoomSizeInvalid,
    JoinRoom(i32),
    LeaveRoom,
    Chat(String),
    Index,
    StartGame,
    IncreaseTime,
    DecreaseTime,
    /// Nothing to do.
    Ignore,
}

/// Item `i` exists and is four bytes long.
pub open spec fn number_at(items: Seq<Seq<u8>>, i: int) -> bool {
    i < items.len() && items[i].len() == 4
}

/// The number in item `i`.
pub open spec fn number_of(items: Seq<Seq<u8>>, i: int) -> int {
    signed_of(be_value(items[i]))
}

/// Item `i` exists and is text.
pub open spec fn text_at(items: Seq<Seq<u8>>, i: int) -> bool {
    i < items.len() && valid_utf8(items[i])
}

/// What a request to make a room comes to: the name, size, password flag
/// and password are read in that order (a missing item or a number of the
/// wrong size is malformed, a text that is not UTF-8 fails); then a player
/// already in a room is ignored, and the size must be 4 to 12.
pub open spec fn create_room_ok(items: Seq<Seq<u8>>, in_room: bool, res: Result<Request, SessionError>) -> bool {
    if items.len() < 1 {
        res == Err::<Request, SessionError>(SessionError::Malformed)
    } else if !valid_utf8(items[0]) {
        res == Err::<Request, SessionError>(SessionError::NotUtf8)
    } else if !number_at(items, 1) || !number_at(items, 2) || items.len() < 4 {
        res == Err::<Request, SessionError>(SessionError::Malformed)
    } else if !valid_utf8(items[3]) {
        res == Err::<Request, SessionError>(SessionError::NotUtf8)
    } else if in_room {
        res matches Ok(Request::Ignore)
    } else if number_of(items, 1) < 4 || number_of(items, 1) > 12 {
        res matches Ok(Request::RoomSizeInvalid)
    } else {
        res matches Ok(Request::CreateRoom(o)) && {
            &&& o.name@ == decode_utf8(items[0])
            &&& o.max_people == number_of(items, 1)
            &&& if be_value(items[2]) != 0 {
                o.password matches Some(pw) && pw@ == decode_utf8(items[3])
            } else {
                o.password is None
            }
            &&& o.game_type == GameType::ClassicGame
        }
    }
}

/// What `decide` makes of a packet with method `m` and items `items`, from
/// a player who is (`in_room`) or is not in a room.
pub open spec fn decide_ok(t: MethodTable, p: PacketModel, in_room: bool, res: Result<Request, SessionError>) -> bool {
    let m = p.method;
    let items = p.items;
    if m == t.room_list {
        res matches Ok(Request::RoomList)
    } else if m == t.create_room {
        create_room_ok(items, in_room, res)
    } else if m == t.join_room {
        if in_room {
            res matches Ok(Request::Ignore)
        } else if !number_at(items, 0) {
            res == Err::<Request, SessionError>(SessionError::Malformed)
        } else {
            res matches Ok(Request::JoinRoom(id)) && id == number_of(items, 0)
        }
    } else if m == t.leave_room {
        if in_room { res matches Ok(Request::LeaveRoom) } else { res matches Ok(Request::Ignore) }
    } else if m == t.chat {
        if !in_room {
            res matches Ok(Request::Ignore)
        } else if items.len() < 1 {
            res == Err::<Request, SessionError>(SessionError::Malformed)
        } else if !valid_utf8(items[0]) {
            res == Err::<Request, SessionError>(SessionError::NotUtf8)
        } else {
            res matches Ok(Request::Chat(s)) && s@ == decode_utf8(items[0])
        }
    } else if m == t.index {
        if in_room { res matches Ok(Request::Index) } else { res matches Ok(Request::Ignore) }
    } else if m == t.start_game {
        if in_room { res matches Ok(Request::StartGame) } else { res matches Ok(Request::Ignore) }
    } else if m == t.increase_time {
        if in_room { res matches Ok(Request::IncreaseTime) } else { res matches Ok(Request::Ignore) }
    } else if m == t.decrease_time {
        if in_room { res matches Ok(Request::DecreaseTime) } else { res matches Ok(Request::Ignore) }
    } else {
        res matches Ok(Request::Ignore)
    }
}

fn take_text(packet: &mut Packet, i: usize) -> (res: Result<String, SessionError>)
    requires
        i < old(packet)@.items.len(),
    ensures
        final(packet)@.items.len() == old(packet)@.items.len(),
        forall|k: int| 0 <= k < old(packet)@.items.len() && k != i ==> #[trigger] final(packet)@.items[k] == old(packet)@.items[k],
        final(packet)@.method == old(packet)@.method,
        res is Ok <==> valid_utf8(old(packet)@.items[i as int]),
        res matches Ok(s) ==> s@ == decode_utf8(old(packet)@.items[i as int]),
        res matches Err(e) ==> e == SessionError::NotUtf8,
{
    match packet.get_move(i).as_string() {
        Ok(s) => Ok(s),
        Err(_) => Err(SessionError::NotUtf8),
    }
}

fn number_item(packet: &Packet, i: usize) -> (res: Option<i32>)
    ensures
        res is Some <==> number_at(packet@.items, i as int),
        res matches Some(n) ==> n == number_of(packet@.items, i as int),
{
    if i < packet.len() && packet.get(i).vec.len() == 4 {
        Some(packet.get(i).to_i32())
    } else {
        None
    }
}

/// What a player asks for with `packet` (see `decide_ok`).
pub fn decide(table: &MethodTable, packet: Packet, in_room: bool) -> (res: Result<Request, SessionError>)
    ensures
        decide_ok(*table, packet@, in_room, res),
{
    let mut packet = packet;
    let ghost p = packet@;
    let m = packet.get_method();
    if m == table.room_list {
        Ok(Request::RoomList)
    } else if m == table.create_room {
        if packet.len() < 1 {
            return Err(SessionError::Malformed);
        }
        let room_name = take_text(&mut packet, 0)?;
        let max_people = match number_item(&packet, 1) {
            Some(n) => n,
            None => { return Err(SessionError::Malformed); },
        };
        let flag = match number_item(&packet, 2) {
            Some(n) => n,
            None => { return Err(SessionError::Malformed); },
        };
        if packet.len() < 4 {
            return Err(SessionError::Malformed);
        }
        let password = take_text(&mut packet, 3)?;
        if in_room {
            return Ok(Request::Ignore);
        }
        if max_people < 4 || max_people > 12 {
            return Ok(Request::RoomSizeInvalid);
        }
        let is_password_room = flag != 0;
        Ok(Request::CreateRoom(RoomOption {
            name: room_name,
            max_people: max_people as usize,
            password: if is_password_room { Some(password) } else { None },
            game_type: GameType::ClassicGame,
        }))
    } else if m == table.join_room {
        if in_room {
            return Ok(Request::Ignore);
        }
        match number_item(&packet, 0) {
            Some(id) => Ok(Request::JoinRoom(id)),
            None => Err(SessionError::Malformed),
        }
    } else if m == table.leave_room {
        if in_room { Ok(Request::LeaveRoom) } else { Ok(Request::Ignore) }
    } else if m == table.chat {
        if !in_room {
            return Ok(Request::Ignore);
        }
        if packet.len() < 1 {
            return Err(SessionError::Malformed);
        }
        let message = take_text(&mut packet, 0)?;
        Ok(Request::Chat(message))
    } else if m == table.index {
        if in_room { Ok(Request::Index) } else { Ok(Request::Ignore) }
    } else if m == table.start_game {
        if in_room { Ok(Request::StartGame) } else { Ok(Request::Ignore) }
    } else if m == table.increase_time {
        if in_room { Ok(Request::IncreaseTime) } else { Ok(Request::Ignore) }
    } else if m == table.decrease_time {
        if in_room { Ok(Request::DecreaseTime) } else { Ok(Request::Ignore) }
    } else {
        Ok(Request::Ignore)
    }
}

/// The nickname in the first packet of a session: the packet must be a
/// nickname packet whose first item is text.
pub fn read_nickname(table: &MethodTable, packet: Packet) -> (res: Result<String, SessionError>)
    ensures
        packet@.method != table.nickname ==> res == Err::<String, SessionError>(SessionError::InvalidMethod),
        packet@.method == table.nickname && packet@.items.len() < 1
            ==> res == Err::<String, SessionError>(SessionError::Malformed),
        packet@.method == table.nickname && packet@.items.len() >= 1 ==> {
            &&& res is Ok <==> valid_utf8(packet@.items[0])
            &&& res matches Ok(s) ==> s@ == decode_utf8(packet@.items[0])
            &&& res matches Err(e) ==> e == SessionError::NotUtf8
        },
{
    let mut packet = packet;
    if packet.get_method() != table.nickname {
        return Err(SessionError::InvalidMethod);
    }
    if packet.len() < 1 {
        return Err(SessionError::Malformed);
    }
    take_text(&mut packet, 0)
}

/// The answer to a ping: a pong with no items. Any other packet gets none
/// here and goes on to `decide`.
pub fn ping_reply(table: &MethodTable, packet: &Packet) -> (res: Option<Packet>)
    ensures
        packet@.method == table.ping ==> (res matches Some(p) && p@ == (PacketModel { method: table.pong, items: seq![] })),
        packet@.method != table.ping ==> res is None,
{
    if packet.get_method() == table.ping {
        let items: Vec<BinaryData> = Vec::new();
        let res = Packet::from_data(table.pong, items);
        assert(res@.items =~= Seq::<Seq<u8>>::empty());
        Some(res)
    } else {
        None
    }
}

/// The server's greeting.
pub fn hello_packet(table: &MethodTable) -> (res: Packet)
    ensures
        res@.method == table.hello,
        res@.items.len() == 1,
        res@.items[0] == vstd::utf8::encode_utf8("Mafia_Server 2.0_Beta"@),
{
    let mut items: Vec<BinaryData> = Vec::new();
    items.push(BinaryData::from_string("Mafia_Server 2.0_Beta".to_owned()));
    Packet::from_data(table.hello, items)
}

} // verus!
