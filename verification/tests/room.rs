use mafia_server::game::GameType;
use mafia_server::method::{MethodTable, StringTable};
use mafia_server::room::error::Error;
use mafia_server::room::manager::{IdManager, RoomManager, ROOM_COUNT};
use mafia_server::room::room::{
    check_start, join_refusal, join_room_packet, lobby_chat_packet, number_packet, room_list_packet, text_packet,
    ChatType, Player, PlayerType, RoomInfo, RoomOption, Seats,
};

fn table() -> MethodTable {
    MethodTable {
        ping: 1, pong: 2, hello: 3, nickname: 4, room_list: 5, create_room: 6, join_room: 7,
        leave_room: 8, chat: 9, index: 10, start_game: 11, increase_time: 12, decrease_time: 13,
        error: 14, player_list: 15, player_joined: 16, player_left: 17, moderator_changed: 18,
        time_changed: 19, job: 20, hand: 21, skill: 22, memo: 23,
    }
}

fn player(id: u64, name: &str) -> Player {
    Player { id, nickname: name.to_string() }
}

#[test]
fn id_manager_hands_out_lowest_ids() {
    let mut m = IdManager::new();
    assert_eq!(m.generate(), 0);
    assert_eq!(m.generate(), 1);
    assert_eq!(m.generate(), 2);
    assert_eq!(m.generate(), 3);
    m.free(2);
    m.free(0);
    assert_eq!(m.freed_count(), 2);
    assert_eq!(m.generate(), 0);
    assert_eq!(m.generate(), 2);
    assert_eq!(m.generate(), 4);
    assert_eq!(m.issued_count(), 5);
}

#[test]
fn room_manager_create_get_delete() {
    let mut rooms: RoomManager<&str> = RoomManager::new();
    assert!(rooms.has_free_slot());
    assert_eq!(rooms.create("a"), 0);
    assert_eq!(rooms.create("b"), 1);
    assert_eq!(rooms.get(0), Some(&"a"));
    assert_eq!(rooms.get(1), Some(&"b"));
    assert_eq!(rooms.get(2), None);
    rooms.delete(0);
    assert_eq!(rooms.get(0), None);
    assert_eq!(rooms.create("c"), 0);
    assert_eq!(rooms.get(0), Some(&"c"));
    assert_eq!(rooms.create("d"), 2);
}

#[test]
fn room_manager_fills_up() {
    let mut rooms: RoomManager<usize> = RoomManager::new();
    for i in 0..ROOM_COUNT {
        assert!(rooms.has_free_slot());
        assert_eq!(rooms.create(i), i as i32);
    }
    assert!(!rooms.has_free_slot());
    rooms.delete(1234);
    assert!(rooms.has_free_slot());
    assert_eq!(rooms.create(7), 1234);
}

#[test]
fn seats_join_fills_first_empty_seat() {
    let mut seats = Seats::new(4);
    assert_eq!(seats.now_people(), 0);
    assert_eq!(seats.join(player(10, "a")), Ok(0));
    assert_eq!(seats.join(player(11, "b")), Ok(1));
    assert_eq!(seats.join(player(12, "c")), Ok(2));
    assert_eq!(seats.index(11), Some(1));
    assert_eq!(seats.index(99), None);
    assert_eq!(seats.now_people(), 3);
    let left = seats.leave(11).unwrap();
    assert_eq!(left.index, 1);
    assert!(left.moderator_nickname.is_none());
    assert_eq!(seats.join(player(13, "d")), Ok(1));
    assert_eq!(seats.join(player(14, "e")), Ok(3));
    assert_eq!(seats.join(player(15, "f")), Err(Error::RoomIsFull));
    assert_eq!(seats.now_people(), 4);
}

#[test]
fn seats_moderator_moves_to_first_player() {
    let mut seats = Seats::new(3);
    seats.join(player(1, "a")).unwrap();
    seats.join(player(2, "b")).unwrap();
    seats.join(player(3, "c")).unwrap();
    assert!(seats.moderator_present());
    assert!(seats.is_moderator(1));
    assert!(!seats.is_moderator(2));
    let left = seats.leave(1).unwrap();
    assert_eq!(left.index, 0);
    assert_eq!(left.moderator_nickname.as_deref(), Some("b"));
    assert!(seats.is_moderator(2));
    assert_eq!(seats.leave(1).err(), Some(Error::AlreadyLeft));
    seats.leave(3).unwrap();
    let left = seats.leave(2).unwrap();
    assert_eq!(left.moderator_nickname.as_deref(), Some(""));
    assert_eq!(seats.now_people(), 0);
    assert!(!seats.moderator_present());
}

#[test]
fn seats_player_list_packet() {
    let t = table();
    let mut seats = Seats::new(3);
    seats.join(player(1, "a")).unwrap();
    seats.join(player(2, "bb")).unwrap();
    seats.leave(1).unwrap();
    // seat 0 empty, seat 1 "bb" is now the moderator, seat 2 empty
    let p = seats.player_list(&t);
    assert_eq!(p.get_method(), 15);
    assert_eq!(p.len(), 6);
    assert_eq!(p.get(0).to_i32(), PlayerType::Empty.code());
    assert_eq!(p.get(1).vec.len(), 0);
    assert_eq!(p.get(2).to_i32(), PlayerType::Moderator.code());
    assert_eq!(p.get(3).vec, b"bb".to_vec());
    assert_eq!(p.get(4).to_i32(), 0);
    assert_eq!(PlayerType::Normal.code(), 1);
    assert_eq!(PlayerType::Moderator.code(), 2);
}

#[test]
fn room_info_and_packets() {
    let t = table();
    let mut seats = Seats::new(6);
    seats.join(player(1, "a")).unwrap();
    let option = RoomOption {
        name: "방".to_string(),
        max_people: 6,
        password: Some("pw".to_string()),
        game_type: GameType::ClassicGame,
    };
    let info = seats.info(3, &option, false);
    assert_eq!(info.id, 3);
    assert_eq!(info.name, "방");
    assert_eq!(info.max_people, 6);
    assert_eq!(info.now_people, 1);
    assert!(info.is_password);
    assert!(!info.is_gaming);

    let p = join_room_packet(&t, &info);
    assert_eq!(p.get_method(), 7);
    assert_eq!(p.len(), 4);
    assert_eq!(p.get(0).to_i32(), 3);
    assert_eq!(p.get(1).vec, "방".as_bytes().to_vec());
    assert_eq!(p.get(2).to_i32(), 1);
    assert_eq!(p.get(3).to_i32(), 6);

    let empty = RoomInfo { id: 4, name: "x".to_string(), max_people: 4, now_people: 0, is_password: false, is_gaming: false };
    let list = room_list_packet(&t, &vec![empty, info]);
    assert_eq!(list.get_method(), 5);
    assert_eq!(list.len(), 5);
    assert_eq!(list.get(0).to_i32(), 3);
    assert_eq!(list.get(4).to_i32(), 1);

    let c = lobby_chat_packet(&t, "a".to_string(), "hi".to_string());
    assert_eq!(c.get_method(), 9);
    assert_eq!(c.get(0).to_i32(), ChatType::Normal.code());
    assert_eq!(c.get(1).vec, b"a".to_vec());
    assert_eq!(c.get(2).vec, b"hi".to_vec());

    let n = number_packet(14, -3);
    assert_eq!(n.get(0).to_i32(), -3);
    let s = text_packet(16, "joined".to_string());
    assert_eq!(s.get_method(), 16);
    assert_eq!(s.get(0).vec, b"joined".to_vec());
}

#[test]
fn start_needs_four_players_and_no_game() {
    assert_eq!(check_start(3, false), Err(Error::PlayerNotEnough));
    assert_eq!(check_start(3, true), Err(Error::PlayerNotEnough));
    assert_eq!(check_start(4, true), Err(Error::AlreadyStarted));
    assert_eq!(check_start(4, false), Ok(()));
    assert_eq!(Error::RoomIsFull.message(), "Room is full");
}

#[test]
fn id_manager_free_then_generate() {
    let mut m = IdManager::new();
    for _ in 0..5 {
        m.generate();
    }
    m.free(3);
    assert_eq!(m.generate(), 3);
    m.free(4);
    m.free(1);
    assert_eq!(m.generate(), 1);
    assert_eq!(m.generate(), 4);
    assert_eq!(m.generate(), 5);
}

#[test]
fn room_manager_lists_taken_ids_in_order() {
    let mut rooms: RoomManager<&str> = RoomManager::new();
    assert_eq!(rooms.room_ids(), Vec::<i32>::new());
    rooms.create("a");
    rooms.create("b");
    rooms.create("c");
    rooms.delete(1);
    assert_eq!(rooms.room_ids(), vec![0, 2]);
    rooms.create("d");
    assert_eq!(rooms.room_ids(), vec![0, 1, 2]);
}

#[test]
fn join_refusal_answers() {
    let t = table();
    let strings = StringTable { room_is_full: 101, room_size_is_invalid: 102, room_does_not_exist: 103, player_not_enough: 104 };
    assert!(matches!(join_refusal(&t, &strings, Ok(())), Ok(None)));
    let full = join_refusal(&t, &strings, Err(Error::RoomIsFull)).unwrap().unwrap();
    assert_eq!(full.get_method(), t.error);
    assert_eq!(full.len(), 1);
    assert_eq!(full.get(0).to_i32(), 101);
    assert_eq!(join_refusal(&t, &strings, Err(Error::AlreadyLeft)).err(), Some(Error::AlreadyLeft));
}
