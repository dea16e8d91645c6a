use mafia_server::method::MethodTable;
use mafia_server::packet::binarydata::BinaryData;
use mafia_server::packet::packet::Packet;
use mafia_server::server::frame_body_len;
use mafia_server::server::session::{decide, hello_packet, ping_reply, read_nickname, Request, SessionError};
use mafia_server::timer::Countdown;

fn table() -> MethodTable {
    MethodTable {
        ping: 1, pong: 2, hello: 3, nickname: 4, room_list: 5, create_room: 6, join_room: 7,
        leave_room: 8, chat: 9, index: 10, start_game: 11, increase_time: 12, decrease_time: 13,
        error: 14, player_list: 15, player_joined: 16, player_left: 17, moderator_changed: 18,
        time_changed: 19, job: 20, hand: 21, skill: 22, memo: 23,
    }
}

fn create(name: &str, size: i32, has_pw: i32, pw: &str) -> Packet {
    Packet::from_data(6, vec![
        BinaryData::from_string(name.to_string()),
        BinaryData::from_i32(size),
        BinaryData::from_i32(has_pw),
        BinaryData::from_string(pw.to_string()),
    ])
}

#[test]
fn decide_create_room() {
    let t = table();
    match decide(&t, create("room", 8, 1, "secret"), false) {
        Ok(Request::CreateRoom(o)) => {
            assert_eq!(o.name, "room");
            assert_eq!(o.max_people, 8);
            assert_eq!(o.password.as_deref(), Some("secret"));
        },
        _ => panic!("expected a room"),
    }
    match decide(&t, create("room", 4, 0, "secret"), false) {
        Ok(Request::CreateRoom(o)) => assert!(o.password.is_none()),
        _ => panic!("expected a room"),
    }
    assert!(matches!(decide(&t, create("room", 3, 0, ""), false), Ok(Request::RoomSizeInvalid)));
    assert!(matches!(decide(&t, create("room", 13, 0, ""), false), Ok(Request::RoomSizeInvalid)));
    assert!(matches!(decide(&t, create("room", 8, 0, ""), true), Ok(Request::Ignore)));
    let short = Packet::from_data(6, vec![BinaryData::from_string("room".to_string())]);
    assert_eq!(decide(&t, short, false).err(), Some(SessionError::Malformed));
    let bad = Packet::from_data(6, vec![BinaryData::from_vec(vec![0xff])]);
    assert_eq!(decide(&t, bad, false).err(), Some(SessionError::NotUtf8));
}

#[test]
fn decide_other_requests() {
    let t = table();
    let p = |m: i32| Packet::from_data(m, vec![]);
    assert!(matches!(decide(&t, p(5), false), Ok(Request::RoomList)));
    assert!(matches!(decide(&t, Packet::from_data(7, vec![BinaryData::from_i32(12)]), false), Ok(Request::JoinRoom(12))));
    assert!(matches!(decide(&t, Packet::from_data(7, vec![BinaryData::from_i32(12)]), true), Ok(Request::Ignore)));
    assert_eq!(decide(&t, p(7), false).err(), Some(SessionError::Malformed));
    assert!(matches!(decide(&t, p(8), true), Ok(Request::LeaveRoom)));
    assert!(matches!(decide(&t, p(8), false), Ok(Request::Ignore)));
    match decide(&t, Packet::from_data(9, vec![BinaryData::from_string("안녕".to_string())]), true) {
        Ok(Request::Chat(s)) => assert_eq!(s, "안녕"),
        _ => panic!("expected a chat"),
    }
    assert!(matches!(decide(&t, p(9), false), Ok(Request::Ignore)));
    assert_eq!(decide(&t, p(9), true).err(), Some(SessionError::Malformed));
    assert!(matches!(decide(&t, p(10), true), Ok(Request::Index)));
    assert!(matches!(decide(&t, p(11), true), Ok(Request::StartGame)));
    assert!(matches!(decide(&t, p(12), true), Ok(Request::IncreaseTime)));
    assert!(matches!(decide(&t, p(13), true), Ok(Request::DecreaseTime)));
    assert!(matches!(decide(&t, p(13), false), Ok(Request::Ignore)));
    assert!(matches!(decide(&t, p(99), true), Ok(Request::Ignore)));
}

#[test]
fn nickname_and_hello() {
    let t = table();
    let nick = Packet::from_data(4, vec![BinaryData::from_string("donghyun".to_string())]);
    assert_eq!(read_nickname(&t, nick), Ok("donghyun".to_string()));
    assert_eq!(read_nickname(&t, Packet::from_data(5, vec![])), Err(SessionError::InvalidMethod));
    assert_eq!(read_nickname(&t, Packet::from_data(4, vec![])), Err(SessionError::Malformed));
    let h = hello_packet(&t);
    assert_eq!(h.get_method(), 3);
    assert_eq!(h.get(0).clone().as_string().unwrap(), "Mafia_Server 2.0_Beta");
}

#[test]
fn frame_lengths() {
    assert_eq!(frame_body_len(4), Some(0));
    assert_eq!(frame_body_len(12), Some(8));
    assert_eq!(frame_body_len(100000), Some(99996));
    assert_eq!(frame_body_len(100001), None);
}

#[test]
fn countdown_runs_down() {
    let mut c = Countdown::new();
    c.set(2);
    c.increase(3);
    c.decrease(4);
    assert_eq!(c.seconds, 1);
    assert!(c.tick());
    assert_eq!(c.seconds, 0);
    assert!(!c.tick());
    c.set(-1);
    assert!(!c.tick());
    assert_eq!(c.seconds, -1);
}

#[test]
fn ping_is_answered_with_pong() {
    let t = table();
    let pong = ping_reply(&t, &Packet::from_data(t.ping, vec![BinaryData::from_i32(5)])).unwrap();
    assert_eq!(pong.get_method(), t.pong);
    assert_eq!(pong.len(), 0);
    assert!(ping_reply(&t, &Packet::from_data(t.chat, vec![])).is_none());
    assert!(ping_reply(&t, &Packet::from_data(t.pong, vec![])).is_none());
}
