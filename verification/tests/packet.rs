use mafia_server::packet::binarydata::BinaryData;
use mafia_server::packet::error::PacketError;
use mafia_server::packet::packet::Packet;
use mafia_server::packet::utils::{i32_to_be, slice_to_i32, slice_to_u32, u32_to_be};

#[test]
fn slice_to_numbers_are_big_endian() {
    assert_eq!(slice_to_u32(&[0, 0, 1, 0]), 256);
    assert_eq!(slice_to_i32(&[0, 0, 1, 0]), 256);
    assert_eq!(slice_to_u32(&[0x12, 0x34, 0x56, 0x78]), 0x12345678);
    assert_eq!(slice_to_u32(&[0xff, 0xff, 0xff, 0xff]), u32::MAX);
    assert_eq!(slice_to_i32(&[0xff, 0xff, 0xff, 0xff]), -1);
    assert_eq!(slice_to_i32(&[0x80, 0, 0, 0]), i32::MIN);
    assert_eq!(slice_to_i32(&[0x7f, 0xff, 0xff, 0xff]), i32::MAX);
}

#[test]
fn numbers_to_bytes() {
    assert_eq!(i32_to_be(-2), vec![0xff, 0xff, 0xff, 0xfe]);
    assert_eq!(i32_to_be(258), vec![0, 0, 1, 2]);
    assert_eq!(u32_to_be(0xdeadbeef), vec![0xde, 0xad, 0xbe, 0xef]);
}

#[test]
fn binary_data_numbers_round_trip() {
    for n in [0, 1, -1, 15, -15, 100000, i32::MAX, i32::MIN] {
        let d = BinaryData::from_i32(n);
        assert_eq!(d.vec.len(), 4);
        assert_eq!(d.to_i32(), n);
        assert_eq!(d.to_bool(), n != 0);
    }
    assert_eq!(BinaryData::from_i32(7).vec, vec![0, 0, 0, 7]);
}

#[test]
fn binary_data_text_round_trip() {
    let d = BinaryData::from_string("플레이어 1".to_string());
    assert_eq!(d.vec, "플레이어 1".as_bytes().to_vec());
    assert_eq!(d.as_string().unwrap(), "플레이어 1");
    let mut s = String::from("abc");
    let d = BinaryData::from_string_ref(&mut s);
    assert_eq!(s, "abc");
    assert_eq!(d.vec, vec![b'a', b'b', b'c']);
    assert_eq!(BinaryData::from_vec(vec![]).as_string().unwrap(), "");
}

#[test]
fn binary_data_rejects_bad_utf8() {
    let d = BinaryData::from_vec(vec![0xff, 0xfe]);
    assert_eq!(d.as_string().err(), Some(PacketError::NotUtf8));
    let d = BinaryData::from_vec(vec![0xea, 0xb0]);
    assert_eq!(d.as_string().err(), Some(PacketError::NotUtf8));
}

#[test]
fn to_binary_layout() {
    let p = Packet::from_data(7, vec![BinaryData::from_vec(vec![9, 8]), BinaryData::from_vec(vec![])]);
    assert_eq!(
        p.clone().to_binary(false),
        vec![0, 0, 0, 7, 0, 0, 0, 2, 0, 0, 0, 2, 9, 8, 0, 0, 0, 0]
    );
    assert_eq!(
        p.to_binary(true),
        vec![0, 0, 0, 22, 0, 0, 0, 7, 0, 0, 0, 2, 0, 0, 0, 2, 9, 8, 0, 0, 0, 0]
    );
    assert_eq!(Packet::new().to_binary(true), vec![0, 0, 0, 12, 0, 0, 0, 0, 0, 0, 0, 0]);
}

#[test]
fn from_binary_reads_what_to_binary_wrote() {
    let p = Packet::from_data(-5, vec![
        BinaryData::from_i32(42),
        BinaryData::from_string("마피아".to_string()),
        BinaryData::from_vec(vec![]),
    ]);
    let bytes = p.clone().to_binary(false);
    let q = Packet::from_binary(bytes).unwrap();
    assert_eq!(q.get_method(), -5);
    assert_eq!(q.len(), 3);
    assert_eq!(q.get(0).to_i32(), 42);
    assert_eq!(q.get(1).clone().as_string().unwrap(), "마피아");
    assert_eq!(q.get(2).vec.len(), 0);

    let with_size = p.to_binary(true);
    let total = slice_to_u32(&with_size[0..4]) as usize;
    assert_eq!(total, with_size.len());
    let r = Packet::from_binary(with_size[4..].to_vec()).unwrap();
    assert_eq!(r.get_method(), -5);
    assert_eq!(r.len(), 3);
}

#[test]
fn from_binary_errors() {
    assert_eq!(Packet::from_binary(vec![0, 0, 0, 1, 0, 0, 0]).err(), Some(PacketError::TooShort));
    assert_eq!(Packet::from_binary(vec![]).err(), Some(PacketError::TooShort));
    // one item announced, no length prefix
    assert_eq!(Packet::from_binary(vec![0, 0, 0, 1, 0, 0, 0, 1, 0, 0]).err(), Some(PacketError::Invalid));
    // item longer than the bytes
    assert_eq!(Packet::from_binary(vec![0, 0, 0, 1, 0, 0, 0, 1, 0, 0, 0, 3, 1, 2]).err(), Some(PacketError::Invalid));
    // no items, trailing bytes ignored
    let p = Packet::from_binary(vec![0, 0, 0, 9, 0, 0, 0, 0, 5, 5]).unwrap();
    assert_eq!(p.get_method(), 9);
    assert_eq!(p.len(), 0);
    assert_eq!(PacketError::Invalid.message(), "Invalid packet");
    assert_eq!(PacketError::TooShort.message(), "Data is too short");
}

#[test]
fn packet_accessors() {
    let mut p = Packet::new();
    assert_eq!(p.get_method(), 0);
    assert_eq!(p.len(), 0);
    p.set_method(3);
    p.push(BinaryData::from_i32(1));
    p.push(BinaryData::from_string("x".to_string()));
    assert_eq!(p.get_method(), 3);
    assert_eq!(p.len(), 2);
    p.get_mut(0).vec[3] = 2;
    assert_eq!(p.get(0).to_i32(), 2);
    let moved = p.get_move(1);
    assert_eq!(moved.vec, vec![b'x']);
    assert_eq!(p.get(1).vec.len(), 0);
    assert_eq!(p.len(), 2);
    p.get_vec_mut().push(BinaryData::from_i32(5));
    assert_eq!(p.get_vec().len(), 3);
    let v = p.get_vec_move();
    assert_eq!(v.len(), 3);
    assert_eq!(v[2].to_i32(), 5);
}

#[test]
fn binary_len_counts_what_to_binary_writes() {
    let p = Packet::from_data(7, vec![BinaryData::from_vec(vec![9, 8]), BinaryData::from_vec(vec![])]);
    assert_eq!(p.binary_len(false), Some(18));
    assert_eq!(p.binary_len(true), Some(22));
    assert_eq!(p.clone().to_binary(true).len(), 22);
    assert_eq!(Packet::new().binary_len(true), Some(12));
    assert_eq!(Packet::new().binary_len(false), Some(8));
}

#[test]
fn from_binary_reads_prefixed_bytes_after_the_prefix() {
    let p = Packet::from_data(9, vec![BinaryData::from_string("안녕".to_string()), BinaryData::from_i32(-3)]);
    let bytes = p.clone().to_binary(true);
    let q = Packet::from_binary(bytes[4..].to_vec()).unwrap();
    assert_eq!(q.get_method(), 9);
    assert_eq!(q.len(), 2);
    assert_eq!(q.get(0).vec, p.get(0).vec);
    assert_eq!(q.get(1).to_i32(), -3);
}
