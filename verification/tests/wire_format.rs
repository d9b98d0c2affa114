use grapevine::address::Address;
use grapevine::message::{DecodeError, Message};
use grapevine::wire::{push_be, push_le, read_be, read_le};

/// What bincode writes for a socket address: the number of the variant, the
/// octets as a tuple, the port.
fn bincode_address(address: Address) -> Vec<u8> {
    match address {
        Address::V4 { ip, port } => bincode::serialize(&(0u32, ip.to_be_bytes(), port)).unwrap(),
        Address::V6 { ip, port } => bincode::serialize(&(1u32, ip.to_be_bytes(), port)).unwrap(),
    }
}

fn bincode_list(list: &[Address]) -> Vec<u8> {
    let mut bytes = bincode::serialize(&(2u32, list.len() as u64)).unwrap();
    for address in list {
        bytes.extend_from_slice(&bincode_address(*address));
    }
    bytes
}

fn samples() -> Vec<Address> {
    vec![
        Address::loopback(9000),
        Address::V4 { ip: 0xc0a8_0117, port: 65535 },
        Address::V4 { ip: 0, port: 0 },
        Address::V6 { ip: 1, port: 9001 },
        Address::V6 { ip: 0x2001_0db8_0000_0000_0000_ff00_0042_8329, port: 443 },
        Address::V6 { ip: u128::MAX, port: 1 },
    ]
}

#[test]
fn integers_least_significant_byte_first() {
    let mut out = vec![0xaa];
    push_le(&mut out, 0x0102_0304, 4);
    assert_eq!(out, vec![0xaa, 4, 3, 2, 1]);
    push_le(&mut out, 0x1_0000_0002, 8);
    assert_eq!(out, vec![0xaa, 4, 3, 2, 1, 2, 0, 0, 0, 1, 0, 0, 0]);
    push_le(&mut out, 0xffff, 0);
    assert_eq!(out.len(), 13);
    assert_eq!(read_le(&out, 1, 4), 0x0102_0304);
    assert_eq!(read_le(&out, 5, 8), 0x1_0000_0002);
    assert_eq!(read_le(&out, 0, 0), 0);
    assert_eq!(read_le(&[0xff; 8], 0, 8), u64::MAX);
}

#[test]
fn integers_most_significant_byte_first() {
    let mut out = Vec::new();
    push_be(&mut out, 0x7f00_0001, 4);
    assert_eq!(out, vec![127, 0, 0, 1]);
    assert_eq!(read_be(&out, 0, 4), 0x7f00_0001);
    assert_eq!(read_be(&out, 1, 3), 1);
    assert_eq!(read_be(&[0xff; 16], 0, 16), u128::MAX);
}

#[test]
fn only_the_low_bytes_are_written() {
    let mut out = Vec::new();
    push_le(&mut out, 0x0102_0304, 2);
    push_be(&mut out, 0x0102_0304, 2);
    assert_eq!(out, vec![4, 3, 3, 4]);
}

#[test]
fn announcement_on_the_wire() {
    let bytes = Message::RetrievePubAddr(Address::loopback(9000)).serialize();
    assert_eq!(bytes, vec![0, 0, 0, 0, 0, 0, 0, 0, 127, 0, 0, 1, 0x28, 0x23]);
}

#[test]
fn announcement_of_ipv6_on_the_wire() {
    let bytes = Message::RetrievePubAddr(Address::V6 { ip: 1, port: 0x0102 }).serialize();
    assert_eq!(
        bytes,
        vec![0, 0, 0, 0, 1, 0, 0, 0, 0, 0, 0, 0, 0, 0, 0, 0, 0, 0, 0, 0, 0, 0, 0, 1, 2, 1]
    );
}

#[test]
fn request_on_the_wire() {
    assert_eq!(Message::RetrievePeerList.serialize(), vec![1, 0, 0, 0]);
}

#[test]
fn list_on_the_wire() {
    let list = vec![Address::loopback(9000), Address::loopback(9001)];
    let bytes = Message::RespondToListQuery(list).serialize();
    assert_eq!(
        bytes,
        vec![
            2, 0, 0, 0, 2, 0, 0, 0, 0, 0, 0, 0, 0, 0, 0, 0, 127, 0, 0, 1, 0x28, 0x23, 0, 0, 0, 0,
            127, 0, 0, 1, 0x29, 0x23
        ]
    );
    assert_eq!(Message::RespondToListQuery(Vec::new()).serialize(), vec![2, 0, 0, 0, 0, 0, 0, 0, 0, 0, 0, 0]);
}

#[test]
fn text_on_the_wire() {
    let bytes = Message::RequestRandomInfo("hé-y".to_string()).serialize();
    assert_eq!(bytes, vec![3, 0, 0, 0, 5, 0, 0, 0, 0, 0, 0, 0, b'h', 0xc3, 0xa9, b'-', b'y']);
    assert_eq!(Message::RequestRandomInfo(String::new()).serialize(), vec![3, 0, 0, 0, 0, 0, 0, 0, 0, 0, 0, 0]);
}

#[test]
fn bytes_agree_with_bincode() {
    for address in samples() {
        let ours = Message::RetrievePubAddr(address).serialize();
        let mut theirs = bincode::serialize(&0u32).unwrap();
        theirs.extend_from_slice(&bincode_address(address));
        assert_eq!(ours, theirs);
    }
    assert_eq!(Message::RetrievePeerList.serialize(), bincode::serialize(&1u32).unwrap());
    assert_eq!(Message::RespondToListQuery(samples()).serialize(), bincode_list(&samples()));
    let v4_only = vec![(0u32, [127u8, 0, 0, 1], 9000u16), (0u32, [10u8, 0, 0, 7], 80u16)];
    assert_eq!(
        Message::RespondToListQuery(vec![
            Address::loopback(9000),
            Address::V4 { ip: 0x0a00_0007, port: 80 }
        ])
        .serialize(),
        bincode::serialize(&(2u32, v4_only)).unwrap()
    );
    for text in ["", "sly-marmot", "grüße 🦀", "a\0b"] {
        assert_eq!(
            Message::RequestRandomInfo(text.to_string()).serialize(),
            bincode::serialize(&(3u32, text.to_string())).unwrap()
        );
    }
}

#[test]
fn bincode_bytes_are_read() {
    for address in samples() {
        let mut bytes = bincode::serialize(&0u32).unwrap();
        bytes.extend_from_slice(&bincode_address(address));
        assert_eq!(Message::deserialize(&bytes), Ok(Message::RetrievePubAddr(address)));
    }
    let bytes = bincode_list(&samples());
    assert_eq!(Message::deserialize(&bytes), Ok(Message::RespondToListQuery(samples())));
    let bytes = bincode::serialize(&(3u32, "grüße 🦀".to_string())).unwrap();
    assert_eq!(Message::deserialize(&bytes), Ok(Message::RequestRandomInfo("grüße 🦀".to_string())));
}

#[test]
fn every_message_is_read_back() {
    let messages = vec![
        Message::RetrievePubAddr(Address::loopback(9000)),
        Message::RetrievePubAddr(Address::V6 { ip: u128::MAX - 5, port: 65535 }),
        Message::RetrievePeerList,
        Message::RespondToListQuery(Vec::new()),
        Message::RespondToListQuery(samples()),
        Message::RequestRandomInfo(String::new()),
        Message::RequestRandomInfo("calm-otter".to_string()),
        Message::RequestRandomInfo("雪 and ❄".to_string()),
    ];
    for message in messages {
        let bytes = message.serialize();
        assert_eq!(Message::deserialize(&bytes), Ok(message.clone()));
        let mut longer = bytes.clone();
        longer.extend_from_slice(&[9, 9, 9]);
        assert_eq!(Message::deserialize(&longer), Ok(message));
    }
}

#[test]
fn bytes_after_the_message_are_ignored_as_by_bincode() {
    let bytes = vec![1, 0, 0, 0, 0xff, 0xff];
    assert_eq!(Message::deserialize(&bytes), Ok(Message::RetrievePeerList));
    assert_eq!(bincode::deserialize::<u32>(&bytes).unwrap(), 1);
}

#[test]
fn short_input_is_truncated() {
    assert_eq!(Message::deserialize(&[]), Err(DecodeError::Truncated));
    assert_eq!(Message::deserialize(&[1, 0, 0]), Err(DecodeError::Truncated));
    assert_eq!(Message::deserialize(&[0, 0, 0, 0]), Err(DecodeError::Truncated));
    assert_eq!(Message::deserialize(&[0, 0, 0, 0, 0, 0, 0]), Err(DecodeError::Truncated));
    assert_eq!(Message::deserialize(&[2, 0, 0, 0, 1, 0, 0, 0, 0, 0, 0]), Err(DecodeError::Truncated));
    assert_eq!(Message::deserialize(&[3, 0, 0, 0, 1, 0, 0, 0, 0, 0, 0]), Err(DecodeError::Truncated));
}

#[test]
fn every_proper_prefix_of_a_message_is_truncated() {
    let messages = vec![
        Message::RetrievePubAddr(Address::loopback(9000)),
        Message::RetrievePubAddr(Address::V6 { ip: 77, port: 5 }),
        Message::RespondToListQuery(samples()),
        Message::RequestRandomInfo("calm-otter".to_string()),
    ];
    for message in messages {
        let bytes = message.serialize();
        for length in 0..bytes.len() {
            assert_eq!(Message::deserialize(&bytes[..length]), Err(DecodeError::Truncated));
        }
    }
}

#[test]
fn unknown_message_tag_is_refused() {
    assert_eq!(Message::deserialize(&[4, 0, 0, 0]), Err(DecodeError::UnknownMessage(4)));
    assert_eq!(
        Message::deserialize(&[0xff, 0xff, 0xff, 0xff, 1, 2]),
        Err(DecodeError::UnknownMessage(u32::MAX))
    );
    assert_eq!(Message::deserialize(&[0, 1, 0, 0]), Err(DecodeError::UnknownMessage(256)));
}

#[test]
fn unknown_address_family_is_refused() {
    let bytes = vec![0, 0, 0, 0, 2, 0, 0, 0, 127, 0, 0, 1, 0x28, 0x23];
    assert_eq!(Message::deserialize(&bytes), Err(DecodeError::UnknownAddressFamily(2)));
    let mut list = Message::RespondToListQuery(vec![Address::loopback(1), Address::loopback(2)]).serialize();
    list[22] = 9;
    assert_eq!(Message::deserialize(&list), Err(DecodeError::UnknownAddressFamily(9)));
}

#[test]
fn first_unreadable_address_decides() {
    let mut bytes = Message::RespondToListQuery(vec![Address::loopback(1), Address::loopback(2)]).serialize();
    bytes[12] = 7;
    bytes.truncate(25);
    assert_eq!(Message::deserialize(&bytes), Err(DecodeError::UnknownAddressFamily(7)));
}

#[test]
fn list_shorter_than_its_count_is_truncated() {
    let mut bytes = Message::RespondToListQuery(vec![Address::loopback(1)]).serialize();
    bytes[4] = 2;
    assert_eq!(Message::deserialize(&bytes), Err(DecodeError::Truncated));
    let mut huge = vec![2, 0, 0, 0];
    huge.extend_from_slice(&[0xff; 8]);
    assert_eq!(Message::deserialize(&huge), Err(DecodeError::Truncated));
    assert!(bincode::deserialize::<(u32, Vec<(u32, [u8; 4], u16)>)>(&huge).is_err());
}

#[test]
fn text_shorter_than_its_length_is_truncated() {
    let mut bytes = vec![3, 0, 0, 0];
    bytes.extend_from_slice(&[0xff; 8]);
    bytes.extend_from_slice(b"abc");
    assert_eq!(Message::deserialize(&bytes), Err(DecodeError::Truncated));
    assert_eq!(Message::deserialize(&[3, 0, 0, 0, 4, 0, 0, 0, 0, 0, 0, 0, b'a', b'b', b'c']), Err(DecodeError::Truncated));
}

#[test]
fn text_that_is_not_utf8_is_refused() {
    let bytes = vec![3, 0, 0, 0, 2, 0, 0, 0, 0, 0, 0, 0, 0xc3, 0x28];
    assert_eq!(Message::deserialize(&bytes), Err(DecodeError::InvalidText));
    assert!(bincode::deserialize::<(u32, String)>(&bytes).is_err());
    let cut = vec![3, 0, 0, 0, 1, 0, 0, 0, 0, 0, 0, 0, 0xc3, 0xa9];
    assert_eq!(Message::deserialize(&cut), Err(DecodeError::InvalidText));
}

#[test]
fn text_is_made_of_its_bytes() {
    let bytes = vec![3, 0, 0, 0, 3, 0, 0, 0, 0, 0, 0, 0, 0xe2, 0x9d, 0x84, b'x'];
    assert_eq!(Message::deserialize(&bytes), Ok(Message::RequestRandomInfo("❄".to_string())));
}
