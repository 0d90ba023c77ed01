use snowcast::wire::{DecodeError, Message, Text, FRAME_LEN, MAX_TEXT_LEN, TEXT_CAPACITY};

fn text(bytes: &[u8]) -> Text {
    Text::from_bytes(bytes)
}

#[test]
fn hello_frame_is_tag_then_big_endian_port_then_zeros() {
    let frame = Message::Hello { udp_port: 7000 }.encode();
    assert_eq!(frame.len(), 258);
    assert_eq!(frame[0], 0);
    assert_eq!(frame[1], 0x1b);
    assert_eq!(frame[2], 0x58);
    assert!(frame[3..].iter().all(|&b| b == 0));
}

#[test]
fn set_station_and_welcome_frames() {
    let set = Message::SetStation { station_number: 0x0102 }.encode();
    assert_eq!(&set[..4], &[1, 1, 2, 0]);
    let welcome = Message::Welcome { station_count: 65535 }.encode();
    assert_eq!(&welcome[..4], &[2, 255, 255, 0]);
}

#[test]
fn announce_frame_is_tag_length_string_zeros() {
    let frame = Message::Announce { song_name: text(b"songA") }.encode();
    assert_eq!(frame[0], 3);
    assert_eq!(frame[1], 5);
    assert_eq!(&frame[2..7], b"songA");
    assert!(frame[7..].iter().all(|&b| b == 0));
}

#[test]
fn encode_sends_zeros_for_padding_whatever_the_region_holds() {
    let mut bytes = [0xaau8; TEXT_CAPACITY];
    bytes[0] = b'h';
    bytes[1] = b'i';
    let frame = Message::InvalidCommand { reason: Text { len: 2, bytes } }.encode();
    assert_eq!(&frame[..4], &[4, 2, b'h', b'i']);
    assert!(frame[4..].iter().all(|&b| b == 0));
}

#[test]
fn numbers_are_read_big_endian() {
    let mut frame = [0u8; FRAME_LEN];
    frame[0] = 2;
    frame[1] = 0x01;
    frame[2] = 0x02;
    assert_eq!(Message::decode(&frame), Ok(Message::Welcome { station_count: 258 }));
    frame[0] = 0;
    frame[1] = 0x1b;
    frame[2] = 0x58;
    assert_eq!(Message::decode(&frame), Ok(Message::Hello { udp_port: 7000 }));
    frame[0] = 1;
    frame[1] = 0xff;
    frame[2] = 0x00;
    assert_eq!(Message::decode(&frame), Ok(Message::SetStation { station_number: 0xff00 }));
}

#[test]
fn numeric_frames_ignore_their_padding() {
    let mut frame = [0x77u8; FRAME_LEN];
    frame[0] = 1;
    frame[1] = 0;
    frame[2] = 9;
    assert_eq!(Message::decode(&frame), Ok(Message::SetStation { station_number: 9 }));
}

#[test]
fn round_trip_of_every_number_message() {
    for value in [0u16, 1, 255, 256, 7000, 9001, 65535] {
        for message in [
            Message::Hello { udp_port: value },
            Message::SetStation { station_number: value },
            Message::Welcome { station_count: value },
        ] {
            assert_eq!(Message::decode(&message.encode()), Ok(message));
        }
    }
}

#[test]
fn round_trip_of_strings_of_every_length() {
    let source: Vec<u8> = (0..MAX_TEXT_LEN).map(|i| (i % 251) as u8 + 1).collect();
    for len in 0..=MAX_TEXT_LEN {
        let announce = Message::Announce { song_name: text(&source[..len]) };
        match Message::decode(&announce.encode()) {
            Ok(Message::Announce { song_name }) => {
                assert_eq!(song_name.len as usize, len);
                assert_eq!(song_name.to_vec(), &source[..len]);
            }
            other => panic!("not an Announce: {:?}", other),
        }
        let invalid = Message::InvalidCommand { reason: text(&source[..len]) };
        match Message::decode(&invalid.encode()) {
            Ok(Message::InvalidCommand { reason }) => {
                assert_eq!(reason.to_vec(), &source[..len]);
            }
            other => panic!("not an InvalidCommand: {:?}", other),
        }
    }
}

#[test]
fn decode_keeps_the_whole_region_and_the_declared_length() {
    let mut frame = [0u8; FRAME_LEN];
    frame[0] = 3;
    frame[1] = 3;
    for i in 2..FRAME_LEN {
        frame[i] = i as u8;
    }
    match Message::decode(&frame) {
        Ok(Message::Announce { song_name }) => {
            assert_eq!(song_name.len, 3);
            assert_eq!(&song_name.bytes[..], &frame[2..]);
            assert_eq!(song_name.to_vec(), vec![2u8, 3, 4]);
        }
        other => panic!("not an Announce: {:?}", other),
    }
}

#[test]
fn unknown_tags_are_errors() {
    for tag in 5u8..=255 {
        let mut frame = [0u8; FRAME_LEN];
        frame[0] = tag;
        assert_eq!(Message::decode(&frame), Err(DecodeError::UnknownTag));
    }
}

#[test]
fn buffers_of_another_length_are_errors() {
    assert_eq!(Message::decode(&[]), Err(DecodeError::WrongLength));
    assert_eq!(Message::decode(&[0u8; 257]), Err(DecodeError::WrongLength));
    assert_eq!(Message::decode(&[0u8; 259]), Err(DecodeError::WrongLength));
    assert_eq!(Message::decode(&[9u8; 3]), Err(DecodeError::WrongLength));
}

#[test]
fn long_strings_are_cut_to_255_bytes() {
    let long: Vec<u8> = (0..300).map(|i| (i % 200) as u8 + 1).collect();
    let cut = text(&long);
    assert_eq!(cut.len, 255);
    assert_eq!(cut.to_vec(), &long[..255]);
    assert_eq!(cut.bytes[255], 0);
    let exact = text(&long[..255]);
    assert_eq!(exact.to_vec(), &long[..255]);
}

#[test]
fn text_from_bytes_pads_with_zeros() {
    let t = text(b"abc");
    assert_eq!(t.len, 3);
    assert_eq!(&t.bytes[..3], b"abc");
    assert!(t.bytes[3..].iter().all(|&b| b == 0));
    let empty = Text::empty();
    assert_eq!(empty.len, 0);
    assert_eq!(empty.to_vec(), Vec::<u8>::new());
    assert_eq!(empty, text(b""));
}

#[test]
fn message_new_builds_by_tag() {
    let t = text(b"x");
    assert_eq!(Message::new(0, 5, t), Ok(Message::Hello { udp_port: 5 }));
    assert_eq!(Message::new(1, 6, t), Ok(Message::SetStation { station_number: 6 }));
    assert_eq!(Message::new(2, 7, t), Ok(Message::Welcome { station_count: 7 }));
    assert_eq!(Message::new(3, 8, t), Ok(Message::Announce { song_name: t }));
    assert_eq!(Message::new(4, 9, t), Ok(Message::InvalidCommand { reason: t }));
    assert_eq!(Message::new(5, 0, t), Err(DecodeError::UnknownTag));
    assert_eq!(Message::new(255, 0, t), Err(DecodeError::UnknownTag));
}

#[test]
fn tags_are_zero_to_four() {
    let t = text(b"");
    assert_eq!(Message::Hello { udp_port: 1 }.tag(), 0);
    assert_eq!(Message::SetStation { station_number: 1 }.tag(), 1);
    assert_eq!(Message::Welcome { station_count: 1 }.tag(), 2);
    assert_eq!(Message::Announce { song_name: t }.tag(), 3);
    assert_eq!(Message::InvalidCommand { reason: t }.tag(), 4);
}
