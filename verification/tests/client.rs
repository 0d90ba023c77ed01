use snowcast::client::{
    interact_with_server, ClientFault, ClientPhase, ControlClient, SelectError, ServerEvent,
};
use snowcast::wire::{Message, Text};

fn fresh() -> ControlClient {
    ControlClient::new(0x7f00_0001, 16800, 9001)
}

fn ready(count: u16) -> ControlClient {
    let mut client = fresh();
    client.hello();
    let event =
        interact_with_server(&mut client, &Message::Welcome { station_count: count }.encode());
    assert_eq!(event, ServerEvent::Welcomed { station_count: count });
    client
}

#[test]
fn a_client_opens_with_hello_and_its_udp_port() {
    let mut client = fresh();
    assert_eq!(client.phase(), ClientPhase::Connected);
    assert_eq!(client.server_address(), (0x7f00_0001, 16800));
    assert_eq!(client.local_udp_port(), 9001);
    assert_eq!(client.hello(), Some(Message::Hello { udp_port: 9001 }));
    assert_eq!(client.phase(), ClientPhase::AwaitingWelcome);
    assert_eq!(client.hello(), None);
    assert_eq!(client.phase(), ClientPhase::AwaitingWelcome);
}

#[test]
fn welcome_ends_the_handshake() {
    let client = ready(2);
    assert_eq!(client.phase(), ClientPhase::Ready);
    assert_eq!(client.station_count(), Some(2));
    assert_eq!(client.selected_station(), None);
}

#[test]
fn anything_but_welcome_after_hello_is_fatal() {
    for message in [
        Message::Hello { udp_port: 1 },
        Message::SetStation { station_number: 0 },
        Message::Announce { song_name: Text::from_bytes(b"x") },
        Message::InvalidCommand { reason: Text::from_bytes(b"no") },
    ] {
        let mut client = fresh();
        client.hello();
        let event = interact_with_server(&mut client, &message.encode());
        assert_eq!(event, ServerEvent::Fatal { fault: ClientFault::ExpectedWelcome });
        assert_eq!(client.phase(), ClientPhase::Closed);
        assert_eq!(client.station_count(), None);
    }
}

#[test]
fn a_reply_before_hello_is_fatal() {
    let mut client = fresh();
    let event = interact_with_server(&mut client, &Message::Welcome { station_count: 2 }.encode());
    assert_eq!(event, ServerEvent::Fatal { fault: ClientFault::UnaskedReply });
    assert_eq!(client.phase(), ClientPhase::Closed);
    assert_eq!(client.hello(), None);
}

#[test]
fn announce_tells_the_song() {
    let mut client = ready(2);
    let frame = Message::Announce { song_name: Text::from_bytes(b"songA") }.encode();
    match interact_with_server(&mut client, &frame) {
        ServerEvent::Announced { song_name } => assert_eq!(song_name.to_vec(), b"songA"),
        other => panic!("not announced: {:?}", other),
    }
    assert_eq!(client.phase(), ClientPhase::Ready);
    match interact_with_server(&mut client, &frame) {
        ServerEvent::Announced { song_name } => assert_eq!(song_name.to_vec(), b"songA"),
        other => panic!("not announced: {:?}", other),
    }
}

#[test]
fn anything_but_announce_after_the_handshake_is_fatal() {
    for message in [
        Message::Hello { udp_port: 1 },
        Message::SetStation { station_number: 0 },
        Message::Welcome { station_count: 2 },
        Message::InvalidCommand { reason: Text::from_bytes(b"no such station") },
    ] {
        let mut client = ready(2);
        let event = interact_with_server(&mut client, &message.encode());
        assert_eq!(event, ServerEvent::Fatal { fault: ClientFault::ExpectedAnnounce });
        assert_eq!(client.phase(), ClientPhase::Closed);
        let again = interact_with_server(
            &mut client,
            &Message::Announce { song_name: Text::from_bytes(b"x") }.encode(),
        );
        assert_eq!(again, ServerEvent::Ignored);
    }
}

#[test]
fn frames_that_are_no_messages_are_fatal() {
    let mut client = ready(2);
    let mut frame = [0u8; 258];
    frame[0] = 9;
    assert_eq!(
        interact_with_server(&mut client, &frame),
        ServerEvent::Fatal { fault: ClientFault::UnknownCommand }
    );
    let mut client = fresh();
    client.hello();
    assert_eq!(
        interact_with_server(&mut client, &frame[..100]),
        ServerEvent::Fatal { fault: ClientFault::MalformedFrame }
    );
    assert_eq!(client.phase(), ClientPhase::Closed);
}

#[test]
fn a_station_is_selected_once_ready_and_if_it_exists() {
    let mut client = fresh();
    assert_eq!(client.select_station(0), Err(SelectError::NotReady));
    client.hello();
    assert_eq!(client.select_station(0), Err(SelectError::NotReady));
    let mut client = ready(2);
    assert_eq!(client.select_station(1), Ok(Message::SetStation { station_number: 1 }));
    assert_eq!(client.selected_station(), Some(1));
    assert_eq!(client.select_station(2), Err(SelectError::NoSuchStation));
    assert_eq!(client.select_station(65535), Err(SelectError::NoSuchStation));
    assert_eq!(client.selected_station(), Some(1));
    let mut none = ready(0);
    assert_eq!(none.select_station(0), Err(SelectError::NoSuchStation));
}

#[test]
fn the_same_station_may_be_selected_twice() {
    let mut client = ready(3);
    assert_eq!(client.select_station(2), Ok(Message::SetStation { station_number: 2 }));
    assert_eq!(client.select_station(2), Ok(Message::SetStation { station_number: 2 }));
    assert_eq!(client.selected_station(), Some(2));
}

#[test]
fn a_client_that_gave_up_selects_nothing() {
    let mut client = ready(3);
    interact_with_server(&mut client, &Message::Hello { udp_port: 1 }.encode());
    assert_eq!(client.select_station(0), Err(SelectError::NotReady));
}
