//! The control client, as a state machine.
//!
//! A client says `Hello`, waits for `Welcome`, and from then on may select
//! stations, as often as it likes and the same one twice, while every
//! `Announce` that arrives tells it what its station plays. Anything else
//! that arrives is fatal.
//!
//! The caller owns the connection: it sends what [`ControlClient::hello`]
//! and [`ControlClient::select_station`] return, and hands every frame
//! received to [`interact_with_server`].

use crate::wire::{parse, DecodeError, Message, MessageView, Text};
use vstd::prelude::*;

verus! {

/// Where a client stands.
#[derive(Clone, Copy, Debug, PartialEq, Eq, Structural)]
pub enum ClientPhase {
    /// Connected; `Hello` has not been sent.
    Connected,
    /// `Hello` is sent; only `Welcome` is acceptable.
    AwaitingWelcome,
    /// The handshake is done; only `Announce` is acceptable.
    Ready,
    /// The client has given up.
    Closed,
}

/// Why a client gives up.
#[derive(Clone, Copy, Debug, PartialEq, Eq, Structural)]
pub enum ClientFault {
    /// The frame does not have the length of a frame.
    MalformedFrame,
    /// The frame's tag is none of the five.
    UnknownCommand,
    /// The server spoke before `Hello` was sent.
    UnaskedReply,
    /// Something other than `Welcome` answered `Hello`.
    ExpectedWelcome,
    /// Something other than `Announce` came after the handshake.
    ExpectedAnnounce,
}

/// Why a station cannot be selected.
#[derive(Clone, Copy, Debug, PartialEq, Eq, Structural)]
pub enum SelectError {
    /// The handshake is not done, or the client has given up.
    NotReady,
    /// The server has no station of that number.
    NoSuchStation,
}

/// What a frame from the server means to the caller.
#[derive(Clone, Copy, Debug, PartialEq, Eq)]
pub enum ServerEvent {
    /// The handshake is done; the server has `station_count` stations.
    Welcomed { station_count: u16 },
    /// The selected station plays `song_name`.
    Announced { song_name: Text },
    /// The server broke the protocol: the client has given up.
    Fatal { fault: ClientFault },
    /// The client had given up before: the frame was not looked at.
    Ignored,
}

/// What an event means, padding left aside.
pub ghost enum ServerEventView {
    Welcomed { station_count: u16 },
    Announced { song_name: Seq<u8> },
    Fatal { fault: ClientFault },
    Ignored,
}

impl View for ServerEvent {
    type V = ServerEventView;

    open spec fn view(&self) -> ServerEventView {
        match *self {
            ServerEvent::Welcomed { station_count } => ServerEventView::Welcomed { station_count },
            ServerEvent::Announced { song_name } => ServerEventView::Announced { song_name: song_name@ },
            ServerEvent::Fatal { fault } => ServerEventView::Fatal { fault },
            ServerEvent::Ignored => ServerEventView::Ignored,
        }
    }
}

/// What a client knows.
pub ghost struct ClientView {
    /// The server's host, as the number its four octets spell.
    pub server_host: u32,
    /// The server's TCP port.
    pub server_port: u16,
    /// The UDP port on which the client listens for audio.
    pub local_udp_port: u16,
    pub phase: ClientPhase,
    /// How many stations the server has, known from its `Welcome`.
    pub station_count: Option<u16>,
    /// The station selected last.
    pub selected_station: Option<u16>,
}

/// The control client of one connection.
#[derive(Clone, Copy, Debug)]
pub struct ControlClient {
    server_host: u32,
    server_port: u16,
    local_udp_port: u16,
    phase: ClientPhase,
    station_count: Option<u16>,
    selected_station: Option<u16>,
}

impl View for ControlClient {
    type V = ClientView;

    closed spec fn view(&self) -> ClientView {
        ClientView {
            server_host: self.server_host,
            server_port: self.server_port,
            local_udp_port: self.local_udp_port,
            phase: self.phase,
            station_count: self.station_count,
            selected_station: self.selected_station,
        }
    }
}

impl ClientView {
    /// A client that is connected and has not spoken.
    pub open spec fn fresh(server_host: u32, server_port: u16, local_udp_port: u16) -> ClientView {
        ClientView {
            server_host,
            server_port,
            local_udp_port,
            phase: ClientPhase::Connected,
            station_count: None,
            selected_station: None,
        }
    }

    /// What holds of every client: the stations' count is known from the
    /// handshake on, and only a station that exists is ever selected.
    pub open spec fn wf(self) -> bool {
        &&& self.phase == ClientPhase::Ready ==> self.station_count is Some
        &&& (self.phase == ClientPhase::Connected || self.phase == ClientPhase::AwaitingWelcome)
            ==> self.station_count is None
        &&& self.selected_station matches Some(station) ==> (self.station_count matches Some(count)
            && station < count)
    }

    /// The client after it has given up.
    pub open spec fn ended(self) -> ClientView {
        ClientView { phase: ClientPhase::Closed, ..self }
    }

    /// One step of a client: the client and the event after `frame` has
    /// arrived.
    pub open spec fn step(self, frame: Seq<u8>) -> (ClientView, ServerEventView) {
        if self.phase == ClientPhase::Closed {
            (self, ServerEventView::Ignored)
        } else {
            match parse(frame) {
                Err(DecodeError::WrongLength) => (
                    self.ended(),
                    ServerEventView::Fatal { fault: ClientFault::MalformedFrame },
                ),
                Err(DecodeError::UnknownTag) => (
                    self.ended(),
                    ServerEventView::Fatal { fault: ClientFault::UnknownCommand },
                ),
                Ok(message) => match (self.phase, message) {
                    (ClientPhase::AwaitingWelcome, MessageView::Welcome { station_count }) => (
                        ClientView {
                            phase: ClientPhase::Ready,
                            station_count: Some(station_count),
                            ..self
                        },
                        ServerEventView::Welcomed { station_count },
                    ),
                    (ClientPhase::Ready, MessageView::Announce { song_name }) => (
                        self,
                        ServerEventView::Announced { song_name },
                    ),
                    (ClientPhase::AwaitingWelcome, _) => (
                        self.ended(),
                        ServerEventView::Fatal { fault: ClientFault::ExpectedWelcome },
                    ),
                    (ClientPhase::Ready, _) => (
                        self.ended(),
                        ServerEventView::Fatal { fault: ClientFault::ExpectedAnnounce },
                    ),
                    _ => (self.ended(), ServerEventView::Fatal { fault: ClientFault::UnaskedReply }),
                },
            }
        }
    }

    /// What selecting station `station_number` comes to: the client after
    /// it, or why the station cannot be selected.
    pub open spec fn select(self, station_number: u16) -> Result<ClientView, SelectError> {
        if self.phase != ClientPhase::Ready {
            Err(SelectError::NotReady)
        } else if !(self.station_count matches Some(count) && station_number < count) {
            Err(SelectError::NoSuchStation)
        } else {
            Ok(ClientView { selected_station: Some(station_number), ..self })
        }
    }
}

impl ControlClient {
    /// A client that is connected to the server at `server_host` and
    /// `server_port`, listens for audio on `local_udp_port`, and has not
    /// spoken.
    pub fn new(server_host: u32, server_port: u16, local_udp_port: u16) -> (client: ControlClient)
        ensures
            client@ == ClientView::fresh(server_host, server_port, local_udp_port),
            client@.wf(),
    {
        ControlClient {
            server_host,
            server_port,
            local_udp_port,
            phase: ClientPhase::Connected,
            station_count: None,
            selected_station: None,
        }
    }

    /// Where the client stands.
    pub fn phase(&self) -> (phase: ClientPhase)
        ensures
            phase == self@.phase,
    {
        self.phase
    }

    /// The server's host and TCP port.
    pub fn server_address(&self) -> (address: (u32, u16))
        ensures
            address == (self@.server_host, self@.server_port),
    {
        (self.server_host, self.server_port)
    }

    /// The UDP port on which the client listens for audio.
    pub fn local_udp_port(&self) -> (port: u16)
        ensures
            port == self@.local_udp_port,
    {
        self.local_udp_port
    }

    /// How many stations the server has, once its `Welcome` has said so.
    pub fn station_count(&self) -> (count: Option<u16>)
        ensures
            count == self@.station_count,
    {
        self.station_count
    }

    /// The station selected last, if any.
    pub fn selected_station(&self) -> (station: Option<u16>)
        ensures
            station == self@.selected_station,
    {
        self.selected_station
    }

    /// Opens the handshake: gives the `Hello` to send, with the client's
    /// UDP port, and waits for `Welcome` from then on. A client that has
    /// spoken already has nothing to send and stays as it is.
    pub fn hello(&mut self) -> (greeting: Option<Message>)
        ensures
            old(self)@.phase == ClientPhase::Connected ==> greeting == Some(
                Message::Hello { udp_port: old(self)@.local_udp_port },
            ) && final(self)@ == (ClientView { phase: ClientPhase::AwaitingWelcome, ..old(self)@ }),
            old(self)@.phase != ClientPhase::Connected ==> greeting is None && final(self)@ == old(
                self,
            )@,
            old(self)@.wf() ==> final(self)@.wf(),
    {
        match self.phase {
            ClientPhase::Connected => {
                self.phase = ClientPhase::AwaitingWelcome;
                Some(Message::Hello { udp_port: self.local_udp_port })
            },
            _ => None,
        }
    }

    /// Selects station `station_number`: gives the `SetStation` to send,
    /// once the handshake is done and if the server has such a station.
    /// The station that is selected already may be selected again.
    pub fn select_station(&mut self, station_number: u16) -> (request: Result<Message, SelectError>)
        ensures
            match request {
                Ok(message) => old(self)@.select(station_number) == Ok::<ClientView, SelectError>(
                    final(self)@,
                ) && message == (Message::SetStation { station_number }),
                Err(error) => old(self)@.select(station_number) == Err::<ClientView, SelectError>(
                    error,
                ) && final(self)@ == old(self)@,
            },
            old(self)@.wf() ==> final(self)@.wf(),
    {
        match self.phase {
            ClientPhase::Ready => {},
            _ => {
                return Err(SelectError::NotReady);
            },
        }
        match self.station_count {
            Some(count) => {
                if station_number < count {
                    self.selected_station = Some(station_number);
                    Ok(Message::SetStation { station_number })
                } else {
                    Err(SelectError::NoSuchStation)
                }
            },
            None => Err(SelectError::NoSuchStation),
        }
    }

    /// Gives up: nothing but the phase changes.
    fn fail(&mut self, fault: ClientFault) -> (event: ServerEvent)
        ensures
            final(self)@ == old(self)@.ended(),
            event == (ServerEvent::Fatal { fault }),
    {
        self.phase = ClientPhase::Closed;
        ServerEvent::Fatal { fault }
    }
}

/// Takes one frame received from the server and says what it means.
///
/// The `Welcome` that answers `Hello` ends the handshake and tells the
/// stations' count. After it every `Announce` tells what the selected
/// station plays. Every other frame is fatal: the client gives up and
/// looks at no frame any more.
pub fn interact_with_server(client: &mut ControlClient, frame: &[u8]) -> (event: ServerEvent)
    ensures
        (final(client)@, event@) == old(client)@.step(frame@),
        old(client)@.wf() ==> final(client)@.wf(),
{
    match client.phase {
        ClientPhase::Closed => {
            return ServerEvent::Ignored;
        },
        _ => {},
    }
    let message = match Message::decode(frame) {
        Ok(message) => message,
        Err(DecodeError::WrongLength) => {
            return client.fail(ClientFault::MalformedFrame);
        },
        Err(DecodeError::UnknownTag) => {
            return client.fail(ClientFault::UnknownCommand);
        },
    };
    match client.phase {
        ClientPhase::AwaitingWelcome => match message {
            Message::Welcome { station_count } => {
                client.station_count = Some(station_count);
                client.phase = ClientPhase::Ready;
                ServerEvent::Welcomed { station_count }
            },
            _ => client.fail(ClientFault::ExpectedWelcome),
        },
        ClientPhase::Ready => match message {
            Message::Announce { song_name } => ServerEvent::Announced { song_name },
            _ => client.fail(ClientFault::ExpectedAnnounce),
        },
        _ => client.fail(ClientFault::UnaskedReply),
    }
}

} // verus!
