//! The server's side of one control connection, as a state machine.
//!
//! A session starts in `AwaitingHello`. A `Hello` takes it to `Ready` and is
//! answered with `Welcome`; from then on every `SetStation` for a station
//! that exists moves the client's endpoint to that station and is answered
//! with `Announce`. Any other frame is a protocol violation: it is answered
//! with `InvalidCommand`, touches no station, and ends the session.
//!
//! The caller owns the connection. It hands each frame received to
//! [`handle_client`], sends the reply, and, when the connection ends for
//! whatever reason, calls [`Session::close`], which takes the endpoint out
//! of the station it was on.

use crate::registry::{
    all_sets, exclusive, lemma_moved_keeps_exclusive, lemma_moved_spares_others, lemma_moved_tunes,
    lemma_without_listener, listens_to, moved, names, tuned_to, Endpoint, Registry, StationView,
};
use crate::wire::{clipped, parse, DecodeError, Message, MessageView, Text};
use vstd::prelude::*;
use vstd::string::StringSliceAdditionalSpecFns;

verus! {

/// Where a session stands.
#[derive(Clone, Copy, Debug, PartialEq, Eq, Structural)]
pub enum Phase {
    /// Nothing was received yet: only `Hello` is acceptable.
    AwaitingHello,
    /// The handshake is done: only `SetStation` is acceptable.
    Ready,
    /// The session is over: nothing is acceptable.
    Closed,
}

/// What a client did wrong.
#[derive(Clone, Copy, Debug, PartialEq, Eq, Structural)]
pub enum Violation {
    /// The frame does not have the length of a frame.
    MalformedFrame,
    /// The frame's tag is none of the five.
    UnknownCommand,
    /// Something other than `Hello` came first.
    ExpectedHello,
    /// Something other than `SetStation` came after the handshake.
    ExpectedSetStation,
    /// `SetStation` named a station that does not exist.
    NoSuchStation,
}

impl Violation {
    /// The words sent to the client, as bytes.
    pub open spec fn spec_reason(self) -> Seq<u8> {
        match self {
            Violation::MalformedFrame => clipped("malformed frame".spec_bytes()),
            Violation::UnknownCommand => clipped("unknown command".spec_bytes()),
            Violation::ExpectedHello => clipped("expected Hello".spec_bytes()),
            Violation::ExpectedSetStation => clipped("expected SetStation".spec_bytes()),
            Violation::NoSuchStation => clipped("no such station".spec_bytes()),
        }
    }

    /// The words sent to the client.
    pub fn reason(self) -> (text: Text)
        ensures
            text@ == self.spec_reason(),
            text.zero_padded(),
    {
        match self {
            Violation::MalformedFrame => Text::from_bytes("malformed frame".as_bytes()),
            Violation::UnknownCommand => Text::from_bytes("unknown command".as_bytes()),
            Violation::ExpectedHello => Text::from_bytes("expected Hello".as_bytes()),
            Violation::ExpectedSetStation => Text::from_bytes("expected SetStation".as_bytes()),
            Violation::NoSuchStation => Text::from_bytes("no such station".as_bytes()),
        }
    }
}

/// What a session knows.
pub ghost struct SessionView {
    /// The host at the other end of the connection.
    pub peer_host: u32,
    pub phase: Phase,
    /// Where the client listens, known from its `Hello`.
    pub client_udp_endpoint: Option<Endpoint>,
    /// The station that the session has put the client on.
    pub current_station: Option<u16>,
}

/// The server's side of one control connection.
#[derive(Clone, Copy, Debug)]
pub struct Session {
    peer_host: u32,
    phase: Phase,
    client_udp_endpoint: Option<Endpoint>,
    current_station: Option<u16>,
}

impl View for Session {
    type V = SessionView;

    closed spec fn view(&self) -> SessionView {
        SessionView {
            peer_host: self.peer_host,
            phase: self.phase,
            client_udp_endpoint: self.client_udp_endpoint,
            current_station: self.current_station,
        }
    }
}

/// What the caller is to do after a frame.
#[derive(Clone, Copy, Debug, PartialEq, Eq)]
pub struct Reaction {
    /// The frame to send back, if any.
    pub reply: Option<Message>,
    /// Whether the connection is to be closed, after the reply is sent.
    pub close: bool,
}

/// What a reaction means.
pub ghost struct ReactionView {
    pub reply: Option<MessageView>,
    pub close: bool,
}

impl Reaction {
    /// Whether the reply, where it carries a string, has zeros for
    /// padding.
    pub open spec fn zero_padded(&self) -> bool {
        match self.reply {
            Some(Message::Announce { song_name }) => song_name.zero_padded(),
            Some(Message::InvalidCommand { reason }) => reason.zero_padded(),
            _ => true,
        }
    }
}

impl View for Reaction {
    type V = ReactionView;

    open spec fn view(&self) -> ReactionView {
        ReactionView {
            reply: match self.reply {
                Some(message) => Some(message@),
                None => None,
            },
            close: self.close,
        }
    }
}

impl SessionView {
    /// A session on which nothing has happened yet.
    pub open spec fn fresh(peer_host: u32) -> SessionView {
        SessionView {
            peer_host,
            phase: Phase::AwaitingHello,
            client_udp_endpoint: None,
            current_station: None,
        }
    }

    /// What holds of every session: the endpoint is known from the
    /// handshake on and is on the peer's host, and only a client whose
    /// endpoint is known is ever put on a station.
    pub open spec fn wf(self) -> bool {
        &&& self.phase == Phase::AwaitingHello ==> self.client_udp_endpoint is None
        &&& self.phase == Phase::Ready ==> self.client_udp_endpoint is Some
        &&& self.client_udp_endpoint matches Some(endpoint) ==> endpoint.host == self.peer_host
        &&& self.current_station is Some ==> self.client_udp_endpoint is Some
    }

    /// Whether the session can run against `stations`: it is well formed
    /// and the station it has put the client on exists.
    pub open spec fn serves(self, stations: Seq<StationView>) -> bool {
        &&& self.wf()
        &&& self.current_station matches Some(station) ==> station < stations.len()
    }

    /// Whether the stations hold the client's endpoint where the session
    /// says, and nowhere else.
    pub open spec fn agrees_with(self, stations: Seq<StationView>) -> bool {
        self.client_udp_endpoint matches Some(endpoint) ==> tuned_to(
            stations,
            endpoint,
            self.current_station,
        )
    }

    /// The session after a violation.
    pub open spec fn ended(self) -> SessionView {
        SessionView { phase: Phase::Closed, ..self }
    }
}

/// What is wrong with a frame that arrives in phase `phase` while there are
/// `station_count` stations, if anything.
pub open spec fn violation_of(phase: Phase, station_count: nat, frame: Seq<u8>) -> Option<Violation> {
    match parse(frame) {
        Err(DecodeError::WrongLength) => Some(Violation::MalformedFrame),
        Err(DecodeError::UnknownTag) => Some(Violation::UnknownCommand),
        Ok(message) => match phase {
            Phase::AwaitingHello => if message is Hello {
                None
            } else {
                Some(Violation::ExpectedHello)
            },
            Phase::Ready => match message {
                MessageView::SetStation { station_number } => if station_number < station_count {
                    None
                } else {
                    Some(Violation::NoSuchStation)
                },
                _ => Some(Violation::ExpectedSetStation),
            },
            Phase::Closed => None,
        },
    }
}

/// The reply to a violation: it says why, and the connection is closed.
pub open spec fn rejection(violation: Violation) -> ReactionView {
    ReactionView {
        reply: Some(MessageView::InvalidCommand { reason: violation.spec_reason() }),
        close: true,
    }
}

/// One step of a session: the session, the stations and the reaction after
/// `frame` has arrived.
pub open spec fn step(session: SessionView, stations: Seq<StationView>, frame: Seq<u8>) -> (
    SessionView,
    Seq<StationView>,
    ReactionView,
) {
    if session.phase == Phase::Closed {
        (session, stations, ReactionView { reply: None, close: true })
    } else if let Some(violation) = violation_of(session.phase, stations.len(), frame) {
        (session.ended(), stations, rejection(violation))
    } else {
        match parse(frame) {
            Ok(MessageView::Hello { udp_port }) => (
                SessionView {
                    phase: Phase::Ready,
                    client_udp_endpoint: Some(Endpoint { host: session.peer_host, port: udp_port }),
                    ..session
                },
                stations,
                ReactionView {
                    reply: Some(MessageView::Welcome { station_count: stations.len() as u16 }),
                    close: false,
                },
            ),
            Ok(MessageView::SetStation { station_number }) => (
                SessionView { current_station: Some(station_number), ..session },
                moved(
                    stations,
                    session.current_station,
                    station_number,
                    session.client_udp_endpoint->Some_0,
                ),
                ReactionView {
                    reply: Some(
                        MessageView::Announce {
                            song_name: stations[station_number as int].announced_name(),
                        },
                    ),
                    close: false,
                },
            ),
            _ => (session, stations, ReactionView { reply: None, close: true }),
        }
    }
}

/// The stations after the session's end: the client's endpoint has left the
/// station that the session had put it on.
pub open spec fn released(session: SessionView, stations: Seq<StationView>) -> Seq<StationView> {
    match (session.client_udp_endpoint, session.current_station) {
        (Some(endpoint), Some(station)) => stations.update(
            station as int,
            stations[station as int].unsubscribed(endpoint),
        ),
        _ => stations,
    }
}

impl Session {
    /// A session for a connection from `peer_host`, on which nothing has
    /// happened yet.
    pub fn new(peer_host: u32) -> (session: Session)
        ensures
            session@ == SessionView::fresh(peer_host),
            session@.wf(),
    {
        Session { peer_host, phase: Phase::AwaitingHello, client_udp_endpoint: None, current_station: None }
    }

    /// Where the session stands.
    pub fn phase(&self) -> (phase: Phase)
        ensures
            phase == self@.phase,
    {
        self.phase
    }

    /// The host at the other end of the connection.
    pub fn peer_host(&self) -> (host: u32)
        ensures
            host == self@.peer_host,
    {
        self.peer_host
    }

    /// Where the client listens, once its `Hello` has said so.
    pub fn client_udp_endpoint(&self) -> (endpoint: Option<Endpoint>)
        ensures
            endpoint == self@.client_udp_endpoint,
    {
        self.client_udp_endpoint
    }

    /// The station that the session has put the client on, if any.
    pub fn current_station(&self) -> (station: Option<u16>)
        ensures
            station == self@.current_station,
    {
        self.current_station
    }

    /// Ends the session with `violation`: nothing but the phase changes.
    fn reject(&mut self, violation: Violation) -> (reaction: Reaction)
        ensures
            final(self)@ == old(self)@.ended(),
            reaction@ == rejection(violation),
            reaction.zero_padded(),
    {
        self.phase = Phase::Closed;
        Reaction { reply: Some(Message::InvalidCommand { reason: violation.reason() }), close: true }
    }

    /// Ends the session, whatever state it is in: the client's endpoint
    /// leaves the station that the session had put it on, and no other
    /// station changes. To be called once the connection is over, however
    /// it ended.
    pub fn close(&mut self, registry: &mut Registry)
        requires
            old(registry).wf(),
            old(self)@.serves(old(registry)@),
        ensures
            final(registry).wf(),
            final(registry)@ == released(old(self)@, old(registry)@),
            final(self)@ == (SessionView {
                phase: Phase::Closed,
                current_station: None,
                ..old(self)@
            }),
            final(self)@.serves(final(registry)@),
    {
        if let Some(endpoint) = self.client_udp_endpoint {
            if let Some(station) = self.current_station {
                registry.unsubscribe(station, endpoint);
            }
        }
        self.current_station = None;
        self.phase = Phase::Closed;
    }
}

/// Takes one frame received on the connection of `session` and says what to
/// send back and whether to close.
///
/// In the handshake a `Hello` is answered with `Welcome` and the stations'
/// count. After it, a `SetStation` for an existing station moves the
/// client's endpoint there, from the station it was on, in one step, and
/// is answered with `Announce` and the station's name; for the station the
/// client is on already the listeners stay as they are. Every other frame
/// ends the session with `InvalidCommand` and changes no station.
pub fn handle_client(session: &mut Session, registry: &mut Registry, frame: &[u8]) -> (reaction:
    Reaction)
    requires
        old(registry).wf(),
        old(session)@.serves(old(registry)@),
    ensures
        final(registry).wf(),
        final(session)@.serves(final(registry)@),
        (final(session)@, final(registry)@, reaction@) == step(
            old(session)@,
            old(registry)@,
            frame@,
        ),
        reaction.zero_padded(),
{
    match session.phase {
        Phase::Closed => Reaction { reply: None, close: true },
        Phase::AwaitingHello => match Message::decode(frame) {
            Ok(Message::Hello { udp_port }) => {
                session.client_udp_endpoint = Some(Endpoint { host: session.peer_host, port: udp_port });
                session.phase = Phase::Ready;
                Reaction {
                    reply: Some(Message::Welcome { station_count: registry.station_count() }),
                    close: false,
                }
            },
            Ok(_) => session.reject(Violation::ExpectedHello),
            Err(DecodeError::WrongLength) => session.reject(Violation::MalformedFrame),
            Err(DecodeError::UnknownTag) => session.reject(Violation::UnknownCommand),
        },
        Phase::Ready => match Message::decode(frame) {
            Ok(Message::SetStation { station_number }) => {
                if station_number < registry.station_count() {
                    let endpoint = session.client_udp_endpoint.unwrap();
                    registry.move_subscription(session.current_station, station_number, endpoint);
                    session.current_station = Some(station_number);
                    Reaction {
                        reply: Some(Message::Announce { song_name: registry.announced_name(station_number) }),
                        close: false,
                    }
                } else {
                    session.reject(Violation::NoSuchStation)
                }
            },
            Ok(_) => session.reject(Violation::ExpectedSetStation),
            Err(DecodeError::WrongLength) => session.reject(Violation::MalformedFrame),
            Err(DecodeError::UnknownTag) => session.reject(Violation::UnknownCommand),
        },
    }
}

/// Handshake: the first frame of a fresh session, if it is a `Hello`, is
/// answered with exactly `Welcome` and the number of stations; the session
/// is then ready, knows the client's endpoint on the peer's host, and no
/// station has changed.
pub proof fn lemma_handshake(peer_host: u32, stations: Seq<StationView>, frame: Seq<u8>, udp_port: u16)
    requires
        stations.len() <= crate::registry::MAX_STATIONS,
        parse(frame) == Ok::<MessageView, DecodeError>(MessageView::Hello { udp_port }),
    ensures
        step(SessionView::fresh(peer_host), stations, frame) == (
            SessionView {
                peer_host,
                phase: Phase::Ready,
                client_udp_endpoint: Some(Endpoint { host: peer_host, port: udp_port }),
                current_station: None,
            },
            stations,
            ReactionView {
                reply: Some(MessageView::Welcome { station_count: stations.len() as u16 }),
                close: false,
            },
        ),
{
}

/// A violation ends the session and changes no station: whatever frame is
/// wrong for the phase, or names a station that does not exist, is
/// answered with `InvalidCommand`, the connection is to be closed, and the
/// stations are as they were.
pub proof fn lemma_violation_changes_no_station(
    session: SessionView,
    stations: Seq<StationView>,
    frame: Seq<u8>,
)
    requires
        session.phase != Phase::Closed,
        violation_of(session.phase, stations.len(), frame) is Some,
    ensures
        step(session, stations, frame).0.phase == Phase::Closed,
        step(session, stations, frame).1 == stations,
        step(session, stations, frame).2.close,
        step(session, stations, frame).2.reply matches Some(MessageView::InvalidCommand { .. }),
{
}

/// `SetStation` for a station that does not exist is a violation.
pub proof fn lemma_station_out_of_range(
    session: SessionView,
    stations: Seq<StationView>,
    frame: Seq<u8>,
    station_number: u16,
)
    requires
        session.phase == Phase::Ready,
        parse(frame) == Ok::<MessageView, DecodeError>(MessageView::SetStation { station_number }),
        station_number >= stations.len(),
    ensures
        step(session, stations, frame) == (
            session.ended(),
            stations,
            rejection(Violation::NoSuchStation),
        ),
{
}

/// No step lets a station gain or lose any endpoint but the session's own.
pub proof fn lemma_step_spares_others(
    session: SessionView,
    stations: Seq<StationView>,
    frame: Seq<u8>,
    other: Endpoint,
    index: int,
)
    requires
        all_sets(stations),
        session.serves(stations),
        session.client_udp_endpoint != Some(other),
    ensures
        listens_to(step(session, stations, frame).1, index, other) <==> listens_to(
            stations,
            index,
            other,
        ),
{
    let after = step(session, stations, frame).1;
    if after != stations {
        let endpoint = session.client_udp_endpoint->Some_0;
        let station_number = parse(frame)->Ok_0->SetStation_station_number;
        lemma_moved_spares_others(
            stations,
            session.current_station,
            station_number,
            endpoint,
            other,
            index,
        );
    }
}

/// Agreement is kept: where the stations hold the client's endpoint on the
/// session's station and on no other, they do so after every step. For the
/// `Hello` that makes the endpoint known this asks that no station holds
/// that endpoint yet.
pub proof fn lemma_step_keeps_agreement(session: SessionView, stations: Seq<StationView>, frame: Seq<u8>)
    requires
        all_sets(stations),
        session.serves(stations),
        session.agrees_with(stations),
        session.phase == Phase::AwaitingHello ==> (parse(frame) matches Ok(
            MessageView::Hello { udp_port },
        ) ==> tuned_to(stations, Endpoint { host: session.peer_host, port: udp_port }, None)),
    ensures
        all_sets(step(session, stations, frame).1),
        step(session, stations, frame).0.serves(step(session, stations, frame).1),
        step(session, stations, frame).0.agrees_with(step(session, stations, frame).1),
{
    if session.phase == Phase::Ready && violation_of(session.phase, stations.len(), frame) is None {
        let endpoint = session.client_udp_endpoint->Some_0;
        let station_number = parse(frame)->Ok_0->SetStation_station_number;
        lemma_moved_tunes(stations, session.current_station, station_number, endpoint);
    }
}

/// After the session's end its endpoint listens nowhere: where the
/// stations agreed with the session, `released` leaves the endpoint on no
/// station, and every other endpoint where it was.
pub proof fn lemma_released(session: SessionView, stations: Seq<StationView>, endpoint: Endpoint)
    requires
        all_sets(stations),
        session.serves(stations),
        session.agrees_with(stations),
        session.client_udp_endpoint == Some(endpoint),
    ensures
        all_sets(released(session, stations)),
        tuned_to(released(session, stations), endpoint, None),
        forall|other: Endpoint, index: int|
            other != endpoint ==> (#[trigger] listens_to(released(session, stations), index, other)
                <==> listens_to(stations, index, other)),
{
    let after = released(session, stations);
    assert forall|index: int| 0 <= index < after.len() implies #[trigger] after[index].listeners.no_duplicates()
        && !after[index].listeners.contains(endpoint) && (forall|other: Endpoint|
        other != endpoint ==> (after[index].listeners.contains(other)
            <==> stations[index].listeners.contains(other))) by {
        assert(stations[index].listeners.no_duplicates());
        assert(stations[index].listeners.contains(endpoint) <==> names(session.current_station, index));
        lemma_without_listener(stations[index].listeners, endpoint);
    }
    assert forall|index: int| 0 <= index < after.len() implies (#[trigger] after[index].listeners.contains(
        endpoint,
    ) <==> names(None, index)) by {
        assert(after[index].listeners.no_duplicates());
    }
    assert forall|other: Endpoint, index: int| other != endpoint implies (#[trigger] listens_to(
        after,
        index,
        other,
    ) <==> listens_to(stations, index, other)) by {
        if 0 <= index < after.len() {
            assert(after[index].listeners.no_duplicates());
        }
    }
}

/// No step lets an endpoint listen to two stations: where none did, and
/// the stations agreed with the session, none does after the step.
pub proof fn lemma_step_keeps_exclusive(session: SessionView, stations: Seq<StationView>, frame: Seq<u8>)
    requires
        all_sets(stations),
        exclusive(stations),
        session.serves(stations),
        session.agrees_with(stations),
    ensures
        exclusive(step(session, stations, frame).1),
{
    if session.phase == Phase::Ready && violation_of(session.phase, stations.len(), frame) is None {
        let endpoint = session.client_udp_endpoint->Some_0;
        let station_number = parse(frame)->Ok_0->SetStation_station_number;
        lemma_moved_keeps_exclusive(stations, session.current_station, station_number, endpoint);
    }
}

/// Sessions do not disturb one another: a step of one session leaves the
/// stations in agreement with every other session whose client listens
/// at another endpoint.
pub proof fn lemma_step_spares_other_sessions(
    session: SessionView,
    other: SessionView,
    stations: Seq<StationView>,
    frame: Seq<u8>,
)
    requires
        all_sets(stations),
        session.serves(stations),
        other.agrees_with(stations),
        other.client_udp_endpoint is Some ==> other.client_udp_endpoint
            != session.client_udp_endpoint,
    ensures
        other.agrees_with(step(session, stations, frame).1),
{
    let after = step(session, stations, frame).1;
    if let Some(endpoint) = other.client_udp_endpoint {
        assert forall|index: int| 0 <= index < after.len() implies (#[trigger] after[index].listeners.contains(
            endpoint,
        ) <==> names(other.current_station, index)) by {
            lemma_step_spares_others(session, stations, frame, endpoint, index);
            assert(listens_to(after, index, endpoint) <==> listens_to(stations, index, endpoint));
            assert(stations[index].listeners.contains(endpoint) <==> names(
                other.current_station,
                index,
            ));
        }
    }
}

/// The end of a session disturbs no other: it lets no endpoint listen to
/// two stations, and leaves the stations in agreement with every other
/// session whose client listens at another endpoint.
pub proof fn lemma_release_spares_other_sessions(
    session: SessionView,
    other: SessionView,
    stations: Seq<StationView>,
)
    requires
        all_sets(stations),
        session.serves(stations),
        other.agrees_with(stations),
        other.client_udp_endpoint is Some ==> other.client_udp_endpoint
            != session.client_udp_endpoint,
    ensures
        all_sets(released(session, stations)),
        exclusive(stations) ==> exclusive(released(session, stations)),
        other.agrees_with(released(session, stations)),
{
    let after = released(session, stations);
    assert forall|index: int| 0 <= index < after.len() implies #[trigger] after[index].listeners.no_duplicates()
        && (forall|who: Endpoint|
        after[index].listeners.contains(who) ==> stations[index].listeners.contains(who)) && (forall|
        who: Endpoint,
    |
        session.client_udp_endpoint != Some(who) ==> (after[index].listeners.contains(who)
            <==> stations[index].listeners.contains(who))) by {
        assert(stations[index].listeners.no_duplicates());
        if let Some(endpoint) = session.client_udp_endpoint {
            lemma_without_listener(stations[index].listeners, endpoint);
        }
    }
    if exclusive(stations) {
        assert forall|who: Endpoint, a: int, b: int|
            #[trigger] listens_to(after, a, who) && #[trigger] listens_to(after, b, who) implies a
            == b by {
            assert(after[a].listeners.no_duplicates());
            assert(after[b].listeners.no_duplicates());
            assert(listens_to(stations, a, who) && listens_to(stations, b, who));
        }
    }
    if let Some(endpoint) = other.client_udp_endpoint {
        assert forall|index: int| 0 <= index < after.len() implies (#[trigger] after[index].listeners.contains(
            endpoint,
        ) <==> names(other.current_station, index)) by {
            assert(after[index].listeners.no_duplicates());
            assert(stations[index].listeners.contains(endpoint) <==> names(
                other.current_station,
                index,
            ));
        }
    }
}

} // verus!
