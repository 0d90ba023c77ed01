//! What holds between the two ends of a control connection: a client and a
//! session that exchange frames as the wire format says understand each
//! other.

use crate::client::{ClientPhase, ClientView, SelectError, ServerEventView};
use crate::registry::{moved, Endpoint, StationView, MAX_STATIONS};
use crate::session::{step, Phase, ReactionView, SessionView};
use crate::wire::{frame_of, lemma_parse_frame_of, MessageView};
use vstd::prelude::*;

verus! {

/// The handshake, end to end: the `Hello` of a client, framed and handed
/// to a fresh session, is answered with `Welcome` and the number of
/// stations; that answer, framed and handed to the client, ends its
/// handshake with the same number. The session then knows the client's
/// endpoint, and no station has changed.
pub proof fn lemma_handshake_completes(client: ClientView, peer_host: u32, stations: Seq<StationView>)
    requires
        client.phase == ClientPhase::AwaitingWelcome,
        stations.len() <= MAX_STATIONS,
    ensures
        ({
            let hello = frame_of(MessageView::Hello { udp_port: client.local_udp_port });
            let welcome = MessageView::Welcome { station_count: stations.len() as u16 };
            let served = step(SessionView::fresh(peer_host), stations, hello);
            &&& served.0 == (SessionView {
                peer_host,
                phase: Phase::Ready,
                client_udp_endpoint: Some(Endpoint { host: peer_host, port: client.local_udp_port }),
                current_station: None,
            })
            &&& served.1 == stations
            &&& served.2 == (ReactionView { reply: Some(welcome), close: false })
            &&& client.step(frame_of(welcome)) == (
                ClientView {
                    phase: ClientPhase::Ready,
                    station_count: Some(stations.len() as u16),
                    ..client
                },
                ServerEventView::Welcomed { station_count: stations.len() as u16 },
            )
        }),
{
    lemma_parse_frame_of(MessageView::Hello { udp_port: client.local_udp_port });
    lemma_parse_frame_of(MessageView::Welcome { station_count: stations.len() as u16 });
}

/// A selection, end to end: what a client that knows the stations' count
/// may select, the session accepts. The framed `SetStation` moves the
/// client's endpoint to the station selected and is answered with
/// `Announce` and that station's name, which, framed and handed to the
/// client, tells it that name.
pub proof fn lemma_selection_is_announced(
    client: ClientView,
    session: SessionView,
    stations: Seq<StationView>,
    station_number: u16,
)
    requires
        stations.len() <= MAX_STATIONS,
        client.phase == ClientPhase::Ready,
        client.station_count == Some(stations.len() as u16),
        session.phase == Phase::Ready,
        session.serves(stations),
    ensures
        client.select(station_number) is Ok <==> station_number < stations.len(),
        station_number < stations.len() ==> ({
            let selected = client.select(station_number)->Ok_0;
            let request = frame_of(MessageView::SetStation { station_number });
            let name = stations[station_number as int].announced_name();
            let served = step(session, stations, request);
            &&& selected == (ClientView { selected_station: Some(station_number), ..client })
            &&& served.0 == (SessionView { current_station: Some(station_number), ..session })
            &&& served.1 == moved(
                stations,
                session.current_station,
                station_number,
                session.client_udp_endpoint->Some_0,
            )
            &&& served.2 == (ReactionView {
                reply: Some(MessageView::Announce { song_name: name }),
                close: false,
            })
            &&& selected.step(frame_of(MessageView::Announce { song_name: name })) == (
                selected,
                ServerEventView::Announced { song_name: name },
            )
        }),
        station_number >= stations.len() ==> client.select(station_number) == Err::<
            ClientView,
            SelectError,
        >(SelectError::NoSuchStation),
{
    if station_number < stations.len() {
        let name = stations[station_number as int].announced_name();
        lemma_parse_frame_of(MessageView::SetStation { station_number });
        lemma_parse_frame_of(MessageView::Announce { song_name: name });
    }
}

} // verus!
