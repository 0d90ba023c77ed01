//! The stations of a server and, for each, the endpoints that listen to it.
//!
//! A station's listeners form a set, kept in the order in which they
//! subscribed: no endpoint occurs twice. The playback side reads a station's
//! listeners as a snapshot; control sessions change them through the
//! operations of [`Registry`], each of which is one step from one state to
//! the next.

use crate::wire::{clipped, Text};
use vstd::prelude::*;

verus! {

/// Where to send a client's audio: an IPv4 host, as the number its four
/// octets spell in network byte order, and a UDP port.
#[derive(Clone, Copy, Debug, PartialEq, Eq, Structural, Hash)]
pub struct Endpoint {
    pub host: u32,
    pub port: u16,
}

/// The listeners `listeners`, with `endpoint` subscribed last if it was not
/// among them.
pub open spec fn with_listener(listeners: Seq<Endpoint>, endpoint: Endpoint) -> Seq<Endpoint> {
    if listeners.contains(endpoint) {
        listeners
    } else {
        listeners.push(endpoint)
    }
}

/// The listeners `listeners` but `endpoint`, in their order.
pub open spec fn without_listener(listeners: Seq<Endpoint>, endpoint: Endpoint) -> Seq<Endpoint> {
    if listeners.contains(endpoint) {
        listeners.remove(listeners.index_of(endpoint))
    } else {
        listeners
    }
}

/// Subscribing keeps a set a set, adds the endpoint and nothing else, and
/// changes nothing when repeated.
pub proof fn lemma_with_listener(listeners: Seq<Endpoint>, endpoint: Endpoint)
    requires
        listeners.no_duplicates(),
    ensures
        with_listener(listeners, endpoint).no_duplicates(),
        with_listener(listeners, endpoint).contains(endpoint),
        forall|other: Endpoint|
            other != endpoint ==> (with_listener(listeners, endpoint).contains(other)
                <==> listeners.contains(other)),
        with_listener(with_listener(listeners, endpoint), endpoint) == with_listener(
            listeners,
            endpoint,
        ),
{
    let after = with_listener(listeners, endpoint);
    if !listeners.contains(endpoint) {
        assert(after[listeners.len() as int] == endpoint);
        assert forall|other: Endpoint| other != endpoint && after.contains(other) implies listeners.contains(
            other,
        ) by {
            let i = choose|i: int| 0 <= i < after.len() && after[i] == other;
            assert(listeners[i] == other);
        }
        assert forall|other: Endpoint| listeners.contains(other) implies after.contains(other) by {
            let i = choose|i: int| 0 <= i < listeners.len() && listeners[i] == other;
            assert(after[i] == other);
        }
    }
}

/// Unsubscribing keeps a set a set, takes the endpoint out and nothing
/// else, and keeps the others in their order.
pub proof fn lemma_without_listener(listeners: Seq<Endpoint>, endpoint: Endpoint)
    requires
        listeners.no_duplicates(),
    ensures
        without_listener(listeners, endpoint).no_duplicates(),
        !without_listener(listeners, endpoint).contains(endpoint),
        forall|other: Endpoint|
            other != endpoint ==> (without_listener(listeners, endpoint).contains(other)
                <==> listeners.contains(other)),
        forall|i: int|
            0 <= i < listeners.len() && listeners[i] == endpoint ==> without_listener(
                listeners,
                endpoint,
            ) == listeners.remove(i),
{
    let after = without_listener(listeners, endpoint);
    if listeners.contains(endpoint) {
        let k = listeners.index_of(endpoint);
        assert(0 <= k < listeners.len() && listeners[k] == endpoint);
        assert forall|i: int| 0 <= i < after.len() implies after[i] == listeners[if i < k {
            i
        } else {
            i + 1
        }] by {}
        assert forall|other: Endpoint| other != endpoint && listeners.contains(other) implies after.contains(
            other,
        ) by {
            let i = choose|i: int| 0 <= i < listeners.len() && listeners[i] == other;
            if i < k {
                assert(after[i] == other);
            } else {
                assert(after[i - 1] == other);
            }
        }
    }
}

/// What a station is: the path of the file it plays and its listeners in
/// the order in which they subscribed.
pub ghost struct StationView {
    pub song_path: Seq<char>,
    pub listeners: Seq<Endpoint>,
}

impl StationView {
    /// The name that the station is announced under: the bytes of its path,
    /// cut to what a frame can carry.
    pub open spec fn announced_name(self) -> Seq<u8> {
        clipped(vstd::utf8::encode_utf8(self.song_path))
    }

    /// This station with `endpoint` among its listeners.
    pub open spec fn subscribed(self, endpoint: Endpoint) -> StationView {
        StationView { listeners: with_listener(self.listeners, endpoint), ..self }
    }

    /// This station without `endpoint` among its listeners.
    pub open spec fn unsubscribed(self, endpoint: Endpoint) -> StationView {
        StationView { listeners: without_listener(self.listeners, endpoint), ..self }
    }
}

/// Why a station cannot be made.
#[derive(Clone, Copy, Debug, PartialEq, Eq)]
pub enum StationError {
    /// An endpoint occurs twice among the listeners given.
    DuplicateListener,
}

/// One station: the file it plays and the endpoints that listen to it.
#[derive(Debug)]
pub struct Station {
    song_path: String,
    listeners: Vec<Endpoint>,
}

impl View for Station {
    type V = StationView;

    closed spec fn view(&self) -> StationView {
        StationView { song_path: self.song_path@, listeners: self.listeners@ }
    }
}

impl Clone for Station {
    fn clone(&self) -> (copy: Self)
        ensures
            copy@ == self@,
    {
        Station { song_path: self.song_path.clone(), listeners: self.listeners.clone() }
    }
}

/// The first index at which `endpoint` stands in `listeners`, if any.
fn position(listeners: &Vec<Endpoint>, endpoint: Endpoint) -> (found: Option<usize>)
    ensures
        found is None <==> !listeners@.contains(endpoint),
        found matches Some(i) ==> i < listeners@.len() && listeners@[i as int] == endpoint,
{
    let mut i: usize = 0;
    while i < listeners.len()
        invariant
            i <= listeners@.len(),
            forall|j: int| 0 <= j < i ==> listeners@[j] != endpoint,
        decreases listeners@.len() - i,
    {
        if listeners[i] == endpoint {
            return Some(i);
        }
        i += 1;
    }
    None
}

/// Whether no endpoint occurs twice in `listeners`.
fn all_distinct(listeners: &Vec<Endpoint>) -> (distinct: bool)
    ensures
        distinct == listeners@.no_duplicates(),
{
    let mut i: usize = 0;
    while i < listeners.len()
        invariant
            i <= listeners@.len(),
            forall|a: int, b: int| 0 <= a < i && a < b < listeners@.len() ==> listeners@[a] != listeners@[b],
        decreases listeners@.len() - i,
    {
        let mut j: usize = i + 1;
        while j < listeners.len()
            invariant
                i < j <= listeners@.len(),
                forall|b: int| i < b < j ==> listeners@[i as int] != listeners@[b],
            decreases listeners@.len() - j,
        {
            if listeners[i] == listeners[j] {
                return false;
            }
            j += 1;
        }
        i += 1;
    }
    assert forall|a: int, b: int|
        0 <= a < listeners@.len() && 0 <= b < listeners@.len() && a != b implies listeners@[a]
        != listeners@[b] by {
        if a < b {
        } else {
            assert(listeners@[b] != listeners@[a]);
        }
    }
    true
}

impl Station {
    /// Whether the listeners form a set.
    pub open spec fn wf(&self) -> bool {
        self@.listeners.no_duplicates()
    }

    /// The station that plays `song_path` to `listeners`, unless an endpoint
    /// occurs twice among them.
    pub fn new(song_path: String, listeners: Vec<Endpoint>) -> (made: Result<Station, StationError>)
        ensures
            made is Ok <==> listeners@.no_duplicates(),
            made matches Ok(station) ==> station.wf() && station@ == (StationView {
                song_path: song_path@,
                listeners: listeners@,
            }),
            made matches Err(error) ==> error == StationError::DuplicateListener,
    {
        if all_distinct(&listeners) {
            Ok(Station { song_path, listeners })
        } else {
            Err(StationError::DuplicateListener)
        }
    }

    /// The path of the file that the station plays.
    pub fn song_path(&self) -> (path: &String)
        ensures
            path@ == self@.song_path,
    {
        &self.song_path
    }

    /// The name to announce the station under.
    pub fn announced_name(&self) -> (name: Text)
        ensures
            name@ == self@.announced_name(),
            name.zero_padded(),
    {
        Text::from_bytes(self.song_path.as_str().as_bytes())
    }

    /// The listeners as they are now, in the order in which they subscribed.
    pub fn snapshot_listeners(&self) -> (snapshot: Vec<Endpoint>)
        ensures
            snapshot@ == self@.listeners,
    {
        let mut snapshot: Vec<Endpoint> = Vec::new();
        let mut i: usize = 0;
        while i < self.listeners.len()
            invariant
                i <= self.listeners@.len(),
                snapshot@ == self.listeners@.take(i as int),
            decreases self.listeners@.len() - i,
        {
            snapshot.push(self.listeners[i]);
            i += 1;
            assert(self.listeners@.take(i as int) =~= self.listeners@.take(i - 1).push(
                self.listeners@[i - 1],
            ));
        }
        assert(self.listeners@.take(i as int) =~= self.listeners@);
        snapshot
    }

    /// Whether `endpoint` listens to this station.
    pub fn is_listening(&self, endpoint: Endpoint) -> (listening: bool)
        ensures
            listening == self@.listeners.contains(endpoint),
    {
        position(&self.listeners, endpoint).is_some()
    }

    /// Adds `endpoint` to the listeners unless it is one already, and says
    /// whether it was added.
    pub fn subscribe(&mut self, endpoint: Endpoint) -> (added: bool)
        requires
            old(self).wf(),
        ensures
            final(self).wf(),
            final(self)@ == old(self)@.subscribed(endpoint),
            added == !old(self)@.listeners.contains(endpoint),
    {
        proof {
            lemma_with_listener(self@.listeners, endpoint);
        }
        if position(&self.listeners, endpoint).is_none() {
            self.listeners.push(endpoint);
            true
        } else {
            false
        }
    }

    /// Takes `endpoint` out of the listeners if it is one, and says whether
    /// it was.
    pub fn unsubscribe(&mut self, endpoint: Endpoint) -> (removed: bool)
        requires
            old(self).wf(),
        ensures
            final(self).wf(),
            final(self)@ == old(self)@.unsubscribed(endpoint),
            removed == old(self)@.listeners.contains(endpoint),
    {
        proof {
            lemma_without_listener(self@.listeners, endpoint);
        }
        match position(&self.listeners, endpoint) {
            Some(i) => {
                self.listeners.remove(i);
                true
            },
            None => false,
        }
    }
}

/// Why a registry cannot be made.
#[derive(Clone, Copy, Debug, PartialEq, Eq)]
pub enum RegistryError {
    /// There are more stations than a `Welcome` can count.
    TooManyStations,
}

/// The most stations a server can have: their count travels as a `u16`.
pub const MAX_STATIONS: usize = 65535;

/// The stations of a server, each known by its index.
#[derive(Debug)]
pub struct Registry {
    stations: Vec<Station>,
}

impl View for Registry {
    type V = Seq<StationView>;

    closed spec fn view(&self) -> Seq<StationView> {
        Seq::new(self.stations@.len(), |i: int| self.stations@[i]@)
    }
}

/// Whether `endpoint` listens to station `index` of `stations`.
pub open spec fn listens_to(stations: Seq<StationView>, index: int, endpoint: Endpoint) -> bool {
    0 <= index < stations.len() && stations[index].listeners.contains(endpoint)
}

/// Whether `station` names the station `index`.
pub open spec fn names(station: Option<u16>, index: int) -> bool {
    station matches Some(number) && number as int == index
}

/// Whether `endpoint` listens to station `tuned` and to no other, or to
/// none at all where `tuned` is `None`.
pub open spec fn tuned_to(stations: Seq<StationView>, endpoint: Endpoint, tuned: Option<u16>) -> bool {
    forall|index: int|
        0 <= index < stations.len() ==> (#[trigger] stations[index].listeners.contains(endpoint)
            <==> names(tuned, index))
}

/// Whether no endpoint listens to two stations at once.
pub open spec fn exclusive(stations: Seq<StationView>) -> bool {
    forall|endpoint: Endpoint, a: int, b: int|
        #[trigger] listens_to(stations, a, endpoint) && #[trigger] listens_to(stations, b, endpoint)
            ==> a == b
}

/// The stations after `endpoint` has left station `old_index`, if that is
/// one and another than `new_index`, and joined station `new_index`: the
/// two changes in one step, every other station untouched.
pub open spec fn moved(
    stations: Seq<StationView>,
    old_index: Option<u16>,
    new_index: u16,
    endpoint: Endpoint,
) -> Seq<StationView> {
    Seq::new(
        stations.len(),
        |index: int|
            if index == new_index {
                stations[index].subscribed(endpoint)
            } else if names(old_index, index) {
                stations[index].unsubscribed(endpoint)
            } else {
                stations[index]
            },
    )
}

impl Registry {
    /// Whether every station's listeners form a set and the stations can be
    /// counted in a `u16`.
    pub open spec fn wf(&self) -> bool {
        &&& self@.len() <= MAX_STATIONS
        &&& forall|index: int| 0 <= index < self@.len() ==> #[trigger] self@[index].listeners.no_duplicates()
    }

    /// The registry of `stations`, each known from now on by its index in
    /// this list, unless they are too many to count.
    pub fn new(stations: Vec<Station>) -> (made: Result<Registry, RegistryError>)
        requires
            forall|index: int| 0 <= index < stations@.len() ==> #[trigger] stations@[index].wf(),
        ensures
            made is Ok <==> stations@.len() <= MAX_STATIONS,
            made matches Ok(registry) ==> registry.wf() && registry@ == Seq::new(
                stations@.len(),
                |index: int| stations@[index]@,
            ),
            made matches Err(error) ==> error == RegistryError::TooManyStations,
    {
        if stations.len() > MAX_STATIONS {
            return Err(RegistryError::TooManyStations);
        }
        let registry = Registry { stations };
        assert forall|index: int| 0 <= index < registry@.len() implies #[trigger] registry@[index].listeners.no_duplicates() by {
            assert(registry.stations@[index].wf());
        }
        Ok(registry)
    }

    /// How many stations there are.
    pub fn station_count(&self) -> (count: u16)
        requires
            self.wf(),
        ensures
            count == self@.len(),
    {
        self.stations.len() as u16
    }

    /// The name to announce station `index` under.
    pub fn announced_name(&self, index: u16) -> (name: Text)
        requires
            index < self@.len(),
        ensures
            name@ == self@[index as int].announced_name(),
            name.zero_padded(),
    {
        self.stations[index as usize].announced_name()
    }

    /// The listeners of station `index` as they are now, in the order in
    /// which they subscribed.
    pub fn snapshot_listeners(&self, index: u16) -> (snapshot: Vec<Endpoint>)
        requires
            index < self@.len(),
        ensures
            snapshot@ == self@[index as int].listeners,
    {
        self.stations[index as usize].snapshot_listeners()
    }

    /// Adds `endpoint` to the listeners of station `index` unless it is one
    /// already. No other station changes.
    pub fn subscribe(&mut self, index: u16, endpoint: Endpoint)
        requires
            old(self).wf(),
            index < old(self)@.len(),
        ensures
            final(self).wf(),
            final(self)@ == old(self)@.update(index as int, old(self)@[index as int].subscribed(endpoint)),
    {
        proof {
            lemma_with_listener(self@[index as int].listeners, endpoint);
        }
        let ghost before = self@;
        self.stations[index as usize].subscribe(endpoint);
        assert(self@ =~= before.update(index as int, before[index as int].subscribed(endpoint)));
    }

    /// Takes `endpoint` out of the listeners of station `index` if it is
    /// one. No other station changes.
    pub fn unsubscribe(&mut self, index: u16, endpoint: Endpoint)
        requires
            old(self).wf(),
            index < old(self)@.len(),
        ensures
            final(self).wf(),
            final(self)@ == old(self)@.update(index as int, old(self)@[index as int].unsubscribed(endpoint)),
    {
        proof {
            lemma_without_listener(self@[index as int].listeners, endpoint);
        }
        let ghost before = self@;
        self.stations[index as usize].unsubscribe(endpoint);
        assert(self@ =~= before.update(index as int, before[index as int].unsubscribed(endpoint)));
    }

    /// Moves `endpoint` to station `new_index` in one step: it leaves
    /// station `old_index`, if that is one and another than `new_index`,
    /// and joins station `new_index` unless it listens there already.
    /// Moving to the station it is on takes nothing out and puts nothing
    /// in. No other station changes.
    pub fn move_subscription(&mut self, old_index: Option<u16>, new_index: u16, endpoint: Endpoint)
        requires
            old(self).wf(),
            new_index < old(self)@.len(),
            old_index matches Some(index) ==> index < old(self)@.len(),
        ensures
            final(self).wf(),
            final(self)@ == moved(old(self)@, old_index, new_index, endpoint),
    {
        let ghost before = self@;
        proof {
            lemma_with_listener(before[new_index as int].listeners, endpoint);
        }
        if let Some(index) = old_index {
            if index != new_index {
                proof {
                    lemma_without_listener(before[index as int].listeners, endpoint);
                }
                self.stations[index as usize].unsubscribe(endpoint);
            }
        }
        self.stations[new_index as usize].subscribe(endpoint);
        assert(self@ =~= moved(before, old_index, new_index, endpoint));
    }
}

/// Whether every station's listeners form a set.
pub open spec fn all_sets(stations: Seq<StationView>) -> bool {
    forall|index: int| 0 <= index < stations.len() ==> #[trigger] stations[index].listeners.no_duplicates()
}

/// A move changes listeners and nothing else: the stations, their order
/// and their files stay.
pub proof fn lemma_moved_keeps_stations(
    stations: Seq<StationView>,
    old_index: Option<u16>,
    new_index: u16,
    endpoint: Endpoint,
)
    ensures
        moved(stations, old_index, new_index, endpoint).len() == stations.len(),
        forall|index: int|
            0 <= index < stations.len() ==> (#[trigger] moved(
                stations,
                old_index,
                new_index,
                endpoint,
            )[index]).song_path == stations[index].song_path,
{
}

/// Exclusivity of a move: an endpoint that listened to station `old_index`
/// and no other (to none, where `old_index` is `None`) listens after the
/// move to station `new_index` and no other, and stands there once.
pub proof fn lemma_moved_tunes(
    stations: Seq<StationView>,
    old_index: Option<u16>,
    new_index: u16,
    endpoint: Endpoint,
)
    requires
        all_sets(stations),
        new_index < stations.len(),
        tuned_to(stations, endpoint, old_index),
    ensures
        all_sets(moved(stations, old_index, new_index, endpoint)),
        tuned_to(moved(stations, old_index, new_index, endpoint), endpoint, Some(new_index)),
{
    let after = moved(stations, old_index, new_index, endpoint);
    assert forall|index: int| 0 <= index < after.len() implies #[trigger] after[index].listeners.no_duplicates() by {
        assert(stations[index].listeners.no_duplicates());
        lemma_with_listener(stations[index].listeners, endpoint);
        lemma_without_listener(stations[index].listeners, endpoint);
    }
    assert forall|index: int| 0 <= index < after.len() implies (#[trigger] after[index].listeners.contains(
        endpoint,
    ) <==> names(Some(new_index), index)) by {
        assert(stations[index].listeners.no_duplicates());
        assert(stations[index].listeners.contains(endpoint) <==> names(old_index, index));
        lemma_with_listener(stations[index].listeners, endpoint);
        lemma_without_listener(stations[index].listeners, endpoint);
    }
}

/// A move leaves every other endpoint where it was.
pub proof fn lemma_moved_spares_others(
    stations: Seq<StationView>,
    old_index: Option<u16>,
    new_index: u16,
    endpoint: Endpoint,
    other: Endpoint,
    index: int,
)
    requires
        all_sets(stations),
        other != endpoint,
    ensures
        listens_to(moved(stations, old_index, new_index, endpoint), index, other) <==> listens_to(
            stations,
            index,
            other,
        ),
{
    if 0 <= index < stations.len() {
        assert(stations[index].listeners.no_duplicates());
        lemma_with_listener(stations[index].listeners, endpoint);
        lemma_without_listener(stations[index].listeners, endpoint);
    }
}

/// Where no endpoint listened to two stations, and the endpoint that moves
/// listened to station `old_index` alone (or to none), no endpoint listens
/// to two stations after the move.
pub proof fn lemma_moved_keeps_exclusive(
    stations: Seq<StationView>,
    old_index: Option<u16>,
    new_index: u16,
    endpoint: Endpoint,
)
    requires
        all_sets(stations),
        new_index < stations.len(),
        exclusive(stations),
        tuned_to(stations, endpoint, old_index),
    ensures
        exclusive(moved(stations, old_index, new_index, endpoint)),
{
    let after = moved(stations, old_index, new_index, endpoint);
    lemma_moved_tunes(stations, old_index, new_index, endpoint);
    assert forall|other: Endpoint, a: int, b: int|
        #[trigger] listens_to(after, a, other) && #[trigger] listens_to(after, b, other) implies a
        == b by {
        if other == endpoint {
            assert(after[a].listeners.contains(endpoint));
            assert(after[b].listeners.contains(endpoint));
        } else {
            lemma_moved_spares_others(stations, old_index, new_index, endpoint, other, a);
            lemma_moved_spares_others(stations, old_index, new_index, endpoint, other, b);
            assert(listens_to(stations, a, other) && listens_to(stations, b, other));
        }
    }
}

/// Switching: after an endpoint joined station `first` and then moved from
/// it to another station `second`, station `first` does not hold it and
/// station `second` holds it at exactly one place.
pub proof fn lemma_switch(stations: Seq<StationView>, first: u16, second: u16, endpoint: Endpoint)
    requires
        all_sets(stations),
        first < stations.len(),
        second < stations.len(),
        first != second,
    ensures
        ({
            let joined = moved(stations, None, first, endpoint);
            let switched = moved(joined, Some(first), second, endpoint);
            &&& !switched[first as int].listeners.contains(endpoint)
            &&& switched[second as int].listeners.contains(endpoint)
            &&& switched[second as int].listeners.no_duplicates()
        }),
{
    let joined = moved(stations, None, first, endpoint);
    assert(stations[first as int].listeners.no_duplicates());
    assert(stations[second as int].listeners.no_duplicates());
    lemma_with_listener(stations[first as int].listeners, endpoint);
    lemma_with_listener(stations[second as int].listeners, endpoint);
    lemma_without_listener(joined[first as int].listeners, endpoint);
}

/// Subscribing twice is subscribing once: the second time changes nothing,
/// and the endpoint stands among the listeners at exactly one place.
pub proof fn lemma_subscribe_twice(station: StationView, endpoint: Endpoint)
    requires
        station.listeners.no_duplicates(),
    ensures
        station.subscribed(endpoint).subscribed(endpoint) == station.subscribed(endpoint),
        station.subscribed(endpoint).listeners.contains(endpoint),
        station.subscribed(endpoint).listeners.no_duplicates(),
{
    lemma_with_listener(station.listeners, endpoint);
}

} // verus!
