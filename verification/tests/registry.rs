use snowcast::registry::{Endpoint, Registry, RegistryError, Station, StationError};

fn ep(port: u16) -> Endpoint {
    Endpoint { host: 0x7f00_0001, port }
}

fn registry(names: &[&str]) -> Registry {
    let stations: Vec<Station> =
        names.iter().map(|n| Station::new(n.to_string(), Vec::new()).unwrap()).collect();
    Registry::new(stations).unwrap()
}

#[test]
fn a_station_starts_with_the_listeners_given() {
    let station = Station::new("songA".to_string(), vec![ep(1), ep(2)]).unwrap();
    assert_eq!(station.song_path(), "songA");
    assert_eq!(station.snapshot_listeners(), vec![ep(1), ep(2)]);
    assert!(station.is_listening(ep(2)));
    assert!(!station.is_listening(ep(3)));
}

#[test]
fn a_station_refuses_duplicate_listeners() {
    let made = Station::new("songA".to_string(), vec![ep(1), ep(2), ep(1)]);
    assert_eq!(made.err(), Some(StationError::DuplicateListener));
}

#[test]
fn endpoints_differ_by_host_or_port() {
    let a = Endpoint { host: 1, port: 9 };
    let b = Endpoint { host: 2, port: 9 };
    let mut station = Station::new("s".to_string(), vec![a]).unwrap();
    assert!(station.subscribe(b));
    assert_eq!(station.snapshot_listeners(), vec![a, b]);
}

#[test]
fn subscribing_twice_leaves_one_entry() {
    let mut station = Station::new("songA".to_string(), Vec::new()).unwrap();
    assert!(station.subscribe(ep(9001)));
    assert!(!station.subscribe(ep(9001)));
    assert_eq!(station.snapshot_listeners(), vec![ep(9001)]);

    let mut reg = registry(&["songA", "songB"]);
    reg.subscribe(0, ep(9001));
    reg.subscribe(0, ep(9001));
    assert_eq!(reg.snapshot_listeners(0), vec![ep(9001)]);
    assert_eq!(reg.snapshot_listeners(1), Vec::<Endpoint>::new());
}

#[test]
fn unsubscribing_takes_out_one_and_keeps_the_order() {
    let mut station = Station::new("s".to_string(), vec![ep(1), ep(2), ep(3)]).unwrap();
    assert!(station.unsubscribe(ep(2)));
    assert_eq!(station.snapshot_listeners(), vec![ep(1), ep(3)]);
    assert!(!station.unsubscribe(ep(2)));
    assert_eq!(station.snapshot_listeners(), vec![ep(1), ep(3)]);

    let mut reg = registry(&["a", "b"]);
    reg.subscribe(1, ep(5));
    reg.subscribe(1, ep(6));
    reg.unsubscribe(1, ep(5));
    assert_eq!(reg.snapshot_listeners(1), vec![ep(6)]);
    reg.unsubscribe(0, ep(6));
    assert_eq!(reg.snapshot_listeners(1), vec![ep(6)]);
}

#[test]
fn a_move_takes_the_endpoint_from_the_old_station_to_the_new() {
    let e = ep(9001);
    let mut reg = registry(&["songA", "songB"]);
    reg.move_subscription(None, 0, e);
    assert_eq!(reg.snapshot_listeners(0), vec![e]);
    reg.move_subscription(Some(0), 1, e);
    assert!(!reg.snapshot_listeners(0).contains(&e));
    assert_eq!(reg.snapshot_listeners(1).iter().filter(|x| **x == e).count(), 1);
}

#[test]
fn a_move_to_the_same_station_changes_nothing() {
    let mut reg = registry(&["songA", "songB"]);
    reg.move_subscription(None, 1, ep(1));
    reg.move_subscription(None, 1, ep(2));
    reg.move_subscription(Some(1), 1, ep(1));
    assert_eq!(reg.snapshot_listeners(1), vec![ep(1), ep(2)]);
    assert_eq!(reg.snapshot_listeners(0), Vec::<Endpoint>::new());
}

#[test]
fn a_move_spares_the_other_listeners() {
    let mut reg = registry(&["a", "b", "c"]);
    reg.subscribe(0, ep(1));
    reg.subscribe(0, ep(2));
    reg.subscribe(2, ep(3));
    reg.move_subscription(Some(0), 2, ep(1));
    assert_eq!(reg.snapshot_listeners(0), vec![ep(2)]);
    assert_eq!(reg.snapshot_listeners(1), Vec::<Endpoint>::new());
    assert_eq!(reg.snapshot_listeners(2), vec![ep(3), ep(1)]);
}

#[test]
fn stations_are_counted_and_named() {
    let reg = registry(&["songA", "songB", "songC"]);
    assert_eq!(reg.station_count(), 3);
    assert_eq!(reg.announced_name(0).to_vec(), b"songA");
    assert_eq!(reg.announced_name(2).to_vec(), b"songC");
    let none = registry(&[]);
    assert_eq!(none.station_count(), 0);
}

#[test]
fn a_long_name_is_announced_cut() {
    let long = "x".repeat(300);
    let station = Station::new(long.clone(), Vec::new()).unwrap();
    let name = station.announced_name();
    assert_eq!(name.len, 255);
    assert_eq!(name.to_vec(), long.as_bytes()[..255].to_vec());
    let utf8 = Station::new("chanson été".to_string(), Vec::new()).unwrap();
    assert_eq!(utf8.announced_name().to_vec(), "chanson été".as_bytes());
}

#[test]
fn a_registry_holds_at_most_65535_stations() {
    let many = |n: usize| -> Vec<Station> {
        (0..n).map(|_| Station::new(String::new(), Vec::new()).unwrap()).collect()
    };
    let full = Registry::new(many(65535)).unwrap();
    assert_eq!(full.station_count(), 65535);
    assert_eq!(Registry::new(many(65536)).err(), Some(RegistryError::TooManyStations));
}

#[test]
fn a_clone_of_a_station_is_its_own() {
    let mut station = Station::new("s".to_string(), vec![ep(1)]).unwrap();
    let copy = station.clone();
    station.subscribe(ep(2));
    assert_eq!(copy.snapshot_listeners(), vec![ep(1)]);
    assert_eq!(copy.song_path(), "s");
}
