use snowcast::playback::{
    play_all_loops, play_song_chunk, play_song_loop, Playback, ReadRequest, CHUNK_SIZE, TICK_MICROS,
};
use snowcast::registry::{Endpoint, Registry, Station};

fn source(chunks: usize, extra: usize) -> Vec<u8> {
    (0..chunks * CHUNK_SIZE + extra).map(|i| (i / CHUNK_SIZE) as u8 * 16 + (i % 13) as u8 + 1).collect()
}

fn read<'a>(source: &'a [u8], playback: &Playback) -> &'a [u8] {
    let ReadRequest { offset, len } = playback.wanted();
    &source[offset as usize..offset as usize + len]
}

fn turn(source: &[u8], playback: &mut Playback) -> Vec<u8> {
    let data = read(source, playback);
    play_song_chunk(playback, Some(data)).unwrap()
}

#[test]
fn the_pace_is_1024_bytes_every_62500_microseconds() {
    assert_eq!(CHUNK_SIZE, 1024);
    assert_eq!(TICK_MICROS, 62_500);
    assert_eq!(CHUNK_SIZE as u64 * 1_000_000 / TICK_MICROS, 16384);
}

#[test]
fn a_source_of_k_chunks_loops_back_after_k_turns() {
    for k in [1usize, 2, 3, 5] {
        let src = source(k, 0);
        let mut playback = Playback::new(src.len() as u64);
        let mut sent = Vec::new();
        for _ in 0..k + 1 {
            sent.push(turn(&src, &mut playback));
        }
        assert_eq!(sent.len(), k + 1);
        assert_eq!(playback.ticks(), k as u64 + 1);
        for (i, chunk) in sent.iter().take(k).enumerate() {
            assert_eq!(chunk.as_slice(), &src[i * CHUNK_SIZE..(i + 1) * CHUNK_SIZE]);
        }
        assert_eq!(sent[k], sent[0]);
    }
}

#[test]
fn the_cursor_walks_and_wraps() {
    let src = source(3, 0);
    let mut playback = Playback::new(src.len() as u64);
    assert_eq!(playback.source_len(), 3072);
    let mut cursors = Vec::new();
    for _ in 0..7 {
        cursors.push(playback.cursor());
        turn(&src, &mut playback);
    }
    assert_eq!(cursors, vec![0, 1024, 2048, 0, 1024, 2048, 0]);
}

#[test]
fn a_short_last_chunk_is_filled_with_zeros() {
    let src = source(1, 100);
    let mut playback = Playback::new(src.len() as u64);
    assert_eq!(playback.wanted(), ReadRequest { offset: 0, len: 1024 });
    let first = turn(&src, &mut playback);
    assert_eq!(first.as_slice(), &src[..1024]);
    assert_eq!(playback.wanted(), ReadRequest { offset: 1024, len: 100 });
    let second = turn(&src, &mut playback);
    assert_eq!(second.len(), 1024);
    assert_eq!(&second[..100], &src[1024..]);
    assert!(second[100..].iter().all(|&b| b == 0));
    assert_eq!(playback.cursor(), 0);
    assert_eq!(turn(&src, &mut playback), first);
}

#[test]
fn a_source_shorter_than_a_chunk_repeats_every_turn() {
    let src = vec![7u8; 10];
    let mut playback = Playback::new(10);
    for _ in 0..3 {
        assert_eq!(playback.wanted(), ReadRequest { offset: 0, len: 10 });
        let chunk = turn(&src, &mut playback);
        assert_eq!(&chunk[..10], &src[..]);
        assert!(chunk[10..].iter().all(|&b| b == 0));
    }
}

#[test]
fn an_empty_source_plays_zeros() {
    let mut playback = Playback::new(0);
    assert_eq!(playback.wanted(), ReadRequest { offset: 0, len: 0 });
    let chunk = play_song_chunk(&mut playback, Some(&[])).unwrap();
    assert_eq!(chunk, vec![0u8; 1024]);
    assert_eq!(playback.cursor(), 0);
    assert_eq!(playback.ticks(), 1);
}

#[test]
fn a_failed_read_stops_the_station_for_good() {
    let src = source(2, 0);
    let mut playback = Playback::new(src.len() as u64);
    turn(&src, &mut playback);
    assert_eq!(play_song_chunk(&mut playback, None), None);
    assert!(playback.is_halted());
    assert_eq!(playback.cursor(), 1024);
    assert_eq!(playback.ticks(), 1);
    let data = read(&src, &playback);
    assert_eq!(play_song_chunk(&mut playback, Some(data)), None);
    assert_eq!(playback.cursor(), 1024);
}

#[test]
fn a_read_of_the_wrong_length_stops_the_station() {
    let src = source(2, 0);
    let mut short = Playback::new(src.len() as u64);
    assert_eq!(play_song_chunk(&mut short, Some(&src[..1000])), None);
    assert!(short.is_halted());
    let mut long = Playback::new(src.len() as u64);
    assert_eq!(play_song_chunk(&mut long, Some(&src[..1025])), None);
    assert!(long.is_halted());
    assert_eq!(long.cursor(), 0);
}

fn registry(names: &[&str]) -> Registry {
    let stations: Vec<Station> =
        names.iter().map(|n| Station::new(n.to_string(), Vec::new()).unwrap()).collect();
    Registry::new(stations).unwrap()
}

#[test]
fn a_turn_addresses_the_chunk_to_the_listeners_of_its_station() {
    let a = Endpoint { host: 1, port: 10 };
    let b = Endpoint { host: 2, port: 20 };
    let c = Endpoint { host: 3, port: 30 };
    let mut reg = registry(&["songA", "songB"]);
    reg.subscribe(0, a);
    reg.subscribe(1, b);
    reg.subscribe(1, c);
    let src = source(2, 0);
    let mut playback = Playback::new(src.len() as u64);
    let data = read(&src, &playback);
    let first = play_song_loop(&mut playback, &reg, 1, Some(data)).unwrap();
    assert_eq!(first.chunk.as_slice(), &src[..1024]);
    assert_eq!(first.recipients, vec![b, c]);
    assert_eq!(first.next_due_micros, 62_500);
    reg.unsubscribe(1, b);
    let data = read(&src, &playback);
    let second = play_song_loop(&mut playback, &reg, 1, Some(data)).unwrap();
    assert_eq!(second.chunk.as_slice(), &src[1024..]);
    assert_eq!(second.recipients, vec![c]);
    assert_eq!(second.next_due_micros, 125_000);
}

#[test]
fn an_idle_station_plays_on() {
    let src = source(4, 0);
    let mut reg = registry(&["songA"]);
    let mut playback = Playback::new(src.len() as u64);
    for _ in 0..2 {
        let data = read(&src, &playback);
        let idle = play_song_loop(&mut playback, &reg, 0, Some(data)).unwrap();
        assert!(idle.recipients.is_empty());
    }
    let late = Endpoint { host: 9, port: 9 };
    reg.subscribe(0, late);
    let data = read(&src, &playback);
    let heard = play_song_loop(&mut playback, &reg, 0, Some(data)).unwrap();
    assert_eq!(heard.recipients, vec![late]);
    assert_eq!(heard.chunk.as_slice(), &src[2 * CHUNK_SIZE..3 * CHUNK_SIZE]);
    assert_ne!(heard.chunk.as_slice(), &src[..CHUNK_SIZE]);
}

#[test]
fn a_stopped_station_sends_nothing() {
    let reg = registry(&["songA"]);
    let mut playback = Playback::new(2048);
    assert_eq!(play_song_loop(&mut playback, &reg, 0, None), None);
    assert_eq!(play_song_loop(&mut playback, &reg, 0, Some(&[1u8; 1024])), None);
    assert!(playback.is_halted());
}

#[test]
fn every_station_starts_at_the_start_of_its_source() {
    let loops = play_all_loops(&vec![3072, 1024, 0]);
    assert_eq!(loops.len(), 3);
    assert_eq!(loops[0], Playback::new(3072));
    assert_eq!(loops[1], Playback::new(1024));
    assert_eq!(loops[2], Playback::new(0));
    assert!(loops.iter().all(|l| l.cursor() == 0 && l.ticks() == 0 && !l.is_halted()));
    assert!(play_all_loops(&Vec::new()).is_empty());
}
