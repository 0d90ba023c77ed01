//! The playback of one station: a cursor that walks its source chunk by
//! chunk, at a fixed pace, and starts over at the end, for ever.
//!
//! The source itself stays with the caller. Before each turn the caller
//! asks [`Playback::wanted`] which bytes come next, reads them, and hands
//! what it got to [`play_song_loop`], which answers with the datagram to
//! send, the endpoints to send it to, and the time at which the next turn
//! is due. Whether anybody listens makes no difference to the cursor.

use crate::registry::{Endpoint, Registry, StationView};
use vstd::prelude::*;

verus! {

/// Length in bytes of every datagram of the data channel.
pub const CHUNK_SIZE: usize = 1024;

/// Time from one chunk to the next, in microseconds: 1024 bytes every
/// 62500 microseconds are 16384 bytes a second.
pub const TICK_MICROS: u64 = 62_500;

/// Where a playback stands.
pub ghost struct PlaybackView {
    /// Length of the source in bytes.
    pub source_len: nat,
    /// Offset in the source of the chunk that comes next.
    pub cursor: nat,
    /// How many chunks were played so far.
    pub ticks: nat,
    /// Whether the playback has stopped for good after a failed read.
    pub halted: bool,
}

/// The read cursor of one station.
#[derive(Clone, Copy, Debug, PartialEq, Eq)]
pub struct Playback {
    source_len: u64,
    cursor: u64,
    ticks: u64,
    halted: bool,
}

/// The bytes of the source that the caller is to read for the next chunk.
#[derive(Clone, Copy, Debug, PartialEq, Eq)]
pub struct ReadRequest {
    /// Offset in the source of the first byte.
    pub offset: u64,
    /// How many bytes: `CHUNK_SIZE`, or what is left of the source.
    pub len: usize,
}

/// What one turn of a station's loop gives the caller to do.
#[derive(Debug, PartialEq, Eq)]
pub struct Broadcast {
    /// The datagram: `CHUNK_SIZE` bytes.
    pub chunk: Vec<u8>,
    /// The endpoints to send it to, each once.
    pub recipients: Vec<Endpoint>,
    /// When the next turn is due, in microseconds after the first.
    pub next_due_micros: u64,
}

impl View for Playback {
    type V = PlaybackView;

    closed spec fn view(&self) -> PlaybackView {
        PlaybackView {
            source_len: self.source_len as nat,
            cursor: self.cursor as nat,
            ticks: self.ticks as nat,
            halted: self.halted,
        }
    }
}

/// `data`, cut or filled with zeros to `CHUNK_SIZE` bytes.
pub open spec fn padded(data: Seq<u8>) -> Seq<u8> {
    Seq::new(
        CHUNK_SIZE as nat,
        |i: int|
            if i < data.len() {
                data[i]
            } else {
                0u8
            },
    )
}

/// When turn number `ticks` is due, in microseconds after the first: turns
/// are `TICK_MICROS` apart, counted from the start and not from one
/// another, so that no delay adds up. Past the end of `u64` it stays there.
pub open spec fn due_micros(ticks: nat) -> nat {
    if ticks * TICK_MICROS <= u64::MAX {
        (ticks * TICK_MICROS) as nat
    } else {
        u64::MAX as nat
    }
}

impl PlaybackView {
    /// A playback at the start of a source of `source_len` bytes.
    pub open spec fn fresh(source_len: nat) -> PlaybackView {
        PlaybackView { source_len, cursor: 0, ticks: 0, halted: false }
    }

    /// What holds of every playback: the cursor is inside the source, or at
    /// its start where the source is empty.
    pub open spec fn wf(self) -> bool {
        &&& self.source_len <= u64::MAX
        &&& self.ticks <= u64::MAX
        &&& self.cursor == 0 || self.cursor < self.source_len
    }

    /// How many bytes the next chunk takes from the source: a whole chunk,
    /// or what is left.
    pub open spec fn wanted_len(self) -> nat {
        if self.source_len - self.cursor >= CHUNK_SIZE {
            CHUNK_SIZE as nat
        } else {
            (self.source_len - self.cursor) as nat
        }
    }

    /// The playback after one chunk: the cursor is behind the chunk, or
    /// back at the start where the chunk reached the end of the source.
    pub open spec fn advanced(self) -> PlaybackView {
        PlaybackView {
            cursor: if self.cursor + CHUNK_SIZE < self.source_len {
                (self.cursor + CHUNK_SIZE) as nat
            } else {
                0
            },
            ticks: if self.ticks < u64::MAX {
                (self.ticks + 1) as nat
            } else {
                self.ticks
            },
            ..self
        }
    }

    /// The playback after a failed read.
    pub open spec fn stopped(self) -> PlaybackView {
        PlaybackView { halted: true, ..self }
    }

    /// One turn: the playback and the datagram after the caller's read
    /// gave `read` (`None`: the read failed). A read that gave the bytes
    /// wanted yields them as a chunk, filled up with zeros where the source
    /// ended, and moves the cursor. Any other read stops the playback for
    /// good: it yields nothing, then and ever after.
    pub open spec fn tick(self, read: Option<Seq<u8>>) -> (PlaybackView, Option<Seq<u8>>) {
        if self.halted {
            (self, None)
        } else {
            match read {
                Some(data) => if data.len() == self.wanted_len() {
                    (self.advanced(), Some(padded(data)))
                } else {
                    (self.stopped(), None)
                },
                None => (self.stopped(), None),
            }
        }
    }
}

impl Playback {
    /// A playback at the start of a source of `source_len` bytes.
    pub fn new(source_len: u64) -> (playback: Playback)
        ensures
            playback@ == PlaybackView::fresh(source_len as nat),
            playback@.wf(),
    {
        Playback { source_len, cursor: 0, ticks: 0, halted: false }
    }

    /// Offset in the source of the chunk that comes next.
    pub fn cursor(&self) -> (cursor: u64)
        ensures
            cursor == self@.cursor,
    {
        self.cursor
    }

    /// Length of the source in bytes.
    pub fn source_len(&self) -> (len: u64)
        ensures
            len == self@.source_len,
    {
        self.source_len
    }

    /// How many chunks were played so far.
    pub fn ticks(&self) -> (ticks: u64)
        ensures
            ticks == self@.ticks,
    {
        self.ticks
    }

    /// Whether the playback has stopped for good.
    pub fn is_halted(&self) -> (halted: bool)
        ensures
            halted == self@.halted,
    {
        self.halted
    }

    /// The bytes that the caller is to read for the next chunk.
    pub fn wanted(&self) -> (request: ReadRequest)
        requires
            self@.wf(),
        ensures
            request.offset == self@.cursor,
            request.len == self@.wanted_len(),
            request.offset + request.len <= self@.source_len,
    {
        let left: u64 = self.source_len - self.cursor;
        let len: usize = if left >= CHUNK_SIZE as u64 {
            CHUNK_SIZE
        } else {
            left as usize
        };
        ReadRequest { offset: self.cursor, len }
    }
}

/// When turn number `ticks` is due, in microseconds after the first.
fn due_after(ticks: u64) -> (due: u64)
    ensures
        due == due_micros(ticks as nat),
{
    if ticks <= u64::MAX / TICK_MICROS {
        assert(ticks * TICK_MICROS <= u64::MAX) by (nonlinear_arith)
            requires
                ticks <= u64::MAX / TICK_MICROS,
        ;
        ticks * TICK_MICROS
    } else {
        assert(ticks * TICK_MICROS > u64::MAX) by (nonlinear_arith)
            requires
                ticks > u64::MAX / TICK_MICROS,
        ;
        u64::MAX
    }
}

/// Plays the next chunk of a station: takes what the caller read at
/// [`Playback::wanted`] (`None`: the read failed) and gives the datagram,
/// or nothing where the playback has stopped or stops now.
pub fn play_song_chunk(playback: &mut Playback, read: Option<&[u8]>) -> (chunk: Option<Vec<u8>>)
    requires
        old(playback)@.wf(),
    ensures
        final(playback)@.wf(),
        final(playback)@ == old(playback)@.tick(
            match read {
                Some(data) => Some(data@),
                None => None,
            },
        ).0,
        match chunk {
            Some(bytes) => Some(bytes@),
            None => None,
        } == old(playback)@.tick(
            match read {
                Some(data) => Some(data@),
                None => None,
            },
        ).1,
{
    if playback.halted {
        return None;
    }
    let request = playback.wanted();
    match read {
        Some(data) => {
            if data.len() != request.len {
                playback.halted = true;
                return None;
            }
            let mut bytes: Vec<u8> = Vec::new();
            let mut i: usize = 0;
            while i < CHUNK_SIZE
                invariant
                    i <= CHUNK_SIZE,
                    bytes@.len() == i,
                    forall|j: int| 0 <= j < i ==> bytes@[j] == padded(data@)[j],
                decreases CHUNK_SIZE - i,
            {
                let byte: u8 = if i < data.len() {
                    data[i]
                } else {
                    0
                };
                bytes.push(byte);
                i += 1;
            }
            assert(bytes@ =~= padded(data@));
            if playback.source_len - playback.cursor > CHUNK_SIZE as u64 {
                playback.cursor = playback.cursor + CHUNK_SIZE as u64;
            } else {
                playback.cursor = 0;
            }
            if playback.ticks < u64::MAX {
                playback.ticks = playback.ticks + 1;
            }
            Some(bytes)
        },
        None => {
            playback.halted = true;
            None
        },
    }
}

/// One turn of the loop of station `station`: plays the next chunk from
/// what the caller read, and addresses it to the station's listeners as
/// they are now. The cursor moves the same whether anybody listens or not.
/// Nothing comes back where the playback has stopped or stops now: the
/// station's loop is then over.
pub fn play_song_loop(
    playback: &mut Playback,
    registry: &Registry,
    station: u16,
    read: Option<&[u8]>,
) -> (turn: Option<Broadcast>)
    requires
        old(playback)@.wf(),
        station < registry@.len(),
    ensures
        final(playback)@.wf(),
        final(playback)@ == old(playback)@.tick(
            match read {
                Some(data) => Some(data@),
                None => None,
            },
        ).0,
        match turn {
            Some(broadcast) => Some(broadcast.chunk@),
            None => None,
        } == old(playback)@.tick(
            match read {
                Some(data) => Some(data@),
                None => None,
            },
        ).1,
        turn matches Some(broadcast) ==> broadcast.recipients@ == registry@[station as int].listeners
            && broadcast.next_due_micros == due_micros(final(playback)@.ticks),
{
    match play_song_chunk(playback, read) {
        Some(chunk) => Some(
            Broadcast {
                chunk,
                recipients: registry.snapshot_listeners(station),
                next_due_micros: due_after(playback.ticks),
            },
        ),
        None => None,
    }
}

/// Starts the playback of every station: one cursor for each source, in
/// the stations' order, each at the start of its source.
pub fn play_all_loops(source_lens: &Vec<u64>) -> (loops: Vec<Playback>)
    ensures
        loops@.len() == source_lens@.len(),
        forall|i: int|
            0 <= i < loops@.len() ==> (#[trigger] loops@[i])@ == PlaybackView::fresh(
                source_lens@[i] as nat,
            ) && loops@[i]@.wf(),
{
    let mut loops: Vec<Playback> = Vec::new();
    let mut i: usize = 0;
    while i < source_lens.len()
        invariant
            i <= source_lens@.len(),
            loops@.len() == i,
            forall|j: int|
                0 <= j < i ==> (#[trigger] loops@[j])@ == PlaybackView::fresh(source_lens@[j] as nat)
                    && loops@[j]@.wf(),
        decreases source_lens@.len() - i,
    {
        loops.push(Playback::new(source_lens[i]));
        i += 1;
    }
    loops
}

/// What a caller that reads as asked hands to the playback: the bytes of
/// `source` from the cursor on, as many as are wanted.
pub open spec fn faithful_read(source: Seq<u8>, playback: PlaybackView) -> Option<Seq<u8>> {
    Some(source.subrange(playback.cursor as int, (playback.cursor + playback.wanted_len()) as int))
}

/// The playback of `source` after `turns` turns, each fed by a caller that
/// reads as asked.
pub open spec fn after_turns(source: Seq<u8>, turns: nat) -> PlaybackView
    decreases turns,
{
    if turns == 0 {
        PlaybackView::fresh(source.len())
    } else {
        let before = after_turns(source, (turns - 1) as nat);
        before.tick(faithful_read(source, before)).0
    }
}

/// The datagram of turn number `turn` of the playback of `source`, turns
/// counted from 0.
pub open spec fn datagram(source: Seq<u8>, turn: nat) -> Option<Seq<u8>> {
    let before = after_turns(source, turn);
    before.tick(faithful_read(source, before)).1
}

/// How many chunks a source of `source_len` bytes has, the last one
/// perhaps short. An empty source has one chunk, of zeros.
pub open spec fn chunk_count(source_len: nat) -> nat {
    if source_len == 0 {
        1
    } else {
        ((source_len + CHUNK_SIZE - 1) / CHUNK_SIZE as int) as nat
    }
}

/// Chunk number `index` of `source`: its bytes from `index * CHUNK_SIZE`
/// on, filled up with zeros where the source ends.
pub open spec fn source_chunk(source: Seq<u8>, index: nat) -> Seq<u8> {
    Seq::new(
        CHUNK_SIZE as nat,
        |i: int|
            if index * CHUNK_SIZE + i < source.len() {
                source[index * CHUNK_SIZE + i]
            } else {
                0u8
            },
    )
}

/// The first round: turn number `turn`, while the source lasts, finds the
/// cursor at chunk `turn` and sends that chunk; `turn` chunks were played
/// before it and the playback has not stopped.
pub proof fn lemma_first_round(source: Seq<u8>, turn: nat)
    requires
        source.len() <= u64::MAX,
        turn < chunk_count(source.len()),
    ensures
        after_turns(source, turn) == (PlaybackView {
            source_len: source.len(),
            cursor: (turn * CHUNK_SIZE) as nat,
            ticks: turn,
            halted: false,
        }),
        after_turns(source, turn).wf(),
        datagram(source, turn) == Some(source_chunk(source, turn)),
    decreases turn,
{
    if turn > 0 {
        lemma_first_round(source, (turn - 1) as nat);
    }
    let here = after_turns(source, turn);
    assert(here.cursor == turn * CHUNK_SIZE);
    let read = faithful_read(source, here)->Some_0;
    assert(read.len() == here.wanted_len());
    assert(padded(read) =~= source_chunk(source, turn));
}

/// Looping: after the last chunk of the source the cursor is back at its
/// start, and the playback goes on.
pub proof fn lemma_round_ends(source: Seq<u8>)
    requires
        source.len() <= u64::MAX,
    ensures
        after_turns(source, chunk_count(source.len())).cursor == 0,
        after_turns(source, chunk_count(source.len())).source_len == source.len(),
        !after_turns(source, chunk_count(source.len())).halted,
{
    let last = (chunk_count(source.len()) - 1) as nat;
    lemma_first_round(source, last);
    let before = after_turns(source, last);
    let read = faithful_read(source, before)->Some_0;
    assert(read.len() == before.wanted_len());
    assert(after_turns(source, chunk_count(source.len())) == before.tick(Some(read)).0);
}

/// Whether two playbacks stand at the same place of the same source.
pub open spec fn same_place(a: PlaybackView, b: PlaybackView) -> bool {
    a.source_len == b.source_len && a.cursor == b.cursor && a.halted == b.halted
}

/// Looping, for ever: a whole round later the playback stands where it
/// stood and sends what it sent.
pub proof fn lemma_rounds_repeat(source: Seq<u8>, turn: nat)
    requires
        source.len() <= u64::MAX,
    ensures
        same_place(
            after_turns(source, turn + chunk_count(source.len())),
            after_turns(source, turn),
        ),
        datagram(source, turn + chunk_count(source.len())) == datagram(source, turn),
    decreases turn,
{
    let round = chunk_count(source.len());
    if turn == 0 {
        lemma_round_ends(source);
    } else {
        lemma_rounds_repeat(source, (turn - 1) as nat);
        assert((turn - 1) as nat + round == (turn + round - 1) as nat);
    }
}

/// Looping playback of a source of exactly `chunks` chunks: every one of
/// the first `chunks + 1` turns sends a datagram; turn number `chunks`,
/// the one after the last chunk, sends the first chunk again; and after it
/// `chunks + 1` datagrams were sent.
pub proof fn lemma_loops_back(source: Seq<u8>, chunks: nat)
    requires
        source.len() <= u64::MAX,
        chunks >= 1,
        source.len() == chunks * CHUNK_SIZE,
    ensures
        forall|turn: nat| turn <= chunks ==> (#[trigger] datagram(source, turn)) is Some,
        forall|turn: nat|
            turn < chunks ==> #[trigger] datagram(source, turn) == Some(
                source.subrange(turn * CHUNK_SIZE, (turn + 1) * CHUNK_SIZE),
            ),
        datagram(source, chunks) == datagram(source, 0),
        after_turns(source, chunks + 1).ticks == chunks + 1,
{
    assert(chunk_count(source.len()) == chunks);
    lemma_rounds_repeat(source, 0);
    assert forall|turn: nat| turn < chunks implies #[trigger] datagram(source, turn) == Some(
        source.subrange(turn * CHUNK_SIZE, (turn + 1) * CHUNK_SIZE),
    ) by {
        lemma_first_round(source, turn);
        assert(source_chunk(source, turn) =~= source.subrange(
            turn * CHUNK_SIZE,
            (turn + 1) * CHUNK_SIZE,
        ));
    }
    assert(datagram(source, 0) is Some);
    lemma_round_ends(source);
    lemma_first_round(source, (chunks - 1) as nat);
    let back = after_turns(source, chunks);
    assert(back.ticks == chunks);
    let read = faithful_read(source, back)->Some_0;
    assert(read.len() == back.wanted_len());
    assert(after_turns(source, chunks + 1) == back.tick(Some(read)).0);
}

/// Joining late: a station plays on while nobody listens, so that who
/// joins after `turns` turns, the source not yet at its end, hears chunk
/// `turns` next and not the start of the file.
pub proof fn lemma_joining_late(source: Seq<u8>, turns: nat)
    requires
        source.len() <= u64::MAX,
        0 < turns < chunk_count(source.len()),
    ensures
        after_turns(source, turns).cursor == turns * CHUNK_SIZE,
        after_turns(source, turns).cursor != 0,
        datagram(source, turns) == Some(source_chunk(source, turns)),
{
    lemma_first_round(source, turns);
}

} // verus!
