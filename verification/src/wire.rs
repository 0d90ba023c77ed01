//! The control channel's wire format: five messages, each carried in one
//! frame of `FRAME_LEN` bytes.
//!
//! ```text
//! byte 0                tag (0..=4)
//! bytes 1-2 (tags 0-2)  payload, a big-endian u16
//! byte 1    (tags 3-4)  length L of the string that follows
//! bytes 2.. (tags 3-4)  the string region: L meaningful bytes, then padding
//! ```
//!
//! A sender fills the padding with zeros; a receiver ignores it whatever it
//! holds.

use byteorder::{ByteOrder, NetworkEndian};
use vstd::prelude::*;

verus! {

/// Length in bytes of every frame of the control channel.
pub const FRAME_LEN: usize = 258;

/// Size in bytes of the string region of a frame.
pub const TEXT_CAPACITY: usize = 256;

/// The longest string a frame can declare, as its length travels in one byte.
pub const MAX_TEXT_LEN: usize = 255;

/// Tag of `Hello`.
pub const TAG_HELLO: u8 = 0;

/// Tag of `SetStation`.
pub const TAG_SET_STATION: u8 = 1;

/// Tag of `Welcome`.
pub const TAG_WELCOME: u8 = 2;

/// Tag of `Announce`.
pub const TAG_ANNOUNCE: u8 = 3;

/// Tag of `InvalidCommand`.
pub const TAG_INVALID_COMMAND: u8 = 4;

/// A string as it travels: a declared length and the whole string region.
/// Only the first `len` bytes of `bytes` mean anything.
#[derive(Clone, Copy, Debug, PartialEq, Eq)]
pub struct Text {
    pub len: u8,
    pub bytes: [u8; TEXT_CAPACITY],
}

/// One message of the control channel.
#[derive(Clone, Copy, Debug, PartialEq, Eq)]
pub enum Message {
    /// Client to server: where the client listens for audio.
    Hello { udp_port: u16 },
    /// Client to server: the station to listen to.
    SetStation { station_number: u16 },
    /// Server to client: how many stations there are.
    Welcome { station_count: u16 },
    /// Server to client: what the selected station plays.
    Announce { song_name: Text },
    /// Server to client: why the connection is being closed.
    InvalidCommand { reason: Text },
}

/// What a message means, padding left aside.
pub ghost enum MessageView {
    Hello { udp_port: u16 },
    SetStation { station_number: u16 },
    Welcome { station_count: u16 },
    Announce { song_name: Seq<u8> },
    InvalidCommand { reason: Seq<u8> },
}

/// Why a buffer is not a message.
#[derive(Clone, Copy, Debug, PartialEq, Eq)]
pub enum DecodeError {
    /// The buffer is not `FRAME_LEN` bytes long.
    WrongLength,
    /// Byte 0 is none of the five tags.
    UnknownTag,
}

/// The number that two bytes spell in network byte order.
pub open spec fn be_u16(hi: u8, lo: u8) -> u16 {
    (hi as int * 256 + lo as int) as u16
}

/// `bytes` cut to at most `MAX_TEXT_LEN` bytes.
pub open spec fn clipped(bytes: Seq<u8>) -> Seq<u8> {
    if bytes.len() <= MAX_TEXT_LEN {
        bytes
    } else {
        bytes.take(MAX_TEXT_LEN as int)
    }
}

/// The frame of a message that carries a number.
pub open spec fn numeric_frame(tag: u8, value: u16) -> Seq<u8> {
    Seq::new(
        FRAME_LEN as nat,
        |i: int|
            if i == 0 {
                tag
            } else if i == 1 {
                (value / 256) as u8
            } else if i == 2 {
                (value % 256) as u8
            } else {
                0u8
            },
    )
}

/// The frame of a message that carries a string of at most `MAX_TEXT_LEN`
/// bytes: the padding is zero.
pub open spec fn text_frame(tag: u8, text: Seq<u8>) -> Seq<u8> {
    Seq::new(
        FRAME_LEN as nat,
        |i: int|
            if i == 0 {
                tag
            } else if i == 1 {
                text.len() as u8
            } else if i - 2 < text.len() {
                text[i - 2]
            } else {
                0u8
            },
    )
}

/// The frame that carries `message`.
pub open spec fn frame_of(message: MessageView) -> Seq<u8> {
    match message {
        MessageView::Hello { udp_port } => numeric_frame(TAG_HELLO, udp_port),
        MessageView::SetStation { station_number } => numeric_frame(TAG_SET_STATION, station_number),
        MessageView::Welcome { station_count } => numeric_frame(TAG_WELCOME, station_count),
        MessageView::Announce { song_name } => text_frame(TAG_ANNOUNCE, song_name),
        MessageView::InvalidCommand { reason } => text_frame(TAG_INVALID_COMMAND, reason),
    }
}

/// The string that a frame with tag 3 or 4 declares: as many bytes of the
/// string region as byte 1 says.
pub open spec fn declared_text(frame: Seq<u8>) -> Seq<u8> {
    frame.subrange(2, 2 + frame[1] as int)
}

/// What a buffer means as a message, or why it means none.
pub open spec fn parse(frame: Seq<u8>) -> Result<MessageView, DecodeError> {
    if frame.len() != FRAME_LEN {
        Err(DecodeError::WrongLength)
    } else if frame[0] == TAG_HELLO {
        Ok(MessageView::Hello { udp_port: be_u16(frame[1], frame[2]) })
    } else if frame[0] == TAG_SET_STATION {
        Ok(MessageView::SetStation { station_number: be_u16(frame[1], frame[2]) })
    } else if frame[0] == TAG_WELCOME {
        Ok(MessageView::Welcome { station_count: be_u16(frame[1], frame[2]) })
    } else if frame[0] == TAG_ANNOUNCE {
        Ok(MessageView::Announce { song_name: declared_text(frame) })
    } else if frame[0] == TAG_INVALID_COMMAND {
        Ok(MessageView::InvalidCommand { reason: declared_text(frame) })
    } else {
        Err(DecodeError::UnknownTag)
    }
}

impl View for Text {
    type V = Seq<u8>;

    /// The meaningful bytes.
    open spec fn view(&self) -> Seq<u8> {
        self.bytes@.take(self.len as int)
    }
}

impl View for Message {
    type V = MessageView;

    open spec fn view(&self) -> MessageView {
        match *self {
            Message::Hello { udp_port } => MessageView::Hello { udp_port },
            Message::SetStation { station_number } => MessageView::SetStation { station_number },
            Message::Welcome { station_count } => MessageView::Welcome { station_count },
            Message::Announce { song_name } => MessageView::Announce { song_name: song_name@ },
            Message::InvalidCommand { reason } => MessageView::InvalidCommand { reason: reason@ },
        }
    }
}

impl MessageView {
    /// The tag that announces this message on the wire.
    pub open spec fn tag(self) -> u8 {
        match self {
            MessageView::Hello { .. } => TAG_HELLO,
            MessageView::SetStation { .. } => TAG_SET_STATION,
            MessageView::Welcome { .. } => TAG_WELCOME,
            MessageView::Announce { .. } => TAG_ANNOUNCE,
            MessageView::InvalidCommand { .. } => TAG_INVALID_COMMAND,
        }
    }

    /// Whether a frame can carry this message: its string, if it has one,
    /// is at most `MAX_TEXT_LEN` bytes long.
    pub open spec fn fits(self) -> bool {
        match self {
            MessageView::Announce { song_name } => song_name.len() <= MAX_TEXT_LEN,
            MessageView::InvalidCommand { reason } => reason.len() <= MAX_TEXT_LEN,
            _ => true,
        }
    }
}

/// Reads a big-endian `u16` from the first two bytes of `buf` by
/// `byteorder::ByteOrder::read_u16` of `NetworkEndian`. The outside function
/// panics on a shorter buffer, which `requires` leaves out; its result is
/// `u16::from_be_bytes` of those two bytes, which the contract spells out.
#[verifier::external_body]
fn read_u16_be(buf: &[u8]) -> (value: u16)
    requires
        buf@.len() >= 2,
    ensures
        value == be_u16(buf@[0], buf@[1]),
{
    NetworkEndian::read_u16(buf)
}

impl Text {
    /// Whether the padding is zero, as a sender's has to be.
    pub open spec fn zero_padded(&self) -> bool {
        forall|i: int| self.len <= i < TEXT_CAPACITY ==> self.bytes@[i] == 0
    }

    /// The empty string, in a zeroed region.
    pub fn empty() -> (text: Text)
        ensures
            text@ == Seq::<u8>::empty(),
            text.zero_padded(),
    {
        Text { len: 0, bytes: [0u8; TEXT_CAPACITY] }
    }

    /// The string `src`, cut to `MAX_TEXT_LEN` bytes if it is longer, in a
    /// region whose padding is zero.
    pub fn from_bytes(src: &[u8]) -> (text: Text)
        ensures
            text@ == clipped(src@),
            text.zero_padded(),
    {
        let n: usize = if src.len() <= MAX_TEXT_LEN {
            src.len()
        } else {
            MAX_TEXT_LEN
        };
        let mut bytes = [0u8; TEXT_CAPACITY];
        let mut i: usize = 0;
        while i < n
            invariant
                i <= n <= MAX_TEXT_LEN,
                n <= src@.len(),
                forall|j: int| 0 <= j < i ==> bytes@[j] == src@[j],
                forall|j: int| i <= j < TEXT_CAPACITY ==> bytes@[j] == 0,
            decreases n - i,
        {
            bytes[i] = src[i];
            i += 1;
        }
        let text = Text { len: n as u8, bytes };
        assert(text@ =~= clipped(src@));
        text
    }

    /// The meaningful bytes, copied out.
    pub fn to_vec(&self) -> (content: Vec<u8>)
        ensures
            content@ == self@,
    {
        let n: usize = self.len as usize;
        let mut content: Vec<u8> = Vec::new();
        let mut i: usize = 0;
        while i < n
            invariant
                i <= n == self.len,
                content@ == self.bytes@.take(i as int),
            decreases n - i,
        {
            content.push(self.bytes[i]);
            i += 1;
            assert(self.bytes@.take(i as int) =~= self.bytes@.take(i - 1).push(self.bytes@[i - 1]));
        }
        content
    }
}

impl Message {
    /// The message with tag `command`, built from a number for the tags that
    /// carry one and from a string for the others; the part that the tag
    /// does not call for is dropped. No message has a tag above 4.
    pub fn new(command: u8, data: u16, text: Text) -> (made: Result<Message, DecodeError>)
        ensures
            command > TAG_INVALID_COMMAND <==> made == Err::<Message, DecodeError>(
                DecodeError::UnknownTag,
            ),
            command == TAG_HELLO ==> made == Ok::<Message, DecodeError>(
                Message::Hello { udp_port: data },
            ),
            command == TAG_SET_STATION ==> made == Ok::<Message, DecodeError>(
                Message::SetStation { station_number: data },
            ),
            command == TAG_WELCOME ==> made == Ok::<Message, DecodeError>(
                Message::Welcome { station_count: data },
            ),
            command == TAG_ANNOUNCE ==> made == Ok::<Message, DecodeError>(
                Message::Announce { song_name: text },
            ),
            command == TAG_INVALID_COMMAND ==> made == Ok::<Message, DecodeError>(
                Message::InvalidCommand { reason: text },
            ),
    {
        if command == TAG_HELLO {
            Ok(Message::Hello { udp_port: data })
        } else if command == TAG_SET_STATION {
            Ok(Message::SetStation { station_number: data })
        } else if command == TAG_WELCOME {
            Ok(Message::Welcome { station_count: data })
        } else if command == TAG_ANNOUNCE {
            Ok(Message::Announce { song_name: text })
        } else if command == TAG_INVALID_COMMAND {
            Ok(Message::InvalidCommand { reason: text })
        } else {
            Err(DecodeError::UnknownTag)
        }
    }

    /// The tag that announces this message on the wire.
    pub fn tag(&self) -> (tag: u8)
        ensures
            tag == self@.tag(),
    {
        match self {
            Message::Hello { .. } => TAG_HELLO,
            Message::SetStation { .. } => TAG_SET_STATION,
            Message::Welcome { .. } => TAG_WELCOME,
            Message::Announce { .. } => TAG_ANNOUNCE,
            Message::InvalidCommand { .. } => TAG_INVALID_COMMAND,
        }
    }

    /// The frame that carries this message. Of a string only the meaningful
    /// bytes are sent: the padding goes out as zeros whatever the message's
    /// own region holds.
    pub fn encode(&self) -> (frame: [u8; FRAME_LEN])
        ensures
            frame@ == frame_of(self@),
    {
        let mut frame = [0u8; FRAME_LEN];
        frame[0] = self.tag();
        match self {
            Message::Hello { udp_port: value }
            | Message::SetStation { station_number: value }
            | Message::Welcome { station_count: value } => {
                frame[1] = (*value / 256) as u8;
                frame[2] = (*value % 256) as u8;
                assert(frame@ =~= frame_of(self@));
            },
            Message::Announce { song_name: text } | Message::InvalidCommand { reason: text } => {
                let n: usize = text.len as usize;
                frame[1] = text.len;
                let mut i: usize = 0;
                while i < n
                    invariant
                        i <= n == text.len,
                        frame@[0] == self@.tag(),
                        frame@[1] == text.len,
                        forall|j: int| 0 <= j < i ==> frame@[j + 2] == text.bytes@[j],
                        forall|j: int| i + 2 <= j < FRAME_LEN ==> frame@[j] == 0,
                    decreases n - i,
                {
                    frame[i + 2] = text.bytes[i];
                    i += 1;
                }
                assert(frame@ =~= text_frame(self@.tag(), text@));
            },
        }
        frame
    }

    /// The message that `frame` carries. Byte 0 decides: tags 0 to 2 carry a
    /// big-endian number in bytes 1 and 2; tags 3 and 4 carry a length in
    /// byte 1 and are given the whole string region as it came, padding
    /// included. Anything else is no message.
    pub fn decode(frame: &[u8]) -> (decoded: Result<Message, DecodeError>)
        ensures
            match decoded {
                Ok(message) => parse(frame@) == Ok::<MessageView, DecodeError>(message@),
                Err(error) => parse(frame@) == Err::<MessageView, DecodeError>(error),
            },
            decoded matches Ok(Message::Announce { song_name }) ==> song_name.bytes@
                == frame@.subrange(2, FRAME_LEN as int),
            decoded matches Ok(Message::InvalidCommand { reason }) ==> reason.bytes@
                == frame@.subrange(2, FRAME_LEN as int),
    {
        if frame.len() != FRAME_LEN {
            return Err(DecodeError::WrongLength);
        }
        let command: u8 = frame[0];
        if command <= TAG_WELCOME {
            let data: u16 = read_u16_be(&frame[1..3]);
            Message::new(command, data, Text::empty())
        } else if command <= TAG_INVALID_COMMAND {
            let mut bytes = [0u8; TEXT_CAPACITY];
            let mut i: usize = 0;
            while i < TEXT_CAPACITY
                invariant
                    i <= TEXT_CAPACITY,
                    frame@.len() == FRAME_LEN,
                    forall|j: int| 0 <= j < i ==> bytes@[j] == frame@[j + 2],
                decreases TEXT_CAPACITY - i,
            {
                bytes[i] = frame[i + 2];
                i += 1;
            }
            let text = Text { len: frame[1], bytes };
            assert(text.bytes@ =~= frame@.subrange(2, FRAME_LEN as int));
            assert(text@ =~= declared_text(frame@));
            Message::new(command, 0, text)
        } else {
            Err(DecodeError::UnknownTag)
        }
    }
}

/// Round trip: the frame of a message is `FRAME_LEN` bytes long, begins with
/// the message's tag, and parses back to what the message means: the same
/// variant, the same number, the same meaningful bytes of the same length.
pub proof fn lemma_decode_encode(message: Message)
    ensures
        frame_of(message@).len() == FRAME_LEN,
        frame_of(message@)[0] == message@.tag(),
        parse(frame_of(message@)) == Ok::<MessageView, DecodeError>(message@),
{
    lemma_parse_frame_of(message@);
}

/// Round trip on meanings: whatever fits in a frame parses back from its
/// frame unchanged.
pub proof fn lemma_parse_frame_of(message: MessageView)
    requires
        message.fits(),
    ensures
        frame_of(message).len() == FRAME_LEN,
        frame_of(message)[0] == message.tag(),
        parse(frame_of(message)) == Ok::<MessageView, DecodeError>(message),
{
    let frame = frame_of(message);
    match message {
        MessageView::Hello { udp_port: value }
        | MessageView::SetStation { station_number: value }
        | MessageView::Welcome { station_count: value } => {
            assert(be_u16(frame[1], frame[2]) == value);
        },
        MessageView::Announce { song_name: text } | MessageView::InvalidCommand { reason: text } => {
            assert(declared_text(frame) =~= text);
        },
    }
}

/// A buffer of the right length whose first byte is no tag is never a
/// message.
pub proof fn lemma_unknown_tag_is_rejected(frame: Seq<u8>)
    requires
        frame.len() == FRAME_LEN,
        frame[0] > TAG_INVALID_COMMAND,
    ensures
        parse(frame) == Err::<MessageView, DecodeError>(DecodeError::UnknownTag),
{
}

/// In a frame made by `frame_of`, every byte after the payload is zero.
pub proof fn lemma_frame_padding_is_zero(message: MessageView, i: int)
    requires
        message.fits(),
        0 <= i < FRAME_LEN,
        match message {
            MessageView::Announce { song_name } => i >= 2 + song_name.len(),
            MessageView::InvalidCommand { reason } => i >= 2 + reason.len(),
            _ => i >= 3,
        },
    ensures
        frame_of(message)[i] == 0,
{
}

} // verus!
