use crate::event::{Channel, EventType, NoteState, PianoEvent, Velocity};
use crate::event::{NOTE_OFF_STATUS, NOTE_ON_STATUS};
use crate::note::{is_key_code, PianoKeyCode};
use vstd::prelude::*;

verus! {

/// The message kind of a status byte: its high nibble, in place.
pub open spec fn status_kind(status: u8) -> int {
    status / 16 * 16
}

/// The channel number of a status byte: its low nibble.
pub open spec fn status_channel(status: u8) -> u8 {
    (status % 16) as u8
}

/// What a raw message means. A message is a note event when it has at least
/// three bytes, its status byte is a note-on or a note-off on any channel, and
/// its second byte is a key of the instrument. The third byte is the velocity.
/// Every other message means nothing here.
pub open spec fn decode(bytes: Seq<u8>) -> Option<PianoEvent> {
    if bytes.len() < 3 {
        None
    } else if !is_key_code(bytes[1] as int) {
        None
    } else if status_kind(bytes[0]) == NOTE_ON_STATUS {
        Some(
            PianoEvent {
                event_type: EventType::Note(
                    NoteState::On,
                    PianoKeyCode::of_code(bytes[1]),
                    Velocity(bytes[2]),
                ),
                channel: Channel::of_number(status_channel(bytes[0])),
            },
        )
    } else if status_kind(bytes[0]) == NOTE_OFF_STATUS {
        Some(
            PianoEvent {
                event_type: EventType::Note(
                    NoteState::Off,
                    PianoKeyCode::of_code(bytes[1]),
                    Velocity(bytes[2]),
                ),
                channel: Channel::of_number(status_channel(bytes[0])),
            },
        )
    } else {
        None
    }
}

/// The three bytes that stand for a note event: the status byte made of the
/// event's state and channel, then the key code, then the velocity.
pub open spec fn encode(event: PianoEvent) -> Seq<u8> {
    seq![
        (event.state().status() + event.channel.number()) as u8,
        event.key().code(),
        event.velocity(),
    ]
}

/// A status byte made of a state and a channel gives both back.
pub proof fn lemma_status_parts(state: NoteState, channel: Channel)
    ensures
        state.status() + channel.number() <= u8::MAX,
        status_kind((state.status() + channel.number()) as u8) == state.status(),
        status_channel((state.status() + channel.number()) as u8) == channel.number(),
{
}

/// Decoding is the inverse of encoding: every note event comes back from its
/// own three bytes.
pub proof fn lemma_decode_encode(event: PianoEvent)
    ensures
        decode(encode(event)) == Some(event),
{
    lemma_status_parts(event.state(), event.channel);
    event.key().lemma_code_of_key();
    event.channel.lemma_number_of_channel();
}

/// A message whose status byte is neither a note-on nor a note-off, whatever
/// its channel, is no note event.
pub proof fn lemma_decode_rejects_other_kinds(bytes: Seq<u8>)
    requires
        bytes.len() >= 1 ==> status_kind(bytes[0]) != NOTE_ON_STATUS && status_kind(bytes[0])
            != NOTE_OFF_STATUS,
    ensures
        decode(bytes) is None,
{
}

/// A note event can only come from a message whose first three bytes are the
/// event's own encoding.
pub proof fn lemma_encode_decode(bytes: Seq<u8>)
    requires
        decode(bytes) is Some,
    ensures
        encode(decode(bytes)->0) == bytes.subrange(0, 3),
{
    let status = bytes[0];
    Channel::lemma_channel_of_number(status_channel(status));
    PianoKeyCode::lemma_key_of_code(bytes[1]);
    assert(encode(decode(bytes)->0) =~= bytes.subrange(0, 3));
}

/// Reads one raw message as it came from the instrument.
pub struct MidiMessageParser<'a> {
    pub msg: &'a [u8],
}

impl<'a> MidiMessageParser<'a> {
    /// The note event that the message stands for, if it stands for one.
    pub fn parse(&self) -> (event: Option<PianoEvent>)
        ensures
            event == decode(self.msg@),
    {
        if self.msg.len() < 3 {
            return None;
        }
        let status: u8 = self.msg[0];
        let number: u8 = status & 0x0F;
        let kind: u8 = status & 0xF0;
        assert(number == status % 16 && kind == status / 16 * 16) by (bit_vector)
            requires
                number == status & 0x0F,
                kind == status & 0xF0,
        ;
        let state = match NoteState::from_u8(kind) {
            Ok(state) => state,
            Err(_) => {
                return None;
            },
        };
        let key = match PianoKeyCode::from_u8(self.msg[1]) {
            Ok(key) => key,
            Err(_) => {
                return None;
            },
        };
        let channel = match Channel::from_u8(number) {
            Ok(channel) => channel,
            Err(_) => {
                return None;
            },
        };
        Some(PianoEvent { event_type: EventType::Note(state, key, Velocity(self.msg[2])), channel })
    }
}

impl PianoEvent {
    /// The three raw bytes that stand for this event.
    pub fn encode(&self) -> (bytes: [u8; 3])
        ensures
            bytes@ == encode(*self),
            decode(bytes@) == Some(*self),
    {
        let kind: u8 = match self.event_type {
            EventType::Note(state, _, _) => state.as_u8(),
        };
        let number: u8 = self.channel.as_u8();
        let status: u8 = kind | number;
        assert(status == kind + number) by (bit_vector)
            requires
                kind == 144 || kind == 128,
                number <= 15,
                status == kind | number,
        ;
        let bytes: [u8; 3] = match self.event_type {
            EventType::Note(_, key, velocity) => [status, key.as_u8(), velocity.0],
        };
        proof {
            assert(bytes@ =~= encode(*self));
            lemma_decode_encode(*self);
        }
        bytes
    }
}

} // verus!
