use crate::error::ValidationError;
use crate::note::PianoKeyCode;
use vstd::prelude::*;

verus! {

/// Status byte of a note-on message on the first channel.
pub const NOTE_ON_STATUS: u8 = 144;

/// Status byte of a note-off message on the first channel.
pub const NOTE_OFF_STATUS: u8 = 128;

/// Whether a key is pressed or released.
#[derive(Debug, Clone, Copy, PartialEq, Eq, Structural)]
pub enum NoteState {
    On,
    Off,
}

impl NoteState {
    /// The status byte that stands for this state, without a channel.
    pub open spec fn status(self) -> u8 {
        match self {
            NoteState::On => NOTE_ON_STATUS,
            NoteState::Off => NOTE_OFF_STATUS,
        }
    }

    /// The status byte that stands for this state, without a channel.
    pub fn as_u8(self) -> (status: u8)
        ensures
            status == self.status(),
    {
        match self {
            NoteState::On => NOTE_ON_STATUS,
            NoteState::Off => NOTE_OFF_STATUS,
        }
    }

    /// The state that `status` stands for, or `InvalidNoteState` when it is
    /// neither of the two status bytes.
    pub fn from_u8(status: u8) -> (res: Result<NoteState, ValidationError>)
        ensures
            status == NOTE_ON_STATUS ==> res == Ok::<NoteState, ValidationError>(NoteState::On),
            status == NOTE_OFF_STATUS ==> res == Ok::<NoteState, ValidationError>(NoteState::Off),
            status != NOTE_ON_STATUS && status != NOTE_OFF_STATUS ==> res == Err::<
                NoteState,
                ValidationError,
            >(ValidationError::InvalidNoteState(status)),
    {
        if status == NOTE_ON_STATUS {
            Ok(NoteState::On)
        } else if status == NOTE_OFF_STATUS {
            Ok(NoteState::Off)
        } else {
            Err(ValidationError::InvalidNoteState(status))
        }
    }
}

/// How hard a key was struck or released: any byte.
#[derive(Debug, Clone, Copy, PartialEq, Eq, Structural)]
pub struct Velocity(pub u8);

/// What happened to the instrument.
#[derive(Debug, Clone, Copy, PartialEq, Eq, Structural)]
pub enum EventType {
    /// A key changed state, with the given velocity.
    Note(NoteState, PianoKeyCode, Velocity),
}

/// One of the sixteen voice channels.
#[derive(Debug, Clone, Copy, PartialEq, Eq, Structural)]
pub enum Channel {
    Ch1,
    Ch2,
    Ch3,
    Ch4,
    Ch5,
    Ch6,
    Ch7,
    Ch8,
    Ch9,
    Ch10,
    Ch11,
    Ch12,
    Ch13,
    Ch14,
    Ch15,
    Ch16,
}

/// Whether `number` is the number of a channel.
pub open spec fn is_channel_number(number: int) -> bool {
    0 <= number <= 15
}

impl Channel {
    /// The channel's number on the wire, from 0 for `Ch1` to 15 for `Ch16`.
    pub open spec fn number(self) -> u8 {
        match self {
            Channel::Ch1 => 0,
            Channel::Ch2 => 1,
            Channel::Ch3 => 2,
            Channel::Ch4 => 3,
            Channel::Ch5 => 4,
            Channel::Ch6 => 5,
            Channel::Ch7 => 6,
            Channel::Ch8 => 7,
            Channel::Ch9 => 8,
            Channel::Ch10 => 9,
            Channel::Ch11 => 10,
            Channel::Ch12 => 11,
            Channel::Ch13 => 12,
            Channel::Ch14 => 13,
            Channel::Ch15 => 14,
            Channel::Ch16 => 15,
        }
    }

    /// The channel with the given number; meaningful only where
    /// `is_channel_number` holds.
    pub open spec fn of_number(number: u8) -> Channel {
        match number {
            0 => Channel::Ch1,
            1 => Channel::Ch2,
            2 => Channel::Ch3,
            3 => Channel::Ch4,
            4 => Channel::Ch5,
            5 => Channel::Ch6,
            6 => Channel::Ch7,
            7 => Channel::Ch8,
            8 => Channel::Ch9,
            9 => Channel::Ch10,
            10 => Channel::Ch11,
            11 => Channel::Ch12,
            12 => Channel::Ch13,
            13 => Channel::Ch14,
            14 => Channel::Ch15,
            _ => Channel::Ch16,
        }
    }

    /// Every channel's number is below sixteen, and `of_number` finds the
    /// channel again from it.
    pub proof fn lemma_number_of_channel(self)
        ensures
            is_channel_number(self.number() as int),
            Channel::of_number(self.number()) == self,
    {
    }

    /// Every number below sixteen belongs to exactly the channel that
    /// `of_number` gives.
    pub proof fn lemma_channel_of_number(number: u8)
        requires
            is_channel_number(number as int),
        ensures
            Channel::of_number(number).number() == number,
    {
    }

    /// The channel's number on the wire.
    pub fn as_u8(self) -> (number: u8)
        ensures
            number == self.number(),
            is_channel_number(number as int),
    {
        match self {
            Channel::Ch1 => 0,
            Channel::Ch2 => 1,
            Channel::Ch3 => 2,
            Channel::Ch4 => 3,
            Channel::Ch5 => 4,
            Channel::Ch6 => 5,
            Channel::Ch7 => 6,
            Channel::Ch8 => 7,
            Channel::Ch9 => 8,
            Channel::Ch10 => 9,
            Channel::Ch11 => 10,
            Channel::Ch12 => 11,
            Channel::Ch13 => 12,
            Channel::Ch14 => 13,
            Channel::Ch15 => 14,
            Channel::Ch16 => 15,
        }
    }

    /// The channel with number `channel`, or `InvalidChannel` when there is
    /// none.
    pub fn from_u8(channel: u8) -> (res: Result<Channel, ValidationError>)
        ensures
            is_channel_number(channel as int) ==> res == Ok::<Channel, ValidationError>(
                Channel::of_number(channel),
            ),
            !is_channel_number(channel as int) ==> res == Err::<Channel, ValidationError>(
                ValidationError::InvalidChannel(channel),
            ),
    {
        match channel {
            0 => Ok(Channel::Ch1),
            1 => Ok(Channel::Ch2),
            2 => Ok(Channel::Ch3),
            3 => Ok(Channel::Ch4),
            4 => Ok(Channel::Ch5),
            5 => Ok(Channel::Ch6),
            6 => Ok(Channel::Ch7),
            7 => Ok(Channel::Ch8),
            8 => Ok(Channel::Ch9),
            9 => Ok(Channel::Ch10),
            10 => Ok(Channel::Ch11),
            11 => Ok(Channel::Ch12),
            12 => Ok(Channel::Ch13),
            13 => Ok(Channel::Ch14),
            14 => Ok(Channel::Ch15),
            15 => Ok(Channel::Ch16),
            c => Err(ValidationError::InvalidChannel(c)),
        }
    }
}

/// A note event as the instrument sent it: what happened, and on which
/// channel. A value of this type is always valid, since each of its parts is.
#[derive(Debug, Clone, Copy, PartialEq, Eq, Structural)]
pub struct PianoEvent {
    pub event_type: EventType,
    pub channel: Channel,
}

impl PianoEvent {
    /// Whether the event presses or releases its key.
    pub open spec fn state(self) -> NoteState {
        match self.event_type {
            EventType::Note(state, _, _) => state,
        }
    }

    /// The key that the event is about.
    pub open spec fn key(self) -> PianoKeyCode {
        match self.event_type {
            EventType::Note(_, key, _) => key,
        }
    }

    /// The velocity byte of the event.
    pub open spec fn velocity(self) -> u8 {
        match self.event_type {
            EventType::Note(_, _, velocity) => velocity.0,
        }
    }
}

} // verus!
