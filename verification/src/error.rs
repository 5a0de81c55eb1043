use vstd::prelude::*;

verus! {

/// A byte that does not name what it was meant to name. Such input is always
/// turned away with one of these values; it never stops the program.
#[derive(Debug, Clone, Copy, PartialEq, Eq, Structural)]
pub enum ValidationError {
    /// The byte is no key code of the instrument.
    InvalidNote(u8),
    /// The byte is neither the note-on nor the note-off status.
    InvalidNoteState(u8),
    /// The byte is no channel number.
    InvalidChannel(u8),
}

/// Why a request to connect, disconnect or send did not succeed. A request
/// that meets the wrong state or an unknown port leaves the link exactly as it
/// was; after a hardware failure the link holds the handle that the hardware
/// gave back, and is connected if and only if it was before.
#[derive(Debug, Clone, Copy, PartialEq, Eq, Structural)]
pub enum ConnectionError {
    /// The link is connected already.
    AlreadyConnected,
    /// The link is not connected.
    NotConnected,
    /// No listed port has the identifier that was asked for.
    PortNotFound,
    /// The hardware refused to open the port or to take the message.
    HardwareFailure,
}

/// Why the bytes of a file hold no sequence that can be played.
#[derive(Debug, Clone, Copy, PartialEq, Eq, Structural)]
pub enum SequenceError {
    /// The bytes are no Standard MIDI File.
    Malformed,
    /// The track spans more milliseconds than 32 bits can count.
    TooLong,
}

} // verus!
