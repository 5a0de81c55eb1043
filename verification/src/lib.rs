//! Capture, recording and replay of MIDI note events: the message codec, the
//! connection state machine, the recording session and the playback
//! scheduler, each with its behaviour stated and proved.

pub mod codec;
pub mod connection;
pub mod error;
pub mod event;
pub mod note;
pub mod playback;
pub mod recording;
pub mod smf;

pub use codec::MidiMessageParser;
pub use error::ValidationError;
pub use event::{Channel, EventType, NoteState, PianoEvent, Velocity};
pub use note::PianoKeyCode;
