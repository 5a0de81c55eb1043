use midi_piano::codec::MidiMessageParser;
use midi_piano::error::ValidationError;
use midi_piano::event::{Channel, EventType, NoteState, PianoEvent, Velocity};
use midi_piano::note::PianoKeyCode;

fn note(state: NoteState, key: PianoKeyCode, velocity: u8, channel: Channel) -> PianoEvent {
    PianoEvent { event_type: EventType::Note(state, key, Velocity(velocity)), channel }
}

fn parse(bytes: &[u8]) -> Option<PianoEvent> {
    MidiMessageParser { msg: bytes }.parse()
}

#[test]
fn parse_reads_a_note_on() {
    assert_eq!(
        parse(&[0x90, 60, 100]),
        Some(note(NoteState::On, PianoKeyCode::C4, 100, Channel::Ch1))
    );
}

#[test]
fn parse_reads_a_note_off_on_another_channel() {
    assert_eq!(
        parse(&[0x8F, 21, 0]),
        Some(note(NoteState::Off, PianoKeyCode::A1, 0, Channel::Ch16))
    );
    assert_eq!(
        parse(&[0x83, 113, 255]),
        Some(note(NoteState::Off, PianoKeyCode::F8, 255, Channel::Ch4))
    );
}

#[test]
fn parse_ignores_bytes_after_the_third() {
    assert_eq!(
        parse(&[0x91, 15, 1, 0x90, 60, 100]),
        Some(note(NoteState::On, PianoKeyCode::Eb0, 1, Channel::Ch2))
    );
}

#[test]
fn parse_rejects_every_other_kind_of_status() {
    for status in 0u16..=255 {
        let status = status as u8;
        let kind = status & 0xF0;
        let parsed = parse(&[status, 60, 100]);
        if kind == 0x80 || kind == 0x90 {
            assert!(parsed.is_some(), "status {:#x}", status);
        } else {
            assert_eq!(parsed, None, "status {:#x}", status);
        }
    }
}

#[test]
fn parse_rejects_short_messages() {
    assert_eq!(parse(&[]), None);
    assert_eq!(parse(&[0xF8]), None);
    assert_eq!(parse(&[0x90]), None);
    assert_eq!(parse(&[0x90, 60]), None);
}

#[test]
fn parse_rejects_keys_outside_the_instrument() {
    assert_eq!(parse(&[0x90, 14, 100]), None);
    assert_eq!(parse(&[0x90, 114, 100]), None);
    assert_eq!(parse(&[0x80, 0, 100]), None);
    assert_eq!(parse(&[0x80, 255, 100]), None);
    assert!(parse(&[0x90, 15, 100]).is_some());
    assert!(parse(&[0x90, 113, 100]).is_some());
}

#[test]
fn encode_writes_status_key_and_velocity() {
    assert_eq!(note(NoteState::On, PianoKeyCode::C4, 100, Channel::Ch1).encode(), [0x90, 60, 100]);
    assert_eq!(note(NoteState::Off, PianoKeyCode::C4, 64, Channel::Ch1).encode(), [0x80, 60, 64]);
    assert_eq!(note(NoteState::On, PianoKeyCode::Eb0, 0, Channel::Ch10).encode(), [0x99, 15, 0]);
    assert_eq!(note(NoteState::Off, PianoKeyCode::F8, 255, Channel::Ch16).encode(), [0x8F, 113, 255]);
}

#[test]
fn decode_inverts_encode_for_every_event() {
    for state in [NoteState::On, NoteState::Off] {
        for code in 15u8..=113 {
            let key = PianoKeyCode::from_u8(code).unwrap();
            for number in 0u8..16 {
                let channel = Channel::from_u8(number).unwrap();
                for velocity in [0u8, 1, 64, 127, 128, 255] {
                    let event = note(state, key, velocity, channel);
                    assert_eq!(parse(&event.encode()), Some(event));
                }
            }
        }
    }
}

#[test]
fn encode_inverts_decode_on_the_first_three_bytes() {
    for status in [0x80u8, 0x8A, 0x90, 0x9F] {
        for code in [15u8, 60, 113] {
            let bytes = [status, code, 77, 1, 2];
            let event = parse(&bytes).unwrap();
            assert_eq!(event.encode(), [status, code, 77]);
        }
    }
}

#[test]
fn note_state_from_u8_knows_two_bytes() {
    assert_eq!(NoteState::from_u8(144), Ok(NoteState::On));
    assert_eq!(NoteState::from_u8(128), Ok(NoteState::Off));
    assert_eq!(NoteState::from_u8(0), Err(ValidationError::InvalidNoteState(0)));
    assert_eq!(NoteState::from_u8(145), Err(ValidationError::InvalidNoteState(145)));
    assert_eq!(NoteState::On.as_u8(), 144);
    assert_eq!(NoteState::Off.as_u8(), 128);
}

#[test]
fn channel_from_u8_knows_sixteen_numbers() {
    assert_eq!(Channel::from_u8(0), Ok(Channel::Ch1));
    assert_eq!(Channel::from_u8(9), Ok(Channel::Ch10));
    assert_eq!(Channel::from_u8(15), Ok(Channel::Ch16));
    assert_eq!(Channel::from_u8(16), Err(ValidationError::InvalidChannel(16)));
    assert_eq!(Channel::from_u8(255), Err(ValidationError::InvalidChannel(255)));
    for number in 0u8..16 {
        assert_eq!(Channel::from_u8(number).unwrap().as_u8(), number);
    }
}
