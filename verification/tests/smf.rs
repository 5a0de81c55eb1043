use midi_piano::error::SequenceError;
use midi_piano::event::{Channel, EventType, NoteState, PianoEvent, Velocity};
use midi_piano::note::PianoKeyCode;
use midi_piano::recording::{EventSequence, Recorder, TimedEvent};
use midi_piano::smf::PULSES_PER_QUARTER_NOTE;

fn timed(state: NoteState, code: u8, velocity: u8, delta: u32) -> TimedEvent {
    let key = PianoKeyCode::from_u8(code).unwrap();
    TimedEvent {
        event: PianoEvent {
            event_type: EventType::Note(state, key, Velocity(velocity)),
            channel: Channel::Ch1,
        },
        delta,
    }
}

fn two_notes() -> Vec<TimedEvent> {
    vec![
        timed(NoteState::On, 60, 100, 0),
        timed(NoteState::Off, 60, 64, 500),
        timed(NoteState::On, 62, 100, 0),
        timed(NoteState::Off, 62, 64, 400),
    ]
}

fn two_notes_file() -> Vec<u8> {
    vec![
        b'M', b'T', b'h', b'd', 0, 0, 0, 6, 0, 0, 0, 1, 0x01, 0xE0, // one track, 480 ticks
        b'M', b'T', b'r', b'k', 0, 0, 0, 22, //
        0x00, 0x90, 60, 100, // on C4 at once
        0x83, 0x74, 0x80, 60, 64, // off C4 after 500
        0x00, 0x90, 62, 100, // on D4 at once
        0x83, 0x10, 0x80, 62, 64, // off D4 after 400
        0x0A, 0xFF, 0x2F, 0x00, // end of track after 10
    ]
}

#[test]
fn the_resolution_is_480() {
    assert_eq!(PULSES_PER_QUARTER_NOTE, 480);
}

#[test]
fn messages_are_delta_and_raw_bytes() {
    let sequence = EventSequence::from_events(two_notes(), 10).unwrap();
    assert_eq!(
        sequence.messages(),
        vec![(0, [0x90, 60, 100]), (500, [0x80, 60, 64]), (0, [0x90, 62, 100]), (400, [0x80, 62, 64])]
    );
}

#[test]
fn to_smf_bytes_writes_a_single_track_file() {
    let sequence = EventSequence::from_events(two_notes(), 10).unwrap();
    assert_eq!(sequence.to_smf_bytes(), Some(two_notes_file()));
}

#[test]
fn to_smf_bytes_of_an_empty_sequence_holds_only_the_end_marker() {
    let sequence = EventSequence::from_events(Vec::new(), 0).unwrap();
    let expected = vec![
        b'M', b'T', b'h', b'd', 0, 0, 0, 6, 0, 0, 0, 1, 0x01, 0xE0, //
        b'M', b'T', b'r', b'k', 0, 0, 0, 4, 0x00, 0xFF, 0x2F, 0x00,
    ];
    assert_eq!(sequence.to_smf_bytes(), Some(expected));
}

#[test]
fn to_smf_bytes_cannot_write_a_velocity_that_is_no_data_byte() {
    let sequence =
        EventSequence::from_events(vec![timed(NoteState::On, 60, 200, 0)], 0).unwrap();
    assert_eq!(sequence.to_smf_bytes(), None);
}

#[test]
fn from_smf_bytes_reads_the_notes_of_the_first_track() {
    let sequence = EventSequence::from_smf_bytes(&two_notes_file()).unwrap();
    assert_eq!(sequence.events(), &two_notes());
    assert_eq!(sequence.tail(), 10);
}

#[test]
fn from_smf_bytes_rejects_what_is_no_file() {
    assert_eq!(EventSequence::from_smf_bytes(&[]).err(), Some(SequenceError::Malformed));
    assert_eq!(EventSequence::from_smf_bytes(b"not a file").err(), Some(SequenceError::Malformed));
}

#[test]
fn from_smf_bytes_of_a_file_without_tracks_is_empty() {
    let header = vec![b'M', b'T', b'h', b'd', 0, 0, 0, 6, 0, 0, 0, 0, 0x01, 0xE0];
    let sequence = EventSequence::from_smf_bytes(&header).unwrap();
    assert!(sequence.is_empty());
    assert_eq!(sequence.tail(), 0);
}

#[test]
fn from_smf_bytes_skips_other_events_and_keeps_the_time() {
    let file = vec![
        b'M', b'T', b'h', b'd', 0, 0, 0, 6, 0, 0, 0, 1, 0x01, 0xE0, //
        b'M', b'T', b'r', b'k', 0, 0, 0, 30, //
        0x05, 0xFF, 0x51, 0x03, 0x07, 0xA1, 0x20, // tempo after 5
        0x0A, 0x90, 60, 100, // on C4 after 10
        0x14, 0xB0, 64, 127, // pedal after 20
        0x1E, 0x80, 60, 0, // off C4 after 30
        0x01, 0x90, 127, 100, // a key that the instrument lacks, after 1
        0x02, 0xC0, 5, // programme change after 2
        0x03, 0xFF, 0x2F, 0x00, // end of track after 3
    ];
    let sequence = EventSequence::from_smf_bytes(&file).unwrap();
    assert_eq!(
        sequence.events(),
        &vec![timed(NoteState::On, 60, 100, 15), timed(NoteState::Off, 60, 0, 50)]
    );
    assert_eq!(sequence.tail(), 6);
}

#[test]
fn what_was_written_is_read_back() {
    let events = vec![
        timed(NoteState::On, 15, 1, 0),
        timed(NoteState::On, 113, 127, 70_000),
        timed(NoteState::Off, 15, 0, 1),
        timed(NoteState::Off, 113, 127, 0x0FFF_FFFF),
    ];
    let sequence = EventSequence::from_events(events.clone(), 999).unwrap();
    let file = sequence.to_smf_bytes().unwrap();
    let back = EventSequence::from_smf_bytes(&file).unwrap();
    assert_eq!(back.events(), &events);
    assert_eq!(back.tail(), 999);
}

#[test]
fn a_recording_survives_the_file() {
    let mut recorder = Recorder::new();
    assert!(recorder.start_recording());
    assert!(recorder.hear(&[0x90, 60, 100], 100).is_some());
    assert!(recorder.hear(&[0x80, 60, 0], 350).is_some());
    let sequence = recorder.stop_recording(400).unwrap();
    let file = sequence.to_smf_bytes().unwrap();
    let back = EventSequence::from_smf_bytes(&file).unwrap();
    assert_eq!(back.events(), sequence.events());
    assert_eq!(back.tail(), 50);
}

#[test]
fn from_tracks_takes_the_first_track() {
    let tracks = vec![
        vec![(7, vec![0x90, 60, 100]), (3, vec![]), (5, vec![0x80, 60, 0]), (2, vec![0xB0, 1, 2])],
        vec![(9, vec![0x90, 62, 100])],
    ];
    let sequence = EventSequence::from_tracks(&tracks).unwrap();
    assert_eq!(
        sequence.events(),
        &vec![timed(NoteState::On, 60, 100, 7), timed(NoteState::Off, 60, 0, 8)]
    );
    assert_eq!(sequence.tail(), 2);
}

#[test]
fn from_tracks_without_tracks_is_empty() {
    let sequence = EventSequence::from_tracks(&Vec::new()).unwrap();
    assert!(sequence.is_empty());
    assert_eq!(sequence.tail(), 0);
    let sequence = EventSequence::from_tracks(&vec![Vec::new()]).unwrap();
    assert!(sequence.is_empty());
}

#[test]
fn from_tracks_refuses_a_track_that_is_too_long() {
    let fits = vec![vec![(u32::MAX - 1, vec![0x90, 60, 100]), (1, vec![])]];
    let sequence = EventSequence::from_tracks(&fits).unwrap();
    assert_eq!(sequence.events(), &vec![timed(NoteState::On, 60, 100, u32::MAX - 1)]);
    assert_eq!(sequence.tail(), 1);
    let long = vec![vec![(u32::MAX, vec![0x90, 60, 100]), (1, vec![])]];
    assert_eq!(EventSequence::from_tracks(&long).err(), Some(SequenceError::TooLong));
    let long = vec![vec![(u32::MAX, vec![]), (1, vec![0x90, 60, 100])]];
    assert_eq!(EventSequence::from_tracks(&long).err(), Some(SequenceError::TooLong));
}

fn wrapped(inner: &[u8]) -> Vec<u8> {
    let mut file = b"RIFF".to_vec();
    file.extend_from_slice(&((inner.len() as u32 + 12).to_le_bytes()));
    file.extend_from_slice(b"RMIDdata");
    file.extend_from_slice(&(inner.len() as u32).to_le_bytes());
    file.extend_from_slice(inner);
    file
}

#[test]
fn a_wrapped_file_is_read() {
    let file = wrapped(&two_notes_file());
    assert!(midi_piano::smf::check_may_be_read(&file));
    let sequence = EventSequence::from_smf_bytes(&file).unwrap();
    assert_eq!(sequence.events(), &two_notes());
    assert_eq!(sequence.tail(), 10);
}

#[test]
fn a_wrapped_header_with_the_frame_rate_that_cannot_be_negated_is_not_read() {
    let mut inner = two_notes_file();
    inner[12] = 0x80;
    let file = wrapped(&inner);
    assert!(!midi_piano::smf::check_may_be_read(&file));
    assert_eq!(EventSequence::from_smf_bytes(&file).err(), Some(SequenceError::Malformed));
}

#[test]
fn a_second_header_with_the_frame_rate_that_cannot_be_negated_is_not_read() {
    let file = vec![
        0x4D, 0x54, 0x68, 0x64, 0x00, 0x00, 0x00, 0x06, 0x00, 0x00, 0x00, 0x01, 0x01, 0xE0, //
        0x4D, 0x54, 0x68, 0x64, 0x00, 0x00, 0x00, 0x06, 0x00, 0x00, 0x00, 0x00, 0x80, 0x00,
    ];
    assert_eq!(file.len(), 28);
    assert!(!midi_piano::smf::check_may_be_read(&file));
    assert_eq!(EventSequence::from_smf_bytes(&file).err(), Some(SequenceError::Malformed));
}

#[test]
fn a_second_header_with_another_frame_rate_is_passed_over() {
    let mut file = two_notes_file();
    file.extend_from_slice(&[
        0x4D, 0x54, 0x68, 0x64, 0x00, 0x00, 0x00, 0x06, 0x00, 0x00, 0x00, 0x00, 0xE8, 0x28,
    ]);
    assert!(midi_piano::smf::check_may_be_read(&file));
    let sequence = EventSequence::from_smf_bytes(&file).unwrap();
    assert_eq!(sequence.events(), &two_notes());
}

#[test]
fn the_byte_is_harmless_where_no_header_stands() {
    let mut file = two_notes_file();
    file[12 + 14] = 0x80; // twelve bytes after the tag of the track, not of a header
    assert!(midi_piano::smf::check_may_be_read(&file));
    let mut late = two_notes_file();
    let end = late.len();
    late.extend_from_slice(&[0x4D, 0x54, 0x68, 0x64, 0, 0, 0, 6, 0, 0, 0, 0]);
    assert_eq!(late.len(), end + 12);
    assert!(midi_piano::smf::check_may_be_read(&late));
    late.push(0x80);
    assert!(!midi_piano::smf::check_may_be_read(&late));
}

#[test]
fn a_delta_of_more_than_28_bits_is_not_written() {
    let fits = EventSequence::from_events(vec![timed(NoteState::On, 60, 100, 0x0FFF_FFFF)], 0x0FFF_FFFF)
        .unwrap();
    assert!(fits.can_be_written());
    assert!(fits.to_smf_bytes().is_some());
    let long_delta =
        EventSequence::from_events(vec![timed(NoteState::On, 60, 100, 0x1000_0000)], 0).unwrap();
    assert!(!long_delta.can_be_written());
    assert_eq!(long_delta.to_smf_bytes(), None);
    let long_tail =
        EventSequence::from_events(vec![timed(NoteState::On, 60, 100, 5)], 0x1000_0000).unwrap();
    assert!(!long_tail.can_be_written());
    assert_eq!(long_tail.to_smf_bytes(), None);
    assert_eq!(midi_piano::smf::LARGEST_DELTA, 0x0FFF_FFFF);
}

#[test]
fn a_header_with_the_frame_rate_that_cannot_be_negated_is_not_read() {
    let mut file = two_notes_file();
    file[12] = 0x80;
    file[13] = 0x28;
    assert!(!midi_piano::smf::check_may_be_read(&file));
    assert_eq!(EventSequence::from_smf_bytes(&file).err(), Some(SequenceError::Malformed));
}

#[test]
fn timing_in_frames_is_read() {
    let mut file = two_notes_file();
    file[12] = 0xE8; // 24 frames a second
    file[13] = 0x28;
    assert!(midi_piano::smf::check_may_be_read(&file));
    let sequence = EventSequence::from_smf_bytes(&file).unwrap();
    assert_eq!(sequence.events(), &two_notes());
}

#[test]
fn short_and_foreign_bytes_may_be_handed_to_the_reader() {
    assert!(midi_piano::smf::check_may_be_read(&[]));
    assert!(midi_piano::smf::check_may_be_read(b"RIF"));
    assert!(midi_piano::smf::check_may_be_read(b"MThd"));
    assert!(midi_piano::smf::check_may_be_read(&[0u8; 13]));
    let mut foreign = vec![0u8; 13];
    foreign[12] = 0x80;
    assert!(midi_piano::smf::check_may_be_read(&foreign));
    assert!(midi_piano::smf::check_may_be_read(b"RIFF"));
    assert_eq!(EventSequence::from_smf_bytes(b"RIFF").err(), Some(SequenceError::Malformed));
}

#[test]
fn a_truncated_file_is_read_as_far_as_it_goes() {
    let file = two_notes_file();
    let sequence = EventSequence::from_smf_bytes(&file[..file.len() - 6]).unwrap();
    assert_eq!(sequence.events(), &two_notes()[..3].to_vec());
}
