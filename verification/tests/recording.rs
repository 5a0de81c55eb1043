use midi_piano::event::{Channel, EventType, NoteState, PianoEvent, Velocity};
use midi_piano::note::PianoKeyCode;
use midi_piano::recording::{EventSequence, Recorder, TimedEvent};

fn note(state: NoteState, key: PianoKeyCode, velocity: u8) -> PianoEvent {
    PianoEvent { event_type: EventType::Note(state, key, Velocity(velocity)), channel: Channel::Ch1 }
}

fn timed(state: NoteState, key: PianoKeyCode, delta: u32) -> TimedEvent {
    TimedEvent { event: note(state, key, 90), delta }
}

#[test]
fn a_new_recorder_is_idle() {
    let recorder = Recorder::new();
    assert!(!recorder.is_recording());
    assert_eq!(recorder.recorded_len(), 0);
}

#[test]
fn start_recording_twice_is_refused_the_second_time() {
    let mut recorder = Recorder::new();
    assert!(recorder.start_recording());
    assert!(recorder.is_recording());
    assert!(recorder.record(note(NoteState::On, PianoKeyCode::C4, 90), 10));
    let len = recorder.recorded_len();
    assert_eq!(len, 1);
    assert!(!recorder.start_recording());
    assert!(recorder.is_recording());
    assert_eq!(recorder.recorded_len(), len);
    let sequence = recorder.stop_recording(10).unwrap();
    assert_eq!(sequence.events(), &vec![timed(NoteState::On, PianoKeyCode::C4, 10)]);
}

#[test]
fn start_recording_twice_in_a_row_keeps_the_empty_session() {
    let mut recorder = Recorder::new();
    assert!(recorder.start_recording());
    assert_eq!(recorder.recorded_len(), 0);
    assert!(!recorder.start_recording());
    assert_eq!(recorder.recorded_len(), 0);
}

#[test]
fn record_without_a_session_keeps_nothing() {
    let mut recorder = Recorder::new();
    assert!(!recorder.record(note(NoteState::On, PianoKeyCode::C4, 90), 10));
    assert!(!recorder.is_recording());
    assert_eq!(recorder.recorded_len(), 0);
}

#[test]
fn deltas_are_the_gaps_between_arrivals() {
    let mut recorder = Recorder::new();
    assert!(recorder.start_recording());
    let arrivals = [120u32, 120, 620, 1000, 4000];
    for (n, now) in arrivals.iter().enumerate() {
        let state = if n % 2 == 0 { NoteState::On } else { NoteState::Off };
        assert!(recorder.record(note(state, PianoKeyCode::C4, 90), *now));
    }
    let sequence = recorder.stop_recording(4500).unwrap();
    let deltas: Vec<u32> = sequence.events().iter().map(|e| e.delta).collect();
    assert_eq!(deltas, vec![120, 0, 500, 380, 3000]);
    assert_eq!(deltas.iter().sum::<u32>(), 4000);
    assert_eq!(sequence.tail(), 500);
    assert_eq!(deltas.iter().sum::<u32>() + sequence.tail(), 4500);
}

#[test]
fn three_messages_are_recorded_with_their_gaps() {
    let mut recorder = Recorder::new();
    assert!(recorder.start_recording());
    assert_eq!(recorder.last_elapsed(), 0);
    assert!(recorder.hear(&[0x90, 60, 100], 100).is_some());
    assert_eq!(recorder.last_elapsed(), 100);
    assert!(recorder.hear(&[0x80, 60, 0], 350).is_some());
    assert!(recorder.hear(&[0x91, 62, 90], 1000).is_some());
    assert_eq!(recorder.recorded_len(), 3);
    assert_eq!(recorder.last_elapsed(), 1000);
    let sequence = recorder.stop_recording(1000).unwrap();
    let expected = vec![
        TimedEvent { event: note(NoteState::On, PianoKeyCode::C4, 100), delta: 100 },
        TimedEvent { event: note(NoteState::Off, PianoKeyCode::C4, 0), delta: 250 },
        TimedEvent {
            event: PianoEvent {
                event_type: EventType::Note(NoteState::On, PianoKeyCode::D4, Velocity(90)),
                channel: Channel::Ch2,
            },
            delta: 650,
        },
    ];
    assert_eq!(sequence.events(), &expected);
    assert_eq!(sequence.events().iter().map(|e| e.delta).sum::<u32>(), 1000);
    assert_eq!(sequence.tail(), 0);
    assert_eq!(recorder.last_elapsed(), 0);
}

#[test]
fn one_more_message_appends_one_event_and_keeps_the_others() {
    let mut recorder = Recorder::new();
    assert!(recorder.start_recording());
    assert!(recorder.hear(&[0x90, 60, 100], 40).is_some());
    assert!(recorder.hear(&[0x80, 60, 0], 90).is_some());
    let mut twin = Recorder::new();
    assert!(twin.start_recording());
    assert!(twin.hear(&[0x90, 60, 100], 40).is_some());
    assert!(twin.hear(&[0x80, 60, 0], 90).is_some());
    let before = twin.stop_recording(90).unwrap();
    assert!(recorder.hear(&[0x90, 64, 1], 300).is_some());
    assert_eq!(recorder.last_elapsed(), 300);
    let after = recorder.stop_recording(300).unwrap();
    assert_eq!(after.events().len(), before.events().len() + 1);
    assert_eq!(&after.events()[..2], &before.events()[..]);
    assert_eq!(after.events()[2], TimedEvent { event: note(NoteState::On, PianoKeyCode::E4, 1), delta: 210 });
    assert_eq!(after.events().iter().map(|e| e.delta).sum::<u32>(), 300);
}

#[test]
fn a_clock_that_goes_back_counts_as_standing_still() {
    let mut recorder = Recorder::new();
    assert!(recorder.start_recording());
    assert!(recorder.record(note(NoteState::On, PianoKeyCode::C4, 90), 100));
    assert!(recorder.record(note(NoteState::Off, PianoKeyCode::C4, 90), 40));
    assert!(recorder.record(note(NoteState::On, PianoKeyCode::D4, 90), 130));
    let sequence = recorder.stop_recording(90).unwrap();
    let deltas: Vec<u32> = sequence.events().iter().map(|e| e.delta).collect();
    assert_eq!(deltas, vec![100, 0, 30]);
    assert_eq!(sequence.tail(), 0);
}

#[test]
fn the_largest_clock_reading_is_recorded_without_overflow() {
    let mut recorder = Recorder::new();
    assert!(recorder.start_recording());
    assert!(recorder.record(note(NoteState::On, PianoKeyCode::C4, 90), u32::MAX));
    let sequence = recorder.stop_recording(u32::MAX).unwrap();
    assert_eq!(sequence.events()[0].delta, u32::MAX);
    assert_eq!(sequence.tail(), 0);
}

#[test]
fn hear_hands_back_and_records_note_events() {
    let mut recorder = Recorder::new();
    assert!(recorder.start_recording());
    let on = note(NoteState::On, PianoKeyCode::C4, 100);
    assert_eq!(recorder.hear(&[0x90, 60, 100], 5), Some(on));
    assert_eq!(recorder.hear(&[0xB0, 64, 127], 6), None);
    assert_eq!(recorder.hear(&[0xF8], 7), None);
    assert_eq!(recorder.hear(&[0x90, 120, 100], 8), None);
    let off = note(NoteState::Off, PianoKeyCode::C4, 0);
    assert_eq!(recorder.hear(&[0x80, 60, 0], 25), Some(off));
    assert_eq!(recorder.recorded_len(), 2);
    let sequence = recorder.stop_recording(30).unwrap();
    assert_eq!(
        sequence.events(),
        &vec![TimedEvent { event: on, delta: 5 }, TimedEvent { event: off, delta: 20 }]
    );
    assert_eq!(sequence.tail(), 5);
}

#[test]
fn hear_hands_back_note_events_while_nothing_is_recorded() {
    let mut recorder = Recorder::new();
    assert_eq!(
        recorder.hear(&[0x90, 60, 100], 5),
        Some(note(NoteState::On, PianoKeyCode::C4, 100))
    );
    assert!(!recorder.is_recording());
    assert_eq!(recorder.recorded_len(), 0);
}

#[test]
fn stop_recording_without_a_session_hands_out_nothing() {
    let mut recorder = Recorder::new();
    assert!(recorder.stop_recording(10).is_none());
    assert!(!recorder.is_recording());
}

#[test]
fn stop_recording_ends_the_session() {
    let mut recorder = Recorder::new();
    assert!(recorder.start_recording());
    let sequence = recorder.stop_recording(250).unwrap();
    assert!(sequence.is_empty());
    assert_eq!(sequence.tail(), 250);
    assert!(!recorder.is_recording());
    assert!(recorder.stop_recording(300).is_none());
    assert!(recorder.start_recording());
    assert_eq!(recorder.recorded_len(), 0);
}

#[test]
fn from_events_keeps_events_and_tail() {
    let events = vec![timed(NoteState::On, PianoKeyCode::C4, 0), timed(NoteState::Off, PianoKeyCode::C4, 500)];
    let sequence = EventSequence::from_events(events.clone(), 7).unwrap();
    assert_eq!(sequence.events(), &events);
    assert_eq!(sequence.tail(), 7);
    assert!(!sequence.is_empty());
    assert!(EventSequence::from_events(Vec::new(), 0).unwrap().is_empty());
}

#[test]
fn from_events_refuses_a_sequence_that_is_too_long() {
    let events = vec![
        timed(NoteState::On, PianoKeyCode::C4, u32::MAX - 10),
        timed(NoteState::Off, PianoKeyCode::C4, 10),
    ];
    assert!(EventSequence::from_events(events.clone(), 0).is_some());
    assert!(EventSequence::from_events(events.clone(), 1).is_none());
    let events = vec![
        timed(NoteState::On, PianoKeyCode::C4, u32::MAX),
        timed(NoteState::Off, PianoKeyCode::C4, 1),
    ];
    assert!(EventSequence::from_events(events, 0).is_none());
    assert!(EventSequence::from_events(Vec::new(), u32::MAX).is_some());
}
