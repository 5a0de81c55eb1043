use crate::codec::encode;
use crate::event::{EventType, NoteState};
use crate::recording::{
    elapsed_at, lemma_total_delta_monotonic, lemma_total_delta_step, total_delta, EventSequence,
    TimedEvent,
};
use std::collections::HashMap;
use vstd::prelude::*;

verus! {

broadcast use vstd::std_specs::hash::group_hash_axioms;

/// A note event made ready for playback: the time to wait after the event
/// before it, the raw message to send, and, for a key that is pressed and
/// later released, the time for which it is held down.
#[derive(Debug, Clone, Copy, PartialEq, Eq)]
pub struct PlaybackEvent {
    pub delta: u32,
    pub message: [u8; 3],
    pub time_length: u32,
    pub is_note_on: bool,
}

/// What is made known of a playback event before it sounds.
#[derive(Debug, Clone, Copy, PartialEq, Eq)]
pub struct PackedPlaybackEvent {
    pub is_note_on: bool,
    pub message: [u8; 3],
    pub time_length: u32,
}

impl PlaybackEvent {
    /// The event without its delta, as it is made known ahead of time.
    pub fn to_packed(&self) -> (packed: PackedPlaybackEvent)
        ensures
            packed.is_note_on == self.is_note_on,
            packed.message == self.message,
            packed.time_length == self.time_length,
    {
        PackedPlaybackEvent {
            is_note_on: self.is_note_on,
            message: self.message,
            time_length: self.time_length,
        }
    }

    /// The raw message of the event.
    pub fn take_raw(self) -> (raw: [u8; 3])
        ensures
            raw == self.message,
    {
        self.message
    }

    /// The playback event of a recorded event, with no hold time yet.
    pub fn from_track_event(track_event: &TimedEvent) -> (event: PlaybackEvent)
        ensures
            event.delta == track_event.delta,
            event.message@ == encode(track_event.event),
            event.is_note_on == (track_event.event.state() == NoteState::On),
            event.time_length == 0,
    {
        let is_note_on = match track_event.event.event_type {
            EventType::Note(NoteState::On, _, _) => true,
            EventType::Note(NoteState::Off, _, _) => false,
        };
        PlaybackEvent {
            delta: track_event.delta,
            message: track_event.event.encode(),
            time_length: 0,
            is_note_on,
        }
    }
}

/// The key code of the event at `at`.
pub open spec fn key_at(events: Seq<TimedEvent>, at: int) -> u8 {
    events[at].event.key().code()
}

/// Whether the event at `off` releases the key that the event at `on`
/// pressed: it is the next event on that key after `on`, and it is a release.
/// The channel plays no part.
pub open spec fn is_release_of(events: Seq<TimedEvent>, on: int, off: int) -> bool {
    &&& 0 <= on < off < events.len()
    &&& events[on].event.state() == NoteState::On
    &&& events[off].event.state() == NoteState::Off
    &&& key_at(events, off) == key_at(events, on)
    &&& forall|between: int|
        on < between < off ==> #[trigger] key_at(events, between) != key_at(events, on)
}

/// For how long the key pressed by the event at `on` is held: the time up to
/// the event that releases it. An event that presses a key which is never
/// released, or is pressed again first, has no hold time, and neither has a
/// release.
pub open spec fn hold_duration(events: Seq<TimedEvent>, on: int) -> int {
    if exists|off: int| is_release_of(events, on, off) {
        let off = choose|off: int| is_release_of(events, on, off);
        elapsed_at(events, off) - elapsed_at(events, on)
    } else {
        0
    }
}

/// Whether `event` is the playback event of the event at `at`, hold time
/// included.
pub open spec fn is_playback_of(event: PlaybackEvent, events: Seq<TimedEvent>, at: int) -> bool {
    &&& event.delta == events[at].delta
    &&& event.message@ == encode(events[at].event)
    &&& event.is_note_on == (events[at].event.state() == NoteState::On)
    &&& event.time_length == hold_duration(events, at)
}

/// The hold time of a key press is the time from the press to its release.
pub proof fn lemma_hold_duration_of_release(events: Seq<TimedEvent>, on: int, off: int)
    requires
        is_release_of(events, on, off),
    ensures
        hold_duration(events, on) == elapsed_at(events, off) - elapsed_at(events, on),
        hold_duration(events, on) >= 0,
{
    let chosen = choose|other: int| is_release_of(events, on, other);
    lemma_release_is_unique(events, on, off, chosen);
    lemma_total_delta_monotonic(events, on + 1, off + 1);
}

/// An event that is no key press, or whose key is not released before it is
/// pressed again or the sequence ends, has no hold time.
pub proof fn lemma_hold_duration_without_release(events: Seq<TimedEvent>, on: int)
    requires
        forall|off: int| !is_release_of(events, on, off),
    ensures
        hold_duration(events, on) == 0,
{
}

/// A key press has at most one release.
pub proof fn lemma_release_is_unique(events: Seq<TimedEvent>, on: int, first: int, second: int)
    requires
        is_release_of(events, on, first),
        is_release_of(events, on, second),
    ensures
        first == second,
{
    if first < second {
        assert(key_at(events, first) != key_at(events, on));
    } else if second < first {
        assert(key_at(events, second) != key_at(events, on));
    }
}

/// The place of the last event before `limit` on the key with code `key`, or
/// -1 when there is none.
spec fn last_on_key(events: Seq<TimedEvent>, limit: int, key: u8) -> int
    decreases limit,
{
    if limit <= 0 {
        -1
    } else if key_at(events, limit - 1) == key {
        limit - 1
    } else {
        last_on_key(events, limit - 1, key)
    }
}

proof fn lemma_last_on_key(events: Seq<TimedEvent>, limit: int, key: u8)
    requires
        0 <= limit <= events.len(),
    ensures
        -1 <= last_on_key(events, limit, key) < limit,
        last_on_key(events, limit, key) >= 0 ==> key_at(events, last_on_key(events, limit, key))
            == key,
        forall|between: int|
            last_on_key(events, limit, key) < between < limit ==> #[trigger] key_at(
                events,
                between,
            ) != key,
    decreases limit,
{
    if limit > 0 && key_at(events, limit - 1) != key {
        lemma_last_on_key(events, limit - 1, key);
    }
}

/// Whether a press of the key with code `key` is waiting for its release
/// when the events before `limit` have been read.
spec fn is_pending(events: Seq<TimedEvent>, limit: int, key: u8) -> bool {
    last_on_key(events, limit, key) >= 0 && events[last_on_key(events, limit, key)].event.state()
        == NoteState::On
}

/// Whether the hold times in `track` are right as far as the events before
/// `limit` tell.
spec fn holds_settled(track: Seq<PlaybackEvent>, events: Seq<TimedEvent>, limit: int) -> bool {
    &&& forall|on: int, off: int|
        #![trigger is_release_of(events, on, off)]
        is_release_of(events, on, off) && off < limit ==> track[on].time_length == elapsed_at(
            events,
            off,
        ) - elapsed_at(events, on)
    &&& forall|on: int|
        0 <= on < limit && (forall|off: int| off < limit ==> !is_release_of(events, on, off))
            ==> (#[trigger] track[on]).time_length == 0
}

/// Makes a finished sequence ready for playback: one playback event for each
/// event, in order, and for each key press the time until the key's release.
pub fn annotate(sequence: &EventSequence) -> (track: Vec<PlaybackEvent>)
    ensures
        track@.len() == sequence@.events.len(),
        forall|at: int|
            0 <= at < track@.len() ==> is_playback_of(#[trigger] track@[at], sequence@.events, at),
{
    let events = sequence.events();
    let mut pending: HashMap<u8, (u32, usize)> = HashMap::new();
    let mut track: Vec<PlaybackEvent> = Vec::new();
    let mut elapsed: u32 = 0;
    let mut at: usize = 0;
    while at < events.len()
        invariant
            at <= events.len(),
            total_delta(events@) <= u32::MAX,
            elapsed == total_delta(events@.take(at as int)),
            track@.len() == at,
            forall|i: int|
                0 <= i < at ==> {
                    &&& (#[trigger] track@[i]).delta == events@[i].delta
                    &&& track@[i].message@ == encode(events@[i].event)
                    &&& track@[i].is_note_on == (events@[i].event.state() == NoteState::On)
                },
            holds_settled(track@, events@, at as int),
            forall|key: u8| #[trigger]
                pending@.contains_key(key) <==> is_pending(events@, at as int, key),
            forall|key: u8| #[trigger]
                pending@.contains_key(key) ==> {
                    &&& pending@[key].0 == elapsed_at(events@, last_on_key(events@, at as int, key))
                    &&& pending@[key].1 == last_on_key(events@, at as int, key)
                },
        decreases events.len() - at,
    {
        let ghost before = track@;
        let ghost waiting = pending@;
        let current = &events[at];
        proof {
            lemma_total_delta_step(events@, at as int);
            lemma_total_delta_monotonic(events@, at + 1, events@.len() as int);
        }
        elapsed = elapsed + current.delta;
        track.push(PlaybackEvent::from_track_event(current));
        let (state, key) = match current.event.event_type {
            EventType::Note(state, key, _) => (state, key.as_u8()),
        };
        proof {
            lemma_last_on_key(events@, at as int, key);
            assert forall|other: u8| other != key implies last_on_key(events@, at + 1, other)
                == last_on_key(events@, at as int, other) by {}
            assert(last_on_key(events@, at + 1, key) == at);
        }
        match state {
            NoteState::On => {
                pending.insert(key, (elapsed, at));
                proof {
                    assert forall|on: int, off: int|
                        #![trigger is_release_of(events@, on, off)]
                        is_release_of(events@, on, off) && off < at + 1 implies track@[on].time_length
                            == elapsed_at(events@, off) - elapsed_at(events@, on) by {
                        assert(off < at);
                        assert(track@[on] == before[on]);
                    }
                    assert forall|on: int|
                        0 <= on < at + 1 && (forall|off: int|
                            off < at + 1 ==> !is_release_of(events@, on, off)) implies (
                    #[trigger] track@[on]).time_length == 0 by {
                        if on < at {
                            assert(track@[on] == before[on]);
                        }
                    }
                }
            },
            NoteState::Off => {
                match pending.remove(&key) {
                    Some((start, index)) => {
                        let held = track[index];
                        proof {
                            lemma_total_delta_monotonic(events@, index + 1, at + 1);
                            assert(is_release_of(events@, index as int, at as int));
                        }
                        track.set(
                            index,
                            PlaybackEvent {
                                delta: held.delta,
                                message: held.message,
                                time_length: elapsed - start,
                                is_note_on: held.is_note_on,
                            },
                        );
                        proof {
                            assert forall|on: int, off: int|
                                #![trigger is_release_of(events@, on, off)]
                                is_release_of(events@, on, off) && off < at + 1 implies track@[on].time_length
                                    == elapsed_at(events@, off) - elapsed_at(events@, on) by {
                                if off == at {
                                    if on != index {
                                        assert(key_at(events@, on) == key);
                                        if on < index {
                                            assert(key_at(events@, index as int) != key_at(
                                                events@,
                                                on,
                                            ));
                                        }
                                    }
                                } else {
                                    if on == index {
                                        assert(key_at(events@, off) == key);
                                    } else {
                                        assert(track@[on] == before[on]);
                                    }
                                }
                            }
                            assert forall|on: int|
                                0 <= on < at + 1 && (forall|off: int|
                                    off < at + 1 ==> !is_release_of(events@, on, off)) implies (
                            #[trigger] track@[on]).time_length == 0 by {
                                if on == index {
                                    assert(is_release_of(events@, on, at as int));
                                } else if on < at {
                                    assert(track@[on] == before[on]);
                                }
                            }
                        }
                    },
                    None => {
                        proof {
                            assert forall|on: int, off: int|
                                #![trigger is_release_of(events@, on, off)]
                                is_release_of(events@, on, off) && off < at + 1 implies track@[on].time_length
                                    == elapsed_at(events@, off) - elapsed_at(events@, on) by {
                                if off == at {
                                    assert(key_at(events@, on) == key);
                                    assert(last_on_key(events@, at as int, key) >= on);
                                    assert(false);
                                } else {
                                    assert(track@[on] == before[on]);
                                }
                            }
                            assert forall|on: int|
                                0 <= on < at + 1 && (forall|off: int|
                                    off < at + 1 ==> !is_release_of(events@, on, off)) implies (
                            #[trigger] track@[on]).time_length == 0 by {
                                if on < at {
                                    assert(track@[on] == before[on]);
                                }
                            }
                        }
                    },
                }
            },
        }
        at += 1;
    }
    proof {
        assert(events@.take(at as int) =~= events@);
        assert forall|i: int| 0 <= i < track@.len() implies is_playback_of(
            #[trigger] track@[i],
            events@,
            i,
        ) by {
            if exists|off: int| is_release_of(events@, i, off) {
                let off = choose|off: int| is_release_of(events@, i, off);
                assert(is_release_of(events@, i, off));
            } else {
                assert forall|off: int| off < at implies !is_release_of(events@, i, off) by {}
            }
        }
    }
    track
}

/// Nanoseconds in a millisecond, the unit of a delta.
pub const NANOS_PER_MILLI: u64 = 1_000_000;

/// Seconds for which the output stays open after the last event of a
/// playback, so that the last notes can die away.
pub const PLAYBACK_COOLDOWN_SECS: u64 = 5;

/// The moment at which the event at `at` is due, in nanoseconds from the
/// start of the playback.
pub open spec fn target_nanos(events: Seq<TimedEvent>, at: int) -> int {
    elapsed_at(events, at) * NANOS_PER_MILLI
}

/// Events are due in their order: a later event is never due before an
/// earlier one.
pub proof fn lemma_targets_never_decrease(events: Seq<TimedEvent>, earlier: int, later: int)
    requires
        0 <= earlier <= later < events.len(),
    ensures
        0 <= target_nanos(events, earlier) <= target_nanos(events, later),
{
    lemma_total_delta_monotonic(events, earlier + 1, later + 1);
}

/// What the player has to do next.
#[derive(Debug, Clone, Copy, PartialEq, Eq)]
pub enum PlaybackStep {
    /// The next event is not due yet: sleep for exactly this long.
    Wait { nanos: u64 },
    /// The next event is due: make it known, send its message, and make the
    /// sent message known.
    Emit(PlaybackEvent),
    /// Every event has been played.
    Finished,
}

/// How far a playback has come: the events of the sequence that is played,
/// and how many of them have been emitted.
pub struct SchedulerModel {
    pub events: Seq<TimedEvent>,
    pub next: int,
}

/// The place of the next event, and the moment at which the one before it was
/// due.
struct Cursor {
    next: usize,
    elapsed: u32,
}

/// Plays a sequence in time. The scheduler itself neither sleeps nor sends:
/// it is asked, with the time that has passed since the playback began, what
/// to do next, and answers with one step.
pub struct PlaybackScheduler {
    track: Vec<PlaybackEvent>,
    events: Ghost<Seq<TimedEvent>>,
    cursor: Cursor,
}

impl View for PlaybackScheduler {
    type V = SchedulerModel;

    closed spec fn view(&self) -> SchedulerModel {
        SchedulerModel { events: self.events@, next: self.cursor.next as int }
    }
}

impl PlaybackScheduler {
    #[verifier::type_invariant]
    spec fn well_formed(self) -> bool {
        &&& self.track@.len() == self.events@.len()
        &&& forall|at: int|
            0 <= at < self.track@.len() ==> is_playback_of(
                #[trigger] self.track@[at],
                self.events@,
                at,
            )
        &&& total_delta(self.events@) <= u32::MAX
        &&& self.cursor.next <= self.track@.len()
        &&& self.cursor.elapsed == total_delta(self.events@.take(self.cursor.next as int))
    }

    /// A scheduler that is about to play `sequence` from its first event.
    pub fn new(sequence: &EventSequence) -> (scheduler: PlaybackScheduler)
        ensures
            scheduler@ == (SchedulerModel { events: sequence@.events, next: 0 }),
    {
        let track = annotate(sequence);
        let _events = sequence.events();
        proof {
            lemma_total_delta_monotonic(sequence@.events, 0, 0);
            assert(sequence@.events.take(0).len() == 0);
        }
        PlaybackScheduler {
            track,
            events: Ghost(sequence@.events),
            cursor: Cursor { next: 0, elapsed: 0 },
        }
    }

    /// The whole track, for a reader that wants to know ahead of time what
    /// will be played.
    pub fn track(&self) -> (track: &Vec<PlaybackEvent>)
        ensures
            track@.len() == self@.events.len(),
            forall|at: int|
                0 <= at < track@.len() ==> is_playback_of(#[trigger] track@[at], self@.events, at),
            0 <= self@.next <= self@.events.len(),
    {
        proof {
            use_type_invariant(self);
        }
        &self.track
    }

    /// The next step of the playback, when `elapsed_nanos` nanoseconds have
    /// passed since it began. Events are emitted one by one in the order of
    /// the sequence, and none before it is due: while the next event lies in
    /// the future the answer is to wait for exactly the time that is left, and
    /// nothing changes.
    pub fn step(&mut self, elapsed_nanos: u128) -> (step: PlaybackStep)
        ensures
            final(self)@.events == old(self)@.events,
            0 <= old(self)@.next <= old(self)@.events.len(),
            match step {
                PlaybackStep::Finished => {
                    &&& old(self)@.next == old(self)@.events.len()
                    &&& final(self)@.next == old(self)@.next
                },
                PlaybackStep::Wait { nanos } => {
                    &&& old(self)@.next < old(self)@.events.len()
                    &&& elapsed_nanos < target_nanos(old(self)@.events, old(self)@.next)
                    &&& nanos == target_nanos(old(self)@.events, old(self)@.next) - elapsed_nanos
                    &&& final(self)@.next == old(self)@.next
                },
                PlaybackStep::Emit(event) => {
                    &&& old(self)@.next < old(self)@.events.len()
                    &&& elapsed_nanos >= target_nanos(old(self)@.events, old(self)@.next)
                    &&& is_playback_of(event, old(self)@.events, old(self)@.next)
                    &&& final(self)@.next == old(self)@.next + 1
                },
            },
    {
        proof {
            use_type_invariant(&*self);
        }
        let next: usize = self.cursor.next;
        if next >= self.track.len() {
            return PlaybackStep::Finished;
        }
        let event = self.track[next];
        proof {
            lemma_total_delta_step(self.events@, next as int);
            lemma_total_delta_monotonic(self.events@, next + 1, self.events@.len() as int);
        }
        let due: u32 = self.cursor.elapsed + event.delta;
        let target: u64 = due as u64 * NANOS_PER_MILLI;
        if elapsed_nanos < target as u128 {
            let nanos: u64 = target - elapsed_nanos as u64;
            return PlaybackStep::Wait { nanos };
        }
        self.cursor = Cursor { next: next + 1, elapsed: due };
        PlaybackStep::Emit(event)
    }
}

} // verus!
