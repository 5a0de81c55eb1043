use crate::codec::{decode, encode, MidiMessageParser};
use crate::error::SequenceError;
use crate::recording::{
    lemma_total_delta_monotonic, lemma_total_delta_push, total_delta, EventSequence,
    SequenceModel, TimedEvent,
};
use midly::live::LiveEvent;
use midly::num::{u15, u28};
use midly::{Arena, Format, Header, MetaMessage, Smf, Timing, TrackEvent, TrackEventKind};
use vstd::prelude::*;

verus! {

/// Ticks per quarter note that every file written here declares. A tick
/// stands for one millisecond.
pub const PULSES_PER_QUARTER_NOTE: u16 = 480;

/// The largest delta that a file can hold: 28 bits.
pub const LARGEST_DELTA: u32 = 0x0FFF_FFFF;

/// Whether a sequence can be written to a file as it is: every delta and the
/// tail fit in 28 bits.
pub open spec fn is_writable(sequence: SequenceModel) -> bool {
    &&& sequence.tail <= LARGEST_DELTA
    &&& forall|at: int|
        0 <= at < sequence.events.len() ==> (#[trigger] sequence.events[at]).delta
            <= LARGEST_DELTA
}

/// What `midly` reads from the bytes of a Standard MIDI File: nothing when it
/// rejects them, else the tracks in order, and of each track its events in
/// order, each as its delta and the raw bytes of its message as they would
/// travel over a live connection; an event that has no live form has no bytes.
pub uninterp spec fn smf_tracks(data: Seq<u8>) -> Option<Seq<Seq<(u32, Seq<u8>)>>>;

/// What `midly` writes for a file of one track, in metrical timing with the
/// given ticks per quarter note, that holds the given messages, each after its
/// delta, and then the end-of-track marker after `end_delta`: the bytes of the
/// file, or nothing when it cannot read a message or write the file.
pub uninterp spec fn smf_single_track(
    ticks_per_beat: u16,
    messages: Seq<(u32, Seq<u8>)>,
    end_delta: u32,
) -> Option<Seq<u8>>;

/// The tag that opens the header of a Standard MIDI File: `MThd`.
pub open spec fn header_tag() -> Seq<u8> {
    seq![0x4Du8, 0x54u8, 0x68u8, 0x64u8]
}

/// Whether the four bytes of the header tag stand at `at`.
pub open spec fn header_at(data: Seq<u8>, at: int) -> bool {
    0 <= at && at + 4 <= data.len() && data.subrange(at, at + 4) == header_tag()
}

/// Whether the bytes can be handed to the reader. The reader takes every
/// chunk that bears the header tag for a header, wherever it stands, and in a
/// header it negates the frame rate, the first byte of the timing field, twelve
/// bytes after the tag. The one byte that cannot be negated, `0x80`, may
/// therefore stand in no such place. No frame rate has that byte.
pub open spec fn may_be_read(data: Seq<u8>) -> bool {
    forall|at: int| #[trigger]
        header_at(data, at) && at + 12 < data.len() ==> data[at + 12] != 0x80
}

/// Tests `may_be_read`.
pub fn check_may_be_read(data: &[u8]) -> (ok: bool)
    ensures
        ok == may_be_read(data@),
{
    if data.len() <= 12 {
        return true;
    }
    let last: usize = data.len() - 12;
    let mut at: usize = 0;
    while at < last
        invariant
            at <= last,
            last + 12 == data@.len(),
            forall|earlier: int| #[trigger]
                header_at(data@, earlier) && earlier < at ==> data@[earlier + 12] != 0x80,
        decreases last - at,
    {
        let tagged = data[at] == 0x4D && data[at + 1] == 0x54 && data[at + 2] == 0x68 && data[at
            + 3] == 0x64;
        proof {
            let tag = data@.subrange(at as int, at + 4);
            assert(tag[0] == data@[at as int] && tag[1] == data@[at + 1] && tag[2] == data@[at
                + 2] && tag[3] == data@[at + 3]);
            assert(tagged <==> tag =~= header_tag());
        }
        if tagged && data[at + 12] == 0x80 {
            proof {
                assert(header_at(data@, at as int));
            }
            return false;
        }
        at += 1;
    }
    true
}

/// `midly::Smf::parse`, with each event of the result turned into its delta
/// (`u28::as_int`) and the bytes that `TrackEventKind::as_live_event` and
/// `LiveEvent::write` give for it. The result depends on `data` alone; what it
/// is, is not stated. The bytes on which the parser would negate the frame
/// rate -128, in the first header or in a later one, are left out.
#[verifier::external_body]
fn read_tracks(data: &[u8]) -> (tracks: Option<Vec<Vec<(u32, Vec<u8>)>>>)
    requires
        may_be_read(data@),
    ensures
        tracks.deep_view() == smf_tracks(data@),
{
    let smf = Smf::parse(data).ok()?;
    let mut tracks = Vec::new();
    for track in smf.tracks.iter() {
        let mut items = Vec::new();
        for event in track.iter() {
            let mut raw = Vec::new();
            if let Some(live) = event.kind.as_live_event() {
                live.write(&mut raw).ok()?;
            }
            items.push((event.delta.as_int(), raw));
        }
        tracks.push(items);
    }
    Some(tracks)
}

/// `midly::Smf::write` on a file of format `SingleTrack` whose one track is
/// built from the arguments: each message through `LiveEvent::parse` and
/// `LiveEvent::as_track_event`, each delta through `u28::from_int_lossy`, the
/// marker `MetaMessage::EndOfTrack` last. The result depends on the arguments
/// alone; what it is, is not stated.
#[verifier::external_body]
fn write_single_track(ticks_per_beat: u16, messages: &Vec<(u32, [u8; 3])>, end_delta: u32) -> (file:
    Option<Vec<u8>>)
    ensures
        file.deep_view() == smf_single_track(ticks_per_beat, messages.deep_view(), end_delta),
{
    let arena = Arena::new();
    let mut track = Vec::new();
    for (delta, raw) in messages.iter() {
        let kind = LiveEvent::parse(raw).ok()?.as_track_event(&arena);
        track.push(TrackEvent { delta: u28::from_int_lossy(*delta), kind });
    }
    let end = TrackEventKind::Meta(MetaMessage::EndOfTrack);
    track.push(TrackEvent { delta: u28::from_int_lossy(end_delta), kind: end });
    let timing = Timing::Metrical(u15::from_int_lossy(ticks_per_beat));
    let mut smf = Smf::new(Header::new(Format::SingleTrack, timing));
    smf.tracks.push(track);
    let mut file = Vec::new();
    smf.write(&mut file).ok()?;
    Some(file)
}

/// The time that a track spans: the sum of the deltas of all its events.
pub open spec fn track_total(items: Seq<(u32, Seq<u8>)>) -> int
    decreases items.len(),
{
    if items.len() == 0 {
        0
    } else {
        track_total(items.drop_last()) + items.last().0
    }
}

/// The note events of a track, each with the time since the note event
/// before it, and the time between the last of them and the end of the track.
/// An event of the track that is no note event is left out, and the time it
/// took is added to the wait for the next note event, so that every note keeps
/// its moment. Meaningful for a track whose total fits in 32 bits.
pub open spec fn track_notes(items: Seq<(u32, Seq<u8>)>) -> SequenceModel
    decreases items.len(),
{
    if items.len() == 0 {
        SequenceModel { events: Seq::empty(), tail: 0 }
    } else {
        let before = track_notes(items.drop_last());
        let waited = (before.tail + items.last().0) as u32;
        match decode(items.last().1) {
            Some(event) => SequenceModel {
                events: before.events.push(TimedEvent { event, delta: waited }),
                tail: 0,
            },
            None => SequenceModel { events: before.events, tail: waited },
        }
    }
}

/// The sequence that the tracks of a file hold: the note events of the first
/// track. A file without tracks holds the empty sequence; a first track that
/// spans more than 32 bits of milliseconds is too long to hold.
pub open spec fn sequence_of_tracks(tracks: Seq<Seq<(u32, Seq<u8>)>>) -> Result<
    SequenceModel,
    SequenceError,
> {
    if tracks.len() == 0 {
        Ok(SequenceModel { events: Seq::empty(), tail: 0 })
    } else if track_total(tracks[0]) <= u32::MAX {
        Ok(track_notes(tracks[0]))
    } else {
        Err(SequenceError::TooLong)
    }
}

/// The sequence that the bytes of a file hold, wrapped or not: that of the
/// tracks which `midly` reads from them. Bytes that cannot be handed to the
/// reader, or that it rejects, hold none.
pub open spec fn sequence_of_file(data: Seq<u8>) -> Result<SequenceModel, SequenceError> {
    if !may_be_read(data) {
        Err(SequenceError::Malformed)
    } else {
        match smf_tracks(data) {
            Some(tracks) => sequence_of_tracks(tracks),
            None => Err(SequenceError::Malformed),
        }
    }
}

/// The messages that stand for a run of events in a file: for each event its
/// delta and its three raw bytes.
pub open spec fn messages_of(events: Seq<TimedEvent>) -> Seq<(u32, Seq<u8>)> {
    Seq::new(events.len(), |at: int| (events[at].delta, encode(events[at].event)))
}

/// A longer prefix of a track never spans less than a shorter one.
proof fn lemma_track_total_prefixes(items: Seq<(u32, Seq<u8>)>, shorter: int, longer: int)
    requires
        0 <= shorter <= longer <= items.len(),
    ensures
        0 <= track_total(items.take(shorter)) <= track_total(items.take(longer)),
    decreases longer,
{
    if longer == 0 {
        assert(items.take(0).len() == 0);
    } else {
        assert(items.take(longer).drop_last() =~= items.take(longer - 1));
        if shorter == longer {
            lemma_track_total_prefixes(items, shorter - 1, longer - 1);
        } else {
            lemma_track_total_prefixes(items, shorter, longer - 1);
        }
    }
}

/// The notes of a track that fits keep the track's time: their deltas and
/// the tail add up to the track's total.
pub proof fn lemma_track_notes_keep_time(items: Seq<(u32, Seq<u8>)>)
    requires
        track_total(items) <= u32::MAX,
    ensures
        total_delta(track_notes(items).events) + track_notes(items).tail == track_total(items),
        track_notes(items).fits(),
    decreases items.len(),
{
    if items.len() > 0 {
        let before = items.drop_last();
        assert(before =~= items.take(items.len() - 1));
        assert(items =~= items.take(items.len() as int));
        lemma_track_total_prefixes(items, items.len() - 1, items.len() as int);
        lemma_track_notes_keep_time(before);
        lemma_total_delta_monotonic(track_notes(before).events, 0, 0);
        let waited = (track_notes(before).tail + items.last().0) as u32;
        if let Some(event) = decode(items.last().1) {
            lemma_total_delta_push(track_notes(before).events, TimedEvent { event, delta: waited });
        }
    }
}

impl EventSequence {
    /// The sequence that the tracks of a file hold, where each event of a
    /// track is given by its delta and the raw bytes of its message.
    pub fn from_tracks(tracks: &Vec<Vec<(u32, Vec<u8>)>>) -> (sequence: Result<
        EventSequence,
        SequenceError,
    >)
        ensures
            sequence matches Ok(s) ==> sequence_of_tracks(tracks.deep_view()) == Ok::<
                SequenceModel,
                SequenceError,
            >(s@),
            sequence matches Err(e) ==> sequence_of_tracks(tracks.deep_view()) == Err::<
                SequenceModel,
                SequenceError,
            >(e),
    {
        if tracks.len() == 0 {
            return Ok(EventSequence::assemble(Vec::new(), 0));
        }
        let items = &tracks[0];
        let ghost track = tracks.deep_view()[0];
        assert(track == items.deep_view());
        let mut events: Vec<TimedEvent> = Vec::new();
        let mut waited: u32 = 0;
        let mut total: u32 = 0;
        let mut at: usize = 0;
        assert(track.take(0).len() == 0);
        while at < items.len()
            invariant
                at <= items.len(),
                tracks.deep_view().len() > 0,
                track == tracks.deep_view()[0],
                track == items.deep_view(),
                track.len() == items.len(),
                total == track_total(track.take(at as int)),
                events@ == track_notes(track.take(at as int)).events,
                waited == track_notes(track.take(at as int)).tail,
            decreases items.len() - at,
        {
            let delta: u32 = items[at].0;
            let parser = MidiMessageParser { msg: items[at].1.as_slice() };
            proof {
                let read = track.take(at as int);
                assert(track.take(at + 1).drop_last() =~= read);
                assert(track.take(at + 1).last() == track[at as int]);
                assert(track[at as int].0 == delta);
                assert(track[at as int].1 =~= items@[at as int].1@);
                lemma_track_total_prefixes(track, at + 1, track.len() as int);
                assert(track.take(track.len() as int) =~= track);
                lemma_track_notes_keep_time(read);
                lemma_total_delta_monotonic(track_notes(read).events, 0, 0);
            }
            total = match total.checked_add(delta) {
                Some(sum) => sum,
                None => {
                    return Err(SequenceError::TooLong);
                },
            };
            match parser.parse() {
                Some(event) => {
                    events.push(TimedEvent { event, delta: waited + delta });
                    waited = 0;
                },
                None => {
                    waited = waited + delta;
                },
            }
            at += 1;
        }
        proof {
            assert(track.take(at as int) =~= track);
            lemma_track_notes_keep_time(track);
        }
        Ok(EventSequence::assemble(events, waited))
    }

    /// The sequence that the bytes of a Standard MIDI File hold.
    pub fn from_smf_bytes(data: &[u8]) -> (sequence: Result<EventSequence, SequenceError>)
        ensures
            sequence matches Ok(s) ==> sequence_of_file(data@) == Ok::<
                SequenceModel,
                SequenceError,
            >(s@),
            sequence matches Err(e) ==> sequence_of_file(data@) == Err::<
                SequenceModel,
                SequenceError,
            >(e),
    {
        if !check_may_be_read(data) {
            return Err(SequenceError::Malformed);
        }
        match read_tracks(data) {
            Some(tracks) => EventSequence::from_tracks(&tracks),
            None => Err(SequenceError::Malformed),
        }
    }

    /// The messages that stand for the events in a file: for each event its
    /// delta and its three raw bytes.
    pub fn messages(&self) -> (messages: Vec<(u32, [u8; 3])>)
        ensures
            messages.deep_view() == messages_of(self@.events),
    {
        let events = self.events();
        let mut messages: Vec<(u32, [u8; 3])> = Vec::new();
        let mut at: usize = 0;
        while at < events.len()
            invariant
                at <= events.len(),
                messages@.len() == at,
                forall|i: int|
                    0 <= i < at ==> (#[trigger] messages@[i]).0 == events@[i].delta
                        && messages@[i].1@ == encode(events@[i].event),
            decreases events.len() - at,
        {
            messages.push((events[at].delta, events[at].event.encode()));
            at += 1;
        }
        proof {
            assert forall|i: int| 0 <= i < messages@.len() implies messages.deep_view()[i]
                == messages_of(events@)[i] by {
                assert(messages@[i].1.deep_view() =~= messages@[i].1@);
            }
            assert(messages.deep_view() =~= messages_of(events@));
        }
        messages
    }

    /// Whether every delta and the tail can be written to a file as they are.
    pub fn can_be_written(&self) -> (ok: bool)
        ensures
            ok == is_writable(self@),
    {
        if self.tail() > LARGEST_DELTA {
            return false;
        }
        let events = self.events();
        let mut at: usize = 0;
        while at < events.len()
            invariant
                at <= events.len(),
                events@ == self@.events,
                self@.tail <= LARGEST_DELTA,
                forall|i: int| 0 <= i < at ==> (#[trigger] events@[i]).delta <= LARGEST_DELTA,
            decreases events.len() - at,
        {
            if events[at].delta > LARGEST_DELTA {
                return false;
            }
            at += 1;
        }
        true
    }

    /// The bytes of a Standard MIDI File that holds this sequence as its one
    /// track: every event after its delta, then the end-of-track marker after
    /// the tail. Nothing when a delta or the tail is too large for a file,
    /// where it would be cut short and the file would no longer keep the time;
    /// nothing either when the file cannot be written.
    pub fn to_smf_bytes(&self) -> (file: Option<Vec<u8>>)
        ensures
            !is_writable(self@) ==> file is None,
            is_writable(self@) ==> (file matches Some(bytes) ==> smf_single_track(
                PULSES_PER_QUARTER_NOTE,
                messages_of(self@.events),
                self@.tail,
            ) == Some(bytes@)),
            is_writable(self@) ==> (file is None ==> smf_single_track(
                PULSES_PER_QUARTER_NOTE,
                messages_of(self@.events),
                self@.tail,
            ) is None),
    {
        if !self.can_be_written() {
            return None;
        }
        let messages = self.messages();
        let file = write_single_track(PULSES_PER_QUARTER_NOTE, &messages, self.tail());
        proof {
            if file is Some {
                assert(file->0.deep_view() =~= file->0@);
            }
        }
        file
    }
}

} // verus!
