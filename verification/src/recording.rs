use crate::codec::{decode, MidiMessageParser};
use crate::event::PianoEvent;
use vstd::prelude::*;

verus! {

/// A note event together with the time, in milliseconds, that passed between
/// the event before it and itself. The order of a sequence of these is the
/// order in which the events happened.
#[derive(Debug, Clone, Copy, PartialEq, Eq, Structural)]
pub struct TimedEvent {
    pub event: PianoEvent,
    pub delta: u32,
}

/// The time that a run of events spans: the sum of their deltas, which is the
/// moment of the last event counted from the start.
pub open spec fn total_delta(events: Seq<TimedEvent>) -> int
    decreases events.len(),
{
    if events.len() == 0 {
        0
    } else {
        total_delta(events.drop_last()) + events.last().delta
    }
}

/// The moment of the event at `at`, counted from the start of the sequence.
pub open spec fn elapsed_at(events: Seq<TimedEvent>, at: int) -> int {
    total_delta(events.take(at + 1))
}

/// Appending an event moves the end of the sequence on by the event's delta.
pub proof fn lemma_total_delta_push(events: Seq<TimedEvent>, last: TimedEvent)
    ensures
        total_delta(events.push(last)) == total_delta(events) + last.delta,
{
    assert(events.push(last).drop_last() =~= events);
}

/// A prefix that is one event longer spans that event's delta more.
pub proof fn lemma_total_delta_step(events: Seq<TimedEvent>, at: int)
    requires
        0 <= at < events.len(),
    ensures
        total_delta(events.take(at + 1)) == total_delta(events.take(at)) + events[at].delta,
{
    assert(events.take(at + 1).drop_last() =~= events.take(at));
}

proof fn lemma_total_delta_prefixes(events: Seq<TimedEvent>, shorter: int, longer: int)
    requires
        0 <= shorter <= longer <= events.len(),
    ensures
        0 <= total_delta(events.take(shorter)) <= total_delta(events.take(longer)),
    decreases longer,
{
    if longer == 0 {
        assert(events.take(0).len() == 0);
    } else if shorter == longer {
        lemma_total_delta_prefixes(events, shorter - 1, longer - 1);
        lemma_total_delta_step(events, longer - 1);
    } else {
        lemma_total_delta_prefixes(events, shorter, longer - 1);
        lemma_total_delta_step(events, longer - 1);
    }
}

/// No prefix of a sequence spans less than nothing or more than the whole,
/// and a longer prefix never spans less than a shorter one.
pub proof fn lemma_total_delta_monotonic(events: Seq<TimedEvent>, shorter: int, longer: int)
    requires
        0 <= shorter <= longer <= events.len(),
    ensures
        0 <= total_delta(events.take(shorter)) <= total_delta(events.take(longer)) <= total_delta(
            events,
        ),
{
    lemma_total_delta_prefixes(events, shorter, longer);
    lemma_total_delta_prefixes(events, longer, events.len() as int);
    assert(events.take(events.len() as int) =~= events);
}

/// The time between two readings of the session clock. A clock that seems to
/// have gone back counts as one that stood still.
pub open spec fn gap(last: u32, now: u32) -> u32 {
    if now >= last {
        (now - last) as u32
    } else {
        0
    }
}

/// The later of two readings of the session clock.
pub open spec fn later(last: u32, now: u32) -> u32 {
    if now >= last {
        now
    } else {
        last
    }
}

/// What a recording in progress holds: the events captured so far, and the
/// reading of the session clock at the last of them.
pub struct SessionModel {
    pub events: Seq<TimedEvent>,
    pub elapsed: u32,
}

impl SessionModel {
    /// The deltas of the captured events add up to the clock reading at the
    /// last of them.
    pub open spec fn in_step(self) -> bool {
        total_delta(self.events) == self.elapsed
    }

    /// The session after `event` arrived at clock reading `now`.
    pub open spec fn appended(self, event: PianoEvent, now: u32) -> SessionModel {
        SessionModel {
            events: self.events.push(TimedEvent { event, delta: gap(self.elapsed, now) }),
            elapsed: later(self.elapsed, now),
        }
    }

    /// The finished sequence when the session stops at clock reading `now`.
    pub open spec fn sealed(self, now: u32) -> SequenceModel {
        SequenceModel { events: self.events, tail: gap(self.elapsed, now) }
    }
}

/// What a finished sequence holds: its events, and the time between the last
/// of them and the end marker.
pub struct SequenceModel {
    pub events: Seq<TimedEvent>,
    pub tail: u32,
}

impl SequenceModel {
    /// The whole sequence, end marker included, spans a time that 32 bits of
    /// milliseconds can hold.
    pub open spec fn fits(self) -> bool {
        total_delta(self.events) + self.tail <= u32::MAX
    }
}

/// A fresh session holds nothing and its clock reads zero.
pub open spec fn empty_session() -> SessionModel {
    SessionModel { events: Seq::empty(), elapsed: 0 }
}

/// A recorder after a request to start: a recorder that is recording already
/// refuses and stays as it is; one that is not starts a fresh session.
pub open spec fn started(recorder: Option<SessionModel>) -> (Option<SessionModel>, bool) {
    match recorder {
        Some(_) => (recorder, false),
        None => (Some(empty_session()), true),
    }
}

/// A recorder after `event` arrived at clock reading `now`: the event is
/// appended to the session if there is one.
pub open spec fn recorded(recorder: Option<SessionModel>, event: PianoEvent, now: u32) -> (
    Option<SessionModel>,
    bool,
) {
    match recorder {
        Some(session) => (Some(session.appended(event, now)), true),
        None => (None, false),
    }
}

/// A recorder after the raw message `message` arrived at clock reading `now`:
/// a message that is a note event is recorded, any other changes nothing.
pub open spec fn heard(recorder: Option<SessionModel>, message: Seq<u8>, now: u32) -> (
    Option<SessionModel>,
    Option<PianoEvent>,
) {
    match decode(message) {
        Some(event) => (recorded(recorder, event, now).0, Some(event)),
        None => (recorder, None),
    }
}

/// A recorder after a request to stop at clock reading `now`: the session, if
/// there is one, is sealed and handed out, and the recorder is idle again.
pub open spec fn stopped(recorder: Option<SessionModel>, now: u32) -> (
    Option<SessionModel>,
    Option<SequenceModel>,
) {
    match recorder {
        Some(session) => (None, Some(session.sealed(now))),
        None => (None, None),
    }
}

/// A fresh session is in step.
pub proof fn lemma_empty_session_in_step()
    ensures
        empty_session().in_step(),
{
}

/// Recording keeps the deltas in step with the clock: after an event that
/// arrives when the clock reads `now`, not earlier than the event before it,
/// the deltas add up to `now`, and the new delta is the time since that event.
pub proof fn lemma_appended_in_step(session: SessionModel, event: PianoEvent, now: u32)
    requires
        session.in_step(),
    ensures
        session.appended(event, now).in_step(),
        now >= session.elapsed ==> total_delta(session.appended(event, now).events) == now,
        now >= session.elapsed ==> session.appended(event, now).events.last().delta == now
            - session.elapsed,
{
    lemma_total_delta_push(session.events, TimedEvent { event, delta: gap(session.elapsed, now) });
}

/// One note message that reaches a recording in step, when the clock reads
/// `now` and not less than at the event before: exactly one event is appended,
/// the one that the message stands for, with the time since the event before
/// as its delta; the events before it stay as they were; and the deltas add up
/// to `now`.
pub proof fn lemma_heard_note_keeps_time(session: SessionModel, message: Seq<u8>, now: u32)
    requires
        session.in_step(),
        decode(message) is Some,
        session.elapsed <= now,
    ensures
        heard(Some(session), message, now) == (
            Some(
                SessionModel {
                    events: session.events.push(
                        TimedEvent { event: decode(message)->0, delta: (now - session.elapsed) as u32 },
                    ),
                    elapsed: now,
                },
            ),
            decode(message),
        ),
        total_delta(heard(Some(session), message, now).0->0.events) == now,
{
    lemma_appended_in_step(session, decode(message)->0, now);
}

/// The recorder after a run of raw messages, each with the clock reading at
/// which it arrived, has reached it in order.
pub open spec fn listened(recorder: Option<SessionModel>, arrivals: Seq<(Seq<u8>, u32)>) -> Option<
    SessionModel,
>
    decreases arrivals.len(),
{
    if arrivals.len() == 0 {
        recorder
    } else {
        heard(listened(recorder, arrivals.drop_last()), arrivals.last().0, arrivals.last().1).0
    }
}

/// Whether no message of the run arrived before an earlier one.
pub open spec fn arrived_in_order(arrivals: Seq<(Seq<u8>, u32)>) -> bool {
    forall|earlier: int, later: int|
        0 <= earlier <= later < arrivals.len() ==> (#[trigger] arrivals[earlier]).1 <= (
        #[trigger] arrivals[later]).1
}

/// The time between the arrival at `at` and the one before it; for the first
/// arrival, the time since the recording began.
pub open spec fn arrival_gap(arrivals: Seq<(Seq<u8>, u32)>, at: int) -> int {
    if at == 0 {
        arrivals[at].1 as int
    } else {
        arrivals[at].1 - arrivals[at - 1].1
    }
}

/// A fresh recording that hears a run of note messages in the order of their
/// arrival holds one event for each message, in that order, whose delta is the
/// time since the message before; the deltas add up to the clock reading at
/// the last arrival, which is the time that has really passed.
pub proof fn lemma_listened_keeps_time(arrivals: Seq<(Seq<u8>, u32)>)
    requires
        arrived_in_order(arrivals),
        forall|at: int| 0 <= at < arrivals.len() ==> decode((#[trigger] arrivals[at]).0) is Some,
    ensures
        listened(Some(empty_session()), arrivals) is Some,
        listened(Some(empty_session()), arrivals)->0.in_step(),
        listened(Some(empty_session()), arrivals)->0.events.len() == arrivals.len(),
        arrivals.len() > 0 ==> listened(Some(empty_session()), arrivals)->0.elapsed
            == arrivals.last().1,
        arrivals.len() > 0 ==> total_delta(listened(Some(empty_session()), arrivals)->0.events)
            == arrivals.last().1,
        forall|at: int|
            0 <= at < arrivals.len() ==> {
                &&& (#[trigger] listened(Some(empty_session()), arrivals)->0.events[at]).event
                    == decode(arrivals[at].0)->0
                &&& listened(Some(empty_session()), arrivals)->0.events[at].delta == arrival_gap(
                    arrivals,
                    at,
                )
            },
    decreases arrivals.len(),
{
    if arrivals.len() > 0 {
        let before = arrivals.drop_last();
        let last = arrivals.last();
        assert forall|at: int| 0 <= at < before.len() implies decode(
            (#[trigger] before[at]).0,
        ) is Some by {
            assert(before[at] == arrivals[at]);
        }
        assert(arrived_in_order(before)) by {
            assert forall|earlier: int, later: int|
                0 <= earlier <= later < before.len() implies (#[trigger] before[earlier]).1 <= (
            #[trigger] before[later]).1 by {
                assert(before[earlier] == arrivals[earlier]);
                assert(before[later] == arrivals[later]);
            }
        }
        lemma_listened_keeps_time(before);
        let session = listened(Some(empty_session()), before)->0;
        if before.len() > 0 {
            assert(before.last() == arrivals[arrivals.len() - 2]);
            assert(arrivals[arrivals.len() - 2].1 <= arrivals[arrivals.len() - 1].1);
        }
        assert(decode(arrivals[arrivals.len() - 1].0) is Some);
        lemma_heard_note_keeps_time(session, last.0, last.1);
        let after = listened(Some(empty_session()), arrivals)->0;
        assert forall|at: int| 0 <= at < arrivals.len() implies {
            &&& (#[trigger] after.events[at]).event == decode(arrivals[at].0)->0
            &&& after.events[at].delta == arrival_gap(arrivals, at)
        } by {
            if at < before.len() {
                assert(after.events[at] == session.events[at]);
                assert(before[at] == arrivals[at]);
                if at > 0 {
                    assert(before[at - 1] == arrivals[at - 1]);
                }
            }
        }
    }
}

/// A sealed session spans the time from its start to the moment it stopped.
pub proof fn lemma_sealed_fits(session: SessionModel, now: u32)
    requires
        session.in_step(),
    ensures
        session.sealed(now).fits(),
        total_delta(session.sealed(now).events) + session.sealed(now).tail == later(
            session.elapsed,
            now,
        ),
{
}

/// Starting twice in a row: the second request is refused, and leaves the
/// session that the first one started as it is.
pub proof fn lemma_start_twice(recorder: Option<SessionModel>)
    ensures
        started(started(recorder).0) == (started(recorder).0, false),
        started(started(recorder).0).0->0.events.len() == started(recorder).0->0.events.len(),
{
}

/// A sequence of note events that is complete and can no longer change.
pub struct EventSequence {
    events: Vec<TimedEvent>,
    tail: u32,
}

impl View for EventSequence {
    type V = SequenceModel;

    closed spec fn view(&self) -> SequenceModel {
        SequenceModel { events: self.events@, tail: self.tail }
    }
}

impl EventSequence {
    #[verifier::type_invariant]
    spec fn fits(self) -> bool {
        self@.fits()
    }

    /// A sequence of the given events that ends `tail` milliseconds after the
    /// last of them, unless it would span more than 32 bits of milliseconds.
    pub fn from_events(events: Vec<TimedEvent>, tail: u32) -> (sequence: Option<EventSequence>)
        ensures
            (SequenceModel { events: events@, tail }).fits() ==> sequence is Some && sequence->0@
                == (SequenceModel { events: events@, tail }),
            !(SequenceModel { events: events@, tail }).fits() ==> sequence is None,
    {
        let mut total: u32 = tail;
        let mut at: usize = 0;
        while at < events.len()
            invariant
                at <= events.len(),
                total == total_delta(events@.take(at as int)) + tail,
            decreases events.len() - at,
        {
            proof {
                lemma_total_delta_step(events@, at as int);
                lemma_total_delta_monotonic(events@, at + 1, events@.len() as int);
            }
            total = match total.checked_add(events[at].delta) {
                Some(sum) => sum,
                None => {
                    return None;
                },
            };
            at += 1;
        }
        proof {
            assert(events@.take(at as int) =~= events@);
        }
        Some(EventSequence { events, tail })
    }

    /// A sequence of events that is known to fit.
    pub(crate) fn assemble(events: Vec<TimedEvent>, tail: u32) -> (sequence: EventSequence)
        requires
            (SequenceModel { events: events@, tail }).fits(),
        ensures
            sequence@ == (SequenceModel { events: events@, tail }),
    {
        EventSequence { events, tail }
    }

    /// Whether the sequence holds no event.
    pub fn is_empty(&self) -> (empty: bool)
        ensures
            empty == (self@.events.len() == 0),
    {
        self.events.len() == 0
    }

    /// The events of the sequence, in order.
    pub fn events(&self) -> (events: &Vec<TimedEvent>)
        ensures
            events@ == self@.events,
            self@.fits(),
    {
        proof {
            use_type_invariant(self);
        }
        &self.events
    }

    /// The time between the last event and the end of the sequence.
    pub fn tail(&self) -> (tail: u32)
        ensures
            tail == self@.tail,
    {
        self.tail
    }
}

/// A recording in progress.
struct RecordingSession {
    events: Vec<TimedEvent>,
    last_elapsed: u32,
}

impl View for RecordingSession {
    type V = SessionModel;

    closed spec fn view(&self) -> SessionModel {
        SessionModel { events: self.events@, elapsed: self.last_elapsed }
    }
}

impl RecordingSession {
    #[verifier::type_invariant]
    spec fn in_step(self) -> bool {
        self@.in_step()
    }

    fn begin() -> (session: RecordingSession)
        ensures
            session@ == empty_session(),
    {
        RecordingSession { events: Vec::new(), last_elapsed: 0 }
    }

    fn append(self, event: PianoEvent, now: u32) -> (session: RecordingSession)
        ensures
            session@ == self@.appended(event, now),
    {
        proof {
            use_type_invariant(&self);
            lemma_appended_in_step(self@, event, now);
        }
        let delta: u32 = if now >= self.last_elapsed {
            now - self.last_elapsed
        } else {
            0
        };
        let last_elapsed: u32 = if now >= self.last_elapsed {
            now
        } else {
            self.last_elapsed
        };
        let mut events = self.events;
        events.push(TimedEvent { event, delta });
        RecordingSession { events, last_elapsed }
    }

    fn seal(self, now: u32) -> (sequence: EventSequence)
        ensures
            sequence@ == self@.sealed(now),
    {
        proof {
            use_type_invariant(&self);
            lemma_sealed_fits(self@, now);
        }
        let tail: u32 = if now >= self.last_elapsed {
            now - self.last_elapsed
        } else {
            0
        };
        EventSequence { events: self.events, tail }
    }
}

/// The one place where a recording can be in progress. There is at most one
/// session at a time; it exists from `start_recording` to `stop_recording`, and
/// while it exists only `record` and `hear` add to it.
pub struct Recorder {
    session: Option<RecordingSession>,
}

impl View for Recorder {
    type V = Option<SessionModel>;

    closed spec fn view(&self) -> Option<SessionModel> {
        match self.session {
            Some(session) => Some(session@),
            None => None,
        }
    }
}

impl Recorder {
    /// A recorder that is not recording.
    pub fn new() -> (recorder: Recorder)
        ensures
            recorder@ is None,
    {
        Recorder { session: None }
    }

    /// Whether a recording is in progress. While one is, its deltas add up to
    /// the clock reading at its last event.
    pub fn is_recording(&self) -> (recording: bool)
        ensures
            recording == (self@ is Some),
            self@ matches Some(session) ==> session.in_step(),
    {
        match &self.session {
            Some(session) => {
                proof {
                    use_type_invariant(session);
                }
                true
            },
            None => false,
        }
    }

    /// The number of events captured so far; zero when nothing is being
    /// recorded.
    pub fn recorded_len(&self) -> (len: usize)
        ensures
            self@ matches Some(session) ==> len == session.events.len(),
            self@ is None ==> len == 0,
    {
        match &self.session {
            Some(session) => session.events.len(),
            None => 0,
        }
    }

    /// The clock reading at the last captured event; zero when nothing has
    /// been captured.
    pub fn last_elapsed(&self) -> (elapsed: u32)
        ensures
            self@ matches Some(session) ==> elapsed == session.elapsed,
            self@ is None ==> elapsed == 0,
    {
        match &self.session {
            Some(session) => session.last_elapsed,
            None => 0,
        }
    }

    /// Starts a recording, unless one is in progress: then nothing changes and
    /// the answer is `false`.
    pub fn start_recording(&mut self) -> (began: bool)
        ensures
            (final(self)@, began) == started(old(self)@),
    {
        match self.session.take() {
            Some(session) => {
                self.session = Some(session);
                false
            },
            None => {
                self.session = Some(RecordingSession::begin());
                true
            },
        }
    }

    /// Appends `event`, which arrived when the session clock read `now`
    /// milliseconds, to the recording in progress. Without one nothing changes
    /// and the answer is `false`.
    pub fn record(&mut self, event: PianoEvent, now: u32) -> (kept: bool)
        ensures
            (final(self)@, kept) == recorded(old(self)@, event, now),
            final(self)@ matches Some(session) ==> session.in_step(),
    {
        match self.session.take() {
            Some(session) => {
                let session = session.append(event, now);
                proof {
                    use_type_invariant(&session);
                }
                self.session = Some(session);
                true
            },
            None => false,
        }
    }

    /// Takes one raw message from the instrument, which arrived when the
    /// session clock read `now` milliseconds. A message that is a note event is
    /// handed back, to be made known, and is appended to the recording if one
    /// is in progress. Any other message changes nothing.
    pub fn hear(&mut self, message: &[u8], now: u32) -> (event: Option<PianoEvent>)
        ensures
            (final(self)@, event) == heard(old(self)@, message@, now),
            final(self)@ matches Some(session) ==> session.in_step(),
    {
        let parser = MidiMessageParser { msg: message };
        let event = parser.parse();
        match event {
            Some(event) => {
                self.record(event, now);
            },
            None => {
                proof {
                    if let Some(session) = &self.session {
                        use_type_invariant(session);
                    }
                }
            },
        }
        event
    }

    /// Stops the recording in progress when the session clock reads `now`
    /// milliseconds, and hands out the finished sequence. Without a recording
    /// in progress there is nothing to hand out.
    pub fn stop_recording(&mut self, now: u32) -> (sequence: Option<EventSequence>)
        ensures
            final(self)@ == stopped(old(self)@, now).0,
            sequence matches Some(s) ==> stopped(old(self)@, now).1 == Some(s@),
            sequence is None ==> stopped(old(self)@, now).1 is None,
    {
        match self.session.take() {
            Some(session) => Some(session.seal(now)),
            None => None,
        }
    }
}

} // verus!
