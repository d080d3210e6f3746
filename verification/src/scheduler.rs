//! The event-scheduling engine: one cursor per track advanced against a
//! running wall-clock, a shared tempo applied the moment it changes, and the
//! per-channel note state the fired events produce.

use vstd::prelude::*;
use crate::event::{Event, EventKind, MAX_TEMPO_MICROS};
use crate::midi::{
    bank_apply, delta_micros, get_delta_micros, lemma_delta_micros_monotone, Channels, Tempo,
    Track, DEFAULT_TEMPO_MICROS,
};
use crate::player::{Playback, PlaybackState};

verus! {

/// Spec-level image of one track cursor: the index of the next unconsumed
/// event and the wall-clock time not yet spent on firing events.
#[verifier::ext_equal]
pub ghost struct CursorModel {
    pub next: int,
    pub pending: int,
}

/// Spec-level image of the whole session.
#[verifier::ext_equal]
pub ghost struct SchedulerModel {
    /// Ticks per quarter note, fixed for the whole file.
    pub unit: int,
    /// The decoded event sequences, one per track; never mutated.
    pub tracks: Seq<Seq<Event>>,
    /// One cursor per track, in track order.
    pub cursors: Seq<CursorModel>,
    /// Microseconds per quarter note, shared by all tracks.
    pub tempo: int,
    /// The sixteen channels' sets of sounding keys.
    pub banks: Seq<Set<u8>>,
    /// Wall-clock microseconds spent playing since the last stop.
    pub elapsed: int,
    /// Transport state.
    pub state: PlaybackState,
}

/// The tempo after one event is applied: a tempo meta-event installs its
/// quarter-note duration, every other event leaves the tempo alone.
pub open spec fn tempo_after(tempo: int, e: Event) -> int {
    match e.kind {
        EventKind::TempoChange { micros_per_quarter } => micros_per_quarter as int,
        _ => tempo,
    }
}

/// The sixteen note sets after one event is applied: a channel-voice message
/// is applied to its channel, every other event leaves the bank alone.
pub open spec fn banks_after(banks: Seq<Set<u8>>, e: Event) -> Seq<Set<u8>> {
    match e.kind {
        EventKind::Midi { channel, message } => bank_apply(banks, channel, message),
        _ => banks,
    }
}

/// Result of advancing one cursor as far as its pending time allows.
#[verifier::ext_equal]
pub ghost struct CursorStep {
    pub cursor: CursorModel,
    pub tempo: int,
    pub banks: Seq<Set<u8>>,
}

/// Advance one cursor through its track: while the next event's delta-time,
/// converted under the tempo current at that moment, has been reached, spend
/// that time, apply the event, and move on; stop at the first event not yet
/// due, or at the end of the track. A tempo change consumed on the way is in
/// force for every later event of the same pass.
pub open spec fn run_cursor(
    events: Seq<Event>,
    unit: int,
    cursor: CursorModel,
    tempo: int,
    banks: Seq<Set<u8>>,
) -> CursorStep
    decreases events.len() - cursor.next,
{
    if !(0 <= cursor.next < events.len()) {
        CursorStep { cursor, tempo, banks }
    } else {
        let required = delta_micros(unit, events[cursor.next].delta_ticks as int, tempo);
        if cursor.pending >= required {
            run_cursor(
                events,
                unit,
                CursorModel { next: cursor.next + 1, pending: cursor.pending - required },
                tempo_after(tempo, events[cursor.next]),
                banks_after(banks, events[cursor.next]),
            )
        } else {
            CursorStep { cursor, tempo, banks }
        }
    }
}

/// Result of advancing every track of one tick.
#[verifier::ext_equal]
pub ghost struct TracksStep {
    pub cursors: Seq<CursorModel>,
    pub tempo: int,
    pub banks: Seq<Set<u8>>,
}

/// Advance the tracks from index `i` on, in enumeration order, handing each
/// cursor the tick's frame time `dt` before it runs. The tempo is shared:
/// what one track's events set, the tracks after it see within the same
/// tick.
pub open spec fn run_tracks(
    tracks: Seq<Seq<Event>>,
    unit: int,
    cursors: Seq<CursorModel>,
    tempo: int,
    banks: Seq<Set<u8>>,
    dt: int,
    i: int,
) -> TracksStep
    decreases tracks.len() - i,
{
    if !(0 <= i < tracks.len() && tracks.len() <= cursors.len()) {
        TracksStep { cursors, tempo, banks }
    } else {
        let started = CursorModel { next: cursors[i].next, pending: cursors[i].pending + dt };
        let step = run_cursor(tracks[i], unit, started, tempo, banks);
        run_tracks(tracks, unit, cursors.update(i, step.cursor), step.tempo, step.banks, dt, i + 1)
    }
}

/// The cumulative effect of a sequence of events on the shared tempo and the
/// channel bank, applied one at a time, in order.
#[verifier::ext_equal]
pub ghost struct EffectStep {
    pub tempo: int,
    pub banks: Seq<Set<u8>>,
}

/// Apply each event of `events` exactly once, first to last.
pub open spec fn apply_events(events: Seq<Event>, tempo: int, banks: Seq<Set<u8>>) -> EffectStep
    decreases events.len(),
{
    if events.len() == 0 {
        EffectStep { tempo, banks }
    } else {
        apply_events(
            events.drop_first(),
            tempo_after(tempo, events[0]),
            banks_after(banks, events[0]),
        )
    }
}

/// Firing is idempotent per event, however large one tick's frame time is: a
/// pass of the cursor consumes one contiguous run of its track, so the
/// cursor only moves forward, never past the end, and what comes out of the
/// pass is exactly the effect of applying each consumed event once, in file
/// order — no event fires twice, none is skipped. The pass also leaves
/// nothing due: either the track is exhausted, or the unspent time is too
/// short for the next event under the tempo the pass ended with.
pub proof fn lemma_each_event_fires_exactly_once(
    events: Seq<Event>,
    unit: int,
    cursor: CursorModel,
    tempo: int,
    banks: Seq<Set<u8>>,
)
    requires
        0 < unit,
        0 <= cursor.next <= events.len(),
        0 <= cursor.pending,
        0 <= tempo,
    ensures
        ({
            let step = run_cursor(events, unit, cursor, tempo, banks);
            &&& cursor.next <= step.cursor.next <= events.len()
            &&& 0 <= step.cursor.pending
            &&& step.cursor.next < events.len() ==> step.cursor.pending < delta_micros(
                unit,
                events[step.cursor.next].delta_ticks as int,
                step.tempo,
            )
            &&& (EffectStep { tempo: step.tempo, banks: step.banks }) == apply_events(
                events.subrange(cursor.next, step.cursor.next),
                tempo,
                banks,
            )
        }),
    decreases events.len() - cursor.next,
{
    let step = run_cursor(events, unit, cursor, tempo, banks);
    if cursor.next < events.len() {
        let e = events[cursor.next];
        let required = delta_micros(unit, e.delta_ticks as int, tempo);
        lemma_delta_micros_monotone(unit, e.delta_ticks as int, e.delta_ticks as int, tempo, tempo);
        if cursor.pending >= required {
            let advanced = CursorModel {
                next: cursor.next + 1,
                pending: cursor.pending - required,
            };
            let tempo1 = tempo_after(tempo, e);
            let banks1 = banks_after(banks, e);
            lemma_each_event_fires_exactly_once(events, unit, advanced, tempo1, banks1);
            let fired = events.subrange(cursor.next, step.cursor.next);
            let fired_rest = events.subrange(cursor.next + 1, step.cursor.next);
            assert(fired.len() > 0);
            assert(fired[0] == e);
            assert(fired.drop_first() =~= fired_rest);
            assert(apply_events(fired, tempo, banks) == apply_events(fired_rest, tempo1, banks1));
        } else {
            assert(events.subrange(cursor.next, cursor.next) =~= Seq::<Event>::empty());
        }
    } else {
        assert(events.subrange(cursor.next, cursor.next) =~= Seq::<Event>::empty());
    }
}

/// The whole session after one tick of `dt` microseconds: nothing moves
/// unless the transport is playing; while it is, the playback clock grows by
/// `dt` and every track advances in order under the shared tempo.
pub open spec fn tick_model(m: SchedulerModel, dt: int) -> SchedulerModel {
    if !(m.state is Playing) {
        m
    } else {
        let step = run_tracks(m.tracks, m.unit, m.cursors, m.tempo, m.banks, dt, 0);
        SchedulerModel {
            cursors: step.cursors,
            tempo: step.tempo,
            banks: step.banks,
            elapsed: m.elapsed + dt,
            ..m
        }
    }
}

/// While the transport is paused or stopped, a tick changes nothing at all:
/// frame time fed during a pause is discarded, so resuming continues exactly
/// where each track left off, with no event skipped or fired early.
pub proof fn lemma_tick_ignored_unless_playing(m: SchedulerModel, dt: int)
    requires
        !(m.state is Playing),
    ensures
        tick_model(m, dt) == m,
{
}

/// The session as it stands at construction: every cursor at the start of
/// its track with no pending time, the default tempo, no sounding notes, no
/// elapsed time, transport stopped.
pub open spec fn initial_model(unit: int, tracks: Seq<Seq<Event>>) -> SchedulerModel {
    SchedulerModel {
        unit,
        tracks,
        cursors: Seq::new(tracks.len(), |i: int| CursorModel { next: 0, pending: 0 }),
        tempo: DEFAULT_TEMPO_MICROS as int,
        banks: Seq::new(16, |i: int| Set::<u8>::empty()),
        elapsed: 0,
        state: PlaybackState::Stopped,
    }
}

/// The session after a stop: a full reset of cursors, note state and elapsed
/// time. The event data, the timing unit and the tempo survive.
pub open spec fn stopped_model(m: SchedulerModel) -> SchedulerModel {
    SchedulerModel {
        cursors: Seq::new(m.cursors.len(), |i: int| CursorModel { next: 0, pending: 0 }),
        banks: Seq::new(16, |i: int| Set::<u8>::empty()),
        elapsed: 0,
        state: PlaybackState::Stopped,
        ..m
    }
}

/// Stopping restores the state a fresh session over the same file starts
/// in, except for the tempo, which survives until the file sets it again:
/// cursors, note sets, clock and transport all return to their initial
/// values, so playing again reproduces the original event sequence from the
/// start.
pub proof fn lemma_stop_restores_start(m: SchedulerModel)
    requires
        model_wf(m),
    ensures
        ({
            let stopped = stopped_model(m);
            let start = initial_model(m.unit, m.tracks);
            &&& stopped.cursors == start.cursors
            &&& stopped.banks == start.banks
            &&& stopped.elapsed == start.elapsed
            &&& stopped.state == start.state
        }),
{
    assert(stopped_model(m).cursors =~= initial_model(m.unit, m.tracks).cursors);
    assert(stopped_model(m).banks =~= initial_model(m.unit, m.tracks).banks);
}

/// Model-level well-formedness: a positive timing unit, one cursor per track
/// that never points past its track's end, a tempo in range, well-formed
/// events throughout, sixteen channels, and counters that fit the machine.
pub open spec fn model_wf(m: SchedulerModel) -> bool {
    &&& 0 < m.unit <= u16::MAX
    &&& m.cursors.len() == m.tracks.len()
    &&& forall|i: int| 0 <= i < m.cursors.len() ==> 0 <= (#[trigger] m.cursors[i]).next
        <= m.tracks[i].len()
    &&& forall|i: int| 0 <= i < m.cursors.len() ==> 0 <= (#[trigger] m.cursors[i]).pending
        <= u64::MAX
    &&& 0 < m.tempo <= MAX_TEMPO_MICROS
    &&& forall|i: int, j: int| 0 <= i < m.tracks.len() && 0 <= j < m.tracks[i].len()
        ==> (#[trigger] m.tracks[i][j]).wf()
    &&& m.banks.len() == 16
    &&& 0 <= m.elapsed <= u64::MAX
}

/// Whether a tick of `dt` microseconds keeps every counter within the
/// machine's range. A caller that cannot guarantee it must test first.
pub open spec fn tick_fits(m: SchedulerModel, dt: int) -> bool {
    m.state is Playing ==> {
        &&& m.elapsed + dt <= u64::MAX
        &&& forall|i: int| 0 <= i < m.cursors.len() ==> (#[trigger] m.cursors[i]).pending + dt
            <= u64::MAX
    }
}

/// The scheduler: owns the decoded tracks, one cursor per track, the shared
/// tempo, the channel bank and the transport, and advances them tick by
/// tick.
pub struct Scheduler {
    timing_unit: u16,
    tracks: Vec<Vec<Event>>,
    cursors: Vec<Track>,
    channels: Channels,
    tempo: Tempo,
    playback: Playback,
}

impl View for Scheduler {
    type V = SchedulerModel;

    closed spec fn view(&self) -> SchedulerModel {
        SchedulerModel {
            unit: self.timing_unit as int,
            tracks: Seq::new(self.tracks@.len(), |i: int| self.tracks@[i]@),
            cursors: Seq::new(
                self.cursors@.len(),
                |i: int| CursorModel {
                    next: self.cursors@[i].next_event_index as int,
                    pending: self.cursors@[i].pending_micros as int,
                },
            ),
            tempo: self.tempo@,
            banks: self.channels@,
            elapsed: self.playback@.micros,
            state: self.playback@.state,
        }
    }
}

impl Scheduler {
    /// Representation invariant beyond what the model shows.
    pub closed spec fn wf_repr(&self) -> bool {
        &&& self.channels.wf()
        &&& self.tempo.wf()
        &&& self.cursors@.len() == self.tracks@.len()
        &&& forall|i: int| 0 <= i < self.cursors@.len()
            ==> (#[trigger] self.cursors@[i]).number == i
    }

    /// A session is well-formed when its representation and its model are.
    pub open spec fn wf(&self) -> bool {
        &&& self.wf_repr()
        &&& model_wf(self@)
    }

    /// Build a session over a decoded file. Fails exactly when the timing
    /// unit is zero or some event is malformed; succeeds on every other
    /// input, with the session in its initial state.
    pub fn new(timing_unit: u16, tracks: Vec<Vec<Event>>) -> (r: Option<Scheduler>)
        ensures
            (r is Some) <==> (0 < timing_unit && forall|i: int, j: int|
                0 <= i < tracks@.len() && 0 <= j < tracks@[i]@.len()
                    ==> (#[trigger] tracks@[i]@[j]).wf()),
            r is Some ==> r.unwrap().wf() && r.unwrap()@ == initial_model(
                timing_unit as int,
                Seq::new(tracks@.len(), |i: int| tracks@[i]@),
            ),
    {
        if timing_unit == 0 {
            return None;
        }
        let mut i: usize = 0;
        while i < tracks.len()
            invariant
                i <= tracks@.len(),
                forall|a: int, b: int| 0 <= a < i && 0 <= b < tracks@[a]@.len()
                    ==> (#[trigger] tracks@[a]@[b]).wf(),
            decreases tracks@.len() - i,
        {
            let mut j: usize = 0;
            while j < tracks[i].len()
                invariant
                    i < tracks@.len(),
                    j <= tracks@[i as int]@.len(),
                    forall|b: int| 0 <= b < j ==> (#[trigger] tracks@[i as int]@[b]).wf(),
                decreases tracks@[i as int]@.len() - j,
            {
                if !tracks[i][j].check() {
                    return None;
                }
                j = j + 1;
            }
            i = i + 1;
        }
        let mut cursors: Vec<Track> = Vec::new();
        let mut k: usize = 0;
        while k < tracks.len()
            invariant
                k <= tracks@.len(),
                cursors@.len() == k,
                forall|a: int| 0 <= a < k ==> (#[trigger] cursors@[a]).number == a
                    && cursors@[a].next_event_index == 0 && cursors@[a].pending_micros == 0,
            decreases tracks@.len() - k,
        {
            cursors.push(Track::new(k));
            k = k + 1;
        }
        let s = Scheduler {
            timing_unit,
            tracks,
            cursors,
            channels: Channels::new(),
            tempo: Tempo::from_micros(DEFAULT_TEMPO_MICROS),
            playback: Playback::new(),
        };
        proof {
            assert(s@ =~~= initial_model(
                timing_unit as int,
                Seq::new(s.tracks@.len(), |i: int| s.tracks@[i]@),
            ));
        }
        Some(s)
    }

    /// Start, or resume, playing. Cursors, notes and clock are untouched.
    pub fn play(&mut self)
        requires
            old(self).wf(),
        ensures
            final(self).wf(),
            final(self)@ == (SchedulerModel { state: PlaybackState::Playing, ..old(self)@ }),
    {
        self.playback.play();
        proof {
            assert(self@ =~~= (SchedulerModel { state: PlaybackState::Playing, ..old(self)@ }));
        }
    }

    /// Pause. A pause while stopped is a benign no-op; everything else is
    /// kept exactly as it stands, so that play resumes where each track left
    /// off.
    pub fn pause(&mut self)
        requires
            old(self).wf(),
        ensures
            final(self).wf(),
            final(self)@ == (SchedulerModel {
                state: if old(self)@.state is Stopped {
                    PlaybackState::Stopped
                } else {
                    PlaybackState::Paused
                },
                ..old(self)@
            }),
    {
        self.playback.pause();
        proof {
            assert(self@ =~~= (SchedulerModel {
                state: if old(self)@.state is Stopped {
                    PlaybackState::Stopped
                } else {
                    PlaybackState::Paused
                },
                ..old(self)@
            }));
        }
    }

    /// Stop: a full session reset. Every cursor returns to the start of its
    /// track with no pending time, every channel falls silent, and the
    /// playback clock returns to zero.
    pub fn stop(&mut self)
        requires
            old(self).wf(),
        ensures
            final(self).wf(),
            final(self)@ == stopped_model(old(self)@),
    {
        self.playback.stop();
        self.channels.clear();
        let mut i: usize = 0;
        while i < self.cursors.len()
            invariant
                i <= self.cursors@.len(),
                self.timing_unit == old(self).timing_unit,
                self.tracks@ == old(self).tracks@,
                self.tempo == old(self).tempo,
                self.channels.wf(),
                self.channels@.len() == 16,
                forall|j: int| 0 <= j < 16 ==> #[trigger] self.channels@[j] == Set::<u8>::empty(),
                self.playback@.micros == 0,
                self.playback@.state is Stopped,
                self.cursors@.len() == old(self).cursors@.len(),
                forall|j: int| 0 <= j < self.cursors@.len()
                    ==> (#[trigger] self.cursors@[j]).number == j,
                forall|j: int| 0 <= j < i ==> (#[trigger] self.cursors@[j]).next_event_index == 0
                    && self.cursors@[j].pending_micros == 0,
            decreases self.cursors@.len() - i,
        {
            self.cursors[i].reset();
            i = i + 1;
        }
        proof {
            assert(self@ =~~= stopped_model(old(self)@));
        }
    }

    /// Advance one track as far as its pending time allows, once the tick's
    /// frame time `dt` is added: each due event is applied to the shared
    /// tempo and the channel bank, and its converted delta-time is spent.
    fn advance_track(&mut self, i: usize, dt: u64)
        requires
            old(self).wf(),
            i < old(self)@.cursors.len(),
            old(self)@.cursors[i as int].pending + dt <= u64::MAX,
        ensures
            final(self).wf(),
            ({
                let step = run_cursor(
                    old(self)@.tracks[i as int],
                    old(self)@.unit,
                    CursorModel {
                        next: old(self)@.cursors[i as int].next,
                        pending: old(self)@.cursors[i as int].pending + dt,
                    },
                    old(self)@.tempo,
                    old(self)@.banks,
                );
                final(self)@ == (SchedulerModel {
                    cursors: old(self)@.cursors.update(i as int, step.cursor),
                    tempo: step.tempo,
                    banks: step.banks,
                    ..old(self)@
                })
            }),
    {
        let ghost m0 = self@;
        let ghost started = CursorModel {
            next: m0.cursors[i as int].next,
            pending: m0.cursors[i as int].pending + dt,
        };
        let ghost target = run_cursor(m0.tracks[i as int], m0.unit, started, m0.tempo, m0.banks);

        let events_len = self.tracks[i].len();
        let mut next = self.cursors[i].next_event_index;
        proof {
            assert(m0.cursors[i as int].pending == self.cursors@[i as int].pending_micros as int);
        }
        let mut pending = self.cursors[i].pending_micros + dt;
        loop
            invariant
                self.wf(),
                i < self@.cursors.len(),
                self@.unit == m0.unit,
                self@.tracks == m0.tracks,
                self@.cursors == m0.cursors,
                self@.elapsed == m0.elapsed,
                self@.state == m0.state,
                events_len == m0.tracks[i as int].len(),
                next <= events_len,
                run_cursor(
                    m0.tracks[i as int],
                    m0.unit,
                    CursorModel { next: next as int, pending: pending as int },
                    self@.tempo,
                    self@.banks,
                ) == target,
            ensures
                self.wf(),
                i < self@.cursors.len(),
                self@.unit == m0.unit,
                self@.tracks == m0.tracks,
                self@.cursors == m0.cursors,
                self@.elapsed == m0.elapsed,
                self@.state == m0.state,
                next <= events_len == m0.tracks[i as int].len(),
                target == (CursorStep {
                    cursor: CursorModel { next: next as int, pending: pending as int },
                    tempo: self@.tempo,
                    banks: self@.banks,
                }),
            decreases events_len - next,
        {
            if next >= events_len {
                break;
            }
            let ghost prev = *self;
            let ghost n0 = next as int;
            let ghost p0 = pending as int;
            let e = self.tracks[i][next];
            proof {
                assert(e == prev@.tracks[i as int][n0]);
                assert(e.wf());
            }
            let required = get_delta_micros(self.timing_unit, e.delta_ticks, self.tempo.micros());
            if pending < required {
                break;
            }
            match e.kind {
                EventKind::Midi { channel, message } => {
                    self.channels.apply(channel, message);
                },
                EventKind::TempoChange { micros_per_quarter } => {
                    self.tempo.set_micros(micros_per_quarter);
                },
                _ => {},
            }
            next = next + 1;
            pending = pending - required;
            proof {
                assert(required == delta_micros(m0.unit, e.delta_ticks as int, prev@.tempo));
                assert(self@.tempo == tempo_after(prev@.tempo, e));
                assert(self@.banks == banks_after(prev@.banks, e));
                assert(run_cursor(
                    m0.tracks[i as int],
                    m0.unit,
                    CursorModel { next: n0, pending: p0 },
                    prev@.tempo,
                    prev@.banks,
                ) == run_cursor(
                    m0.tracks[i as int],
                    m0.unit,
                    CursorModel { next: n0 + 1, pending: p0 - required },
                    self@.tempo,
                    self@.banks,
                ));
            }
        }
        self.cursors[i].next_event_index = next;
        self.cursors[i].pending_micros = pending;
        proof {
            assert(self@.cursors =~= m0.cursors.update(i as int, target.cursor));
            assert(self@ =~~= (SchedulerModel {
                cursors: m0.cursors.update(i as int, target.cursor),
                tempo: target.tempo,
                banks: target.banks,
                ..m0
            }));
        }
    }

    /// One clock tick: while the transport is playing, add the frame time
    /// `dt` (in microseconds) to the playback clock and advance every track
    /// in enumeration order under the shared tempo; otherwise do nothing.
    pub fn tick(&mut self, dt: u64)
        requires
            old(self).wf(),
            tick_fits(old(self)@, dt as int),
        ensures
            final(self).wf(),
            final(self)@ == tick_model(old(self)@, dt as int),
    {
        if !self.playback.is_playing() {
            return;
        }
        let ghost m0 = self@;
        let ghost target = run_tracks(m0.tracks, m0.unit, m0.cursors, m0.tempo, m0.banks, dt as int, 0);
        self.playback.add_micros(dt);
        let n = self.cursors.len();
        let mut i: usize = 0;
        while i < n
            invariant
                self.wf(),
                i <= n,
                n == self@.cursors.len(),
                n == m0.cursors.len(),
                self@.unit == m0.unit,
                self@.tracks == m0.tracks,
                self@.elapsed == m0.elapsed + dt,
                self@.state == m0.state,
                forall|j: int| i <= j < n ==> self@.cursors[j] == m0.cursors[j],
                tick_fits(m0, dt as int),
                m0.state is Playing,
                run_tracks(
                    m0.tracks,
                    m0.unit,
                    self@.cursors,
                    self@.tempo,
                    self@.banks,
                    dt as int,
                    i as int,
                ) == target,
            decreases n - i,
        {
            let ghost before = self@;
            proof {
                assert(before.cursors[i as int] == m0.cursors[i as int]);
            }
            self.advance_track(i, dt);
            proof {
                let step = run_cursor(
                    before.tracks[i as int],
                    before.unit,
                    CursorModel {
                        next: before.cursors[i as int].next,
                        pending: before.cursors[i as int].pending + dt,
                    },
                    before.tempo,
                    before.banks,
                );
                assert(self@.cursors == before.cursors.update(i as int, step.cursor));
                assert(run_tracks(
                    m0.tracks,
                    m0.unit,
                    before.cursors,
                    before.tempo,
                    before.banks,
                    dt as int,
                    i as int,
                ) == run_tracks(
                    m0.tracks,
                    m0.unit,
                    self@.cursors,
                    self@.tempo,
                    self@.banks,
                    dt as int,
                    i as int + 1,
                ));
            }
            i = i + 1;
        }
        proof {
            assert(self@ =~~= tick_model(m0, dt as int));
        }
    }

    /// Number of tracks in the decoded file.
    pub fn track_count(&self) -> (r: usize)
        ensures
            r == self@.cursors.len(),
    {
        self.cursors.len()
    }

    /// Number of events in track `i`.
    pub fn track_len(&self, i: usize) -> (r: usize)
        requires
            i < self@.tracks.len(),
        ensures
            r == self@.tracks[i as int].len(),
    {
        self.tracks[i].len()
    }

    /// The event at index `j` of track `i`. Together with the cursor
    /// getters, this lets a consumer read exactly the events a tick fired:
    /// they are the events between the cursor's index before and after the
    /// tick, in file order.
    pub fn event_at(&self, i: usize, j: usize) -> (r: Event)
        requires
            i < self@.tracks.len(),
            j < self@.tracks[i as int].len(),
        ensures
            r == self@.tracks[i as int][j as int],
    {
        self.tracks[i][j]
    }

    /// Index of the next unconsumed event of track `i`.
    pub fn next_event_index(&self, i: usize) -> (r: usize)
        requires
            i < self@.cursors.len(),
        ensures
            r == self@.cursors[i as int].next,
    {
        self.cursors[i].next_event_index
    }

    /// Wall-clock time track `i` has received but not yet spent, in
    /// microseconds.
    pub fn pending_micros(&self, i: usize) -> (r: u64)
        requires
            i < self@.cursors.len(),
        ensures
            r == self@.cursors[i as int].pending,
    {
        self.cursors[i].pending_micros
    }

    /// The current tempo: microseconds per quarter note.
    pub fn tempo_micros(&self) -> (r: u32)
        ensures
            r == self@.tempo,
    {
        self.tempo.micros()
    }

    /// The current tempo in hundredths of a beat per minute, the two-decimal
    /// precision consumers display.
    pub fn bpm_centi(&self) -> (r: u64)
        requires
            self.wf(),
        ensures
            r == 6_000_000_000int / self@.tempo,
    {
        self.tempo.bpm_centi()
    }

    /// The transport state.
    pub fn state(&self) -> (r: PlaybackState)
        ensures
            r == self@.state,
    {
        self.playback.state()
    }

    /// Wall-clock microseconds spent playing since the last stop.
    pub fn elapsed_micros(&self) -> (r: u64)
        ensures
            r == self@.elapsed,
    {
        self.playback.micros()
    }

    /// Whether `key` is currently sounding on channel `channel`.
    pub fn is_note_active(&self, channel: u8, key: u8) -> (r: bool)
        requires
            self.wf(),
            channel < 16,
        ensures
            r == self@.banks[channel as int].contains(key),
    {
        self.channels.is_active(channel, key)
    }

    /// The keys currently sounding on channel `channel`, in increasing
    /// order, for display or note-off scheduling downstream.
    pub fn active_notes(&self, channel: u8) -> (r: Vec<u8>)
        requires
            self.wf(),
            channel < 16,
        ensures
            forall|k: u8| r@.contains(k) <==> self@.banks[channel as int].contains(k),
            forall|a: int, b: int| 0 <= a < b < r@.len() ==> r@[a] < r@[b],
    {
        let mut r: Vec<u8> = Vec::new();
        let mut k: u8 = 0;
        while k < 128
            invariant
                self.wf(),
                channel < 16,
                k <= 128,
                forall|a: int, b: int| 0 <= a < b < r@.len() ==> r@[a] < r@[b],
                forall|j: int| 0 <= j < r@.len() ==> #[trigger] r@[j] < k,
                forall|kk: u8| kk < k ==> (r@.contains(kk) <==> self@.banks[
                    channel as int
                ].contains(kk)),
            decreases 128 - k,
        {
            let ghost r0 = r@;
            let ghost pushed = self@.banks[channel as int].contains(k);
            if self.channels.is_active(channel, k) {
                r.push(k);
            }
            proof {
                assert(r@ == if pushed {
                    r0.push(k)
                } else {
                    r0
                });
                assert forall|kk: u8| kk < k + 1 implies (r@.contains(kk) <==> self@.banks[
                    channel as int
                ].contains(kk)) by {
                    if pushed {
                        if kk == k {
                            assert(r@[r@.len() - 1] == k);
                            assert(r@.contains(k));
                        } else {
                            if r0.contains(kk) {
                                let w = choose|w: int| 0 <= w < r0.len() && r0[w] == kk;
                                assert(r@[w] == kk);
                            }
                            if r@.contains(kk) {
                                let w = choose|w: int| 0 <= w < r@.len() && r@[w] == kk;
                                if w < r@.len() - 1 {
                                    assert(r0[w] == kk);
                                } else {
                                    assert(r@[w] == k);
                                }
                            }
                        }
                    } else {
                        if kk == k && r@.contains(kk) {
                            let w = choose|w: int| 0 <= w < r@.len() && r@[w] == kk;
                            assert(r@[w] < k);
                        }
                    }
                }
            }
            k = k + 1;
        }
        proof {
            self.channels.lemma_keys_bounded();
            assert forall|kk: u8| true implies (r@.contains(kk) <==> self@.banks[
                channel as int
            ].contains(kk)) by {
                if kk >= 128 {
                    if r@.contains(kk) {
                        let w = choose|w: int| 0 <= w < r@.len() && r@[w] == kk;
                    }
                }
            }
        }
        r
    }
}

} // verus!
