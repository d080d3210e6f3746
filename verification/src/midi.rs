//! Tempo state, delta-time conversion, per-track cursors, and per-channel
//! note state.

use vstd::prelude::*;
use vstd::arithmetic::div_mod::{lemma_div_is_ordered, lemma_div_pos_is_pos};
use crate::event::{Message, MAX_DELTA_TICKS, MAX_TEMPO_MICROS};

verus! {

/// Microseconds per quarter note at the default 120 BPM.
pub const DEFAULT_TEMPO_MICROS: u32 = 500_000;

/// Current tempo: the duration of a quarter note, in microseconds. The view
/// of a `Tempo` is that duration as a mathematical integer.
pub struct Tempo {
    micros: u32,
}

impl View for Tempo {
    type V = int;

    closed spec fn view(&self) -> int {
        self.micros as int
    }
}

impl Tempo {
    /// A tempo is always strictly positive and never slower than one beat
    /// per minute; every conversion divides by values derived from it.
    pub open spec fn wf(self) -> bool {
        0 < self@ <= MAX_TEMPO_MICROS
    }

    pub fn from_micros(micros: u32) -> (t: Tempo)
        requires
            0 < micros <= MAX_TEMPO_MICROS,
        ensures
            t.wf(),
            t@ == micros,
    {
        Tempo { micros }
    }

    pub fn from_bpm(bpm: u32) -> (t: Tempo)
        requires
            0 < bpm <= 60_000_000,
        ensures
            t.wf(),
            t@ == 60_000_000int / bpm as int,
    {
        proof {
            assert(60_000_000int / bpm as int >= 1) by (nonlinear_arith)
                requires
                    0 < bpm <= 60_000_000,
            ;
            lemma_div_is_ordered(60_000_000int, 60_000_000int, bpm as int);
            assert(60_000_000int / bpm as int <= 60_000_000int / 1);
        }
        Tempo { micros: 60_000_000 / bpm }
    }

    /// The duration of a quarter note, in microseconds.
    pub fn micros(&self) -> (r: u32)
        ensures
            r == self@,
    {
        self.micros
    }

    pub fn set_micros(&mut self, micros: u32)
        requires
            0 < micros <= MAX_TEMPO_MICROS,
        ensures
            final(self).wf(),
            final(self)@ == micros,
    {
        self.micros = micros;
    }

    /// Beats per minute, in hundredths: consumers display the tempo with two
    /// decimals, which whole microseconds carry exactly.
    pub fn bpm_centi(&self) -> (r: u64)
        requires
            self.wf(),
        ensures
            r == 6_000_000_000int / self@,
    {
        6_000_000_000u64 / (self.micros as u64)
    }

    pub fn set_bpm(&mut self, bpm: u32)
        requires
            0 < bpm <= 60_000_000,
        ensures
            final(self).wf(),
            final(self)@ == 60_000_000int / bpm as int,
    {
        proof {
            assert(60_000_000int / bpm as int >= 1) by (nonlinear_arith)
                requires
                    0 < bpm <= 60_000_000,
            ;
            lemma_div_is_ordered(60_000_000int, 60_000_000int, bpm as int);
        }
        self.micros = 60_000_000 / bpm;
    }
}

/// Wall-clock microseconds that `delta_ticks` ticks last when a quarter note
/// lasts `tempo_micros` microseconds and spans `timing_unit` ticks: the
/// musical fraction `delta_ticks / timing_unit` of a quarter note, rounded
/// down to whole microseconds.
pub open spec fn delta_micros(timing_unit: int, delta_ticks: int, tempo_micros: int) -> int {
    delta_ticks * tempo_micros / timing_unit
}

/// Converted delta-times never decrease when the delta grows or the tempo
/// slows down.
pub proof fn lemma_delta_micros_monotone(
    timing_unit: int,
    d1: int,
    d2: int,
    t1: int,
    t2: int,
)
    requires
        0 < timing_unit,
        0 <= d1 <= d2,
        0 <= t1 <= t2,
    ensures
        delta_micros(timing_unit, d1, t1) <= delta_micros(timing_unit, d2, t2),
        0 <= delta_micros(timing_unit, d1, t1),
{
    assert(0 <= d1 * t1 && d1 * t1 <= d2 * t2) by (nonlinear_arith)
        requires
            0 <= d1 <= d2,
            0 <= t1 <= t2,
    ;
    lemma_div_is_ordered(d1 * t1, d2 * t2, timing_unit);
    lemma_div_pos_is_pos(d1 * t1, timing_unit);
}

/// Convert one event's delta-time under the current tempo.
pub fn get_delta_micros(timing_unit: u16, delta_ticks: u32, tempo_micros: u32) -> (r: u64)
    requires
        0 < timing_unit,
        delta_ticks <= MAX_DELTA_TICKS,
        tempo_micros <= MAX_TEMPO_MICROS,
    ensures
        r == delta_micros(timing_unit as int, delta_ticks as int, tempo_micros as int),
        0 <= r <= delta_ticks as int * tempo_micros as int,
{
    proof {
        assert(delta_ticks as int * tempo_micros as int <= MAX_DELTA_TICKS as int
            * MAX_TEMPO_MICROS as int) by (nonlinear_arith)
            requires
                0 <= delta_ticks <= MAX_DELTA_TICKS,
                0 <= tempo_micros <= MAX_TEMPO_MICROS,
        ;
        lemma_div_pos_is_pos(delta_ticks as int * tempo_micros as int, timing_unit as int);
        lemma_div_is_ordered(
            delta_ticks as int * tempo_micros as int,
            delta_ticks as int * tempo_micros as int,
            timing_unit as int,
        );
        assert(delta_ticks as int * tempo_micros as int / timing_unit as int <= delta_ticks as int
            * tempo_micros as int / 1);
    }
    (delta_ticks as u64) * (tempo_micros as u64) / (timing_unit as u64)
}

/// Per-track playback cursor: the index of the next unconsumed event of that
/// track, and the wall-clock time received but not yet spent on firing
/// events.
pub struct Track {
    pub number: usize,
    pub next_event_index: usize,
    pub pending_micros: u64,
}

impl Track {
    pub fn new(number: usize) -> (t: Track)
        ensures
            t.number == number,
            t.next_event_index == 0,
            t.pending_micros == 0,
    {
        Track { number, next_event_index: 0, pending_micros: 0 }
    }

    /// Rewind to the start of the track, dropping any unspent time.
    pub fn reset(&mut self)
        ensures
            final(self).number == old(self).number,
            final(self).next_event_index == 0,
            final(self).pending_micros == 0,
    {
        self.next_event_index = 0;
        self.pending_micros = 0;
    }
}

/// Note state of one MIDI channel. Its view is the set of key numbers
/// currently sounding on that channel.
pub struct Channel {
    pub number: u8,
    active: Vec<bool>,
}

impl View for Channel {
    type V = Set<u8>;

    closed spec fn view(&self) -> Set<u8> {
        Set::new(|k: u8| k < 128 && self.active@[k as int])
    }
}

impl Channel {
    /// One slot per addressable key.
    pub closed spec fn wf(self) -> bool {
        self.active@.len() == 128
    }

    /// The channel number this state belongs to.
    pub closed spec fn spec_number(self) -> u8 {
        self.number
    }

    pub fn new(number: u8) -> (c: Channel)
        ensures
            c.wf(),
            c.spec_number() == number,
            c@ == Set::<u8>::empty(),
    {
        let mut active: Vec<bool> = Vec::new();
        while active.len() < 128
            invariant
                active@.len() <= 128,
                forall|i: int| 0 <= i < active@.len() ==> !active@[i],
            decreases 128 - active@.len(),
        {
            active.push(false);
        }
        let c = Channel { number, active };
        proof {
            assert(c@ =~= Set::<u8>::empty());
        }
        c
    }

    /// Mark a key as sounding; a no-op when it already is.
    pub fn insert(&mut self, key: u8)
        requires
            old(self).wf(),
            key < 128,
        ensures
            final(self).wf(),
            final(self).spec_number() == old(self).spec_number(),
            final(self)@ == old(self)@.insert(key),
    {
        self.active[key as usize] = true;
        proof {
            assert(self@ =~= old(self)@.insert(key));
        }
    }

    /// Mark a key as silent; removing an absent key is a benign no-op.
    pub fn remove(&mut self, key: u8)
        requires
            old(self).wf(),
            key < 128,
        ensures
            final(self).wf(),
            final(self).spec_number() == old(self).spec_number(),
            final(self)@ == old(self)@.remove(key),
    {
        self.active[key as usize] = false;
        proof {
            assert(self@ =~= old(self)@.remove(key));
        }
    }

    /// Whether a key is currently sounding.
    pub fn is_active(&self, key: u8) -> (r: bool)
        requires
            self.wf(),
        ensures
            r == self@.contains(key),
    {
        key < 128 && self.active[key as usize]
    }

    /// Silence every key on this channel.
    pub fn clear(&mut self)
        requires
            old(self).wf(),
        ensures
            final(self).wf(),
            final(self).spec_number() == old(self).spec_number(),
            final(self)@ == Set::<u8>::empty(),
    {
        let cleared = Channel::new(self.number);
        *self = cleared;
    }
}

/// How one channel-voice message changes the sixteen note sets: a NoteOn
/// with non-zero velocity inserts its key into the addressed channel's set;
/// a NoteOff, or a NoteOn with velocity zero, removes it; every other
/// message leaves the bank unchanged.
pub open spec fn bank_apply(banks: Seq<Set<u8>>, channel: u8, message: Message) -> Seq<Set<u8>> {
    match message {
        Message::NoteOn { key, vel } => if vel == 0 {
            banks.update(channel as int, banks[channel as int].remove(key))
        } else {
            banks.update(channel as int, banks[channel as int].insert(key))
        },
        Message::NoteOff { key, .. } => banks.update(
            channel as int,
            banks[channel as int].remove(key),
        ),
        _ => banks,
    }
}

/// A NoteOn with velocity zero changes the bank exactly as a NoteOff of the
/// same key would, whatever release velocity that NoteOff carries: both
/// remove the key from the addressed channel's set.
pub proof fn lemma_zero_velocity_note_on_is_note_off(
    banks: Seq<Set<u8>>,
    channel: u8,
    key: u8,
    vel: u8,
)
    ensures
        bank_apply(banks, channel, Message::NoteOn { key, vel: 0 }) == bank_apply(
            banks,
            channel,
            Message::NoteOff { key, vel },
        ),
{
}

/// Every key a well-formed channel reports sounding is an addressable key.
pub proof fn lemma_channel_keys_bounded(c: Channel)
    requires
        c.wf(),
    ensures
        forall|k: u8| #[trigger] c@.contains(k) ==> k < 128,
{
}

/// The sixteen channels' note state. Its view is the sequence of the sixteen
/// active-key sets, indexed by channel number.
pub struct Channels(pub Vec<Channel>);

impl View for Channels {
    type V = Seq<Set<u8>>;

    closed spec fn view(&self) -> Seq<Set<u8>> {
        Seq::new(self.0@.len(), |i: int| self.0@[i]@)
    }
}

impl Channels {
    /// Sixteen well-formed channels, numbered in order.
    pub closed spec fn wf(self) -> bool {
        &&& self.0@.len() == 16
        &&& forall|i: int| 0 <= i < 16 ==> (#[trigger] self.0@[i]).wf() && self.0@[i].number == i
    }

    pub fn new() -> (c: Channels)
        ensures
            c.wf(),
            c@.len() == 16,
            forall|i: int| 0 <= i < 16 ==> #[trigger] c@[i] == Set::<u8>::empty(),
    {
        let mut channels: Vec<Channel> = Vec::new();
        let mut i: u8 = 0;
        while i < 16
            invariant
                i <= 16,
                channels@.len() == i,
                forall|j: int| 0 <= j < i ==> (#[trigger] channels@[j]).wf()
                    && channels@[j].number == j && channels@[j]@ == Set::<u8>::empty(),
            decreases 16 - i,
        {
            channels.push(Channel::new(i));
            i = i + 1;
        }
        Channels(channels)
    }

    /// Whether `key` is sounding on channel `channel`.
    pub fn is_active(&self, channel: u8, key: u8) -> (r: bool)
        requires
            self.wf(),
            channel < 16,
        ensures
            r == self@[channel as int].contains(key),
    {
        self.0[channel as usize].is_active(key)
    }

    /// Apply one channel-voice message to the bank.
    pub fn apply(&mut self, channel: u8, message: Message)
        requires
            old(self).wf(),
            channel < 16,
            message.wf(),
        ensures
            final(self).wf(),
            final(self)@ == bank_apply(old(self)@, channel, message),
    {
        match message {
            Message::NoteOn { key, vel } => {
                if vel == 0 {
                    self.0[channel as usize].remove(key);
                } else {
                    self.0[channel as usize].insert(key);
                }
            },
            Message::NoteOff { key, .. } => {
                self.0[channel as usize].remove(key);
            },
            _ => {},
        }
        proof {
            assert(self@ =~= bank_apply(old(self)@, channel, message));
        }
    }

    /// Every key a well-formed bank reports sounding is an addressable key.
    pub proof fn lemma_keys_bounded(&self)
        requires
            self.wf(),
        ensures
            forall|i: int, k: u8| 0 <= i < 16 && (#[trigger] self@[i].contains(k)) ==> k < 128,
    {
        assert forall|i: int, k: u8| 0 <= i < 16 && (#[trigger] self@[i].contains(k))
            implies k < 128 by {
            assert(self@[i] == self.0@[i]@);
            lemma_channel_keys_bounded(self.0@[i]);
        }
    }

    /// Silence every key on every channel.
    pub fn clear(&mut self)
        requires
            old(self).wf(),
        ensures
            final(self).wf(),
            final(self)@.len() == 16,
            forall|i: int| 0 <= i < 16 ==> #[trigger] final(self)@[i] == Set::<u8>::empty(),
    {
        let mut i: usize = 0;
        while i < 16
            invariant
                i <= 16,
                self.wf(),
                forall|j: int| 0 <= j < i ==> #[trigger] self@[j] == Set::<u8>::empty(),
            decreases 16 - i,
        {
            let ghost prev = *self;
            self.0[i].clear();
            proof {
                assert forall|j: int| 0 <= j < i + 1 implies #[trigger] self@[j]
                    == Set::<u8>::empty() by {
                    assert(self@[j] == self.0@[j]@);
                    if j < i {
                        assert(self.0@[j] == prev.0@[j]);
                        assert(prev@[j] == prev.0@[j]@);
                    }
                }
            }
            i = i + 1;
        }
    }
}

} // verus!
