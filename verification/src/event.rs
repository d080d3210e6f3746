//! Decoded track events, as an external SMF decoder hands them over.

use vstd::prelude::*;

verus! {

/// Largest delta-time an event may carry: the file stores deltas as 28-bit
/// variable-length quantities.
pub const MAX_DELTA_TICKS: u32 = 0x0FFF_FFFF;

/// Largest quarter-note duration the engine accepts, in microseconds: one
/// full minute per quarter note, i.e. 1 beat per minute.
pub const MAX_TEMPO_MICROS: u32 = 60_000_000;

/// A channel-voice message; the surrounding event addresses it to one of the
/// sixteen channels.
#[derive(Clone, Copy, Debug, PartialEq, Eq, Structural)]
pub enum Message {
    NoteOn { key: u8, vel: u8 },
    NoteOff { key: u8, vel: u8 },
    ProgramChange { program: u8 },
    Aftertouch { key: u8, vel: u8 },
    ChannelAftertouch { vel: u8 },
    Controller { controller: u8, value: u8 },
    PitchBend { bend: u16 },
}

/// What a decoded track event carries besides its delta-time.
#[derive(Clone, Copy, Debug, PartialEq, Eq, Structural)]
pub enum EventKind {
    /// A channel-voice message on channel 0-15.
    Midi { channel: u8, message: Message },
    /// A tempo meta-event: the new quarter-note duration in microseconds.
    TempoChange { micros_per_quarter: u32 },
    /// Any other meta-event: no effect on playback state.
    MetaOther,
    /// A system-exclusive payload: no effect on playback state.
    SysEx,
    /// An escaped payload: no effect on playback state.
    Escape,
}

/// One decoded track event: its delta-time in ticks since the previous event
/// of the same track, and its payload.
#[derive(Clone, Copy, Debug, PartialEq, Eq, Structural)]
pub struct Event {
    pub delta_ticks: u32,
    pub kind: EventKind,
}

impl Message {
    /// A decoded message addresses keys 0-127, as MIDI encodes them in 7 bits.
    pub open spec fn wf(self) -> bool {
        match self {
            Message::NoteOn { key, .. } => key < 128,
            Message::NoteOff { key, .. } => key < 128,
            Message::Aftertouch { key, .. } => key < 128,
            _ => true,
        }
    }
}

impl Event {
    /// What a well-behaved decoder guarantees of every event it hands over:
    /// the delta fits in 28 bits, channels and keys are in range, and a tempo
    /// event names a positive quarter-note duration no longer than a minute.
    pub open spec fn wf(self) -> bool {
        &&& self.delta_ticks <= MAX_DELTA_TICKS
        &&& match self.kind {
            EventKind::Midi { channel, message } => channel < 16 && message.wf(),
            EventKind::TempoChange { micros_per_quarter } => 0 < micros_per_quarter
                <= MAX_TEMPO_MICROS,
            _ => true,
        }
    }

    /// Runtime check of `wf`, so that a session can reject a malformed event
    /// stream at load time instead of assuming it away.
    pub fn check(&self) -> (r: bool)
        ensures
            r == self.wf(),
    {
        if self.delta_ticks > MAX_DELTA_TICKS {
            return false;
        }
        match self.kind {
            EventKind::Midi { channel, message } => {
                if channel >= 16 {
                    return false;
                }
                match message {
                    Message::NoteOn { key, .. } => key < 128,
                    Message::NoteOff { key, .. } => key < 128,
                    Message::Aftertouch { key, .. } => key < 128,
                    _ => true,
                }
            },
            EventKind::TempoChange { micros_per_quarter } => 0 < micros_per_quarter
                && micros_per_quarter <= MAX_TEMPO_MICROS,
            _ => true,
        }
    }
}

} // verus!
