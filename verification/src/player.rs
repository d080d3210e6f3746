//! Transport state machine: stopped, playing, or paused, plus the wall-clock
//! time spent playing.

use vstd::prelude::*;

verus! {

/// Transport state of the whole session.
#[derive(Clone, Copy, Debug, PartialEq, Eq, Structural)]
pub enum PlaybackState {
    Stopped,
    Playing,
    Paused,
}

impl PlaybackState {
    /// The label consumers display for this state.
    pub fn label(&self) -> (r: &'static str)
        ensures
            self is Stopped ==> r@ == "Stopped"@,
            self is Playing ==> r@ == "Playing"@,
            self is Paused ==> r@ == "Paused"@,
    {
        match self {
            PlaybackState::Stopped => "Stopped",
            PlaybackState::Playing => "Playing",
            PlaybackState::Paused => "Paused",
        }
    }
}

/// Spec-level image of a `Playback`.
pub ghost struct PlaybackModel {
    pub micros: int,
    pub state: PlaybackState,
}

/// Transport-level playback time and state. Gates whether the scheduler
/// advances at all; while paused or stopped no frame time is forwarded to
/// any track.
pub struct Playback {
    micros: u64,
    state: PlaybackState,
}

impl View for Playback {
    type V = PlaybackModel;

    closed spec fn view(&self) -> PlaybackModel {
        PlaybackModel { micros: self.micros as int, state: self.state }
    }
}

impl Playback {
    pub fn new() -> (p: Playback)
        ensures
            p@.micros == 0,
            p@.state is Stopped,
    {
        Playback { micros: 0, state: PlaybackState::Stopped }
    }

    /// Wall-clock time spent playing since the last stop, in microseconds.
    pub fn micros(&self) -> (r: u64)
        ensures
            r == self@.micros,
    {
        self.micros
    }

    pub fn state(&self) -> (r: PlaybackState)
        ensures
            r == self@.state,
    {
        self.state
    }

    /// Stop resets the playback clock as well as the state.
    pub fn stop(&mut self)
        ensures
            final(self)@.micros == 0,
            final(self)@.state is Stopped,
    {
        self.micros = 0;
        self.state = PlaybackState::Stopped;
    }

    /// Pausing while stopped is a benign no-op: there is nothing to pause.
    pub fn pause(&mut self)
        ensures
            final(self)@.micros == old(self)@.micros,
            final(self)@.state == (if old(self)@.state is Stopped {
                PlaybackState::Stopped
            } else {
                PlaybackState::Paused
            }),
    {
        match self.state {
            PlaybackState::Stopped => {},
            _ => {
                self.state = PlaybackState::Paused;
            },
        }
    }

    pub fn play(&mut self)
        ensures
            final(self)@.micros == old(self)@.micros,
            final(self)@.state is Playing,
    {
        self.state = PlaybackState::Playing;
    }

    pub fn add_micros(&mut self, delta_micros: u64)
        requires
            old(self)@.micros + delta_micros <= u64::MAX,
        ensures
            final(self)@.micros == old(self)@.micros + delta_micros,
            final(self)@.state == old(self)@.state,
    {
        self.micros = self.micros + delta_micros;
    }

    pub fn is_playing(&self) -> (r: bool)
        ensures
            r == (self@.state is Playing),
    {
        match self.state {
            PlaybackState::Playing => true,
            _ => false,
        }
    }
}

} // verus!
