//! Playback core for decoded Standard MIDI Files.
//!
//! The library receives, from an external decoder, a timing unit (ticks per
//! quarter note) and one ordered event sequence per track, and advances the
//! session against a running wall-clock: it converts each event's delta-time
//! into microseconds under the tempo current at the moment the delta is
//! consumed, fires every event whose time has been reached on a tick, applies
//! tempo changes so that later conversions reflect them, and keeps one set of
//! sounding keys per MIDI channel. Time is counted in whole microseconds, the
//! unit in which the file itself states its tempo.

pub mod event;
pub mod midi;
pub mod player;
pub mod scheduler;
