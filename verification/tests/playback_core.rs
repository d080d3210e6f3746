//! Behavioral tests of the playback core, driven through its public API.

use midnight::event::{Event, EventKind, Message, MAX_DELTA_TICKS};
use midnight::midi::{get_delta_micros, Channel, Channels, Tempo, Track, DEFAULT_TEMPO_MICROS};
use midnight::player::{Playback, PlaybackState};
use midnight::scheduler::Scheduler;

fn note_on(delta_ticks: u32, channel: u8, key: u8, vel: u8) -> Event {
    Event { delta_ticks, kind: EventKind::Midi { channel, message: Message::NoteOn { key, vel } } }
}

fn note_off(delta_ticks: u32, channel: u8, key: u8, vel: u8) -> Event {
    Event {
        delta_ticks,
        kind: EventKind::Midi { channel, message: Message::NoteOff { key, vel } },
    }
}

fn tempo_change(delta_ticks: u32, micros_per_quarter: u32) -> Event {
    Event { delta_ticks, kind: EventKind::TempoChange { micros_per_quarter } }
}

#[test]
fn delta_conversion_exact_values() {
    // One quarter note at 120 BPM is half a second.
    assert_eq!(get_delta_micros(480, 480, 500_000), 500_000);
    // Half a quarter note.
    assert_eq!(get_delta_micros(480, 240, 500_000), 250_000);
    // Zero delta needs no time at all.
    assert_eq!(get_delta_micros(480, 0, 500_000), 0);
    // Rounded down to whole microseconds.
    assert_eq!(get_delta_micros(3, 1, 1_000_000), 333_333);
    // Largest representable conversion stays exact.
    assert_eq!(
        get_delta_micros(1, MAX_DELTA_TICKS, 60_000_000),
        MAX_DELTA_TICKS as u64 * 60_000_000
    );
}

#[test]
fn delta_conversion_monotone_spot_checks() {
    // Non-decreasing in the delta...
    assert!(get_delta_micros(480, 100, 500_000) <= get_delta_micros(480, 101, 500_000));
    // ... and in the tempo.
    assert!(get_delta_micros(480, 100, 500_000) <= get_delta_micros(480, 100, 500_001));
}

#[test]
fn tempo_conversions() {
    let t = Tempo::from_bpm(120);
    assert_eq!(t.micros(), 500_000);
    assert_eq!(t.bpm_centi(), 12_000);

    let mut t = Tempo::from_micros(1_000_000);
    assert_eq!(t.bpm_centi(), 6_000);
    t.set_bpm(90);
    assert_eq!(t.micros(), 666_666);
    t.set_micros(250_000);
    assert_eq!(t.bpm_centi(), 24_000);
    assert_eq!(DEFAULT_TEMPO_MICROS, 500_000);
}

#[test]
fn playback_transitions() {
    let mut p = Playback::new();
    assert_eq!(p.state(), PlaybackState::Stopped);
    assert_eq!(p.micros(), 0);
    assert!(!p.is_playing());

    // Pausing while stopped is a no-op.
    p.pause();
    assert_eq!(p.state(), PlaybackState::Stopped);

    p.play();
    assert!(p.is_playing());
    p.add_micros(1_234);
    assert_eq!(p.micros(), 1_234);

    p.pause();
    assert_eq!(p.state(), PlaybackState::Paused);
    assert_eq!(p.micros(), 1_234);

    p.play();
    assert_eq!(p.state(), PlaybackState::Playing);

    p.stop();
    assert_eq!(p.state(), PlaybackState::Stopped);
    assert_eq!(p.micros(), 0);
}

#[test]
fn playback_state_labels() {
    assert_eq!(PlaybackState::Stopped.label(), "Stopped");
    assert_eq!(PlaybackState::Playing.label(), "Playing");
    assert_eq!(PlaybackState::Paused.label(), "Paused");
}

#[test]
fn track_cursor_reset() {
    let mut t = Track::new(3);
    assert_eq!(t.number, 3);
    t.next_event_index = 7;
    t.pending_micros = 99;
    t.reset();
    assert_eq!(t.number, 3);
    assert_eq!(t.next_event_index, 0);
    assert_eq!(t.pending_micros, 0);
}

#[test]
fn channel_insert_remove_idempotent() {
    let mut c = Channel::new(2);
    assert!(!c.is_active(60));
    c.insert(60);
    assert!(c.is_active(60));
    // Inserting a sounding key changes nothing.
    c.insert(60);
    assert!(c.is_active(60));
    c.remove(60);
    assert!(!c.is_active(60));
    // Removing an absent key is a benign no-op.
    c.remove(60);
    assert!(!c.is_active(60));
    c.insert(0);
    c.insert(127);
    c.clear();
    assert!(!c.is_active(0));
    assert!(!c.is_active(127));
}

#[test]
fn channels_start_silent() {
    let c = Channels::new();
    for ch in 0..16u8 {
        for key in [0u8, 64, 127] {
            assert!(!c.is_active(ch, key));
        }
    }
}

#[test]
fn scheduler_rejects_zero_timing_unit() {
    assert!(Scheduler::new(0, vec![vec![note_on(0, 0, 60, 64)]]).is_none());
}

#[test]
fn scheduler_rejects_malformed_events() {
    // Channel out of range.
    assert!(Scheduler::new(480, vec![vec![note_on(0, 16, 60, 64)]]).is_none());
    // Key out of range.
    assert!(Scheduler::new(480, vec![vec![note_on(0, 0, 128, 64)]]).is_none());
    // A zero tempo would break every later conversion.
    assert!(Scheduler::new(480, vec![vec![tempo_change(0, 0)]]).is_none());
    // Delta beyond 28 bits.
    assert!(Scheduler::new(480, vec![vec![note_on(MAX_DELTA_TICKS + 1, 0, 60, 64)]]).is_none());
}

#[test]
fn scheduler_initial_state() {
    let s = Scheduler::new(480, vec![vec![note_on(0, 0, 60, 64)], vec![]]).unwrap();
    assert_eq!(s.track_count(), 2);
    assert_eq!(s.next_event_index(0), 0);
    assert_eq!(s.pending_micros(0), 0);
    assert_eq!(s.tempo_micros(), 500_000);
    assert_eq!(s.bpm_centi(), 12_000);
    assert_eq!(s.state(), PlaybackState::Stopped);
    assert_eq!(s.elapsed_micros(), 0);
    assert!(!s.is_note_active(0, 60));
}

#[test]
fn tick_while_stopped_moves_nothing() {
    let mut s = Scheduler::new(480, vec![vec![note_on(0, 0, 60, 64)]]).unwrap();
    s.tick(10_000_000);
    assert_eq!(s.next_event_index(0), 0);
    assert_eq!(s.pending_micros(0), 0);
    assert_eq!(s.elapsed_micros(), 0);
    assert!(!s.is_note_active(0, 60));
}

#[test]
fn catch_up_fires_all_due_events_in_order() {
    // Events due at cumulative 1.0 s, 1.0 s (a tie) and 3.0 s under the
    // default 0.5 s quarter note with 480 ticks per quarter.
    let track = vec![note_on(960, 0, 60, 64), note_on(0, 0, 62, 64), note_on(1920, 0, 64, 64)];
    let mut s = Scheduler::new(480, vec![track]).unwrap();
    s.play();
    // One big frame of 3.5 s fires all three and leaves 0.5 s unspent.
    s.tick(3_500_000);
    assert_eq!(s.next_event_index(0), 3);
    assert_eq!(s.pending_micros(0), 500_000);
    assert!(s.is_note_active(0, 60));
    assert!(s.is_note_active(0, 62));
    assert!(s.is_note_active(0, 64));
}

#[test]
fn tempo_change_applies_mid_burst() {
    // The tempo event is due immediately; the note's delta of one quarter
    // note must then be converted under the tempo just installed.
    let track = vec![tempo_change(0, 500_000), note_on(480, 0, 60, 64)];
    let mut s = Scheduler::new(480, vec![track]).unwrap();
    s.play();
    s.tick(500_000);
    assert_eq!(s.tempo_micros(), 500_000);
    assert_eq!(s.next_event_index(0), 2);
    assert_eq!(s.pending_micros(0), 0);
    assert!(s.is_note_active(0, 60));
}

#[test]
fn tempo_change_mid_burst_uses_new_tempo_not_old() {
    // Under the default 0.5 s quarter the note would need 500 000 us; the
    // tempo change to 0.25 s makes 250 000 us enough within the same tick.
    let track = vec![tempo_change(0, 250_000), note_on(480, 0, 60, 64)];
    let mut s = Scheduler::new(480, vec![track]).unwrap();
    s.play();
    s.tick(250_000);
    assert_eq!(s.tempo_micros(), 250_000);
    assert_eq!(s.next_event_index(0), 2);
    assert!(s.is_note_active(0, 60));

    // Without the tempo change the same frame time fires nothing.
    let mut s = Scheduler::new(480, vec![vec![note_on(480, 0, 60, 64)]]).unwrap();
    s.play();
    s.tick(250_000);
    assert_eq!(s.next_event_index(0), 0);
    assert_eq!(s.pending_micros(0), 250_000);
    assert!(!s.is_note_active(0, 60));
}

#[test]
fn exact_tie_fires_immediately() {
    let mut s = Scheduler::new(480, vec![vec![note_on(480, 0, 60, 64)]]).unwrap();
    s.play();
    s.tick(499_999);
    assert_eq!(s.next_event_index(0), 0);
    s.tick(1);
    // pending == required fires, not pending > required.
    assert_eq!(s.next_event_index(0), 1);
    assert_eq!(s.pending_micros(0), 0);
}

#[test]
fn pause_discards_frame_time_and_resume_continues() {
    // The next event needs 0.5 s; advance 0.3 s, pause, feed time that must
    // be ignored, resume, and finish with 0.2 s.
    let mut s = Scheduler::new(480, vec![vec![note_on(480, 0, 60, 64)]]).unwrap();
    s.play();
    s.tick(300_000);
    assert_eq!(s.pending_micros(0), 300_000);
    assert!(!s.is_note_active(0, 60));

    s.pause();
    assert_eq!(s.state(), PlaybackState::Paused);
    s.tick(10_000_000);
    assert_eq!(s.pending_micros(0), 300_000);
    assert_eq!(s.elapsed_micros(), 300_000);
    assert!(!s.is_note_active(0, 60));

    s.play();
    s.tick(200_000);
    assert_eq!(s.next_event_index(0), 1);
    assert_eq!(s.pending_micros(0), 0);
    assert!(s.is_note_active(0, 60));
}

#[test]
fn stop_is_a_full_reset_and_replay_matches() {
    let track =
        vec![tempo_change(0, 250_000), note_on(480, 0, 60, 64), note_off(480, 0, 60, 0)];
    let mut s = Scheduler::new(480, vec![track]).unwrap();
    s.play();
    s.tick(300_000);
    s.pause();
    s.play();
    s.tick(100_000);
    assert_eq!(s.next_event_index(0), 2);
    assert!(s.is_note_active(0, 60));

    s.stop();
    assert_eq!(s.state(), PlaybackState::Stopped);
    assert_eq!(s.elapsed_micros(), 0);
    assert_eq!(s.next_event_index(0), 0);
    assert_eq!(s.pending_micros(0), 0);
    assert!(!s.is_note_active(0, 60));

    // Replaying the same frame times reproduces the same firings.
    s.play();
    s.tick(300_000);
    s.tick(100_000);
    assert_eq!(s.next_event_index(0), 2);
    assert!(s.is_note_active(0, 60));
    s.tick(100_000);
    assert_eq!(s.next_event_index(0), 3);
    assert!(!s.is_note_active(0, 60));
}

#[test]
fn note_on_zero_velocity_acts_as_note_off() {
    // Sound a key, then silence it with a zero-velocity NoteOn.
    let track_a = vec![note_on(0, 3, 72, 80), note_on(0, 3, 72, 0)];
    // Sound the same key, then silence it with a NoteOff.
    let track_b = vec![note_on(0, 3, 72, 80), note_off(0, 3, 72, 40)];
    let mut a = Scheduler::new(480, vec![track_a]).unwrap();
    let mut b = Scheduler::new(480, vec![track_b]).unwrap();
    a.play();
    b.play();
    a.tick(0);
    b.tick(0);
    for key in 0..=127u8 {
        assert_eq!(a.is_note_active(3, key), b.is_note_active(3, key));
    }
    assert!(!a.is_note_active(3, 72));
}

#[test]
fn other_messages_leave_state_alone() {
    let track = vec![
        Event {
            delta_ticks: 0,
            kind: EventKind::Midi { channel: 0, message: Message::ProgramChange { program: 5 } },
        },
        Event {
            delta_ticks: 0,
            kind: EventKind::Midi {
                channel: 0,
                message: Message::Controller { controller: 7, value: 100 },
            },
        },
        Event {
            delta_ticks: 0,
            kind: EventKind::Midi { channel: 0, message: Message::PitchBend { bend: 8192 } },
        },
        Event {
            delta_ticks: 0,
            kind: EventKind::Midi { channel: 0, message: Message::Aftertouch { key: 60, vel: 3 } },
        },
        Event {
            delta_ticks: 0,
            kind: EventKind::Midi { channel: 0, message: Message::ChannelAftertouch { vel: 3 } },
        },
        Event { delta_ticks: 0, kind: EventKind::MetaOther },
        Event { delta_ticks: 0, kind: EventKind::SysEx },
        Event { delta_ticks: 0, kind: EventKind::Escape },
    ];
    let mut s = Scheduler::new(480, vec![track]).unwrap();
    s.play();
    s.tick(0);
    assert_eq!(s.next_event_index(0), 8);
    assert_eq!(s.tempo_micros(), 500_000);
    for key in 0..=127u8 {
        assert!(!s.is_note_active(0, key));
    }
}

#[test]
fn tempo_set_by_one_track_reaches_the_next_in_the_same_tick() {
    // Track 0 halves the quarter note; track 1's note is then due after
    // 250 000 us instead of 500 000 us, within the same tick.
    let tracks = vec![vec![tempo_change(0, 250_000)], vec![note_on(480, 1, 61, 90)]];
    let mut s = Scheduler::new(480, tracks).unwrap();
    s.play();
    s.tick(250_000);
    assert_eq!(s.next_event_index(0), 1);
    assert_eq!(s.next_event_index(1), 1);
    assert!(s.is_note_active(1, 61));
}

#[test]
fn exhausted_track_keeps_accumulating_quietly() {
    let mut s = Scheduler::new(480, vec![vec![note_on(0, 0, 60, 64)]]).unwrap();
    s.play();
    s.tick(100);
    assert_eq!(s.next_event_index(0), 1);
    s.tick(100);
    // The cursor stays at the end; firing never repeats.
    assert_eq!(s.next_event_index(0), 1);
    assert_eq!(s.pending_micros(0), 200);
    assert!(s.is_note_active(0, 60));
}

#[test]
fn active_notes_are_sorted_and_complete() {
    let track = vec![
        note_on(0, 2, 64, 80),
        note_on(0, 2, 3, 80),
        note_on(0, 2, 127, 80),
        note_on(0, 2, 64, 80),
    ];
    let mut s = Scheduler::new(480, vec![track]).unwrap();
    s.play();
    s.tick(0);
    assert_eq!(s.active_notes(2), vec![3, 64, 127]);
    assert_eq!(s.active_notes(0), Vec::<u8>::new());
}

#[test]
fn fired_events_are_readable_through_the_cursor() {
    let track = vec![note_on(0, 0, 60, 64), note_on(480, 0, 62, 64)];
    let mut s = Scheduler::new(480, vec![track.clone()]).unwrap();
    assert_eq!(s.track_len(0), 2);
    s.play();
    let before = s.next_event_index(0);
    s.tick(500_000);
    let after = s.next_event_index(0);
    // The events this tick fired are exactly those the cursor passed.
    let fired: Vec<_> = (before..after).map(|j| s.event_at(0, j)).collect();
    assert_eq!(fired, track);
}

#[test]
fn event_check_matches_validity() {
    assert!(note_on(0, 15, 127, 127).check());
    assert!(!note_on(0, 16, 0, 0).check());
    assert!(!note_off(0, 0, 128, 0).check());
    assert!(tempo_change(0, 60_000_000).check());
    assert!(!tempo_change(0, 60_000_001).check());
    assert!(!tempo_change(0, 0).check());
    assert!(Event { delta_ticks: MAX_DELTA_TICKS, kind: EventKind::MetaOther }.check());
    assert!(!Event { delta_ticks: MAX_DELTA_TICKS + 1, kind: EventKind::MetaOther }.check());
}
