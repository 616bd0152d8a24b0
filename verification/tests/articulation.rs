use rust_dsp::acid::Attack;
use rust_dsp::acid::NoteState;
use rust_dsp::acid::ACCENT_THRESHOLD;
use rust_dsp::cv_gate::GateTracker;
use rust_dsp::cv_gate::DEFAULT_VELOCITY;
use rust_dsp::midi::MidiEvent;

#[test]
fn first_note_retriggers() {
    let mut s = NoteState::new();
    assert_eq!(s.note_on(45, 100), Attack::Retrigger);
    assert!(s.note_on);
    assert_eq!(s.current_note, Some(45));
}

#[test]
fn held_note_makes_next_one_slide() {
    let mut s = NoteState::new();
    s.note_on(45, 100);
    assert_eq!(s.note_on(57, 100), Attack::Slide);
    assert_eq!(s.current_note, Some(57));
}

#[test]
fn accent_flag_tracks_velocity_threshold() {
    let mut s = NoteState::new();
    s.note_on(45, ACCENT_THRESHOLD - 1);
    assert!(!s.accent);
    s.note_on(45, ACCENT_THRESHOLD);
    assert!(s.accent);
    s.note_on(45, 127);
    assert!(s.accent);
}

#[test]
fn note_off_for_unrelated_note_is_ignored() {
    let mut s = NoteState::new();
    s.note_on(45, 100);
    assert!(!s.note_off(46));
    assert!(s.note_on);
    assert!(s.note_off(45));
    assert!(!s.note_on);
    assert_eq!(s.current_note, None);
}

#[test]
fn release_then_new_note_retriggers() {
    let mut s = NoteState::new();
    s.note_on(45, 100);
    s.note_off(45);
    assert_eq!(s.note_on(48, 90), Attack::Retrigger);
}

#[test]
fn note_off_when_silent_does_nothing() {
    let mut s = NoteState::new();
    assert!(!s.note_off(45));
    assert_eq!(s, NoteState::new());
}

#[test]
fn gate_rise_plays_note() {
    let mut g = GateTracker::new();
    assert_eq!(g.update(40, false), None);
    assert_eq!(
        g.update(40, true),
        Some(MidiEvent::NoteOn { note: 40, velocity: DEFAULT_VELOCITY })
    );
    assert_eq!(g.update(40, true), None);
    assert_eq!(g.update(41, false), Some(MidiEvent::NoteOff { note: 40 }));
    assert_eq!(g.update(41, false), None);
}

#[test]
fn pitch_change_while_gate_high_plays_new_note() {
    let mut g = GateTracker::new();
    g.update(40, true);
    assert_eq!(
        g.update(43, true),
        Some(MidiEvent::NoteOn { note: 43, velocity: 96 })
    );
    assert_eq!(g.update(43, false), Some(MidiEvent::NoteOff { note: 43 }));
}
