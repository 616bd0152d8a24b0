use rust_dsp::midi::MidiEvent;
use rust_dsp::sequencer::TestSequencer;
use rust_dsp::sequencer::MELODY_LEN;

#[test]
fn advances_through_all_steps_and_loops() {
    let mut seq = TestSequencer::new(48_000);
    let mut note_ons = 0usize;
    let mut note_offs = 0usize;
    // Simulate 5 seconds: plenty for the loop to wrap.
    let block = 32;
    for _ in 0..(48_000 * 5 / block) {
        for ev in seq.tick(block) {
            match ev {
                MidiEvent::NoteOn { .. } => note_ons += 1,
                MidiEvent::NoteOff { .. } => note_offs += 1,
                _ => {}
            }
        }
    }
    assert!(note_ons >= MELODY_LEN, "expected at least one full pass, got {}", note_ons);
    assert_eq!(note_ons, note_offs, "every note-on should be paired with a note-off");
}

#[test]
fn first_tick_plays_first_note() {
    let mut seq = TestSequencer::new(48_000);
    assert_eq!(seq.tick(32), vec![MidiEvent::NoteOn { note: 45, velocity: 110 }]);
    assert_eq!(seq.tick(32), vec![]);
}

#[test]
fn hold_and_step_boundaries_are_exact() {
    // 48 kHz at 120 BPM: 6000 samples per sixteenth, first step 12000
    // samples, its note held for 10200 samples.
    let mut seq = TestSequencer::new(48_000);
    assert_eq!(seq.tick(10_200), vec![MidiEvent::NoteOn { note: 45, velocity: 110 }]);
    assert_eq!(seq.tick(1), vec![MidiEvent::NoteOff { note: 45 }]);
    assert_eq!(seq.tick(1_799), vec![]);
    assert_eq!(seq.tick(1), vec![MidiEvent::NoteOn { note: 45, velocity: 90 }]);
}

#[test]
fn empty_block_emits_nothing() {
    let mut seq = TestSequencer::new(48_000);
    assert_eq!(seq.tick(0), vec![]);
    assert_eq!(seq.samples_into_step(), 0);
    assert_eq!(seq.tick(1), vec![MidiEvent::NoteOn { note: 45, velocity: 110 }]);
}

#[test]
fn notes_alternate_and_pair_up() {
    let mut seq = TestSequencer::new(44_100);
    let mut held: Option<u8> = None;
    for i in 0..20_000usize {
        for ev in seq.tick(1 + (i % 97)) {
            match ev {
                MidiEvent::NoteOn { note, .. } => {
                    assert_eq!(held, None);
                    held = Some(note);
                }
                MidiEvent::NoteOff { note } => {
                    assert_eq!(held, Some(note));
                    held = None;
                }
                _ => panic!("unexpected event"),
            }
        }
    }
}

#[test]
fn one_pass_takes_thirty_two_sixteenths() {
    // 8 samples per sixteenth: one pass of the melody is 256 samples.
    let mut seq = TestSequencer::new(64);
    let first = seq.tick(1);
    assert_eq!(first, vec![MidiEvent::NoteOn { note: 45, velocity: 110 }]);
    let mut ons = 1;
    for _ in 1..256 {
        for ev in seq.tick(1) {
            if let MidiEvent::NoteOn { .. } = ev {
                ons += 1;
            }
        }
    }
    assert_eq!(ons, MELODY_LEN);
    // Sample 256 starts the second pass.
    assert_eq!(seq.tick(1), vec![MidiEvent::NoteOn { note: 45, velocity: 110 }]);
}

#[test]
fn a_long_block_spans_several_steps() {
    let mut seq = TestSequencer::new(48_000);
    assert_eq!(
        seq.tick(30_000),
        vec![
            MidiEvent::NoteOn { note: 45, velocity: 110 },
            MidiEvent::NoteOff { note: 45 },
            MidiEvent::NoteOn { note: 45, velocity: 90 },
            MidiEvent::NoteOff { note: 45 },
            MidiEvent::NoteOn { note: 52, velocity: 100 },
        ]
    );
    assert_eq!(seq.samples_into_step(), 6_000);
    assert_eq!(seq.tick(4_200), vec![]);
    assert_eq!(seq.tick(1), vec![MidiEvent::NoteOff { note: 52 }]);
}

#[test]
fn one_block_holds_a_whole_pass() {
    // One pass is 32 sixteenths of 6000 samples.
    let mut seq = TestSequencer::new(48_000);
    let events = seq.tick(192_000);
    assert_eq!(events.len(), 2 * MELODY_LEN);
    assert_eq!(seq.samples_into_step(), 0);
    assert_eq!(seq.tick(1), vec![MidiEvent::NoteOn { note: 45, velocity: 110 }]);
}

#[test]
fn position_inside_step() {
    let mut seq = TestSequencer::new(48_000);
    assert_eq!(seq.samples_into_step(), 0);
    seq.tick(100);
    assert_eq!(seq.samples_into_step(), 100);
    seq.tick(11_950);
    assert_eq!(seq.samples_into_step(), 50);
}

#[test]
fn plays_the_melody_in_order_and_loops() {
    let melody: [u8; 15] = [45, 45, 52, 48, 55, 45, 57, 55, 45, 50, 48, 45, 52, 55, 45];
    let mut seq = TestSequencer::new(48_000);
    let mut played = Vec::new();
    for _ in 0..(48_000 * 9 / 64) {
        for ev in seq.tick(64) {
            if let MidiEvent::NoteOn { note, .. } = ev {
                played.push(note);
            }
        }
    }
    assert!(played.len() > 2 * MELODY_LEN);
    for (i, note) in played.iter().enumerate() {
        assert_eq!(*note, melody[i % MELODY_LEN]);
    }
}
