use rust_dsp::midi::MidiEvent;
use rust_dsp::midi::MidiParser;

fn feed(p: &mut MidiParser, bytes: &[u8]) -> Vec<MidiEvent> {
    let mut out = Vec::new();
    for b in bytes {
        if let Some(ev) = p.push(*b) {
            out.push(ev);
        }
    }
    out
}

#[test]
fn parses_note_on() {
    let mut p = MidiParser::new();
    let ev = feed(&mut p, &[0x90, 60, 100]);
    assert_eq!(ev.len(), 1);
    assert_eq!(ev[0], MidiEvent::NoteOn { note: 60, velocity: 100 });
}

#[test]
fn note_on_with_velocity_zero_is_note_off() {
    let mut p = MidiParser::new();
    let ev = feed(&mut p, &[0x90, 60, 0]);
    assert_eq!(ev.len(), 1);
    assert_eq!(ev[0], MidiEvent::NoteOff { note: 60 });
}

#[test]
fn running_status_reuses_last_status() {
    let mut p = MidiParser::new();
    let ev = feed(&mut p, &[0x90, 60, 100, 62, 120, 64, 90]);
    assert_eq!(ev.len(), 3);
    assert_eq!(ev[0], MidiEvent::NoteOn { note: 60, velocity: 100 });
    assert_eq!(ev[1], MidiEvent::NoteOn { note: 62, velocity: 120 });
    assert_eq!(ev[2], MidiEvent::NoteOn { note: 64, velocity: 90 });
}

#[test]
fn realtime_bytes_do_not_break_running_status() {
    let mut p = MidiParser::new();
    // Clock (0xF8) injected between data bytes.
    let ev = feed(&mut p, &[0x90, 60, 0xF8, 100, 0xF8, 62, 120]);
    assert_eq!(ev.len(), 2);
}

#[test]
fn pitch_bend_center_is_zero() {
    let mut p = MidiParser::new();
    let ev = feed(&mut p, &[0xE0, 0x00, 0x40]);
    assert_eq!(ev.len(), 1);
    assert_eq!(ev[0], MidiEvent::PitchBend { value: 0 });
}

#[test]
fn control_change() {
    let mut p = MidiParser::new();
    let ev = feed(&mut p, &[0xB0, 74, 64]);
    assert_eq!(ev.len(), 1);
    assert_eq!(ev[0], MidiEvent::ControlChange { controller: 74, value: 64 });
}

#[test]
fn sysex_is_swallowed() {
    let mut p = MidiParser::new();
    let ev = feed(&mut p, &[0xF0, 0x7E, 0x7F, 0x06, 0x01, 0xF7, 0x90, 60, 100]);
    assert_eq!(ev.len(), 1);
    assert_eq!(ev[0], MidiEvent::NoteOn { note: 60, velocity: 100 });
}

#[test]
fn pitch_bend_extremes() {
    let mut p = MidiParser::new();
    let ev = feed(&mut p, &[0xE3, 0x00, 0x00, 0x7F, 0x7F, 0x01, 0x40]);
    assert_eq!(
        ev,
        vec![
            MidiEvent::PitchBend { value: -8192 },
            MidiEvent::PitchBend { value: 8191 },
            MidiEvent::PitchBend { value: 1 },
        ]
    );
}

#[test]
fn note_off_status_and_channels() {
    let mut p = MidiParser::new();
    let ev = feed(&mut p, &[0x85, 60, 64, 0x9F, 61, 1]);
    assert_eq!(
        ev,
        vec![MidiEvent::NoteOff { note: 60 }, MidiEvent::NoteOn { note: 61, velocity: 1 }]
    );
}

#[test]
fn realtime_inside_every_position_changes_nothing() {
    let stream: [u8; 6] = [0x90, 60, 100, 0xB0, 7, 99];
    let mut plain = MidiParser::new();
    let expected = feed(&mut plain, &stream);
    for pos in 0..=stream.len() {
        let mut with_clock: Vec<u8> = stream[..pos].to_vec();
        with_clock.push(0xFA);
        with_clock.extend_from_slice(&stream[pos..]);
        let mut p = MidiParser::new();
        assert_eq!(feed(&mut p, &with_clock), expected);
    }
}

#[test]
fn sysex_keeps_running_status() {
    let mut p = MidiParser::new();
    let ev = feed(&mut p, &[0x90, 60, 100, 0xF0, 0x01, 0x90, 0x02, 0xF7, 62, 110]);
    assert_eq!(
        ev,
        vec![
            MidiEvent::NoteOn { note: 60, velocity: 100 },
            MidiEvent::NoteOn { note: 62, velocity: 110 },
        ]
    );
}

#[test]
fn system_common_clears_running_status() {
    let mut p = MidiParser::new();
    let ev = feed(&mut p, &[0x90, 60, 100, 0xF2, 62, 110]);
    assert_eq!(ev, vec![MidiEvent::NoteOn { note: 60, velocity: 100 }]);
}

#[test]
fn ignored_messages_are_consumed() {
    let mut p = MidiParser::new();
    // Program change, channel pressure, poly aftertouch, then a note.
    let ev = feed(&mut p, &[0xC0, 5, 0xD0, 64, 0xA0, 60, 10, 0x90, 60, 100]);
    assert_eq!(ev, vec![MidiEvent::NoteOn { note: 60, velocity: 100 }]);
}

#[test]
fn data_without_status_is_ignored() {
    let mut p = MidiParser::default();
    assert_eq!(feed(&mut p, &[60, 100, 0x7F]), vec![]);
}
