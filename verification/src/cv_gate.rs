//! Edge logic of the CV front panel's note-hold input: when the input goes
//! high it plays the note under the pitch CV, a pitch change while it stays
//! high plays the new note legato, and when it falls the held note ends.
use crate::midi::MidiEvent;
use vstd::prelude::*;

verus! {

/// Velocity of notes played from the note-hold input.
pub const DEFAULT_VELOCITY: u8 = 96;

/// The note-hold level seen last, and the note it holds.
pub struct GateTracker {
    gate_prev: bool,
    held_note: Option<u8>,
}

/// One poll of the note-hold input with the note under the pitch CV: the
/// new `(level, held note)` and the event to play, if any.
pub open spec fn gate_step(s: (bool, Option<u8>), note: u8, gate_now: bool) -> (
    (bool, Option<u8>),
    Option<MidiEvent>,
) {
    if !s.0 && gate_now {
        ((true, Some(note)), Some(MidiEvent::NoteOn { note, velocity: DEFAULT_VELOCITY }))
    } else if s.0 && !gate_now {
        (
            (false, None),
            match s.1 {
                Some(n) => Some(MidiEvent::NoteOff { note: n }),
                None => None,
            },
        )
    } else if s.0 && gate_now {
        match s.1 {
            Some(prev) => if note != prev {
                ((true, Some(note)), Some(MidiEvent::NoteOn { note, velocity: DEFAULT_VELOCITY }))
            } else {
                (s, None)
            },
            None => (s, None),
        }
    } else {
        (s, None)
    }
}

impl View for GateTracker {
    type V = (bool, Option<u8>);

    closed spec fn view(&self) -> (bool, Option<u8>) {
        (self.gate_prev, self.held_note)
    }
}

impl GateTracker {
    #[verifier::type_invariant]
    spec fn inv(self) -> bool {
        self.gate_prev <==> self.held_note is Some
    }

    /// Input low, no note held.
    pub fn new() -> (t: Self)
        ensures
            t@ == (false, None::<u8>),
    {
        GateTracker { gate_prev: false, held_note: None }
    }

    /// Poll the note-hold input: `note` is the note under the pitch CV,
    /// `gate_now` the input's level.
    pub fn update(&mut self, note: u8, gate_now: bool) -> (ev: Option<MidiEvent>)
        ensures
            (final(self)@, ev) == gate_step(old(self)@, note, gate_now),
            final(self)@.0 <==> final(self)@.1 is Some,
    {
        proof {
            use_type_invariant(&*self);
        }
        let (held, ev) = if !self.gate_prev && gate_now {
            (Some(note), Some(MidiEvent::NoteOn { note, velocity: DEFAULT_VELOCITY }))
        } else if self.gate_prev && !gate_now {
            match self.held_note {
                Some(n) => (None, Some(MidiEvent::NoteOff { note: n })),
                None => (None, None),
            }
        } else if self.gate_prev && gate_now {
            match self.held_note {
                Some(prev) => if note != prev {
                    (Some(note), Some(MidiEvent::NoteOn { note, velocity: DEFAULT_VELOCITY }))
                } else {
                    (Some(prev), None)
                },
                None => (None, None),
            }
        } else {
            (self.held_note, None)
        };
        *self = GateTracker { gate_prev: gate_now, held_note: held };
        ev
    }
}

/// A note is held exactly while the input is high; a falling input always
/// releases the held note, and only the held note.
pub proof fn lemma_gate_holds_one_note(s: (bool, Option<u8>), note: u8, gate_now: bool)
    requires
        s.0 <==> s.1 is Some,
    ensures
        ({
            let (t, ev) = gate_step(s, note, gate_now);
            &&& (t.0 <==> t.1 is Some)
            &&& t.0 == gate_now
            &&& (s.0 && !gate_now) ==> ev == Some(MidiEvent::NoteOff { note: s.1->0 })
            &&& (ev matches Some(MidiEvent::NoteOff { note: n }) ==> s.1 == Some(n) && !gate_now)
            &&& (ev matches Some(MidiEvent::NoteOn { note: n, .. }) ==> n == note && t.1 == Some(
                note,
            ))
        }),
{
}

/// A pulse on the input over a steady pitch plays that note once and releases it.
pub proof fn lemma_gate_pulse(note: u8)
    ensures
        ({
            let (s1, e1) = gate_step((false, None), note, true);
            let (s2, e2) = gate_step(s1, note, true);
            let (s3, e3) = gate_step(s2, note, false);
            &&& e1 == Some(MidiEvent::NoteOn { note, velocity: DEFAULT_VELOCITY })
            &&& e2 is None
            &&& e3 == Some(MidiEvent::NoteOff { note })
            &&& s3 == (false, None::<u8>)
        }),
{
}

/// Every transition of the note-hold input, for every note: rising plays
/// the note under the pitch CV at velocity 96; falling ends the held note;
/// while high, a pitch CV on any other note (above or below) plays it and it
/// becomes the held note, and the same note plays nothing; while low,
/// nothing happens.
pub proof fn lemma_hold_input_transitions(held: u8, note: u8)
    ensures
        gate_step((false, None), note, true) == (
            (true, Some(note)),
            Some(MidiEvent::NoteOn { note, velocity: 96 }),
        ),
        gate_step((true, Some(held)), note, false) == (
            (false, None::<u8>),
            Some(MidiEvent::NoteOff { note: held }),
        ),
        note != held ==> gate_step((true, Some(held)), note, true) == (
            (true, Some(note)),
            Some(MidiEvent::NoteOn { note, velocity: 96 }),
        ),
        gate_step((true, Some(held)), held, true) == ((true, Some(held)), None::<MidiEvent>),
        gate_step((false, None), note, false) == ((false, None::<u8>), None::<MidiEvent>),
{
}

} // verus!
