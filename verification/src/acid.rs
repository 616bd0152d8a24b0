//! Note articulation of the 303-style acid bass: legato slide and accent.
//!
//! * **Slide**: when the previous note is still held, a new note glides to
//!   its pitch instead of retriggering the envelope.
//! * **Accent**: a velocity of at least [`ACCENT_THRESHOLD`] accents the note.
use vstd::prelude::*;

verus! {

pub const ACCENT_THRESHOLD: u8 = 100;

/// How the voice is to start a new note.
#[derive(Debug, Clone, Copy, PartialEq, Eq, Structural)]
pub enum Attack {
    /// No note was held: snap to the new pitch and retrigger the envelope.
    Retrigger,
    /// A note is still held: glide to the new pitch, keep the envelope going.
    Slide,
}

/// Which note the bass is playing, and how.
#[derive(Debug, Clone, Copy, PartialEq, Eq, Structural)]
pub struct NoteState {
    pub note_on: bool,
    pub current_note: Option<u8>,
    pub accent: bool,
}

/// The state after a note-on.
pub open spec fn after_note_on(s: NoteState, note: u8, velocity: u8) -> NoteState {
    NoteState { note_on: true, current_note: Some(note), accent: velocity >= ACCENT_THRESHOLD }
}

/// A note-off ends the current note only; any other note-off is ignored.
pub open spec fn after_note_off(s: NoteState, note: u8) -> NoteState {
    if s.current_note == Some(note) {
        NoteState { note_on: false, current_note: None, ..s }
    } else {
        s
    }
}

/// A new note slides exactly when a note is still held.
pub open spec fn attack_for(s: NoteState) -> Attack {
    if s.note_on {
        Attack::Slide
    } else {
        Attack::Retrigger
    }
}

impl NoteState {
    /// A note is held exactly when there is a current note.
    pub open spec fn wf(self) -> bool {
        self.note_on <==> self.current_note is Some
    }

    /// Silence: nothing held, no accent.
    pub fn new() -> (s: Self)
        ensures
            s == (NoteState { note_on: false, current_note: None, accent: false }),
    {
        NoteState { note_on: false, current_note: None, accent: false }
    }

    /// Start `note`: it slides from the held note when there is one.
    pub fn note_on(&mut self, note: u8, velocity: u8) -> (attack: Attack)
        ensures
            *final(self) == after_note_on(*old(self), note, velocity),
            attack == attack_for(*old(self)),
            final(self).note_on,
            final(self).current_note == Some(note),
            final(self).accent == (velocity >= ACCENT_THRESHOLD),
            attack == (if old(self).note_on { Attack::Slide } else { Attack::Retrigger }),
    {
        // Legato: a note still held makes the new one slide.
        let attack = if self.note_on { Attack::Slide } else { Attack::Retrigger };
        self.accent = velocity >= ACCENT_THRESHOLD;
        self.current_note = Some(note);
        self.note_on = true;
        attack
    }

    /// End `note` if it is the one playing; returns whether it was released.
    pub fn note_off(&mut self, note: u8) -> (released: bool)
        ensures
            *final(self) == after_note_off(*old(self), note),
            released == (old(self).current_note == Some(note)),
    {
        let playing = match self.current_note {
            Some(n) => n == note,
            None => false,
        };
        if playing {
            self.note_on = false;
            self.current_note = None;
        }
        playing
    }
}

/// Note-ons and note-offs keep a note held exactly when there is a current note.
pub proof fn lemma_note_state_wf(s: NoteState, note: u8, velocity: u8)
    requires
        s.wf(),
    ensures
        after_note_on(s, note, velocity).wf(),
        after_note_off(s, note).wf(),
{
}

/// Releasing the note that was just started silences the bass, while a
/// note-off for any other note leaves it playing, accent included.
pub proof fn lemma_note_off_matches_note(s: NoteState, note: u8, velocity: u8, other: u8)
    requires
        other != note,
    ensures
        !after_note_off(after_note_on(s, note, velocity), note).note_on,
        after_note_off(after_note_on(s, note, velocity), other) == after_note_on(s, note, velocity),
{
}

/// A second note while the first is held slides, whatever came before;
/// once the held note is released, the next note retriggers.
pub proof fn lemma_legato_slides(s: NoteState, a: u8, va: u8)
    ensures
        attack_for(after_note_on(s, a, va)) == Attack::Slide,
        attack_for(after_note_off(after_note_on(s, a, va), a)) == Attack::Retrigger,
{
}

/// A note-on sets the accent from its own velocity alone (at least 100),
/// whatever was playing before: accent never carries over from a previous
/// note, slid or not. It holds the new note, and slides exactly when a note
/// was already held.
pub proof fn lemma_note_on_accent_is_per_note(s: NoteState, note: u8, velocity: u8)
    ensures
        after_note_on(s, note, velocity).accent == (velocity >= 100),
        after_note_on(s, note, velocity).note_on,
        after_note_on(s, note, velocity).current_note == Some(note),
        (attack_for(s) == Attack::Slide) <==> s.note_on,
{
}

/// A note-off never touches the accent; it silences the bass exactly when
/// it names the note being played, and otherwise changes nothing.
pub proof fn lemma_note_off_releases_held_note_only(s: NoteState, note: u8)
    ensures
        after_note_off(s, note).accent == s.accent,
        s.current_note == Some(note) ==> !after_note_off(s, note).note_on
            && after_note_off(s, note).current_note is None,
        s.current_note != Some(note) ==> after_note_off(s, note) == s,
{
}

} // verus!
