//! Decisions of the desktop host that do not touch shared state: what an
//! incoming MIDI message asks of the keys, and what a change of the key level
//! asks of the voice.
use crate::midi::kind;
use vstd::prelude::*;

verus! {

/// What a MIDI message asks of the keys.
#[derive(Debug, Clone, Copy, PartialEq, Eq, Structural)]
pub enum KeyMessage {
    KeyOn { note: u8, vel: u8 },
    KeyOff { note: u8 },
    /// Anything else: left to the caller (logged, not played).
    Other,
}

/// The data bytes a message needs before it can be read.
pub open spec fn key_message_complete(msg: Seq<u8>) -> bool {
    &&& msg.len() >= 1
    &&& kind(msg[0]) == 0x9 ==> msg.len() >= 3
    &&& kind(msg[0]) == 0x8 ==> msg.len() >= 2
}

/// Note-on with a velocity plays the key, note-on with velocity 0 and
/// note-off release it; the channel is ignored.
pub open spec fn key_message_spec(msg: Seq<u8>) -> KeyMessage {
    if kind(msg[0]) == 0x9 {
        if msg[2] > 0 {
            KeyMessage::KeyOn { note: msg[1], vel: msg[2] }
        } else {
            KeyMessage::KeyOff { note: msg[1] }
        }
    } else if kind(msg[0]) == 0x8 {
        KeyMessage::KeyOff { note: msg[1] }
    } else {
        KeyMessage::Other
    }
}

/// Read one complete MIDI message as delivered by the MIDI input.
pub fn key_message(msg: &[u8]) -> (m: KeyMessage)
    requires
        key_message_complete(msg@),
    ensures
        m == key_message_spec(msg@),
{
    let b0 = msg[0];
    assert(b0 & 0xF0 == (b0 / 16) * 16) by (bit_vector);
    let status = b0 & 0xF0;
    if status == 0x90 {
        let note = msg[1];
        let vel = msg[2];
        if vel > 0 {
            KeyMessage::KeyOn { note, vel }
        } else {
            KeyMessage::KeyOff { note }
        }
    } else if status == 0x80 {
        KeyMessage::KeyOff { note: msg[1] }
    } else {
        KeyMessage::Other
    }
}

/// Whether a key-off for `midi_note` lifts the key held for `active_note`:
/// only the note that is down releases it.
pub fn releases_key(midi_note: u8, active_note: u8) -> (r: bool)
    ensures
        r == (midi_note == active_note),
{
    midi_note == active_note
}

/// A voice parameter that a float control message can target.
#[derive(Debug, Clone, Copy, PartialEq, Eq, Structural)]
pub enum VoiceParam {
    /// Target of the filter-cutoff smoother.
    Cutoff,
    /// Target of the resonance smoother.
    Resonance,
}

pub open spec fn voice_param_spec(key: u8) -> Option<VoiceParam> {
    if key == 77 {
        Some(VoiceParam::Cutoff)
    } else if key == 65 {
        Some(VoiceParam::Resonance)
    } else {
        None
    }
}

/// The parameter that key `key` of a float control message sets: 77 the
/// cutoff, 65 the resonance; other keys are ignored.
pub fn voice_param_for_key(key: u8) -> (p: Option<VoiceParam>)
    ensures
        p == voice_param_spec(key),
{
    match key {
        77 => Some(VoiceParam::Cutoff),
        65 => Some(VoiceParam::Resonance),
        _ => None,
    }
}

/// What a change of the key level asks of the voice.
#[derive(Debug, Clone, Copy, PartialEq, Eq, Structural)]
pub enum GateAction {
    /// The key went down: start the envelope.
    Trigger,
    /// The key came up: release the envelope.
    Release,
    /// Nothing to do.
    Hold,
}

pub open spec fn gate_action_spec(prev_gate: u8, gate: u8) -> GateAction {
    if gate == 1 && prev_gate == 0 {
        GateAction::Trigger
    } else if gate == 0 && prev_gate == 1 {
        GateAction::Release
    } else {
        GateAction::Hold
    }
}

/// Compare the key level read now with the one read for the previous sample.
pub fn gate_action(prev_gate: u8, gate: u8) -> (a: GateAction)
    ensures
        a == gate_action_spec(prev_gate, gate),
{
    if gate == 1 && prev_gate == 0 {
        GateAction::Trigger
    } else if gate == 0 && prev_gate == 1 {
        GateAction::Release
    } else {
        GateAction::Hold
    }
}

/// The actions for successive key-level readings, starting after `prev`.
pub open spec fn gate_actions(prev: u8, gates: Seq<u8>) -> Seq<GateAction>
    decreases gates.len(),
{
    if gates.len() == 0 {
        Seq::empty()
    } else {
        seq![gate_action_spec(prev, gates[0])] + gate_actions(gates[0], gates.drop_first())
    }
}

/// Triggers and releases alternate, starting with a release when the key
/// was down (`open`) and with a trigger otherwise; `Hold` is ignored.
pub open spec fn alternate(actions: Seq<GateAction>, open: bool) -> bool
    decreases actions.len(),
{
    if actions.len() == 0 {
        true
    } else {
        match actions[0] {
            GateAction::Trigger => !open && alternate(actions.drop_first(), true),
            GateAction::Release => open && alternate(actions.drop_first(), false),
            GateAction::Hold => alternate(actions.drop_first(), open),
        }
    }
}

/// While the key level takes only the values 0 and 1 (as the key handling
/// writes it), the voice is never triggered twice without a release in
/// between, nor released twice without a trigger.
pub proof fn lemma_gate_actions_alternate(prev: u8, gates: Seq<u8>)
    requires
        prev <= 1,
        forall|i: int| 0 <= i < gates.len() ==> gates[i] <= 1,
    ensures
        alternate(gate_actions(prev, gates), prev == 1),
    decreases gates.len(),
{
    if gates.len() > 0 {
        let rest = gates.drop_first();
        assert forall|i: int| 0 <= i < rest.len() implies rest[i] <= 1 by {
            assert(rest[i] == gates[i + 1]);
        }
        lemma_gate_actions_alternate(gates[0], rest);
        let acts = gate_actions(prev, gates);
        assert(acts.drop_first() =~= gate_actions(gates[0], rest));
    }
}

/// What each key message means, on every channel: a note-on with a
/// non-zero velocity presses that key at that velocity, a note-on with
/// velocity 0 and a note-off lift it, control changes and system messages
/// are not key messages.
pub proof fn lemma_key_messages(channel: u8, note: u8, vel: u8, b: u8)
    requires
        channel < 16,
    ensures
        vel > 0 ==> key_message_spec(seq![(0x90 + channel) as u8, note, vel]) == (
        KeyMessage::KeyOn { note, vel }),
        key_message_spec(seq![(0x90 + channel) as u8, note, 0u8]) == (KeyMessage::KeyOff { note }),
        key_message_spec(seq![(0x80 + channel) as u8, note]) == (KeyMessage::KeyOff { note }),
        key_message_spec(seq![(0xB0 + channel) as u8, note, vel]) == KeyMessage::Other,
        b >= 0xF0 ==> key_message_spec(seq![b]) == KeyMessage::Other,
{
}

/// The key level's actions: a trigger exactly when the level goes from 0 to
/// 1, a release exactly when it goes from 1 to 0, nothing otherwise.
pub proof fn lemma_gate_action_edges(prev: u8, now: u8)
    ensures
        (gate_action_spec(prev, now) == GateAction::Trigger) <==> (prev == 0 && now == 1),
        (gate_action_spec(prev, now) == GateAction::Release) <==> (prev == 1 && now == 0),
{
}

/// Float control key 77 sets the cutoff, 65 the resonance, and no other key
/// sets either.
pub proof fn lemma_float_keys(key: u8)
    ensures
        (voice_param_spec(key) == Some(VoiceParam::Cutoff)) <==> (key == 77),
        (voice_param_spec(key) == Some(VoiceParam::Resonance)) <==> (key == 65),
{
}

} // verus!
