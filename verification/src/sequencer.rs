//! Internal test sequencer: pretends to be a MIDI keyboard playing a short
//! looping bass line, so the synth can be heard without a controller.
use crate::midi::MidiEvent;
use vstd::prelude::*;

verus! {

/// One step of the melody.
#[derive(Clone, Copy)]
pub struct Step {
    pub note: u8,
    pub velocity: u8,
    /// Length of the step in sixteenth notes: 1 = a 16th, 2 = an eighth, 4 = a quarter.
    pub len_16ths: u8,
}

/// Number of steps in the melody.
pub const MELODY_LEN: usize = 15;

/// Each note is held for 85/100 of its step (staccato, more 303).
pub const GATE_NUM: u64 = 85;
pub const GATE_DEN: u64 = 100;

/// Bass line: two bars of A-minor pentatonic.
/// Notes: A2=45, C3=48, D3=50, E3=52, G3=55, A3=57.
pub open spec fn melody_at(i: int) -> Step {
    if i == 0 { Step { note: 45, velocity: 110, len_16ths: 2 } }
    else if i == 1 { Step { note: 45, velocity: 90, len_16ths: 2 } }
    else if i == 2 { Step { note: 52, velocity: 100, len_16ths: 2 } }
    else if i == 3 { Step { note: 48, velocity: 115, len_16ths: 2 } }
    else if i == 4 { Step { note: 55, velocity: 100, len_16ths: 2 } }
    else if i == 5 { Step { note: 45, velocity: 90, len_16ths: 2 } }
    else if i == 6 { Step { note: 57, velocity: 120, len_16ths: 2 } }
    else if i == 7 { Step { note: 55, velocity: 100, len_16ths: 2 } }
    else if i == 8 { Step { note: 45, velocity: 110, len_16ths: 2 } }
    else if i == 9 { Step { note: 50, velocity: 100, len_16ths: 2 } }
    else if i == 10 { Step { note: 48, velocity: 90, len_16ths: 2 } }
    else if i == 11 { Step { note: 45, velocity: 115, len_16ths: 2 } }
    else if i == 12 { Step { note: 52, velocity: 100, len_16ths: 4 } }
    else if i == 13 { Step { note: 55, velocity: 100, len_16ths: 2 } }
    else { Step { note: 45, velocity: 100, len_16ths: 2 } }
}

fn melody_step(i: usize) -> (s: Step)
    requires
        i < MELODY_LEN,
    ensures
        s == melody_at(i as int),
        1 <= s.len_16ths <= 4,
{
    match i {
        0 => Step { note: 45, velocity: 110, len_16ths: 2 },
        1 => Step { note: 45, velocity: 90, len_16ths: 2 },
        2 => Step { note: 52, velocity: 100, len_16ths: 2 },
        3 => Step { note: 48, velocity: 115, len_16ths: 2 },
        4 => Step { note: 55, velocity: 100, len_16ths: 2 },
        5 => Step { note: 45, velocity: 90, len_16ths: 2 },
        6 => Step { note: 57, velocity: 120, len_16ths: 2 },
        7 => Step { note: 55, velocity: 100, len_16ths: 2 },
        8 => Step { note: 45, velocity: 110, len_16ths: 2 },
        9 => Step { note: 50, velocity: 100, len_16ths: 2 },
        10 => Step { note: 48, velocity: 90, len_16ths: 2 },
        11 => Step { note: 45, velocity: 115, len_16ths: 2 },
        12 => Step { note: 52, velocity: 100, len_16ths: 4 },
        13 => Step { note: 55, velocity: 100, len_16ths: 2 },
        _ => Step { note: 45, velocity: 100, len_16ths: 2 },
    }
}

/// Samples in one sixteenth note at `sample_rate`. The tempo is 120 BPM,
/// four sixteenths to the beat: 480 sixteenths a minute.
pub open spec fn samples_per_sixteenth(sample_rate: u32) -> int {
    (sample_rate * 60) / 480
}

/// Length of the step `i` in samples.
pub open spec fn step_samples(samples_per_16th: u32, i: int) -> int {
    samples_per_16th * melody_at(i).len_16ths
}

/// How long the note of a step of `len` samples is held.
pub open spec fn gate_len(len: int) -> int {
    len * GATE_NUM / GATE_DEN as int
}

/// The step after step `i`, looping from the last step to the first.
pub open spec fn next_step(i: int) -> int {
    (i + 1) % (MELODY_LEN as int)
}

/// The events of step `idx` whose time falls in `[from, to)`, time 0 being
/// the start of the step: its note-on at 0, its note-off once the note has
/// been held for [`gate_len`] of the step.
pub open spec fn step_events(spp: u32, idx: int, from: int, to: int) -> Seq<MidiEvent> {
    let st = melody_at(idx);
    let hold = gate_len(step_samples(spp, idx));
    (if from <= 0 < to {
        seq![MidiEvent::NoteOn { note: st.note, velocity: st.velocity }]
    } else {
        Seq::empty()
    }) + (if from <= hold < to {
        seq![MidiEvent::NoteOff { note: st.note }]
    } else {
        Seq::empty()
    })
}

/// The melody's timeline: the events whose time falls in `[from, to)`,
/// time 0 being the start of step `idx` and each step starting where the
/// one before it ends, looping through the melody. Steps of no length (a
/// sample rate under 8 Hz) are not laid out in time: there the window holds
/// the events of step `idx` alone.
pub open spec fn timeline_window(spp: u32, idx: int, from: int, to: int) -> Seq<MidiEvent>
    decreases to,
{
    let len = step_samples(spp, idx);
    if len > 0 && to > len {
        step_events(spp, idx, from, to) + timeline_window(
            spp,
            next_step(idx),
            if from > len {
                from - len
            } else {
                0
            },
            to - len,
        )
    } else {
        step_events(spp, idx, from, to)
    }
}

/// Where `n` samples after `offset` samples into step `idx` lead: the step
/// and the offset into it. A step of no length is left after one block.
pub open spec fn advance(spp: u32, idx: int, offset: int, n: int) -> (int, int)
    decreases n,
{
    let len = step_samples(spp, idx);
    if len == 0 {
        if n > 0 {
            (next_step(idx), 0)
        } else {
            (idx, offset)
        }
    } else if 0 <= offset < len && offset + n >= len {
        advance(spp, next_step(idx), 0, offset + n - len)
    } else {
        (idx, offset + n)
    }
}

/// The abstract state of a [`TestSequencer`].
pub struct SequencerState {
    pub samples_per_16th: u32,
    /// The current step of the melody.
    pub step_idx: usize,
    /// Samples elapsed inside the current step.
    pub step_sample: u32,
}

/// One block of `n` samples: the state after it, and the events of the
/// melody's timeline that fall inside the block, in order.
pub open spec fn tick_spec(s: SequencerState, n: int) -> (SequencerState, Seq<MidiEvent>) {
    let (idx, offset) = advance(s.samples_per_16th, s.step_idx as int, s.step_sample as int, n);
    (
        SequencerState { step_idx: idx as usize, step_sample: offset as u32, ..s },
        timeline_window(
            s.samples_per_16th,
            s.step_idx as int,
            s.step_sample as int,
            s.step_sample + n,
        ),
    )
}

pub struct TestSequencer {
    samples_per_16th: u32,
    step_idx: usize,
    step_sample: u32,
}

impl View for TestSequencer {
    type V = SequencerState;

    closed spec fn view(&self) -> SequencerState {
        SequencerState {
            samples_per_16th: self.samples_per_16th,
            step_idx: self.step_idx,
            step_sample: self.step_sample,
        }
    }
}

impl SequencerState {
    /// The invariant of every sequencer: the position lies inside the
    /// current step (at its start for a step of no length).
    pub open spec fn wf(self) -> bool {
        &&& self.step_idx < MELODY_LEN
        &&& self.samples_per_16th <= u32::MAX / 4
        &&& (self.step_sample == 0 || self.step_sample < step_samples(
            self.samples_per_16th,
            self.step_idx as int,
        ))
    }
}

proof fn lemma_gate_within_step(len: int)
    requires
        0 <= len,
    ensures
        0 <= gate_len(len) <= len,
        len > 0 ==> gate_len(len) < len,
{
    assert(0 <= len * 85 / 100 <= len) by (nonlinear_arith)
        requires
            0 <= len,
    ;
    assert(len > 0 ==> len * 85 / 100 < len) by (nonlinear_arith);
}

impl TestSequencer {
    #[verifier::type_invariant]
    spec fn inv(self) -> bool {
        self@.wf()
    }

    /// A sequencer at the start of the melody, for audio at `sample_rate` Hz.
    pub fn new(sample_rate: u32) -> (seq: Self)
        ensures
            seq@ == (SequencerState {
                samples_per_16th: samples_per_sixteenth(sample_rate) as u32,
                step_idx: 0,
                step_sample: 0,
            }),
    {
        let samples_per_16th = ((sample_rate as u64) * 60 / 480) as u32;
        Self { samples_per_16th, step_idx: 0, step_sample: 0 }
    }

    /// Samples elapsed inside the current step.
    pub fn samples_into_step(&self) -> (n: u32)
        ensures
            n == self@.step_sample,
    {
        self.step_sample
    }

    fn step_len(samples_per_16th: u32, step: Step) -> (len: u64)
        requires
            samples_per_16th <= u32::MAX / 4,
            step.len_16ths <= 4,
        ensures
            len == samples_per_16th * step.len_16ths,
            len <= u32::MAX,
    {
        assert(samples_per_16th * step.len_16ths <= (u32::MAX / 4) * 4) by (nonlinear_arith)
            requires
                samples_per_16th <= u32::MAX / 4,
                step.len_16ths <= 4,
        ;
        (samples_per_16th as u64) * (step.len_16ths as u64)
    }

    /// Advance the sequencer by `n_samples` (one audio block) and return
    /// every note-on / note-off of the melody that falls inside that window,
    /// in order, however many steps the block spans.
    pub fn tick(&mut self, n_samples: usize) -> (events: Vec<MidiEvent>)
        ensures
            final(self)@ == tick_spec(old(self)@, n_samples as int).0,
            events@ == tick_spec(old(self)@, n_samples as int).1,
    {
        proof {
            use_type_invariant(&*self);
        }
        let spp = self.samples_per_16th;
        let mut idx = self.step_idx;
        let mut offset: u64 = self.step_sample as u64;
        let mut remaining: u64 = n_samples as u64;
        let mut events: Vec<MidiEvent> = Vec::new();
        let ghost s0 = self@;
        loop
            invariant_except_break
                idx < MELODY_LEN,
                spp == s0.samples_per_16th,
                spp <= u32::MAX / 4,
                offset == 0 || offset < step_samples(spp, idx as int),
                events@ + timeline_window(spp, idx as int, offset as int, offset + remaining)
                    == timeline_window(
                    spp,
                    s0.step_idx as int,
                    s0.step_sample as int,
                    s0.step_sample + n_samples,
                ),
                advance(spp, idx as int, offset as int, remaining as int) == advance(
                    spp,
                    s0.step_idx as int,
                    s0.step_sample as int,
                    n_samples as int,
                ),
            ensures
                idx < MELODY_LEN,
                offset <= u32::MAX,
                offset == 0 || offset < step_samples(spp, idx as int),
                events@ == timeline_window(
                    spp,
                    s0.step_idx as int,
                    s0.step_sample as int,
                    s0.step_sample + n_samples,
                ),
                (idx as int, offset as int) == advance(
                    spp,
                    s0.step_idx as int,
                    s0.step_sample as int,
                    n_samples as int,
                ),
            decreases remaining,
        {
            let step = melody_step(idx);
            let len = Self::step_len(spp, step);
            let hold = len * GATE_NUM / GATE_DEN;
            proof {
                lemma_gate_within_step(len as int);
            }
            let ghost before = events@;
            let ghost win = timeline_window(spp, idx as int, offset as int, offset + remaining);
            // The note-on at the start of the step.
            if offset == 0 && remaining > 0 {
                events.push(MidiEvent::NoteOn { note: step.note, velocity: step.velocity });
            }
            // The note-off once the note has been held long enough.
            if hold >= offset && hold - offset < remaining {
                events.push(MidiEvent::NoteOff { note: step.note });
            }
            let ghost steps = step_events(spp, idx as int, offset as int, offset + remaining);
            assert(events@ =~= before + steps);
            if len == 0 {
                if remaining > 0 {
                    idx = (idx + 1) % MELODY_LEN;
                }
                offset = 0;
                proof {
                    assert(win == steps);
                    assert(events@ =~= before + win);
                }
                break;
            }
            let to_end = len - offset;
            if remaining >= to_end {
                remaining = remaining - to_end;
                idx = (idx + 1) % MELODY_LEN;
                offset = 0;
                proof {
                    assert(before + win =~= events@ + timeline_window(
                        spp,
                        idx as int,
                        0,
                        remaining as int,
                    ));
                }
            } else {
                offset = offset + remaining;
                proof {
                    assert(win == steps);
                    assert(events@ =~= before + win);
                }
                break;
            }
        }
        *self = TestSequencer { samples_per_16th: spp, step_idx: idx, step_sample: offset as u32 };
        events
    }
}

/// The note that sounds `offset` samples into step `idx`: from its note-on
/// up to and including the instant of its note-off.
pub open spec fn held_note(spp: u32, idx: int, offset: int) -> Option<u8> {
    if 0 < offset <= gate_len(step_samples(spp, idx)) {
        Some(melody_at(idx).note)
    } else {
        None
    }
}

/// The note sounding where the sequencer stands, if any.
pub open spec fn sounding_note(s: SequencerState) -> Option<u8> {
    held_note(s.samples_per_16th, s.step_idx as int, s.step_sample as int)
}

/// Replays `evs` starting with `sounding` held: every note-on must start
/// from silence and every note-off must end the note that sounds. The result
/// is the note held afterwards, or `None` when the stream breaks the pairing.
pub open spec fn pair_up(evs: Seq<MidiEvent>, sounding: Option<u8>) -> Option<Option<u8>>
    decreases evs.len(),
{
    if evs.len() == 0 {
        Some(sounding)
    } else {
        match evs[0] {
            MidiEvent::NoteOn { note, .. } => if sounding is None {
                pair_up(evs.drop_first(), Some(note))
            } else {
                None
            },
            MidiEvent::NoteOff { note } => if sounding == Some(note) {
                pair_up(evs.drop_first(), None)
            } else {
                None
            },
            _ => None,
        }
    }
}

/// Successive blocks of samples fed to [`TestSequencer::tick`].
pub open spec fn run_spec(s: SequencerState, blocks: Seq<usize>) -> (SequencerState, Seq<MidiEvent>)
    decreases blocks.len(),
{
    if blocks.len() == 0 {
        (s, Seq::empty())
    } else {
        let (s1, e1) = tick_spec(s, blocks[0] as int);
        let (s2, e2) = run_spec(s1, blocks.drop_first());
        (s2, e1 + e2)
    }
}

proof fn lemma_pair_up_append(a: Seq<MidiEvent>, b: Seq<MidiEvent>, p: Option<u8>)
    ensures
        pair_up(a + b, p) == (match pair_up(a, p) {
            Some(q) => pair_up(b, q),
            None => None,
        }),
    decreases a.len(),
{
    if a.len() == 0 {
        assert(a + b =~= b);
    } else {
        assert((a + b)[0] == a[0]);
        assert((a + b).drop_first() =~= a.drop_first() + b);
        match a[0] {
            MidiEvent::NoteOn { note, .. } => lemma_pair_up_append(a.drop_first(), b, Some(note)),
            MidiEvent::NoteOff { note } => lemma_pair_up_append(a.drop_first(), b, None),
            _ => {},
        }
    }
}

/// The window of one step pairs up with the note held where it starts.
proof fn lemma_step_events_pair(spp: u32, idx: int, from: int, to: int)
    requires
        0 <= from <= to,
        from == 0 || from < step_samples(spp, idx),
    ensures
        ({
            let len = step_samples(spp, idx);
            let held_after = if to <= len && len > 0 {
                held_note(spp, idx, to)
            } else {
                None
            };
            pair_up(step_events(spp, idx, from, to), held_note(spp, idx, from)) == Some(held_after)
        }),
{
    let len = step_samples(spp, idx);
    assert(0 <= len) by (nonlinear_arith)
        requires
            len == spp * melody_at(idx).len_16ths,
    ;
    lemma_gate_within_step(len);
    let evs = step_events(spp, idx, from, to);
    reveal_with_fuel(pair_up, 3);
    if evs.len() == 2 {
        assert(evs.drop_first().drop_first() =~= Seq::<MidiEvent>::empty());
    } else if evs.len() == 1 {
        assert(evs.drop_first() =~= Seq::<MidiEvent>::empty());
    }
}

proof fn lemma_window_pairs(spp: u32, idx: int, from: int, to: int)
    requires
        0 <= idx < MELODY_LEN,
        0 <= from <= to,
        from == 0 || from < step_samples(spp, idx),
    ensures
        ({
            let (i2, o2) = advance(spp, idx, from, to - from);
            pair_up(timeline_window(spp, idx, from, to), held_note(spp, idx, from)) == Some(
                held_note(spp, i2, o2),
            )
        }),
    decreases to,
{
    let len = step_samples(spp, idx);
    assert(0 <= len) by (nonlinear_arith)
        requires
            len == spp * melody_at(idx).len_16ths,
    ;
    lemma_gate_within_step(len);
    lemma_step_events_pair(spp, idx, from, to);
    let nxt = next_step(idx);
    if len > 0 && to > len {
        lemma_window_pairs(spp, nxt, 0, to - len);
        lemma_pair_up_append(
            step_events(spp, idx, from, to),
            timeline_window(spp, nxt, 0, to - len),
            held_note(spp, idx, from),
        );
    } else if len > 0 && to == len {
        let nlen = step_samples(spp, nxt);
        assert(nlen > 0) by (nonlinear_arith)
            requires
                nlen == spp * melody_at(nxt).len_16ths,
                melody_at(nxt).len_16ths >= 1,
                len == spp * melody_at(idx).len_16ths,
                len > 0,
        ;
        assert(advance(spp, nxt, 0, 0) == (nxt, 0int));
    }
}

/// Every tick emits events that pair up with the note held before it,
/// ending with the note held after it.
pub proof fn lemma_tick_pairs_notes(s: SequencerState, n: int)
    requires
        s.wf(),
        n >= 0,
    ensures
        pair_up(tick_spec(s, n).1, sounding_note(s)) == Some(sounding_note(tick_spec(s, n).0)),
{
    lemma_window_pairs(
        s.samples_per_16th,
        s.step_idx as int,
        s.step_sample as int,
        s.step_sample + n,
    );
    lemma_advance_wf(s.samples_per_16th, s.step_idx as int, s.step_sample as int, n);
}

/// Where a block leads is a well-formed position.
proof fn lemma_advance_wf(spp: u32, idx: int, offset: int, n: int)
    requires
        0 <= idx < MELODY_LEN,
        spp <= u32::MAX / 4,
        0 <= offset,
        offset == 0 || offset < step_samples(spp, idx),
        n >= 0,
    ensures
        ({
            let (i2, o2) = advance(spp, idx, offset, n);
            &&& 0 <= i2 < MELODY_LEN
            &&& 0 <= o2 <= u32::MAX
            &&& (o2 == 0 || o2 < step_samples(spp, i2))
        }),
    decreases n,
{
    let len = step_samples(spp, idx);
    assert(0 <= len <= u32::MAX) by (nonlinear_arith)
        requires
            len == spp * melody_at(idx).len_16ths,
            melody_at(idx).len_16ths <= 4,
            spp <= u32::MAX / 4,
    ;
    if len > 0 && offset < len && offset + n >= len {
        lemma_advance_wf(spp, next_step(idx), 0, offset + n - len);
    }
}

/// Ticking keeps the sequencer well formed.
pub proof fn lemma_tick_wf(s: SequencerState, n: int)
    requires
        s.wf(),
        n >= 0,
    ensures
        tick_spec(s, n).0.wf(),
{
    lemma_advance_wf(s.samples_per_16th, s.step_idx as int, s.step_sample as int, n);
}

/// The sequencer never leaves a note hanging or stacks notes: over any run
/// of blocks its note-ons and note-offs alternate, each note-off ending the
/// note that the previous note-on started, and the note held at the end is
/// the one the sequencer reports as sounding. From a fresh sequencer every
/// note-on is therefore paired with a note-off, except the one still held.
pub proof fn lemma_run_pairs_notes(s: SequencerState, blocks: Seq<usize>)
    requires
        s.wf(),
    ensures
        run_spec(s, blocks).0.wf(),
        pair_up(run_spec(s, blocks).1, sounding_note(s)) == Some(sounding_note(run_spec(s, blocks).0)),
    decreases blocks.len(),
{
    if blocks.len() > 0 {
        let (s1, e1) = tick_spec(s, blocks[0] as int);
        lemma_tick_pairs_notes(s, blocks[0] as int);
        lemma_tick_wf(s, blocks[0] as int);
        lemma_run_pairs_notes(s1, blocks.drop_first());
        let (s2, e2) = run_spec(s1, blocks.drop_first());
        lemma_pair_up_append(e1, e2, sounding_note(s));
    }
}

/// The note-ons in `evs`, in order, as (note, velocity).
pub open spec fn note_ons(evs: Seq<MidiEvent>) -> Seq<(u8, u8)>
    decreases evs.len(),
{
    if evs.len() == 0 {
        Seq::empty()
    } else {
        (match evs[0] {
            MidiEvent::NoteOn { note, velocity } => seq![(note, velocity)],
            _ => Seq::empty(),
        }) + note_ons(evs.drop_first())
    }
}

/// The step whose note-on comes next, `offset` samples into step `idx`
/// (one past the melody's end when the last step has already sounded).
pub open spec fn next_note_step(idx: int, offset: int) -> int {
    idx + if offset > 0 {
        1int
    } else {
        0int
    }
}

/// `k` notes of the looping melody, as (note, velocity), from step `start` on.
pub open spec fn melody_notes(start: int, k: nat) -> Seq<(u8, u8)> {
    Seq::new(k, |j: int| (melody_at((start + j) % 15).note, melody_at((start + j) % 15).velocity))
}

proof fn lemma_note_ons_append(a: Seq<MidiEvent>, b: Seq<MidiEvent>)
    ensures
        note_ons(a + b) == note_ons(a) + note_ons(b),
    decreases a.len(),
{
    if a.len() == 0 {
        assert(a + b =~= b);
        assert(note_ons(a) + note_ons(b) =~= note_ons(b));
    } else {
        assert((a + b)[0] == a[0]);
        assert((a + b).drop_first() =~= a.drop_first() + b);
        lemma_note_ons_append(a.drop_first(), b);
        let head: Seq<(u8, u8)> = match a[0] {
            MidiEvent::NoteOn { note, velocity } => seq![(note, velocity)],
            _ => Seq::empty(),
        };
        assert(head + (note_ons(a.drop_first()) + note_ons(b)) =~= (head + note_ons(
            a.drop_first(),
        )) + note_ons(b));
    }
}

proof fn lemma_mod_shift(x: int, y: int, m: int)
    requires
        x % 15 == y % 15,
    ensures
        (x + m) % 15 == (y + m) % 15,
{
    assert((x + m) % 15 == (y + m) % 15) by (nonlinear_arith)
        requires
            x % 15 == y % 15,
    ;
}

proof fn lemma_melody_notes_concat(a: int, b: int, k1: nat, k2: nat)
    requires
        (a + k1) % 15 == b % 15,
    ensures
        melody_notes(a, k1) + melody_notes(b, k2) == melody_notes(a, k1 + k2),
{
    let whole = melody_notes(a, k1) + melody_notes(b, k2);
    let expected = melody_notes(a, k1 + k2);
    assert forall|j: int| 0 <= j < k1 + k2 implies #[trigger] whole[j] == expected[j] by {
        if j >= k1 {
            lemma_mod_shift(a + k1, b, j - k1);
        }
    }
    assert(whole =~= expected);
}

proof fn lemma_step_note_ons(spp: u32, idx: int, from: int, to: int)
    requires
        0 <= idx < MELODY_LEN,
        0 <= from <= to,
    ensures
        note_ons(step_events(spp, idx, from, to)) == melody_notes(
            next_note_step(idx, from),
            note_ons(step_events(spp, idx, from, to)).len(),
        ),
        note_ons(step_events(spp, idx, from, to)).len() == (if from == 0 && to > 0 {
            1int
        } else {
            0int
        }),
{
    let steps = step_events(spp, idx, from, to);
    reveal_with_fuel(note_ons, 3);
    if steps.len() == 2 {
        assert(steps.drop_first().drop_first() =~= Seq::<MidiEvent>::empty());
    } else if steps.len() == 1 {
        assert(steps.drop_first() =~= Seq::<MidiEvent>::empty());
    }
    assert(note_ons(steps) =~= melody_notes(next_note_step(idx, from), note_ons(steps).len()));
}

#[verifier::spinoff_prover]
proof fn lemma_window_plays_melody(spp: u32, idx: int, from: int, to: int)
    requires
        0 <= idx < MELODY_LEN,
        0 <= from <= to,
        from == 0 || from < step_samples(spp, idx),
    ensures
        ({
            let evs = timeline_window(spp, idx, from, to);
            let (i2, o2) = advance(spp, idx, from, to - from);
            &&& note_ons(evs) == melody_notes(next_note_step(idx, from), note_ons(evs).len())
            &&& (next_note_step(idx, from) + note_ons(evs).len()) % 15 == next_note_step(i2, o2)
                % 15
        }),
    decreases to,
{
    let len = step_samples(spp, idx);
    assert(0 <= len) by (nonlinear_arith)
        requires
            len == spp * melody_at(idx).len_16ths,
    ;
    let steps = step_events(spp, idx, from, to);
    lemma_step_note_ons(spp, idx, from, to);
    let a = next_note_step(idx, from);
    let k1 = note_ons(steps).len();
    let nxt = next_step(idx);
    if len > 0 && to > len {
        lemma_window_plays_melody(spp, nxt, 0, to - len);
        let rest = timeline_window(spp, nxt, 0, to - len);
        lemma_note_ons_append(steps, rest);
        lemma_melody_notes_concat(a, nxt, k1, note_ons(rest).len());
    } else if len > 0 && to == len {
        assert(advance(spp, nxt, 0, 0) == (nxt, 0int)) by {
            let nlen = step_samples(spp, nxt);
            assert(nlen > 0) by (nonlinear_arith)
                requires
                    nlen == spp * melody_at(nxt).len_16ths,
                    melody_at(nxt).len_16ths >= 1,
                    len == spp * melody_at(idx).len_16ths,
                    len > 0,
            ;
        }
    }
}

/// The sequencer plays the melody in order, looping: over any run of
/// blocks, the note-ons carry the notes and velocities of consecutive steps
/// of the melody, starting from the step due next, wrapping from the last
/// step to the first, and the run ends due at the step that follows them.
pub proof fn lemma_run_plays_melody_in_order(s: SequencerState, blocks: Seq<usize>)
    requires
        s.wf(),
    ensures
        ({
            let (t, evs) = run_spec(s, blocks);
            let start = next_note_step(s.step_idx as int, s.step_sample as int);
            &&& note_ons(evs) == melody_notes(start, note_ons(evs).len())
            &&& (start + note_ons(evs).len()) % 15 == next_note_step(
                t.step_idx as int,
                t.step_sample as int,
            ) % 15
        }),
    decreases blocks.len(),
{
    if blocks.len() > 0 {
        let n = blocks[0] as int;
        let (s1, e1) = tick_spec(s, n);
        lemma_tick_wf(s, n);
        lemma_window_plays_melody(
            s.samples_per_16th,
            s.step_idx as int,
            s.step_sample as int,
            s.step_sample + n,
        );
        lemma_advance_wf(s.samples_per_16th, s.step_idx as int, s.step_sample as int, n);
        lemma_run_plays_melody_in_order(s1, blocks.drop_first());
        let (t, e2) = run_spec(s1, blocks.drop_first());
        lemma_note_ons_append(e1, e2);
        let a = next_note_step(s.step_idx as int, s.step_sample as int);
        let b = next_note_step(s1.step_idx as int, s1.step_sample as int);
        lemma_melody_notes_concat(a, b, note_ons(e1).len(), note_ons(e2).len());
    }
}

/// Sixteenth notes in the melody before step `i`.
pub open spec fn sixteenths_before(i: int) -> int
    decreases i,
{
    if i <= 0 {
        0
    } else {
        sixteenths_before(i - 1) + melody_at(i - 1).len_16ths
    }
}

/// One pass of the melody, in sixteenth notes.
pub open spec fn loop_sixteenths() -> int {
    sixteenths_before(MELODY_LEN as int)
}

/// Samples elapsed since the start of the current pass of the melody.
pub open spec fn elapsed(s: SequencerState) -> int {
    sixteenths_before(s.step_idx as int) * s.samples_per_16th + s.step_sample
}

proof fn lemma_loop_length()
    ensures
        loop_sixteenths() == 32,
{
    reveal_with_fuel(sixteenths_before, 16);
}

proof fn lemma_sixteenths_bounded(i: int)
    requires
        0 <= i <= 15,
    ensures
        0 <= sixteenths_before(i) <= loop_sixteenths(),
    decreases 15 - i,
{
    if i < 15 {
        assert(sixteenths_before(i + 1) == sixteenths_before(i) + melody_at(i).len_16ths);
        lemma_sixteenths_bounded(i + 1);
    }
    if i > 0 {
        lemma_sixteenths_nonneg(i);
    }
}

proof fn lemma_sixteenths_nonneg(i: int)
    ensures
        0 <= sixteenths_before(i),
    decreases i,
{
    if i > 0 {
        lemma_sixteenths_nonneg(i - 1);
    }
}

proof fn lemma_advance_keeps_tempo(spp: u32, idx: int, offset: int, n: int)
    requires
        spp > 0,
        0 <= idx < MELODY_LEN,
        0 <= offset < step_samples(spp, idx),
        n >= 0,
    ensures
        ({
            let (i2, o2) = advance(spp, idx, offset, n);
            sixteenths_before(i2) * spp + o2 == (sixteenths_before(idx) * spp + offset + n) % (
            loop_sixteenths() * spp)
        }),
    decreases n,
{
    lemma_loop_length();
    let len = step_samples(spp, idx);
    let l = melody_at(idx).len_16ths as int;
    let sb = sixteenths_before(idx);
    let sb1 = sixteenths_before(idx + 1);
    let big = loop_sixteenths() * spp;
    assert(sb1 == sb + l);
    lemma_sixteenths_bounded(idx + 1);
    lemma_sixteenths_bounded(idx);
    assert(sb1 * spp == sb * spp + len && sb1 * spp <= big && 0 <= sb * spp && big > 0)
        by (nonlinear_arith)
        requires
            sb1 == sb + l,
            len == spp * l,
            0 <= sb,
            sb1 <= loop_sixteenths(),
            big == loop_sixteenths() * spp,
            loop_sixteenths() == 32,
            spp > 0,
    ;
    let e = sb * spp + offset;
    if offset + n < len {
        vstd::arithmetic::div_mod::lemma_small_mod((e + n) as nat, big as nat);
    } else {
        let nxt = next_step(idx);
        let nlen = step_samples(spp, nxt);
        assert(nlen > 0) by (nonlinear_arith)
            requires
                nlen == spp * melody_at(nxt).len_16ths,
                melody_at(nxt).len_16ths >= 1,
                spp > 0,
        ;
        lemma_advance_keeps_tempo(spp, nxt, 0, offset + n - len);
        if idx == 14 {
            assert(sixteenths_before(0) == 0);
            assert(sb1 == loop_sixteenths());
            vstd::arithmetic::div_mod::lemma_mod_sub_multiples_vanish(e + n, big);
            assert(-big + (e + n) == offset + n - len);
        } else {
            assert(nxt == idx + 1);
        }
    }
}

/// The tempo stays exact: a block of `n` samples moves the position in the
/// pass of the melody (32 sixteenths) on by exactly `n` samples, modulo the
/// pass, however many steps or passes the block spans. Sample rates under
/// 8 Hz, whose steps have no length, are left out: their melody does not
/// unfold in time.
pub proof fn lemma_tick_keeps_tempo(s: SequencerState, n: int)
    requires
        s.wf(),
        s.samples_per_16th > 0,
        n >= 0,
    ensures
        elapsed(tick_spec(s, n).0) == (elapsed(s) + n) % (loop_sixteenths() * s.samples_per_16th),
        tick_spec(s, n).0.samples_per_16th == s.samples_per_16th,
        loop_sixteenths() == 32,
{
    lemma_loop_length();
    let spp = s.samples_per_16th;
    let idx = s.step_idx as int;
    let len = step_samples(spp, idx);
    assert(len > 0) by (nonlinear_arith)
        requires
            len == spp * melody_at(idx).len_16ths,
            melody_at(idx).len_16ths >= 1,
            spp > 0,
    ;
    lemma_advance_keeps_tempo(spp, idx, s.step_sample as int, n);
    lemma_advance_wf(spp, idx, s.step_sample as int, n);
}

/// Each note is held for 85/100 of its step: from the start of a step, a
/// block that stays within the step holds the step's note-on (its note and
/// velocity), and its note-off exactly when the block reaches past 85/100
/// of the step's length.
pub proof fn lemma_note_held_for_85_percent(spp: u32, idx: int, n: int)
    requires
        spp > 0,
        0 <= idx < MELODY_LEN,
        0 < n <= spp * melody_at(idx).len_16ths,
    ensures
        timeline_window(spp, idx, 0, n) == (if n > spp * melody_at(idx).len_16ths * 85 / 100 {
            seq![
                MidiEvent::NoteOn { note: melody_at(idx).note, velocity: melody_at(idx).velocity },
                MidiEvent::NoteOff { note: melody_at(idx).note },
            ]
        } else {
            seq![MidiEvent::NoteOn { note: melody_at(idx).note, velocity: melody_at(idx).velocity }]
        }),
{
    let st = melody_at(idx);
    let on = MidiEvent::NoteOn { note: st.note, velocity: st.velocity };
    let off = MidiEvent::NoteOff { note: st.note };
    assert(seq![on] + seq![off] =~= seq![on, off]);
    assert(seq![on] + Seq::<MidiEvent>::empty() =~= seq![on]);
}

} // verus!
