//! Minimal streaming MIDI parser: no allocation, running-status aware.
//!
//! Note on/off, control change and pitch bend are emitted. Everything else
//! (SysEx, MTC, program change, aftertouch, ...) is silently consumed so the
//! parser stays in sync without decoding what the synth ignores.
use vstd::prelude::*;

verus! {

/// A decoded channel message.
#[allow(inconsistent_fields)]
#[derive(Debug, Clone, Copy, PartialEq, Eq, Structural)]
pub enum MidiEvent {
    NoteOn { note: u8, velocity: u8 },
    NoteOff { note: u8 },
    ControlChange { controller: u8, value: u8 },
    /// Signed 14-bit bend: 0 is the wheel's centre, -8192 ..= 8191.
    PitchBend { value: i16 },
}

/// The abstract state of a [`MidiParser`].
pub struct ParserState {
    /// Running status: 0 when there is none.
    pub status: u8,
    /// First data byte of a two-byte message, valid while `have_data1`.
    pub data1: u8,
    pub have_data1: bool,
    /// Inside a System Exclusive dump.
    pub in_sysex: bool,
}

impl ParserState {
    pub open spec fn initial() -> ParserState {
        ParserState { status: 0, data1: 0, have_data1: false, in_sysex: false }
    }

    /// The running status is absent or a channel-voice status byte, and a
    /// pending first data byte is a data byte of a two-data-byte message.
    pub open spec fn wf(self) -> bool {
        &&& (self.status == 0 || (0x80 <= self.status && self.status < 0xF0))
        &&& self.have_data1 ==> (takes_two_data_bytes(self.status) && self.data1 < 0x80)
    }
}

/// System real-time bytes (clock, start, stop, ...).
pub open spec fn is_realtime(b: u8) -> bool {
    b >= 0xF8
}

/// Status bytes have their top bit set; data bytes do not.
pub open spec fn is_status_byte(b: u8) -> bool {
    b >= 0x80
}

/// The message kind of a status byte: its high nibble.
pub open spec fn kind(status: u8) -> u8 {
    status / 16
}

/// Note off, note on, control change and pitch bend carry two data bytes.
pub open spec fn takes_two_data_bytes(status: u8) -> bool {
    kind(status) == 0x8 || kind(status) == 0x9 || kind(status) == 0xB || kind(status) == 0xE
}

/// 14-bit pitch-bend value, centred on zero.
pub open spec fn bend_value(lsb: u8, msb: u8) -> int {
    msb * 128 + lsb - 8192
}

/// The event carried by a complete two-data-byte message.
pub open spec fn channel_event(status: u8, d1: u8, d2: u8) -> Option<MidiEvent> {
    if kind(status) == 0x9 {
        if d2 == 0 {
            Some(MidiEvent::NoteOff { note: d1 })
        } else {
            Some(MidiEvent::NoteOn { note: d1, velocity: d2 })
        }
    } else if kind(status) == 0x8 {
        Some(MidiEvent::NoteOff { note: d1 })
    } else if kind(status) == 0xB {
        Some(MidiEvent::ControlChange { controller: d1, value: d2 })
    } else if kind(status) == 0xE {
        Some(MidiEvent::PitchBend { value: bend_value(d1, d2) as i16 })
    } else {
        None
    }
}

/// One step of the parser: the state after `b`, and the event it completes.
pub open spec fn parse_byte(s: ParserState, b: u8) -> (ParserState, Option<MidiEvent>) {
    if is_realtime(b) {
        (s, None)
    } else if s.in_sysex {
        if b == 0xF7 {
            (ParserState { in_sysex: false, ..s }, None)
        } else {
            (s, None)
        }
    } else if is_status_byte(b) {
        if b == 0xF0 {
            (ParserState { in_sysex: true, ..s }, None)
        } else if b >= 0xF1 {
            // System common: clears the running status.
            (ParserState { status: 0, have_data1: false, ..s }, None)
        } else {
            (ParserState { status: b, have_data1: false, ..s }, None)
        }
    } else if s.status == 0 {
        (s, None)
    } else if takes_two_data_bytes(s.status) {
        if !s.have_data1 {
            (ParserState { data1: b, have_data1: true, ..s }, None)
        } else {
            (ParserState { have_data1: false, ..s }, channel_event(s.status, s.data1, b))
        }
    } else {
        (s, None)
    }
}

pub open spec fn opt_seq(e: Option<MidiEvent>) -> Seq<MidiEvent> {
    match e {
        Some(ev) => seq![ev],
        None => Seq::empty(),
    }
}

/// The parser run over a byte stream: final state and the events, in order.
pub open spec fn parse_bytes(s: ParserState, bytes: Seq<u8>) -> (ParserState, Seq<MidiEvent>)
    decreases bytes.len(),
{
    if bytes.len() == 0 {
        (s, Seq::empty())
    } else {
        let (s1, e) = parse_byte(s, bytes[0]);
        let (s2, es) = parse_bytes(s1, bytes.drop_first());
        (s2, opt_seq(e) + es)
    }
}

/// State for a running-status streaming parser.
pub struct MidiParser {
    status: u8,
    data1: u8,
    have_data1: bool,
    in_sysex: bool,
}

impl View for MidiParser {
    type V = ParserState;

    closed spec fn view(&self) -> ParserState {
        ParserState {
            status: self.status,
            data1: self.data1,
            have_data1: self.have_data1,
            in_sysex: self.in_sysex,
        }
    }
}

impl MidiParser {
    #[verifier::type_invariant]
    spec fn inv(self) -> bool {
        self@.wf()
    }

    pub fn new() -> (p: Self)
        ensures
            p@ == ParserState::initial(),
    {
        Self { status: 0, data1: 0, have_data1: false, in_sysex: false }
    }

    /// Feed one raw byte; returns `Some(event)` whenever a complete message
    /// is decoded.
    pub fn push(&mut self, byte: u8) -> (ev: Option<MidiEvent>)
        ensures
            old(self)@.wf(),
            (final(self)@, ev) == parse_byte(old(self)@, byte),
            final(self)@.wf(),
    {
        proof {
            use_type_invariant(&*self);
        }
        // Real-time messages (0xF8..=0xFF) can appear anywhere and don't disturb state.
        if byte >= 0xF8 {
            return None;
        }
        if self.in_sysex {
            if byte == 0xF7 {
                self.in_sysex = false;
            }
            return None;
        }
        assert((byte & 0x80 != 0) == (byte >= 0x80)) by (bit_vector);
        if byte & 0x80 != 0 {
            if byte == 0xF0 {
                self.in_sysex = true;
                return None;
            }
            // System common (non-sysex): reset running status.
            if byte >= 0xF1 && byte <= 0xF7 {
                self.have_data1 = false;
                self.status = 0;
                return None;
            }
            self.have_data1 = false;
            self.status = byte;
            return None;
        }
        // Data byte: needs a running status.
        if self.status == 0 {
            return None;
        }
        let status = self.status;
        assert(status & 0xF0 == (status / 16) * 16) by (bit_vector);
        let cmd = status & 0xF0;
        if cmd == 0x80 || cmd == 0x90 || cmd == 0xB0 || cmd == 0xE0 {
            if !self.have_data1 {
                self.data1 = byte;
                self.have_data1 = true;
                None
            } else {
                let d1 = self.data1;
                let d2 = byte;
                // Ready for the next running-status message.
                self.have_data1 = false;
                if cmd == 0x90 {
                    if d2 == 0 {
                        Some(MidiEvent::NoteOff { note: d1 })
                    } else {
                        Some(MidiEvent::NoteOn { note: d1, velocity: d2 })
                    }
                } else if cmd == 0x80 {
                    Some(MidiEvent::NoteOff { note: d1 })
                } else if cmd == 0xB0 {
                    Some(MidiEvent::ControlChange { controller: d1, value: d2 })
                } else {
                    let value: i16 = (d2 as i16) * 128 + (d1 as i16) - 8192;
                    Some(MidiEvent::PitchBend { value })
                }
            }
        } else {
            // Program change, channel pressure, aftertouch: ignored.
            None
        }
    }
}


impl Default for MidiParser {
    fn default() -> (p: Self)
        ensures
            p@ == ParserState::initial(),
    {
        Self::new()
    }
}

/// Running the parser over `a + b` is running it over `a`, then over `b`
/// from where `a` left it.
pub proof fn lemma_parse_bytes_append(s: ParserState, a: Seq<u8>, b: Seq<u8>)
    ensures
        parse_bytes(s, a + b) == ({
            let (s1, e1) = parse_bytes(s, a);
            let (s2, e2) = parse_bytes(s1, b);
            (s2, e1 + e2)
        }),
    decreases a.len(),
{
    if a.len() == 0 {
        assert(a + b =~= b);
    } else {
        let (s1, e) = parse_byte(s, a[0]);
        assert((a + b)[0] == a[0]);
        assert((a + b).drop_first() =~= a.drop_first() + b);
        lemma_parse_bytes_append(s1, a.drop_first(), b);
        let (t1, f1) = parse_bytes(s1, a.drop_first());
        let (t2, f2) = parse_bytes(t1, b);
        assert(opt_seq(e) + (f1 + f2) =~= (opt_seq(e) + f1) + f2);
    }
}

/// Real-time bytes (clock, start/stop, active sensing) may be interleaved
/// anywhere in a stream, even between the data bytes of a message, without
/// changing the parser's state or the events it emits.
pub proof fn lemma_realtime_transparent(s: ParserState, a: Seq<u8>, rt: u8, b: Seq<u8>)
    requires
        rt >= 0xF8,
    ensures
        parse_bytes(s, a + seq![rt] + b) == parse_bytes(s, a + b),
{
    lemma_parse_bytes_append(s, a, seq![rt] + b);
    lemma_parse_bytes_append(s, a, b);
    assert(a + seq![rt] + b =~= a + (seq![rt] + b));
    let (s1, e1) = parse_bytes(s, a);
    assert((seq![rt] + b)[0] == rt);
    assert((seq![rt] + b).drop_first() =~= b);
    assert(opt_seq(None) + parse_bytes(s1, b).1 =~= parse_bytes(s1, b).1);
}

/// Running status: once a note/CC/pitch-bend status is in force, every
/// further pair of data bytes is a complete message of that kind, and the
/// parser is left ready for the next pair under the same status.
pub proof fn lemma_running_status(s: ParserState, d1: u8, d2: u8)
    requires
        s.wf(),
        !s.in_sysex,
        !s.have_data1,
        s.status != 0,
        takes_two_data_bytes(s.status),
        d1 < 0x80,
        d2 < 0x80,
    ensures
        parse_bytes(s, seq![d1, d2]) == (
            ParserState { data1: d1, ..s },
            seq![channel_event(s.status, d1, d2)->0],
        ),
        channel_event(s.status, d1, d2) is Some,
{
    reveal_with_fuel(parse_bytes, 3);
    let s1 = parse_byte(s, d1).0;
    assert(seq![d1, d2].drop_first() =~= seq![d2]);
    assert(seq![d2].drop_first() =~= Seq::<u8>::empty());
    let (s2, e2) = parse_byte(s1, d2);
    assert(opt_seq(None) + (opt_seq(e2) + Seq::<MidiEvent>::empty()) =~= seq![e2->0]);
}

/// Data bytes sent as consecutive pairs.
pub open spec fn pair_bytes(pairs: Seq<(u8, u8)>) -> Seq<u8>
    decreases pairs.len(),
{
    if pairs.len() == 0 {
        Seq::empty()
    } else {
        seq![pairs[0].0, pairs[0].1] + pair_bytes(pairs.drop_first())
    }
}

/// Under a running status, any number of data-byte pairs yields one event
/// per pair, each of the kind the status names, and leaves the status in
/// force.
pub proof fn lemma_running_status_stream(s: ParserState, pairs: Seq<(u8, u8)>)
    requires
        s.wf(),
        !s.in_sysex,
        !s.have_data1,
        s.status != 0,
        takes_two_data_bytes(s.status),
        forall|i: int| 0 <= i < pairs.len() ==> pairs[i].0 < 0x80 && pairs[i].1 < 0x80,
    ensures
        parse_bytes(s, pair_bytes(pairs)).1 == pairs.map_values(
            |p: (u8, u8)| channel_event(s.status, p.0, p.1)->0,
        ),
        parse_bytes(s, pair_bytes(pairs)).0.status == s.status,
        !parse_bytes(s, pair_bytes(pairs)).0.have_data1,
        !parse_bytes(s, pair_bytes(pairs)).0.in_sysex,
        parse_bytes(s, pair_bytes(pairs)).0.wf(),
    decreases pairs.len(),
{
    let f = |p: (u8, u8)| channel_event(s.status, p.0, p.1)->0;
    if pairs.len() == 0 {
        assert(pairs.map_values(f) =~= Seq::<MidiEvent>::empty());
    } else {
        let (d1, d2) = pairs[0];
        let rest = pairs.drop_first();
        assert forall|i: int| 0 <= i < rest.len() implies rest[i].0 < 0x80 && rest[i].1 < 0x80 by {
            assert(rest[i] == pairs[i + 1]);
        }
        lemma_running_status(s, d1, d2);
        let s1 = ParserState { data1: d1, ..s };
        lemma_running_status_stream(s1, rest);
        lemma_parse_bytes_append(s, seq![d1, d2], pair_bytes(rest));
        assert(pairs.map_values(f) =~= seq![f(pairs[0])] + rest.map_values(f));
    }
}

/// A System Exclusive dump, from 0xF0 to the closing 0xF7, is swallowed
/// whole: no events, and the parser resumes exactly where it was.
pub proof fn lemma_sysex_swallowed(s: ParserState, payload: Seq<u8>)
    requires
        !s.in_sysex,
        forall|i: int| 0 <= i < payload.len() ==> payload[i] != 0xF7,
    ensures
        parse_bytes(s, seq![0xF0u8] + payload + seq![0xF7u8]) == (s, Seq::<MidiEvent>::empty()),
{
    let inside = ParserState { in_sysex: true, ..s };
    lemma_parse_bytes_append(s, seq![0xF0u8], payload + seq![0xF7u8]);
    assert(seq![0xF0u8] + payload + seq![0xF7u8] =~= seq![0xF0u8] + (payload + seq![0xF7u8]));
    reveal_with_fuel(parse_bytes, 2);
    assert(seq![0xF0u8].drop_first() =~= Seq::<u8>::empty());
    lemma_parse_bytes_append(inside, payload, seq![0xF7u8]);
    lemma_sysex_payload_ignored(inside, payload);
    assert(seq![0xF7u8].drop_first() =~= Seq::<u8>::empty());
    assert(ParserState { in_sysex: false, ..inside } == s);
    assert(Seq::<MidiEvent>::empty() + (Seq::<MidiEvent>::empty() + (Seq::<MidiEvent>::empty()
        + Seq::<MidiEvent>::empty())) =~= Seq::<MidiEvent>::empty());
}

proof fn lemma_sysex_payload_ignored(s: ParserState, payload: Seq<u8>)
    requires
        s.in_sysex,
        forall|i: int| 0 <= i < payload.len() ==> payload[i] != 0xF7,
    ensures
        parse_bytes(s, payload) == (s, Seq::<MidiEvent>::empty()),
    decreases payload.len(),
{
    if payload.len() > 0 {
        let rest = payload.drop_first();
        assert forall|i: int| 0 <= i < rest.len() implies rest[i] != 0xF7 by {
            assert(rest[i] == payload[i + 1]);
        }
        lemma_sysex_payload_ignored(s, rest);
        assert(Seq::<MidiEvent>::empty() + Seq::<MidiEvent>::empty() =~= Seq::<MidiEvent>::empty());
    }
}

/// A note-on with velocity 0 is a note-off, on every channel.
pub proof fn lemma_zero_velocity_is_note_off(channel: u8, note: u8)
    requires
        channel < 16,
        note < 0x80,
    ensures
        parse_bytes(ParserState::initial(), seq![(0x90 + channel) as u8, note, 0u8]).1
            == seq![MidiEvent::NoteOff { note }],
{
    let st = (0x90 + channel) as u8;
    let s1 = parse_byte(ParserState::initial(), st).0;
    assert(s1.status == st && !s1.have_data1 && !s1.in_sysex);
    assert(kind(st) == 0x9);
    lemma_running_status(s1, note, 0u8);
    lemma_parse_bytes_append(ParserState::initial(), seq![st], seq![note, 0u8]);
    assert(seq![st] + seq![note, 0u8] =~= seq![st, note, 0u8]);
    reveal_with_fuel(parse_bytes, 2);
    assert(seq![st].drop_first() =~= Seq::<u8>::empty());
    assert(Seq::<MidiEvent>::empty() + Seq::<MidiEvent>::empty() + seq![MidiEvent::NoteOff { note }]
        =~= seq![MidiEvent::NoteOff { note }]);
}

/// Data bytes under a status the synth ignores (aftertouch, program change,
/// channel pressure) are consumed without any effect.
pub proof fn lemma_ignored_messages(s: ParserState, b: u8)
    requires
        !s.in_sysex,
        s.status != 0,
        !takes_two_data_bytes(s.status),
        !is_status_byte(b),
    ensures
        parse_byte(s, b) == (s, None::<MidiEvent>),
{
}

/// The parser's state stays well formed whatever bytes arrive.
pub proof fn lemma_parse_bytes_wf(s: ParserState, bytes: Seq<u8>)
    requires
        s.wf(),
    ensures
        parse_bytes(s, bytes).0.wf(),
    decreases bytes.len(),
{
    if bytes.len() > 0 {
        lemma_parse_byte_wf(s, bytes[0]);
        lemma_parse_bytes_wf(parse_byte(s, bytes[0]).0, bytes.drop_first());
    }
}

proof fn lemma_parse_byte_wf(s: ParserState, b: u8)
    requires
        s.wf(),
    ensures
        parse_byte(s, b).0.wf(),
{
}

/// Pitch bend spans -8192 ..= 8191, and 0 is exactly the centre position
/// (LSB 0x00, MSB 0x40).
pub proof fn lemma_pitch_bend_range(s: ParserState, b: u8, value: i16)
    requires
        s.wf(),
        parse_byte(s, b).1 == Some(MidiEvent::PitchBend { value }),
    ensures
        -8192 <= value <= 8191,
        value == 0 <==> (s.data1 == 0 && b == 0x40),
{
}

proof fn lemma_two_bytes(s: ParserState, a: u8, b: u8)
    ensures
        parse_bytes(s, seq![a, b]) == ({
            let (s1, e1) = parse_byte(s, a);
            let (s2, e2) = parse_byte(s1, b);
            (s2, opt_seq(e1) + opt_seq(e2))
        }),
{
    reveal_with_fuel(parse_bytes, 3);
    assert(seq![a, b].drop_first() =~= seq![b]);
    assert(seq![b].drop_first() =~= Seq::<u8>::empty());
    let (s1, e1) = parse_byte(s, a);
    let (s2, e2) = parse_byte(s1, b);
    assert(opt_seq(e1) + (opt_seq(e2) + Seq::<MidiEvent>::empty()) =~= opt_seq(e1) + opt_seq(e2));
}

proof fn lemma_three_bytes(s: ParserState, a: u8, b: u8, c: u8)
    ensures
        parse_bytes(s, seq![a, b, c]) == ({
            let (s1, e1) = parse_byte(s, a);
            let (s2, e2) = parse_byte(s1, b);
            let (s3, e3) = parse_byte(s2, c);
            (s3, opt_seq(e1) + opt_seq(e2) + opt_seq(e3))
        }),
{
    let (s1, e1) = parse_byte(s, a);
    lemma_two_bytes(s1, b, c);
    assert(seq![a, b, c].drop_first() =~= seq![b, c]);
    let (s2, e2) = parse_byte(s1, b);
    let (s3, e3) = parse_byte(s2, c);
    assert(opt_seq(e1) + (opt_seq(e2) + opt_seq(e3)) =~= opt_seq(e1) + opt_seq(e2) + opt_seq(e3));
}

/// What each channel message decodes to, on every one of the 16 channels
/// (the channel nibble never changes the kind), from any point of a stream
/// outside a SysEx dump: note-off (0x8n) and note-on (0x9n, velocity 0
/// meaning note-off) give the note and velocity, control change (0xBn) the
/// controller and its value, pitch bend (0xEn) the 14-bit value
/// `msb * 128 + lsb - 8192`; aftertouch (0xAn), program change (0xCn) and
/// channel pressure (0xDn) give nothing. The status then stays in force.
pub proof fn lemma_channel_messages(s: ParserState, channel: u8, d1: u8, d2: u8)
    requires
        !s.in_sysex,
        channel < 16,
        d1 < 0x80,
        d2 < 0x80,
    ensures
        parse_bytes(s, seq![(0x80 + channel) as u8, d1, d2]).1 == seq![
            MidiEvent::NoteOff { note: d1 },
        ],
        parse_bytes(s, seq![(0x90 + channel) as u8, d1, d2]).1 == (if d2 == 0 {
            seq![MidiEvent::NoteOff { note: d1 }]
        } else {
            seq![MidiEvent::NoteOn { note: d1, velocity: d2 }]
        }),
        parse_bytes(s, seq![(0xB0 + channel) as u8, d1, d2]).1 == seq![
            MidiEvent::ControlChange { controller: d1, value: d2 },
        ],
        parse_bytes(s, seq![(0xE0 + channel) as u8, d1, d2]).1 == seq![
            MidiEvent::PitchBend { value: (d2 * 128 + d1 - 8192) as i16 },
        ],
        parse_bytes(s, seq![(0xA0 + channel) as u8, d1, d2]).1 == Seq::<MidiEvent>::empty(),
        parse_bytes(s, seq![(0xC0 + channel) as u8, d1]).1 == Seq::<MidiEvent>::empty(),
        parse_bytes(s, seq![(0xD0 + channel) as u8, d1]).1 == Seq::<MidiEvent>::empty(),
        parse_bytes(s, seq![(0x90 + channel) as u8, d1, d2]).0.status == 0x90 + channel,
        !parse_bytes(s, seq![(0x90 + channel) as u8, d1, d2]).0.have_data1,
        parse_bytes(s, seq![(0xB0 + channel) as u8, d1, d2]).0.status == 0xB0 + channel,
        !parse_bytes(s, seq![(0xB0 + channel) as u8, d1, d2]).0.have_data1,
{
    lemma_three_bytes(s, (0x80 + channel) as u8, d1, d2);
    lemma_three_bytes(s, (0x90 + channel) as u8, d1, d2);
    lemma_three_bytes(s, (0xB0 + channel) as u8, d1, d2);
    lemma_three_bytes(s, (0xE0 + channel) as u8, d1, d2);
    lemma_three_bytes(s, (0xA0 + channel) as u8, d1, d2);
    lemma_two_bytes(s, (0xC0 + channel) as u8, d1);
    lemma_two_bytes(s, (0xD0 + channel) as u8, d1);
    assert(Seq::<MidiEvent>::empty() + Seq::<MidiEvent>::empty() =~= Seq::<MidiEvent>::empty());
    assert(Seq::<MidiEvent>::empty() + Seq::<MidiEvent>::empty() + Seq::<MidiEvent>::empty()
        =~= Seq::<MidiEvent>::empty());
    assert(forall|e: MidiEvent|
        Seq::<MidiEvent>::empty() + Seq::<MidiEvent>::empty() + seq![e] =~= seq![e]);
}

/// Under a running status every further pair of data bytes decodes by the
/// status's kind alone, whatever its channel: note-off, note-on (velocity 0
/// meaning note-off), control change and pitch bend.
pub proof fn lemma_running_status_decodes(s: ParserState, channel: u8, d1: u8, d2: u8)
    requires
        !s.in_sysex,
        !s.have_data1,
        channel < 16,
        d1 < 0x80,
        d2 < 0x80,
    ensures
        s.status == 0x80 + channel ==> parse_bytes(s, seq![d1, d2]).1 == seq![
            MidiEvent::NoteOff { note: d1 },
        ],
        s.status == 0x90 + channel ==> parse_bytes(s, seq![d1, d2]).1 == (if d2 == 0 {
            seq![MidiEvent::NoteOff { note: d1 }]
        } else {
            seq![MidiEvent::NoteOn { note: d1, velocity: d2 }]
        }),
        s.status == 0xB0 + channel ==> parse_bytes(s, seq![d1, d2]).1 == seq![
            MidiEvent::ControlChange { controller: d1, value: d2 },
        ],
        s.status == 0xE0 + channel ==> parse_bytes(s, seq![d1, d2]).1 == seq![
            MidiEvent::PitchBend { value: (d2 * 128 + d1 - 8192) as i16 },
        ],
        parse_bytes(s, seq![d1, d2]).0.status == s.status,
        !parse_bytes(s, seq![d1, d2]).0.have_data1,
{
    lemma_two_bytes(s, d1, d2);
    assert(forall|e: MidiEvent| Seq::<MidiEvent>::empty() + seq![e] =~= seq![e]);
}

} // verus!
