//! The synthesizer: the fixed pool of 128 voices (slot index == pitch), the
//! event router that decodes and dispatches performance messages, and the
//! per-frame renderer that reports every sounding voice's oscillator inputs.

use vstd::prelude::*;
use crate::envelope::{EnvelopeStage, spec_amplitude};
use crate::freq::{frequency_micro, spec_frequency_micro};
use crate::voice::{
    Note, note_wf, is_idle, is_sounding, spec_note_on, spec_released, spec_activate, spec_tick,
};

verus! {

/// Number of voices: one per representable pitch.
pub const VOICES: u64 = 128;

/// A 3-byte performance message, tagged with the frame offset within the
/// current block at which it takes effect.
#[derive(Clone, Copy, Debug)]
pub struct MidiEvent {
    /// Status byte; the high nibble selects the message kind.
    pub status: u8,
    /// First data byte: the pitch.
    pub data1: u8,
    /// Second data byte: the velocity of a note-on.
    pub data2: u8,
    /// Frame offset within the current block.
    pub frame_offset: u32,
}

/// What one sounding voice feeds the oscillator for one output frame:
/// the caller turns this into `master_gain * amplitude * sin(2 * pi *
/// frequency * time / sample_rate)` and sums the contributions of a frame.
#[derive(Clone, Copy, Debug, PartialEq, Eq, Structural)]
pub struct Contribution {
    /// Pitch of the voice, equal to its slot index.
    pub pitch: u8,
    /// The voice's fundamental frequency in microhertz.
    pub frequency_micro: u64,
    /// Samples elapsed since the voice's sounding episode began.
    pub time: u64,
    /// Envelope amplitude for this sample, in `AMP_SCALE` units.
    pub amplitude: u64,
}

/// A voice's state after one whole frame: the scheduled-start check, then,
/// if the voice sounds, the per-sample advancement. Idle and still-pending
/// voices are left untouched.
pub open spec fn spec_frame_step(n: Note, frame: u32) -> Note {
    let a = spec_activate(n, frame);
    if is_sounding(a) {
        spec_tick(a)
    } else {
        a
    }
}

/// What a voice contributes to a frame, if anything: its oscillator inputs
/// after the scheduled-start check. Idle and still-pending voices are silent.
pub open spec fn spec_voice_output(n: Note, pitch: u8, frame: u32) -> Option<Contribution> {
    let a = spec_activate(n, frame);
    if is_sounding(a) {
        Some(Contribution {
            pitch,
            frequency_micro: a.frequency_micro,
            time: a.time,
            amplitude: spec_amplitude(a.envelope_stage) as u64,
        })
    } else {
        None
    }
}

/// The contributions of the voices at slots `0..n` for one frame, in slot order.
pub open spec fn outputs_upto(notes: Seq<Note>, frame: u32, n: int) -> Seq<Contribution>
    decreases n,
{
    if n <= 0 {
        Seq::empty()
    } else {
        match spec_voice_output(notes[n - 1], (n - 1) as u8, frame) {
            Some(c) => outputs_upto(notes, frame, n - 1).push(c),
            None => outputs_upto(notes, frame, n - 1),
        }
    }
}

/// The synthesizer state.
pub struct Synthesizer {
    /// Frames per second, fixed at construction.
    pub sample_rate: u64,
    /// One voice per pitch; the slot index is the pitch.
    pub notes: Vec<Note>,
}

impl Synthesizer {
    /// Well-formed: exactly one well-formed voice per pitch.
    pub open spec fn wf(&self) -> bool {
        &&& self.notes@.len() == VOICES
        &&& forall|p: int| 0 <= p < VOICES ==> note_wf(self.notes@[p])
    }

    /// A new synthesizer: every voice silent, tuned from the frequency table.
    pub fn new(sample_rate: u64) -> (s: Synthesizer)
        requires
            sample_rate >= 1,
        ensures
            s.wf(),
            s.sample_rate == sample_rate,
            forall|p: int| 0 <= p < VOICES ==> s.notes@[p] == (Note {
                frequency_micro: spec_frequency_micro(p) as u64,
                velocity: 0,
                time: 0,
                envelope_stage: EnvelopeStage::Off,
                next_start_frame: None,
            }),
    {
        let mut notes: Vec<Note> = Vec::new();
        let mut p: usize = 0;
        while p < 128
            invariant
                p <= 128,
                notes@.len() == p,
                forall|q: int| 0 <= q < p ==> notes@[q] == (Note {
                    frequency_micro: spec_frequency_micro(q) as u64,
                    velocity: 0,
                    time: 0,
                    envelope_stage: EnvelopeStage::Off,
                    next_start_frame: None,
                }),
            decreases 128 - p,
        {
            notes.push(Note::new(frequency_micro(p as u8)));
            p += 1;
        }
        Synthesizer { sample_rate, notes }
    }

    /// Runtime check that the state is well formed and that every phase
    /// counter can still advance: everything `render_frame` relies on.
    /// Callers outside the verified world can test this before rendering.
    pub fn renderable(&self) -> (b: bool)
        ensures
            b == (self.wf() && forall|p: int| 0 <= p < VOICES
                ==> self.notes@[p].time < u64::MAX),
    {
        if self.notes.len() != 128 {
            return false;
        }
        let mut p: usize = 0;
        while p < 128
            invariant
                p <= 128,
                self.notes@.len() == VOICES,
                forall|q: int| 0 <= q < p
                    ==> note_wf(#[trigger] self.notes@[q]) && self.notes@[q].time < u64::MAX,
            decreases 128 - p,
        {
            let note = self.notes[p];
            if !note.well_formed() || !(note.time < u64::MAX) {
                return false;
            }
            p += 1;
        }
        true
    }

    /// Note-on: record the velocity and schedule the voice to start at the
    /// given frame offset, overwriting any earlier pending start for the pitch.
    pub fn note_on(&mut self, pitch: u8, velocity: u8, start_frame: u32)
        requires
            old(self).wf(),
            pitch < 128,
            velocity < 128,
        ensures
            final(self).wf(),
            final(self).sample_rate == old(self).sample_rate,
            final(self).notes@ == old(self).notes@.update(
                pitch as int,
                spec_note_on(old(self).notes@[pitch as int], velocity, start_frame),
            ),
    {
        let mut note = self.notes[pitch as usize];
        note.velocity = velocity;
        note.next_start_frame = Some(start_frame);
        self.notes.set(pitch as usize, note);
    }

    /// Note-off: force the voice into an immediate release that starts from
    /// the amplitude it held at the instant of the call.
    pub fn note_off(&mut self, pitch: u8)
        requires
            old(self).wf(),
            pitch < 128,
        ensures
            final(self).wf(),
            final(self).sample_rate == old(self).sample_rate,
            final(self).notes@ == old(self).notes@.update(
                pitch as int,
                spec_released(old(self).notes@[pitch as int]),
            ),
    {
        let mut note = self.notes[pitch as usize];
        note.release();
        self.notes.set(pitch as usize, note);
    }

    /// Decode one performance message and dispatch it. High nibble `0b1001`
    /// is note-on, `0b1000` is note-off; every other kind is ignored, as is
    /// any message whose data bytes leave the 7-bit range.
    pub fn handle_midi(&mut self, event: MidiEvent)
        requires
            old(self).wf(),
        ensures
            final(self).wf(),
            final(self).sample_rate == old(self).sample_rate,
            (event.status >> 4 == 0b1001 && event.data1 < 128 && event.data2 < 128)
                ==> final(self).notes@ == old(self).notes@.update(
                    event.data1 as int,
                    spec_note_on(
                        old(self).notes@[event.data1 as int],
                        event.data2,
                        event.frame_offset,
                    ),
                ),
            (event.status >> 4 == 0b1000 && event.data1 < 128)
                ==> final(self).notes@ == old(self).notes@.update(
                    event.data1 as int,
                    spec_released(old(self).notes@[event.data1 as int]),
                ),
            !(event.status >> 4 == 0b1001 && event.data1 < 128 && event.data2 < 128)
                && !(event.status >> 4 == 0b1000 && event.data1 < 128)
                ==> *final(self) == *old(self),
    {
        let kind = event.status >> 4;
        if kind == 0b1001 && event.data1 < 128 && event.data2 < 128 {
            self.note_on(event.data1, event.data2, event.frame_offset);
        } else if kind == 0b1000 && event.data1 < 128 {
            self.note_off(event.data1);
        }
    }

    /// Render the bookkeeping of one output frame: every sounding voice
    /// reports its oscillator inputs, in slot order, and then advances by one
    /// sample; a voice whose scheduled start falls on this frame is activated
    /// first. Idle and still-pending voices report nothing and are untouched.
    pub fn render_frame(&mut self, frame: u32) -> (out: Vec<Contribution>)
        requires
            old(self).wf(),
            forall|p: int| 0 <= p < VOICES ==> old(self).notes@[p].time < u64::MAX,
        ensures
            final(self).wf(),
            final(self).sample_rate == old(self).sample_rate,
            forall|p: int| 0 <= p < VOICES
                ==> final(self).notes@[p] == spec_frame_step(old(self).notes@[p], frame),
            out@ == outputs_upto(old(self).notes@, frame, VOICES as int),
            forall|p: int| 0 <= p < VOICES && is_idle(old(self).notes@[p])
                ==> final(self).notes@[p] == old(self).notes@[p],
    {
        let mut out: Vec<Contribution> = Vec::new();
        let mut p: usize = 0;
        while p < 128
            invariant
                self.wf(),
                self.sample_rate == old(self).sample_rate,
                p <= 128,
                self.notes@.len() == VOICES,
                forall|q: int| 0 <= q < VOICES ==> old(self).notes@[q].time < u64::MAX,
                forall|q: int| 0 <= q < p
                    ==> self.notes@[q] == spec_frame_step(old(self).notes@[q], frame),
                forall|q: int| p <= q < VOICES ==> self.notes@[q] == old(self).notes@[q],
                out@ == outputs_upto(old(self).notes@, frame, p as int),
            decreases 128 - p,
        {
            let mut note = self.notes[p];
            note.activate_if_due(frame);
            if note.next_start_frame.is_none() && !(note.envelope_stage == EnvelopeStage::Off) {
                let amplitude = note.amplitude();
                out.push(Contribution {
                    pitch: p as u8,
                    frequency_micro: note.frequency_micro,
                    time: note.time,
                    amplitude,
                });
                note.increment_time();
            }
            self.notes.set(p, note);
            p += 1;
        }
        out
    }
}

/// An idle voice is silent and inert: it contributes nothing to any frame,
/// and rendering a frame leaves all of its state, the phase counter included,
/// exactly as it was.
pub proof fn lemma_idle_voice_silent(n: Note, pitch: u8, frame: u32)
    requires
        is_idle(n),
    ensures
        spec_voice_output(n, pitch, frame) is None,
        spec_frame_step(n, frame) == n,
{
}

/// For a sounding voice the scheduled-start check is a no-op: rendering a
/// frame advances it by exactly one per-sample step, whatever the frame.
pub proof fn lemma_sounding_frame_step(n: Note, frame: u32)
    requires
        is_sounding(n),
    ensures
        spec_frame_step(n, frame) == spec_tick(n),
{
}

/// A prefix of idle voices contributes nothing.
proof fn lemma_outputs_idle_empty(notes: Seq<Note>, frame: u32, n: int)
    requires
        0 <= n,
        forall|q: int| 0 <= q < n ==> is_idle(#[trigger] notes[q]),
    ensures
        outputs_upto(notes, frame, n) == Seq::<Contribution>::empty(),
    decreases n,
{
    if n > 0 {
        lemma_outputs_idle_empty(notes, frame, n - 1);
    }
}

/// The inductive step behind superposition, over the voice prefix `0..n`.
proof fn lemma_superposition_prefix(
    a: Seq<Note>,
    b: Seq<Note>,
    c: Seq<Note>,
    frame: u32,
    p1: int,
    p2: int,
    n: int,
)
    requires
        a.len() == VOICES,
        b.len() == VOICES,
        c.len() == VOICES,
        0 <= p1 < p2 < VOICES,
        c[p1] == a[p1],
        c[p2] == b[p2],
        forall|q: int| 0 <= q < VOICES && q != p1 ==> is_idle(#[trigger] a[q]),
        forall|q: int| 0 <= q < VOICES && q != p2 ==> is_idle(#[trigger] b[q]),
        forall|q: int| 0 <= q < VOICES && q != p1 && q != p2 ==> is_idle(#[trigger] c[q]),
        0 <= n <= VOICES,
    ensures
        outputs_upto(c, frame, n) == outputs_upto(a, frame, n) + outputs_upto(b, frame, n),
    decreases n,
{
    if n == 0 {
        assert(outputs_upto(c, frame, 0)
            =~= outputs_upto(a, frame, 0) + outputs_upto(b, frame, 0));
    } else {
        let q = n - 1;
        lemma_superposition_prefix(a, b, c, frame, p1, p2, q);
        let oa = outputs_upto(a, frame, q);
        let ob = outputs_upto(b, frame, q);
        if q == p1 {
            lemma_outputs_idle_empty(b, frame, n);
            lemma_outputs_idle_empty(b, frame, q);
            assert(oa + Seq::<Contribution>::empty() =~= oa);
            match spec_voice_output(c[q], q as u8, frame) {
                Some(x) => {
                    assert(oa.push(x) + Seq::<Contribution>::empty() =~= oa.push(x));
                },
                None => {},
            }
        } else if q == p2 {
            match spec_voice_output(c[q], q as u8, frame) {
                Some(x) => {
                    assert((oa + ob).push(x) =~= oa + ob.push(x));
                },
                None => {},
            }
        }
    }
}

/// Superposition: when every voice but `p1` is idle in `a`, every voice but
/// `p2` is idle in `b`, and the combined state `c` holds `a`'s voice at `p1`
/// and `b`'s voice at `p2` with all others idle, a frame's contributions in
/// `c` are exactly the contributions of `a` followed by those of `b`. Any
/// linear mix of a frame is therefore the sample-wise sum of the two
/// independently computed single-voice signals; and since rendering steps
/// each voice by `spec_frame_step` alone and leaves idle voices idle, the
/// three states satisfy the same relation again after every frame.
pub proof fn lemma_superposition(
    a: Seq<Note>,
    b: Seq<Note>,
    c: Seq<Note>,
    frame: u32,
    p1: int,
    p2: int,
)
    requires
        a.len() == VOICES,
        b.len() == VOICES,
        c.len() == VOICES,
        0 <= p1 < p2 < VOICES,
        c[p1] == a[p1],
        c[p2] == b[p2],
        forall|q: int| 0 <= q < VOICES && q != p1 ==> is_idle(#[trigger] a[q]),
        forall|q: int| 0 <= q < VOICES && q != p2 ==> is_idle(#[trigger] b[q]),
        forall|q: int| 0 <= q < VOICES && q != p1 && q != p2 ==> is_idle(#[trigger] c[q]),
    ensures
        outputs_upto(c, frame, VOICES as int) == outputs_upto(a, frame, VOICES as int)
            + outputs_upto(b, frame, VOICES as int),
        spec_frame_step(c[p1], frame) == spec_frame_step(a[p1], frame),
        spec_frame_step(c[p2], frame) == spec_frame_step(b[p2], frame),
        forall|q: int| 0 <= q < VOICES && q != p1 && q != p2
            ==> spec_frame_step(#[trigger] c[q], frame) == c[q],
{
    lemma_superposition_prefix(a, b, c, frame, p1, p2, VOICES as int);
    assert forall|q: int| 0 <= q < VOICES && q != p1 && q != p2
        implies spec_frame_step(#[trigger] c[q], frame) == c[q] by {
        lemma_idle_voice_silent(c[q], q as u8, frame);
    }
}

/// Two simultaneous note-ons on different pitches superpose: starting from a
/// state in which every voice is idle, scheduling both notes and rendering a
/// frame yields exactly the contributions of the state with only the lower
/// pitch scheduled followed by those of the state with only the higher pitch
/// scheduled, so any linear mix of the frame is the sample-wise sum of the
/// two independently computed single-voice signals.
pub proof fn lemma_two_note_ons_superpose(
    notes0: Seq<Note>,
    frame: u32,
    p1: int,
    v1: u8,
    t1: u32,
    p2: int,
    v2: u8,
    t2: u32,
)
    requires
        notes0.len() == VOICES,
        forall|q: int| 0 <= q < VOICES ==> is_idle(#[trigger] notes0[q]),
        0 <= p1 < p2 < VOICES,
    ensures
        outputs_upto(
            notes0.update(p1, spec_note_on(notes0[p1], v1, t1)).update(
                p2,
                spec_note_on(notes0[p2], v2, t2),
            ),
            frame,
            VOICES as int,
        ) == outputs_upto(
            notes0.update(p1, spec_note_on(notes0[p1], v1, t1)),
            frame,
            VOICES as int,
        ) + outputs_upto(
            notes0.update(p2, spec_note_on(notes0[p2], v2, t2)),
            frame,
            VOICES as int,
        ),
{
    let a = notes0.update(p1, spec_note_on(notes0[p1], v1, t1));
    let b = notes0.update(p2, spec_note_on(notes0[p2], v2, t2));
    let c = a.update(p2, spec_note_on(notes0[p2], v2, t2));
    lemma_superposition(a, b, c, frame, p1, p2);
}

} // verus!
