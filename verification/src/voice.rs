//! One voice per pitch: oscillator phase counter, velocity, pending-start
//! scheduling and the voice's envelope stage.

use vstd::prelude::*;
use vstd::arithmetic::div_mod::{lemma_div_is_ordered, lemma_div_multiples_vanish};
use vstd::arithmetic::mul::lemma_mul_inequality;
use crate::envelope::{
    EnvelopeStage, ATTACK, DECAY, RELEASE, AMP_SCALE, SUSTAIN_SCALED, stage_wf, spec_amplitude,
    spec_advance, spec_advance_n, lemma_lerp_bounds, lemma_advance_wf,
    lemma_amplitude_bounds, lemma_release_ramp, lemma_release_step,
};

verus! {

/// Per-pitch synthesis state. `time` counts samples since the voice's current
/// sounding episode began; `next_start_frame` holds the block frame offset of a
/// scheduled, not yet activated note-on.
#[derive(Clone, Copy, Debug)]
pub struct Note {
    /// Fundamental frequency in microhertz, fixed at construction.
    pub frequency_micro: u64,
    /// Velocity of the most recent note-on, `0..=127`.
    pub velocity: u8,
    /// Samples elapsed since the current sounding episode began.
    pub time: u64,
    /// Current envelope stage.
    pub envelope_stage: EnvelopeStage,
    /// Frame offset at which a scheduled note-on takes effect, if one is pending.
    pub next_start_frame: Option<u32>,
}

/// Well-formed voice: a well-formed stage and a velocity within the 7-bit range.
pub open spec fn note_wf(n: Note) -> bool {
    stage_wf(n.envelope_stage) && n.velocity < 128
}

/// Idle: silent with nothing scheduled. Idle voices contribute nothing
/// to the output and none of their state advances.
pub open spec fn is_idle(n: Note) -> bool {
    n.envelope_stage is Off && n.next_start_frame is None
}

/// Sounding: contributes to the output and advances each frame.
/// A voice with a pending start is silent until the start takes effect.
pub open spec fn is_sounding(n: Note) -> bool {
    !(n.envelope_stage is Off) && n.next_start_frame is None
}

/// Velocity scaled to an `AMP_SCALE`-fixed-point fraction of full amplitude.
pub open spec fn spec_vf(velocity: u8) -> int {
    (velocity * AMP_SCALE) / 127
}

/// The voice after a note-on: the new velocity is recorded and the start is
/// scheduled, overwriting any earlier pending start; nothing else changes
/// until the start frame arrives.
pub open spec fn spec_note_on(n: Note, velocity: u8, start_frame: u32) -> Note {
    Note { velocity, next_start_frame: Some(start_frame), ..n }
}

/// The voice after a note-off: an immediate release that starts from the
/// amplitude the voice held at the instant of the call.
pub open spec fn spec_released(n: Note) -> Note {
    Note {
        envelope_stage: EnvelopeStage::Release(0, spec_amplitude(n.envelope_stage) as u64),
        ..n
    }
}

/// The voice after the scheduled-start check for block frame `frame`: when the
/// pending start is due, a new attack begins at the amplitude the voice held,
/// aiming for the velocity fraction, and the phase counter resets.
pub open spec fn spec_activate(n: Note, frame: u32) -> Note {
    if n.next_start_frame == Some(frame) {
        Note {
            time: 0,
            envelope_stage: EnvelopeStage::Attack(
                0,
                spec_amplitude(n.envelope_stage) as u64,
                spec_vf(n.velocity) as u64,
            ),
            next_start_frame: None,
            ..n
        }
    } else {
        n
    }
}

/// The voice after its per-sample advancement: the phase counter steps and the
/// envelope takes one autonomous transition.
pub open spec fn spec_tick(n: Note) -> Note {
    Note {
        time: (n.time + 1) as u64,
        envelope_stage: spec_advance(n.envelope_stage, spec_vf(n.velocity) as u64),
        ..n
    }
}

impl Note {
    /// A fresh, silent voice for the given fundamental frequency.
    pub fn new(frequency_micro: u64) -> (n: Note)
        ensures
            n == (Note {
                frequency_micro,
                velocity: 0,
                time: 0,
                envelope_stage: EnvelopeStage::Off,
                next_start_frame: None,
            }),
            note_wf(n),
    {
        Note {
            frequency_micro,
            velocity: 0,
            time: 0,
            envelope_stage: EnvelopeStage::Off,
            next_start_frame: None,
        }
    }

    /// Runtime check that the voice is well formed.
    pub fn well_formed(&self) -> (b: bool)
        ensures
            b == note_wf(*self),
    {
        crate::envelope::stage_well_formed(self.envelope_stage) && self.velocity < 128
    }

    /// Velocity as a fixed-point fraction of full amplitude.
    pub fn fractional_velocity(&self) -> (r: u64)
        requires
            self.velocity < 128,
        ensures
            r == spec_vf(self.velocity),
            r <= AMP_SCALE,
    {
        proof {
            lemma_mul_inequality(self.velocity as int, 127, AMP_SCALE as int);
            assert(self.velocity * AMP_SCALE == AMP_SCALE * self.velocity) by (nonlinear_arith);
            assert(127 * AMP_SCALE == AMP_SCALE * 127) by (nonlinear_arith);
            lemma_div_is_ordered((self.velocity * AMP_SCALE) as int, 127 * AMP_SCALE, 127);
            lemma_div_multiples_vanish(AMP_SCALE as int, 127);
        }
        self.velocity as u64 * AMP_SCALE / 127
    }

    /// Amplitude the voice's envelope outputs for the current sample.
    pub fn amplitude(&self) -> (r: u64)
        requires
            stage_wf(self.envelope_stage),
        ensures
            r == spec_amplitude(self.envelope_stage),
            r <= AMP_SCALE,
    {
        match self.envelope_stage {
            EnvelopeStage::Attack(t, s, e) => {
                proof {
                    lemma_lerp_bounds(s as int, e as int, t as int, ATTACK as int);
                }
                if e >= s {
                    s + (e - s) * t / ATTACK
                } else {
                    s - (s - e) * t / ATTACK
                }
            },
            EnvelopeStage::Decay(t, s, e) => {
                proof {
                    lemma_lerp_bounds(s as int, e as int, t as int, DECAY as int);
                }
                s - (s - e) * t / DECAY
            },
            EnvelopeStage::Sustain(level) => level,
            EnvelopeStage::Release(t, s) => {
                proof {
                    lemma_lerp_bounds(s as int, 0, t as int, RELEASE as int);
                }
                s - s * t / RELEASE
            },
            EnvelopeStage::Off => 0,
        }
    }

    /// Note-off: force an immediate release from the current amplitude.
    pub fn release(&mut self)
        requires
            note_wf(*old(self)),
        ensures
            *final(self) == spec_released(*old(self)),
            note_wf(*final(self)),
    {
        let amp = self.amplitude();
        self.envelope_stage = EnvelopeStage::Release(0, amp);
    }

    /// Begin the scheduled attack when its frame offset has arrived.
    pub fn activate_if_due(&mut self, frame: u32)
        requires
            note_wf(*old(self)),
        ensures
            *final(self) == spec_activate(*old(self), frame),
            note_wf(*final(self)),
    {
        if let Some(start_frame) = self.next_start_frame {
            if start_frame == frame {
                let amp = self.amplitude();
                let target = self.fractional_velocity();
                self.envelope_stage = EnvelopeStage::Attack(0, amp, target);
                self.next_start_frame = None;
                self.time = 0;
            }
        }
    }

    /// Per-sample advancement: step the phase counter and let the envelope
    /// take one autonomous transition.
    pub fn increment_time(&mut self)
        requires
            note_wf(*old(self)),
            old(self).time < u64::MAX,
        ensures
            *final(self) == spec_tick(*old(self)),
            note_wf(*final(self)),
    {
        self.time = self.time + 1;
        let vf = self.fractional_velocity();
        proof {
            lemma_advance_wf(self.envelope_stage, vf);
        }
        match self.envelope_stage {
            EnvelopeStage::Attack(t, s, e) => {
                if t + 1 == ATTACK {
                    self.envelope_stage = EnvelopeStage::Decay(0, vf, vf * SUSTAIN_SCALED / AMP_SCALE);
                } else {
                    self.envelope_stage = EnvelopeStage::Attack(t + 1, s, e);
                }
            },
            EnvelopeStage::Decay(t, s, e) => {
                if t + 1 == DECAY {
                    self.envelope_stage = EnvelopeStage::Sustain(vf * SUSTAIN_SCALED / AMP_SCALE);
                } else {
                    self.envelope_stage = EnvelopeStage::Decay(t + 1, s, e);
                }
            },
            EnvelopeStage::Release(t, s) => {
                if t + 1 == RELEASE {
                    self.envelope_stage = EnvelopeStage::Off;
                } else {
                    self.envelope_stage = EnvelopeStage::Release(t + 1, s);
                }
            },
            EnvelopeStage::Sustain(_) => {},
            EnvelopeStage::Off => {},
        }
    }
}

/// `k` per-sample advancements in a row.
pub open spec fn spec_tick_n(n: Note, k: nat) -> Note
    decreases k,
{
    if k == 0 {
        n
    } else {
        spec_tick(spec_tick_n(n, (k - 1) as nat))
    }
}

/// A note-off fades the voice out on time and never discontinuously: once the
/// release has begun at amplitude `a0`, the voice is still releasing after `k`
/// advancements with amplitude `a0 - (a0 * k) / RELEASE` — positive as long
/// as the voice was audible — and the advancement at step `RELEASE` switches
/// the envelope off, exactly at amplitude zero and never before.
pub proof fn lemma_release_completes(n: Note, k: nat)
    requires
        note_wf(n),
        n.next_start_frame is None,
        k <= RELEASE,
    ensures
        ({
            let a0 = spec_amplitude(n.envelope_stage) as u64;
            let m = spec_tick_n(spec_released(n), k);
            &&& m.next_start_frame is None
            &&& m.velocity == n.velocity
            &&& m.envelope_stage == if k < RELEASE {
                EnvelopeStage::Release(k as u64, a0)
            } else {
                EnvelopeStage::Off
            }
            &&& spec_amplitude(m.envelope_stage) == if k < RELEASE {
                a0 - (a0 * k) / (RELEASE as int)
            } else {
                0
            }
            &&& (a0 > 0 && k < RELEASE ==> spec_amplitude(m.envelope_stage) > 0)
        }),
    decreases k,
{
    lemma_amplitude_bounds(n.envelope_stage);
    let a0 = spec_amplitude(n.envelope_stage) as u64;
    let vf = spec_vf(n.velocity) as u64;
    if k > 0 {
        lemma_release_completes(n, (k - 1) as nat);
    }
    lemma_release_ramp(a0, vf, k);
    assert(spec_tick_n(spec_released(n), k).envelope_stage
        == spec_advance_n(EnvelopeStage::Release(0, a0), vf, k)) by {
        if k > 0 {
            lemma_release_ramp(a0, vf, (k - 1) as nat);
        }
    }
}

/// Between consecutive samples of a release the amplitude never rises and
/// drops by at most `a0 / RELEASE + 1`, one truncated ramp step: the fade to
/// silence is free of discontinuities.
pub proof fn lemma_release_never_jumps(n: Note, k: nat)
    requires
        note_wf(n),
        n.next_start_frame is None,
        k + 1 <= RELEASE,
    ensures
        ({
            let a0 = spec_amplitude(n.envelope_stage);
            let here = spec_amplitude(spec_tick_n(spec_released(n), k).envelope_stage);
            let next = spec_amplitude(spec_tick_n(spec_released(n), k + 1).envelope_stage);
            &&& next <= here
            &&& here - next <= a0 / (RELEASE as int) + 1
        }),
{
    lemma_amplitude_bounds(n.envelope_stage);
    let a0 = spec_amplitude(n.envelope_stage) as u64;
    lemma_release_completes(n, k);
    lemma_release_completes(n, (k + 1) as nat);
    if a0 == 0 {
        assert(a0 * k == 0) by (nonlinear_arith)
            requires a0 == 0;
        assert(a0 * (k + 1) == 0) by (nonlinear_arith)
            requires a0 == 0;
    } else {
        lemma_release_step(a0, k as int);
        assert(a0 * (k + 1) == a0 * k + a0) by (nonlinear_arith);
        assert(a0 * RELEASE == (RELEASE as int) * a0) by (nonlinear_arith);
        lemma_div_multiples_vanish(a0 as int, RELEASE as int);
    }
}

/// Retriggering a sounding voice is click-free: when the scheduled start takes
/// effect, the new attack begins exactly at the amplitude the voice held at
/// that instant, so the amplitude signal is continuous across the retrigger.
pub proof fn lemma_retrigger_continuity(n: Note, frame: u32)
    requires
        note_wf(n),
        n.next_start_frame == Some(frame),
    ensures
        spec_activate(n, frame).envelope_stage == EnvelopeStage::Attack(
            0,
            spec_amplitude(n.envelope_stage) as u64,
            spec_vf(n.velocity) as u64,
        ),
        spec_amplitude(spec_activate(n, frame).envelope_stage) == spec_amplitude(n.envelope_stage),
{
    match n.envelope_stage {
        EnvelopeStage::Attack(t, s, e) => {
            lemma_lerp_bounds(s as int, e as int, t as int, ATTACK as int);
        },
        EnvelopeStage::Decay(t, s, e) => {
            lemma_lerp_bounds(s as int, e as int, t as int, DECAY as int);
        },
        EnvelopeStage::Release(t, s) => {
            lemma_lerp_bounds(s as int, 0, t as int, RELEASE as int);
        },
        _ => {},
    }
}

} // verus!
