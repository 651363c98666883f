//! The ADSR envelope state machine that shapes each voice's amplitude.
//!
//! Amplitudes are fixed-point values: `AMP_SCALE` stands for full scale (1.0).
//! Every stage carries its own phase-local data, and each ramp is a linear
//! interpolation between two endpoints over a fixed number of samples.

use vstd::prelude::*;
use vstd::arithmetic::div_mod::{
    lemma_fundamental_div_mod, lemma_fundamental_div_mod_converse_div, lemma_div_is_ordered,
    lemma_div_pos_is_pos, lemma_div_multiples_vanish, lemma_multiply_divide_lt,
};
use vstd::arithmetic::mul::lemma_mul_inequality;

verus! {

/// Samples an attack ramp lasts.
pub const ATTACK: u64 = 2000;
/// Samples a decay ramp lasts.
pub const DECAY: u64 = 2000;
/// Samples a release ramp lasts.
pub const RELEASE: u64 = 5000;
/// Fixed-point amplitude scale: `AMP_SCALE` stands for an amplitude of 1.0.
pub const AMP_SCALE: u64 = 1_000_000;
/// Sustain level as a fraction of the attack target, in `AMP_SCALE` units (0.6).
pub const SUSTAIN_SCALED: u64 = 600_000;

/// Envelope stage of one voice. Ramps run over `t` in `[0, duration)`;
/// a stage switches to its successor when `t` would reach the duration.
#[derive(Clone, Copy, Debug, PartialEq, Eq, Structural)]
pub enum EnvelopeStage {
    /// `Attack(t, amp_start, amp_end)`: ramp from `amp_start` to `amp_end` over `ATTACK` samples.
    Attack(u64, u64, u64),
    /// `Decay(t, amp_start, amp_end)`: ramp from `amp_start` down to `amp_end` over `DECAY` samples.
    Decay(u64, u64, u64),
    /// `Sustain(level)`: constant output.
    Sustain(u64),
    /// `Release(t, amp_start)`: ramp from `amp_start` to 0 over `RELEASE` samples.
    Release(u64, u64),
    /// Silent; no autonomous progression.
    Off,
}

/// Well-formed stage: ramp timers stay below their duration and
/// amplitudes stay within full scale.
pub open spec fn stage_wf(st: EnvelopeStage) -> bool {
    match st {
        EnvelopeStage::Attack(t, s, e) => t < ATTACK && s <= AMP_SCALE && e <= AMP_SCALE,
        EnvelopeStage::Decay(t, s, e) => t < DECAY && e <= s && s <= AMP_SCALE,
        EnvelopeStage::Sustain(level) => level <= AMP_SCALE,
        EnvelopeStage::Release(t, s) => t < RELEASE && s <= AMP_SCALE,
        EnvelopeStage::Off => true,
    }
}

/// Runtime check that a stage is well formed.
pub fn stage_well_formed(st: EnvelopeStage) -> (b: bool)
    ensures
        b == stage_wf(st),
{
    match st {
        EnvelopeStage::Attack(t, s, e) => t < ATTACK && s <= AMP_SCALE && e <= AMP_SCALE,
        EnvelopeStage::Decay(t, s, e) => t < DECAY && e <= s && s <= AMP_SCALE,
        EnvelopeStage::Sustain(level) => level <= AMP_SCALE,
        EnvelopeStage::Release(t, s) => t < RELEASE && s <= AMP_SCALE,
        EnvelopeStage::Off => true,
    }
}

/// Linear interpolation from `s` to `e`, `t` samples into a ramp of `dur` samples,
/// with the division truncating as the executable fixed-point arithmetic does.
pub open spec fn spec_lerp(s: int, e: int, t: int, dur: int) -> int {
    if e >= s {
        s + ((e - s) * t) / dur
    } else {
        s - ((s - e) * t) / dur
    }
}

/// Amplitude a stage outputs for the current sample.
pub open spec fn spec_amplitude(st: EnvelopeStage) -> int {
    match st {
        EnvelopeStage::Attack(t, s, e) => spec_lerp(s as int, e as int, t as int, ATTACK as int),
        EnvelopeStage::Decay(t, s, e) => spec_lerp(s as int, e as int, t as int, DECAY as int),
        EnvelopeStage::Sustain(level) => level as int,
        EnvelopeStage::Release(t, s) => spec_lerp(s as int, 0, t as int, RELEASE as int),
        EnvelopeStage::Off => 0,
    }
}

/// Sustain plateau for a voice whose velocity fraction is `vf`.
pub open spec fn spec_sustain_level(vf: u64) -> u64 {
    ((vf * SUSTAIN_SCALED) as int / AMP_SCALE as int) as u64
}

/// One autonomous transition step, taken after the sample's amplitude was read.
/// `vf` is the voice's velocity fraction in `AMP_SCALE` units.
pub open spec fn spec_advance(st: EnvelopeStage, vf: u64) -> EnvelopeStage {
    match st {
        EnvelopeStage::Attack(t, s, e) => if t + 1 == ATTACK {
            EnvelopeStage::Decay(0, vf, spec_sustain_level(vf))
        } else {
            EnvelopeStage::Attack((t + 1) as u64, s, e)
        },
        EnvelopeStage::Decay(t, s, e) => if t + 1 == DECAY {
            EnvelopeStage::Sustain(spec_sustain_level(vf))
        } else {
            EnvelopeStage::Decay((t + 1) as u64, s, e)
        },
        EnvelopeStage::Sustain(level) => EnvelopeStage::Sustain(level),
        EnvelopeStage::Release(t, s) => if t + 1 == RELEASE {
            EnvelopeStage::Off
        } else {
            EnvelopeStage::Release((t + 1) as u64, s)
        },
        EnvelopeStage::Off => EnvelopeStage::Off,
    }
}

/// `n` autonomous transition steps in a row.
pub open spec fn spec_advance_n(st: EnvelopeStage, vf: u64, n: nat) -> EnvelopeStage
    decreases n,
{
    if n == 0 {
        st
    } else {
        spec_advance(spec_advance_n(st, vf, (n - 1) as nat), vf)
    }
}

/// The interpolation stays between its endpoints, hence within full scale.
pub proof fn lemma_lerp_bounds(s: int, e: int, t: int, dur: int)
    requires
        0 <= s <= AMP_SCALE,
        0 <= e <= AMP_SCALE,
        0 <= t <= dur,
        0 < dur,
    ensures
        0 <= spec_lerp(s, e, t, dur) <= AMP_SCALE,
        e >= s ==> s <= spec_lerp(s, e, t, dur) <= e,
        e < s ==> e <= spec_lerp(s, e, t, dur) <= s,
        e >= s ==> 0 <= (e - s) * t <= AMP_SCALE * dur,
        e < s ==> 0 <= (s - e) * t <= AMP_SCALE * dur,
{
    let d = if e >= s { e - s } else { s - e };
    lemma_mul_inequality(t, dur, d);
    lemma_div_is_ordered(d * t, d * dur, dur);
    lemma_div_multiples_vanish(d, dur);
    lemma_div_pos_is_pos(d * t, dur);
    assert(d * t >= 0) by (nonlinear_arith)
        requires d >= 0, t >= 0;
    lemma_mul_inequality(d, AMP_SCALE as int, dur);
    assert(d * t == t * d) by (nonlinear_arith);
    assert(d * dur == dur * d) by (nonlinear_arith);
    assert(AMP_SCALE * dur == dur * AMP_SCALE) by (nonlinear_arith);
}

/// Sustain levels never exceed the velocity fraction they scale.
pub proof fn lemma_sustain_level_bound(vf: u64)
    requires
        vf <= AMP_SCALE,
    ensures
        spec_sustain_level(vf) <= vf,
{
    lemma_mul_inequality(SUSTAIN_SCALED as int, AMP_SCALE as int, vf as int);
    assert(vf * SUSTAIN_SCALED == SUSTAIN_SCALED * vf) by (nonlinear_arith);
    assert(vf * AMP_SCALE == AMP_SCALE * vf) by (nonlinear_arith);
    lemma_div_is_ordered((vf * SUSTAIN_SCALED) as int, (vf * AMP_SCALE) as int, AMP_SCALE as int);
    lemma_div_multiples_vanish(vf as int, AMP_SCALE as int);
}

/// A transition step keeps a stage well formed.
pub proof fn lemma_advance_wf(st: EnvelopeStage, vf: u64)
    requires
        stage_wf(st),
        vf <= AMP_SCALE,
    ensures
        stage_wf(spec_advance(st, vf)),
{
    lemma_sustain_level_bound(vf);
}

/// Consecutive samples of a linear ramp differ by at most one truncated ramp
/// step, `|e - s| / dur + 1`, and the ramp moves monotonically towards `e`.
pub proof fn lemma_lerp_step(s: int, e: int, t: int, dur: int)
    requires
        0 <= s,
        0 <= e,
        0 <= t,
        t + 1 <= dur,
        0 < dur,
    ensures
        e >= s ==> spec_lerp(s, e, t, dur) <= spec_lerp(s, e, t + 1, dur)
            <= spec_lerp(s, e, t, dur) + (e - s) / dur + 1,
        e < s ==> spec_lerp(s, e, t, dur) - ((s - e) / dur + 1) <= spec_lerp(s, e, t + 1, dur)
            <= spec_lerp(s, e, t, dur),
{
    let d = if e >= s { e - s } else { s - e };
    let a = d * t;
    assert(d * (t + 1) == d * t + d) by (nonlinear_arith);
    assert(d * t >= 0) by (nonlinear_arith)
        requires d >= 0, t >= 0;
    lemma_div_is_ordered(a, a + d, dur);
    lemma_fundamental_div_mod(a, dur);
    lemma_fundamental_div_mod(d, dur);
    let q1 = a / dur;
    let r1 = a % dur;
    let q2 = d / dur;
    let r2 = d % dur;
    if r1 + r2 < dur {
        assert(a + d == (q1 + q2) * dur + (r1 + r2)) by (nonlinear_arith)
            requires a == dur * q1 + r1, d == dur * q2 + r2;
        lemma_fundamental_div_mod_converse_div(a + d, dur, q1 + q2, r1 + r2);
    } else {
        assert(a + d == (q1 + q2 + 1) * dur + (r1 + r2 - dur)) by (nonlinear_arith)
            requires a == dur * q1 + r1, d == dur * q2 + r2;
        lemma_fundamental_div_mod_converse_div(a + d, dur, q1 + q2 + 1, r1 + r2 - dur);
    }
}

/// The amplitude of a well-formed stage never exceeds full scale.
pub proof fn lemma_amplitude_bounds(st: EnvelopeStage)
    requires
        stage_wf(st),
    ensures
        0 <= spec_amplitude(st) <= AMP_SCALE,
{
    match st {
        EnvelopeStage::Attack(t, s, e) => {
            lemma_lerp_bounds(s as int, e as int, t as int, ATTACK as int);
        },
        EnvelopeStage::Decay(t, s, e) => {
            lemma_lerp_bounds(s as int, e as int, t as int, DECAY as int);
        },
        EnvelopeStage::Release(t, s) => {
            lemma_lerp_bounds(s as int, 0, t as int, RELEASE as int);
        },
        _ => {},
    }
}

/// A released envelope ramps linearly to silence and reaches `Off` after
/// exactly `RELEASE` transition steps, never before: after `k` steps the stage
/// is still `Release` with amplitude `a0 - (a0 * k) / RELEASE`, which stays
/// positive while the note was audible, and at step `RELEASE` the stage is
/// `Off` with amplitude 0.
pub proof fn lemma_release_ramp(a0: u64, vf: u64, k: nat)
    requires
        a0 <= AMP_SCALE,
        k <= RELEASE,
    ensures
        k < RELEASE ==> spec_advance_n(EnvelopeStage::Release(0, a0), vf, k)
            == EnvelopeStage::Release(k as u64, a0),
        k == RELEASE ==> spec_advance_n(EnvelopeStage::Release(0, a0), vf, k)
            == EnvelopeStage::Off,
        spec_amplitude(spec_advance_n(EnvelopeStage::Release(0, a0), vf, k))
            == if k < RELEASE { a0 - (a0 * k) / (RELEASE as int) } else { 0 },
        a0 > 0 && k < RELEASE ==> spec_amplitude(
            spec_advance_n(EnvelopeStage::Release(0, a0), vf, k),
        ) > 0,
    decreases k,
{
    if k > 0 {
        lemma_release_ramp(a0, vf, (k - 1) as nat);
    }
    if k < RELEASE {
        if a0 > 0 {
            assert(a0 * k < (RELEASE as int) * a0) by (nonlinear_arith)
                requires 0 < a0, 0 <= k < RELEASE;
            lemma_multiply_divide_lt(a0 * k, RELEASE as int, a0 as int);
        }
        assert(a0 * k >= 0) by (nonlinear_arith)
            requires a0 >= 0, k >= 0;
        assert(a0 == 0 ==> a0 * k == 0) by (nonlinear_arith);
        lemma_div_pos_is_pos((a0 * k) as int, RELEASE as int);
    } else {
        assert(a0 * RELEASE == (RELEASE as int) * a0) by (nonlinear_arith);
        lemma_div_multiples_vanish(a0 as int, RELEASE as int);
    }
}

/// During an attack, consecutive samples move towards the target by at most
/// one truncated ramp step, `|amp_end - amp_start| / ATTACK + 1`: a retrigger
/// glides to its new target without a discontinuity.
pub proof fn lemma_attack_step(s: u64, e: u64, t: int)
    requires
        s <= AMP_SCALE,
        e <= AMP_SCALE,
        0 <= t,
        t + 1 <= ATTACK,
    ensures
        e >= s ==> spec_lerp(s as int, e as int, t, ATTACK as int)
            <= spec_lerp(s as int, e as int, t + 1, ATTACK as int)
            <= spec_lerp(s as int, e as int, t, ATTACK as int) + (e - s) / (ATTACK as int) + 1,
        e < s ==> spec_lerp(s as int, e as int, t, ATTACK as int) - ((s - e) / (ATTACK as int) + 1)
            <= spec_lerp(s as int, e as int, t + 1, ATTACK as int)
            <= spec_lerp(s as int, e as int, t, ATTACK as int),
{
    lemma_lerp_step(s as int, e as int, t, ATTACK as int);
}

/// During a release, consecutive samples drop by at most
/// `a0 / RELEASE + 1`: the signal fades without a discontinuity.
pub proof fn lemma_release_step(a0: u64, t: int)
    requires
        a0 <= AMP_SCALE,
        0 <= t,
        t + 1 <= RELEASE,
    ensures
        spec_lerp(a0 as int, 0, t + 1, RELEASE as int) <= spec_lerp(a0 as int, 0, t, RELEASE as int),
        spec_lerp(a0 as int, 0, t, RELEASE as int) - spec_lerp(a0 as int, 0, t + 1, RELEASE as int)
            <= a0 / RELEASE + 1,
{
    if a0 == 0 {
        assert(0 * t == 0) by (nonlinear_arith);
        assert(0 * (t + 1) == 0) by (nonlinear_arith);
    } else {
        lemma_lerp_step(a0 as int, 0, t, RELEASE as int);
    }
}

} // verus!
