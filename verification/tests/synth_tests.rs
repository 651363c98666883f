use polysynth::envelope::{EnvelopeStage, RELEASE};
use polysynth::freq::frequency_micro;
use polysynth::synth::{Contribution, MidiEvent, Synthesizer};

fn note_on_event(pitch: u8, velocity: u8, frame_offset: u32) -> MidiEvent {
    MidiEvent { status: 0b1001_0000, data1: pitch, data2: velocity, frame_offset }
}

fn note_off_event(pitch: u8) -> MidiEvent {
    MidiEvent { status: 0b1000_0000, data1: pitch, data2: 0, frame_offset: 0 }
}

#[test]
fn frequency_table_anchors() {
    assert_eq!(frequency_micro(9), 13_750_000);
    assert_eq!(frequency_micro(21), 27_500_000);
    assert_eq!(frequency_micro(69), 440_000_000);
    for pitch in 0..128u8 {
        let got = frequency_micro(pitch) as f64 / 1e6;
        let exact = 13.75 * 2f64.powf((pitch as f64 - 9.0) / 12.0);
        assert!((got - exact).abs() / exact < 1e-6, "pitch {}: {} vs {}", pitch, got, exact);
    }
}

#[test]
fn idle_voices_stay_silent_and_inert() {
    let mut synth = Synthesizer::new(48000);
    assert!(synth.renderable());
    for f in 0..10u32 {
        let out = synth.render_frame(f);
        assert!(out.is_empty());
    }
    for pitch in 0..128usize {
        assert_eq!(synth.notes[pitch].time, 0);
        assert_eq!(synth.notes[pitch].envelope_stage, EnvelopeStage::Off);
        assert_eq!(synth.notes[pitch].next_start_frame, None);
    }
}

#[test]
fn adsr_scenario_full_velocity() {
    // sample_rate 48000, attack 2000, decay 2000, sustain 0.6, release 5000
    let mut synth = Synthesizer::new(48000);
    synth.handle_midi(note_on_event(69, 127, 0));
    assert_eq!(synth.notes[69].next_start_frame, Some(0));

    let mut amps: Vec<u64> = Vec::new();
    for s in 0..4001u32 {
        let out = synth.render_frame(s % 512);
        assert_eq!(out.len(), 1, "sample {}", s);
        assert_eq!(out[0].pitch, 69);
        assert_eq!(out[0].frequency_micro, 440_000_000);
        assert_eq!(out[0].time, s as u64);
        amps.push(out[0].amplitude);
    }
    // The ramp starts at zero and rises linearly towards full velocity.
    assert_eq!(amps[0], 0);
    assert_eq!(amps[1], 500);
    assert_eq!(amps[1999], 999_500);
    assert_eq!(amps[2000], 1_000_000);
    // The decay approaches the sustain level, reached at sample 4000.
    assert_eq!(amps[3999], 600_200);
    assert_eq!(amps[4000], 600_000);
    assert_eq!(synth.notes[69].envelope_stage, EnvelopeStage::Sustain(600_000));

    // Note-off: a linear fade from 0.6 to 0 over the next 5000 samples,
    // reaching exactly 0 and stage `Off` at sample 5000 after the note-off.
    synth.handle_midi(note_off_event(69));
    assert_eq!(synth.notes[69].envelope_stage, EnvelopeStage::Release(0, 600_000));
    let mut fade: Vec<u64> = Vec::new();
    for s in 0..5000u32 {
        let out = synth.render_frame(s % 512);
        assert_eq!(out.len(), 1, "fade sample {}", s);
        fade.push(out[0].amplitude);
    }
    for (k, &amp) in fade.iter().enumerate() {
        assert_eq!(amp, 600_000 - 120 * k as u64);
    }
    // Exactly at `RELEASE` samples past the note-off the voice is off and silent.
    assert_eq!(fade.len() as u64, RELEASE);
    let out = synth.render_frame(0);
    assert!(out.is_empty());
    assert_eq!(synth.notes[69].envelope_stage, EnvelopeStage::Off);
}

#[test]
fn release_fades_without_discontinuity() {
    let mut synth = Synthesizer::new(44100);
    synth.note_on(40, 64, 0);
    for _ in 0..4200 {
        synth.render_frame(0);
    }
    synth.note_off(40);
    let a0 = synth.notes[40].amplitude();
    assert!(a0 > 0);
    let max_step = a0 / RELEASE + 1;
    let mut previous = a0;
    for s in 0..RELEASE {
        let out = synth.render_frame(0);
        assert_eq!(out.len(), 1, "sample {}", s);
        let amp = out[0].amplitude;
        // Never discontinuous, never rising, and silent only once it is off.
        assert!(amp <= previous);
        assert!(previous - amp <= max_step);
        assert!(amp > 0, "went silent early at sample {}", s);
        previous = amp;
    }
    assert_eq!(synth.notes[40].envelope_stage, EnvelopeStage::Off);
    assert!(synth.render_frame(0).is_empty());
}

#[test]
fn retrigger_in_release_is_click_free() {
    let mut synth = Synthesizer::new(48000);
    synth.note_on(60, 127, 0);
    for _ in 0..4500 {
        synth.render_frame(0);
    }
    synth.note_off(60);
    for _ in 0..1000 {
        synth.render_frame(1);
    }
    let amp_before = synth.notes[60].amplitude();
    assert_eq!(amp_before, 600_000 - 120 * 1000);

    // Retrigger softly, scheduled a few frames into the block: the voice is
    // silent while the start is pending and its amplitude is frozen.
    synth.note_on(60, 30, 7);
    for f in 0..7u32 {
        assert!(synth.render_frame(f).is_empty());
    }
    assert_eq!(synth.notes[60].amplitude(), amp_before);

    // The new attack starts exactly at the amplitude held at the retrigger.
    let out = synth.render_frame(7);
    assert_eq!(out.len(), 1);
    assert_eq!(out[0].amplitude, amp_before);
    assert_eq!(out[0].time, 0);
    match synth.notes[60].envelope_stage {
        EnvelopeStage::Attack(t, amp_start, amp_end) => {
            assert_eq!(t, 1);
            assert_eq!(amp_start, amp_before);
            assert_eq!(amp_end, 236_220);
        },
        other => panic!("expected an attack, found {:?}", other),
    }
    // The next sample moves one truncated ramp step towards the new target.
    let out = synth.render_frame(8);
    assert_eq!(out[0].amplitude, amp_before - 121);
}

#[test]
fn simultaneous_notes_superpose() {
    let mut single_low = Synthesizer::new(48000);
    single_low.note_on(60, 100, 0);
    let mut single_high = Synthesizer::new(48000);
    single_high.note_on(64, 90, 3);
    let mut combined = Synthesizer::new(48000);
    combined.note_on(60, 100, 0);
    combined.note_on(64, 90, 3);

    for f in 0..200u32 {
        let low = single_low.render_frame(f);
        let high = single_high.render_frame(f);
        let both = combined.render_frame(f);
        let mut merged: Vec<Contribution> = low.clone();
        merged.extend(high.iter().cloned());
        assert_eq!(both, merged, "frame {}", f);
    }
}

#[test]
fn unknown_status_nibble_is_ignored() {
    let mut synth = Synthesizer::new(48000);
    synth.note_on(50, 80, 2);
    let stage = synth.notes[50].envelope_stage;
    let velocity = synth.notes[50].velocity;
    let pending = synth.notes[50].next_start_frame;
    synth.handle_midi(MidiEvent {
        status: 0b1010_0000,
        data1: 50,
        data2: 99,
        frame_offset: 1,
    });
    assert_eq!(synth.notes[50].envelope_stage, stage);
    assert_eq!(synth.notes[50].velocity, velocity);
    assert_eq!(synth.notes[50].next_start_frame, pending);
    for pitch in 0..128usize {
        assert_eq!(synth.notes[pitch].time, 0);
    }
}

#[test]
fn out_of_range_data_bytes_are_rejected() {
    let mut synth = Synthesizer::new(48000);
    // Note-on with an out-of-range pitch or velocity is dropped whole.
    synth.handle_midi(MidiEvent { status: 0x90, data1: 130, data2: 60, frame_offset: 0 });
    synth.handle_midi(MidiEvent { status: 0x90, data1: 60, data2: 200, frame_offset: 0 });
    // Note-off with an out-of-range pitch is dropped too.
    synth.handle_midi(MidiEvent { status: 0x80, data1: 200, data2: 0, frame_offset: 0 });
    for pitch in 0..128usize {
        assert_eq!(synth.notes[pitch].envelope_stage, EnvelopeStage::Off);
        assert_eq!(synth.notes[pitch].next_start_frame, None);
        assert_eq!(synth.notes[pitch].velocity, 0);
    }
}

#[test]
fn note_off_velocity_byte_is_ignored() {
    let mut synth = Synthesizer::new(48000);
    synth.note_on(72, 127, 0);
    synth.render_frame(0);
    synth.handle_midi(MidiEvent { status: 0x80, data1: 72, data2: 255, frame_offset: 0 });
    match synth.notes[72].envelope_stage {
        EnvelopeStage::Release(0, _) => {},
        other => panic!("expected a release, found {:?}", other),
    }
}

#[test]
fn later_note_on_overwrites_pending_start() {
    let mut synth = Synthesizer::new(48000);
    synth.note_on(33, 90, 5);
    synth.note_on(33, 40, 11);
    assert_eq!(synth.notes[33].next_start_frame, Some(11));
    assert_eq!(synth.notes[33].velocity, 40);
}

#[test]
fn extreme_pitches_have_their_own_voices() {
    assert_eq!(frequency_micro(0), 8_175_798);
    assert_eq!(frequency_micro(127), 12_543_853_951);
    let mut synth = Synthesizer::new(48000);
    synth.note_on(0, 127, 0);
    synth.note_on(127, 127, 0);
    let out = synth.render_frame(0);
    assert_eq!(out.len(), 2);
    assert_eq!(out[0].pitch, 0);
    assert_eq!(out[0].frequency_micro, 8_175_798);
    assert_eq!(out[1].pitch, 127);
    assert_eq!(out[1].frequency_micro, 12_543_853_951);
}

#[test]
fn note_off_on_silent_voice_stays_silent() {
    let mut synth = Synthesizer::new(48000);
    synth.note_off(77);
    assert_eq!(synth.notes[77].envelope_stage, EnvelopeStage::Release(0, 0));
    // It still contributes, at amplitude zero, until the release runs out.
    let out = synth.render_frame(0);
    assert_eq!(out.len(), 1);
    assert_eq!(out[0].amplitude, 0);
}
