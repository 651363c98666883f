//! Core of a polyphonic sine synthesizer: a per-pitch voice pool whose ADSR
//! envelopes, sample-accurate event scheduling and per-frame bookkeeping are
//! verified. Amplitudes and frequencies are fixed-point integers; turning a
//! voice's state into an audio sample (the oscillator itself) is left to the
//! caller.

pub mod envelope;
pub mod freq;
pub mod voice;
pub mod synth;
