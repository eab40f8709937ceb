//! Control core of a SoundFont (SF2) driven software synthesizer.
//!
//! The crate covers the per-channel MIDI state machine, the preset-resolution
//! cascade, the polyphonic voice-lifecycle policy (allocation, same-note
//! stealing, panic resets) and the decoder for the SF2 sample-header table.
//! The digital signal path itself (oscillators, envelopes, effects) is an
//! external collaborator and is not modelled here.

pub mod error;
pub mod channel;
pub mod font;
pub mod sample;
pub mod synth;
pub mod voice;
