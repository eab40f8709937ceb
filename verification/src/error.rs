use vstd::prelude::*;

verus! {

/// Failure classes of the MIDI-facing operations.
///
/// Every boundary operation reports a distinguishable failure for a channel
/// index out of range, a value out of its MIDI range, a channel with no bound
/// preset, and a preset that does not exist, so that callers can log or
/// recover per condition.
#[derive(Clone, Copy, PartialEq, Eq, Structural, Debug)]
pub enum MidiError {
    /// The channel index is outside the configured channel count.
    ChannelOutOfRange,
    /// A key number is not a 7-bit value (0..=127).
    KeyOutOfRange,
    /// A velocity is not a 7-bit value (0..=127).
    VelocityOutOfRange,
    /// A controller number is not a 7-bit value (0..=127).
    CtrlOutOfRange,
    /// A controller or pressure or bend value is outside its MIDI range.
    ValueOutOfRange,
    /// A program number is not a 7-bit value (0..=127).
    ProgramOutOfRange,
    /// The channel has no bound preset, so it cannot sound a note.
    NoPreset,
    /// The exact (soundfont, bank, program) triple does not exist.
    PresetNotFound,
}

/// Structural failure of the sample-header chunk decoder.
#[derive(Clone, Copy, PartialEq, Eq, Structural, Debug)]
pub enum SampleDecodeError {
    /// The chunk byte length is zero or not a multiple of the record size.
    InvalidChunkSize,
}

} // verus!
