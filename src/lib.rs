//! Building blocks of a frequency-shift-keyed waveform: bit expansion of
//! fixed-width integers, run-length repetition of symbols, and the
//! flow-controlled phase-accumulating kernel of a frequency-modulated oscillator.

pub mod intobits;
pub mod vco;
