//! Waveform navigation and downsampling engine for raw 32-bit PCM audio.
//!
//! The library works over exact fixed-point amplitudes: a sample value `n`
//! stands for the normalized amplitude `n / 2^31`, so every computation on
//! amplitudes is integer arithmetic with a fixed denominator and has an exact
//! mathematical specification.  Vertical display bounds are reported as
//! rationals `(numerator, denominator)`; turning them into display units is
//! left to the renderer.

pub mod effects;
pub mod math;
pub mod raw;
pub mod tracks;
pub mod view;
pub mod waveform;
