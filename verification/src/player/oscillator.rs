//! Waveform choices for an instrument.
//!
//! The waveforms themselves — sine, triangle, and the additive analog-saw
//! approximation — are real-valued functions of `(hz, sample_rate, clock)`
//! and are computed by the renderer; the core only records which waveform an
//! instrument plays with.

use vstd::prelude::*;

verus! {

/// The additive analog-saw approximation.
#[derive(Debug, Clone, Copy, PartialEq, Eq, Structural)]
pub struct AnalogSaw {}

impl AnalogSaw {
    pub fn new() -> (r: Self)
        ensures
            r == (AnalogSaw {}),
    {
        Self {}
    }
}

/// The arcsine-of-sine triangle wave.
#[derive(Debug, Clone, Copy, PartialEq, Eq, Structural)]
pub struct TriangleWave {}

impl TriangleWave {
    pub fn new() -> (r: Self)
        ensures
            r == (TriangleWave {}),
    {
        Self {}
    }
}

/// The plain sine wave.
#[derive(Debug, Clone, Copy, PartialEq, Eq, Structural)]
pub struct SinWave {}

impl SinWave {
    pub fn new() -> (r: Self)
        ensures
            r == (SinWave {}),
    {
        Self {}
    }
}

/// The waveform an instrument plays with.
#[derive(Debug, Clone, Copy, PartialEq, Eq, Structural)]
pub enum Oscillator {
    AnalogSaw(AnalogSaw),
    Triangle(TriangleWave),
    Sine(SinWave),
}

} // verus!
