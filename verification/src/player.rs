//! The synthesis core: score data model, per-voice sample clocks, the
//! polyphonic instrument state machine and the per-frame mixer.

pub mod instrument;
pub mod mixer;
pub mod oscillator;
pub mod song;
pub mod sound;
pub mod tempo;
